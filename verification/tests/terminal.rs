use remotix::models::{Profile, Protocol, RdpOptions, SshOptions, VncOptions};
use remotix::terminal::{
    char_utf8, closed_message, key_action, paste_bytes, pty_resize, session_read_step, session_title,
    ChannelRead, ReadStep,
    strip_ansi_bytes, strip_ansi_escapes, Hotkey, KeyAction,
};

fn sends(a: KeyAction) -> Vec<u8> {
    match a {
        KeyAction::Send(b) => b,
        other => panic!("expected bytes, got {other:?}"),
    }
}

#[test]
fn strip_csi_and_control() {
    assert_eq!(strip_ansi_escapes(b"\x1b[1;31mred\x1b[0m\r\n"), "red\n");
    assert_eq!(strip_ansi_escapes(b"ab\x08c\x07"), "ac");
    assert_eq!(strip_ansi_escapes(b"\x08x"), "x");
    assert_eq!(strip_ansi_escapes(b"a\tb\x01c"), "a\tbc");
}

#[test]
fn strip_osc_and_two_byte() {
    assert_eq!(strip_ansi_escapes(b"\x1b]0;title\x07prompt$ "), "prompt$ ");
    assert_eq!(strip_ansi_escapes(b"\x1b]2;t\x1b\\ok"), "ok");
    assert_eq!(strip_ansi_escapes(b"\x1b]2;t\x1bxok"), "");
    assert_eq!(strip_ansi_escapes(b"\x1b=x"), "x");
    assert_eq!(strip_ansi_escapes(b"x\x1b"), "x");
    assert_eq!(strip_ansi_escapes(b"\x1b[12"), "");
}

#[test]
fn strip_keeps_utf8() {
    assert_eq!(strip_ansi_escapes("\x1b[32mпривет\x1b[0m".as_bytes()), "привет");
    assert_eq!(strip_ansi_bytes(&[0x80, 0x41]), vec![0x80, 0x41]);
    assert_eq!(strip_ansi_escapes(&[0xff]), "\u{fffd}");
}

#[test]
fn stripping_twice_is_stripping_once() {
    let inputs: [&[u8]; 5] = [
        b"\x1b[1;31mred\x1b[0m\r\n",
        b"\x1b]0;t\x07$ ",
        &[0xff, 0x1b, b'[', b'm', 0x41],
        "\x1b[32m\u{44f}\x1b[0m".as_bytes(),
        b"a\x1b",
    ];
    for data in inputs {
        let once = strip_ansi_escapes(data);
        assert_eq!(strip_ansi_escapes(once.as_bytes()), once);
        assert!(once.chars().all(|c| c == '\n' || c == '\t' || c as u32 >= 0x20));
        assert!(once.chars().count() <= data.len());
    }
}

#[test]
fn hotkeys() {
    assert!(matches!(key_action(Some("c"), true, true, Some('C')), KeyAction::Hotkey(Hotkey::Copy)));
    assert!(matches!(key_action(Some("v"), true, true, None), KeyAction::Hotkey(Hotkey::Paste)));
    assert!(matches!(key_action(Some("C"), true, true, Some('C')), KeyAction::Hotkey(Hotkey::Copy)));
    assert!(matches!(key_action(Some("V"), true, true, Some('V')), KeyAction::Hotkey(Hotkey::Paste)));
    assert_eq!(sends(key_action(Some("C"), true, false, Some('C'))), vec![3]);
    assert!(matches!(key_action(Some("plus"), true, false, None), KeyAction::Hotkey(Hotkey::ZoomIn)));
    assert!(matches!(key_action(Some("equal"), true, false, None), KeyAction::Hotkey(Hotkey::ZoomIn)));
    assert!(matches!(key_action(Some("minus"), true, false, None), KeyAction::Hotkey(Hotkey::ZoomOut)));
}

#[test]
fn special_keys() {
    assert_eq!(sends(key_action(Some("Return"), false, false, None)), b"\r");
    assert_eq!(sends(key_action(Some("KP_Enter"), false, false, None)), b"\r");
    assert_eq!(sends(key_action(Some("BackSpace"), false, false, None)), b"\x7f");
    assert_eq!(sends(key_action(Some("ISO_Left_Tab"), false, true, None)), b"\t");
    assert_eq!(sends(key_action(Some("Escape"), false, false, None)), b"\x1b");
    assert_eq!(sends(key_action(Some("Up"), false, false, None)), b"\x1b[A");
    assert_eq!(sends(key_action(Some("Down"), false, false, None)), b"\x1b[B");
    assert_eq!(sends(key_action(Some("Right"), false, false, None)), b"\x1b[C");
    assert_eq!(sends(key_action(Some("Left"), false, false, None)), b"\x1b[D");
    assert_eq!(sends(key_action(Some("Home"), false, false, None)), b"\x1b[H");
    assert_eq!(sends(key_action(Some("End"), false, false, None)), b"\x1b[F");
    assert_eq!(sends(key_action(Some("Delete"), true, false, None)), b"\x1b[3~");
}

#[test]
fn text_and_control_keys() {
    assert_eq!(sends(key_action(Some("c"), true, false, Some('c'))), vec![3]);
    assert_eq!(sends(key_action(Some("Z"), true, false, Some('Z'))), vec![26]);
    assert!(matches!(key_action(Some("1"), true, false, Some('1')), KeyAction::Ignore));
    assert_eq!(sends(key_action(Some("a"), false, false, Some('a'))), b"a");
    assert_eq!(sends(key_action(Some("Cyrillic_ya"), false, false, Some('я'))), "я".as_bytes());
    assert!(matches!(key_action(Some("Shift_L"), false, true, None), KeyAction::Ignore));
    assert!(matches!(key_action(None, false, false, None), KeyAction::Ignore));
}

#[test]
fn utf8_of_chars() {
    for c in ['a', 'ß', 'я', '€', '😀', '\u{7f}', '\u{80}', '\u{7ff}', '\u{800}', '\u{ffff}', '\u{10000}'] {
        assert_eq!(char_utf8(c), c.to_string().into_bytes());
    }
}

#[test]
fn pasting() {
    assert_eq!(paste_bytes("ls\n-la\n"), b"ls\r-la\r".to_vec());
    assert_eq!(paste_bytes("ё"), "ё".as_bytes().to_vec());
}

#[test]
fn pty_resizing() {
    assert_eq!(pty_resize(800, 600, 8, 16, (0, 0)), Some((100, 37)));
    assert_eq!(pty_resize(800, 600, 8, 16, (100, 37)), None);
    assert_eq!(pty_resize(8, 600, 8, 16, (0, 0)), None);
    assert_eq!(pty_resize(800, 600, 0, -5, (0, 0)), Some((800, 600)));
    assert_eq!(pty_resize(-1, 0, 1, 1, (0, 0)), None);
}

#[test]
fn status_and_titles() {
    assert_eq!(closed_message(None), "● Сессия закрыта");
    assert_eq!(closed_message(Some("EOF".to_string())), "● Сессия закрыта: EOF");
    let mut p = Profile {
        id: 0,
        name: "h".to_string(),
        protocol: Protocol::Ssh,
        host: "h.example".to_string(),
        port: 22,
        username: Some("root".to_string()),
        password: None,
        ssh_key_path: None,
        ssh_key_passphrase: None,
        root_password: None,
        group_id: None,
        tags: vec![],
        icon: None,
        notes: None,
        rdp_options: RdpOptions::default(),
        vnc_options: VncOptions::default(),
        ssh_options: SshOptions::default(),
        created_at: 0,
        updated_at: 0,
        last_connected_at: None,
    };
    assert_eq!(session_title(&p), "ssh root@h.example");
    p.username = None;
    assert_eq!(session_title(&p), "ssh ?@h.example");
}

#[test]
fn session_read_steps() {
    assert!(matches!(session_read_step(ChannelRead::Eof), ReadStep::Close(None)));
    match session_read_step(ChannelRead::Data(vec![1, 2])) {
        ReadStep::Forward(b) => assert_eq!(b, vec![1, 2]),
        other => panic!("unexpected {other:?}"),
    }
    assert!(matches!(session_read_step(ChannelRead::WouldBlock), ReadStep::Wait));
    match session_read_step(ChannelRead::Failed("reset".to_string())) {
        ReadStep::Close(Some(e)) => assert_eq!(e, "reset"),
        other => panic!("unexpected {other:?}"),
    }
}
