use remotix::models::{Profile, Protocol, RdpOptions, SshOptions, VncOptions};
use remotix::protocols::rdp::{
    credssp_request_head, key_input, mouse_input, rdp_login, response_body, wheel_input,
    frames_to_write, ClipboardConfig, MouseButton, PrefixedStream, StageOutput,
};
use remotix::protocols::ssh::{
    contains_text, is_password_prompt, local_user, PromptWatcher, ssh_auth, ssh_username, su_password, wants_su,
    SshAuth,
};
use remotix::protocols::vnc::VncConnection;
use remotix::protocols::{copy_profile, socket_address};

fn profile() -> Profile {
    Profile {
        id: 7,
        name: "host".to_string(),
        protocol: Protocol::Rdp,
        host: "rdp.example".to_string(),
        port: 3389,
        username: Some("user".to_string()),
        password: Some("pw".to_string()),
        ssh_key_path: None,
        ssh_key_passphrase: None,
        root_password: None,
        group_id: None,
        tags: vec!["t".to_string()],
        icon: None,
        notes: None,
        rdp_options: RdpOptions::default(),
        vnc_options: VncOptions::default(),
        ssh_options: SshOptions::default(),
        created_at: 1,
        updated_at: 2,
        last_connected_at: None,
    }
}

#[test]
fn clipboard_defaults_both_ways() {
    let mut p = profile();
    p.rdp_options.clipboard_to_remote = false;
    p.rdp_options.clipboard_from_remote = false;
    let c = ClipboardConfig::from_profile(&p);
    assert!(c.enabled && c.to_remote && c.from_remote);
}

#[test]
fn clipboard_single_direction_and_off() {
    let mut p = profile();
    p.rdp_options.clipboard_to_remote = true;
    p.rdp_options.clipboard_from_remote = false;
    let c = ClipboardConfig::from_profile(&p);
    assert!(c.enabled && c.to_remote && !c.from_remote);
    p.rdp_options.clipboard = false;
    let c = ClipboardConfig::from_profile(&p);
    assert!(!c.enabled && !c.to_remote && !c.from_remote);
}

#[test]
fn rdp_login_parameters() {
    let mut p = profile();
    p.rdp_options.width = 0;
    p.rdp_options.height = 70000;
    let l = rdp_login(&p).unwrap();
    assert_eq!(l.username, "user");
    assert_eq!(l.password, "pw");
    assert!(l.domain.is_none());
    assert_eq!(l.width, 1);
    assert_eq!(l.height, 70000u32 as u16);
    p.rdp_options.domain = "CORP".to_string();
    p.password = None;
    let l = rdp_login(&p).unwrap();
    assert_eq!(l.domain.as_deref(), Some("CORP"));
    assert_eq!(l.password, "");
    p.username = None;
    assert_eq!(rdp_login(&p).unwrap_err(), "не указан логин");
}

#[test]
fn keyboard_events() {
    let k = key_input(0x44f, true);
    assert!(!k.release);
    assert_eq!(k.code, 0x44f);
    let k = key_input(0x1F600, false);
    assert!(k.release);
    assert_eq!(k.code, 0);
}

#[test]
fn mouse_events() {
    let e = mouse_input(10, 20, 2, false);
    assert!(e.moved && e.down);
    assert_eq!(e.button, Some(MouseButton::Right));
    assert_eq!((e.x, e.y), (10, 20));
    let e = mouse_input(100_000, 5, 1, true);
    assert!(e.moved && !e.down);
    assert_eq!(e.button, None);
    assert_eq!(e.x, 0xFFFF);
    let e = mouse_input(1, 1, 9, false);
    assert!(e.down && e.button.is_none());
    assert_eq!(mouse_input(1, 1, 3, false).button, Some(MouseButton::Middle));
    assert_eq!(mouse_input(1, 1, 1, false).button, Some(MouseButton::Left));
}

#[test]
fn wheel_events() {
    let e = wheel_input(1, 2, 120);
    assert!(e.vertical_wheel && !e.wheel_negative);
    assert_eq!(e.wheel_units, 120);
    let e = wheel_input(1, 2, -3);
    assert!(e.wheel_negative);
    assert_eq!(e.wheel_units, 3);
    assert_eq!(wheel_input(0, 0, i32::MIN).wheel_units, i16::MAX);
    assert_eq!(wheel_input(0, 0, 100_000).wheel_units, i16::MAX);
}

#[test]
fn prefixed_stream_gives_prefix_first() {
    let mut s = PrefixedStream::new(vec![1, 2, 3, 4, 5], 99u32);
    let mut buf = [0u8; 3];
    assert_eq!(s.read_prefix(&mut buf), Some(3));
    assert_eq!(buf, [1, 2, 3]);
    let mut buf = [9u8; 4];
    assert_eq!(s.read_prefix(&mut buf), Some(2));
    assert_eq!(buf, [4, 5, 9, 9]);
    assert_eq!(s.read_prefix(&mut buf), None);
    assert_eq!(*s.inner_mut(), 99);
}

#[test]
fn credssp_http_exchange() {
    assert_eq!(
        credssp_request_head("srv", 42),
        "POST / HTTP/1.1\r\nHost: srv\r\nContent-Type: application/octet-stream\r\nContent-Length: 42\r\nConnection: close\r\n\r\n"
    );
    assert_eq!(response_body(b"HTTP/1.1 200 OK\r\nA: b\r\n\r\nTOKEN"), b"TOKEN".to_vec());
    assert_eq!(response_body(b"HTTP/1.1 200 OK\r\n\r\n"), Vec::<u8>::new());
    assert_eq!(response_body(b"no blank line"), Vec::<u8>::new());
    assert_eq!(response_body(b"\r\n\r\nX\r\n\r\nY"), b"X\r\n\r\nY".to_vec());
}

#[test]
fn addresses() {
    assert_eq!(socket_address("example.org", 22), "example.org:22");
    assert_eq!(socket_address("::1", 0), "::1:0");
}

#[test]
fn ssh_authentication_choice() {
    let mut p = profile();
    match ssh_auth(&p, true) {
        SshAuth::Password(pw) => assert_eq!(pw, "pw"),
        other => panic!("unexpected {other:?}"),
    }
    p.password = None;
    match ssh_auth(&p, true) {
        SshAuth::Password(pw) => assert_eq!(pw, ""),
        other => panic!("unexpected {other:?}"),
    }
    p.ssh_key_path = Some("/k".to_string());
    p.ssh_key_passphrase = Some("pp".to_string());
    match ssh_auth(&p, true) {
        SshAuth::KeyFile { path, passphrase } => {
            assert_eq!(path, "/k");
            assert_eq!(passphrase.as_deref(), Some("pp"));
        }
        other => panic!("unexpected {other:?}"),
    }
    p.ssh_options.use_agent = true;
    assert!(matches!(ssh_auth(&p, true), SshAuth::Agent));
    assert!(matches!(ssh_auth(&p, false), SshAuth::KeyFile { .. }));
}

#[test]
fn ssh_users() {
    assert_eq!(local_user(Some("alice".to_string())), "alice");
    assert_eq!(local_user(None), "root");
    let mut p = profile();
    assert_eq!(ssh_username(&p, "bob".to_string()), "user");
    p.username = None;
    assert_eq!(ssh_username(&p, "bob".to_string()), "bob");
}

#[test]
fn su_decisions() {
    let mut p = profile();
    assert!(!wants_su(&p));
    assert_eq!(su_password(&p).unwrap_err(), "в профиле не задан пароль root");
    p.root_password = Some(String::new());
    p.ssh_options.su_to_root = true;
    assert!(wants_su(&p));
    assert_eq!(su_password(&p).unwrap_err(), "в профиле не задан пароль root");
    p.root_password = Some("toor".to_string());
    assert_eq!(su_password(&p).unwrap(), "toor");
}

#[test]
fn password_prompts() {
    assert!(is_password_prompt("Password: "));
    assert!(is_password_prompt("Last login...\r\nПароль:"));
    assert!(!is_password_prompt("su: Authentication failure"));
    assert!(!is_password_prompt(""));
    assert!(contains_text("abc", ""));
    assert!(contains_text("abc", "bc"));
    assert!(!contains_text("ab", "abc"));
}

#[test]
fn vnc_tunnel_and_connect() {
    let mut p = profile();
    p.protocol = Protocol::Vnc;
    p.port = 5901;
    let mut c = VncConnection::new(copy_profile(&p));
    assert!(c.tunnel_profile().is_none());
    assert!(c.finish_connect(None).is_ok());
    assert!(c.is_connected());
    c.disconnect();
    assert!(!c.is_connected());
    p.vnc_options.via_ssh_tunnel = true;
    let mut c = VncConnection::new(p);
    let t = c.tunnel_profile().unwrap();
    assert_eq!(t.protocol, Protocol::Ssh);
    assert_eq!(t.port, 22);
    assert_eq!(t.host, "rdp.example");
    assert_eq!(t.username.as_deref(), Some("user"));
    assert_eq!(c.profile().port, 5901);
    let e = c.finish_connect(Some(Err("timeout".to_string()))).unwrap_err();
    assert_eq!(e, "не удалось поднять SSH-туннель: timeout");
    assert!(!c.is_connected());
    assert!(c.finish_connect(Some(Ok(()))).is_ok());
    assert!(c.is_connected());
}

#[test]
fn profile_copies() {
    let p = profile();
    let q = copy_profile(&p);
    assert_eq!(q.tags, p.tags);
    assert_eq!(q.username, p.username);
    assert_eq!(q.rdp_options.color_depth, p.rdp_options.color_depth);
}

#[test]
fn prompt_watcher_accumulates_chunks() {
    let mut w = PromptWatcher::new();
    assert!(!w.feed(b"Last login: today\r\nPas"));
    assert!(w.feed(b"sword: "));
    let mut w = PromptWatcher::new();
    let bytes = "Пароль:".as_bytes();
    assert!(!w.feed(&bytes[..3]));
    // A letter split between two reads is still found.
    assert!(w.feed(&bytes[3..]));
    let mut w = PromptWatcher::new();
    assert!(w.feed("Пароль: ".as_bytes()));
}

#[test]
fn response_frames_until_terminate() {
    let outs = vec![
        StageOutput::Other,
        StageOutput::ResponseFrame(vec![1, 2]),
        StageOutput::ResponseFrame(vec![3]),
        StageOutput::Terminate,
        StageOutput::ResponseFrame(vec![4]),
    ];
    assert_eq!(frames_to_write(&outs), (vec![vec![1, 2], vec![3]], true));
    assert_eq!(frames_to_write(&vec![StageOutput::Other]), (Vec::<Vec<u8>>::new(), false));
    assert_eq!(frames_to_write(&vec![StageOutput::ResponseFrame(vec![9])]), (vec![vec![9]], false));
    assert_eq!(frames_to_write(&vec![StageOutput::Terminate]), (Vec::<Vec<u8>>::new(), true));
}
