use remotix::config::{data_dir, db_path, join_path};
use remotix::models::{
    default_color_depth, default_quality, default_true, NewProfile, Protocol, RdpOptions,
    SshOptions, VncOptions,
};
use remotix::quick::{is_whitespace, quick_profile, trim};
use remotix::sftp::listing_entry;
use remotix::text::{i64_to_string, join_tags, split_tags, str_eq};

#[test]
fn protocol_default_ports() {
    assert_eq!(Protocol::Rdp.default_port(), 3389);
    assert_eq!(Protocol::Vnc.default_port(), 5900);
    assert_eq!(Protocol::Ssh.default_port(), 22);
}

#[test]
fn protocol_labels() {
    assert_eq!(Protocol::Rdp.as_str(), "RDP");
    assert_eq!(Protocol::Vnc.as_str(), "VNC");
    assert_eq!(Protocol::Ssh.as_str(), "SSH");
}

#[test]
fn option_defaults() {
    let r = RdpOptions::default();
    assert_eq!(r.width, 0);
    assert_eq!(r.height, 0);
    assert_eq!(r.color_depth, 32);
    assert!(r.domain.is_empty());
    assert!(!r.redirect_drives && !r.redirect_printers);
    assert!(r.clipboard && r.clipboard_to_remote && r.clipboard_from_remote);
    let v = VncOptions::default();
    assert!(!v.view_only && !v.via_ssh_tunnel);
    assert_eq!(v.compression_quality, 0);
    let s = SshOptions::default();
    assert!(s.connect_command.is_empty() && !s.use_agent && !s.su_to_root);
    assert_eq!(default_color_depth(), 32);
    assert!(default_true());
    assert_eq!(default_quality(), 6);
    let p = NewProfile::default();
    assert!(p.protocol.is_none() && p.tags.is_empty());
}

#[test]
fn decimal_formatting() {
    assert_eq!(i64_to_string(0), "0");
    assert_eq!(i64_to_string(42), "42");
    assert_eq!(i64_to_string(-7), "-7");
    assert_eq!(i64_to_string(1700000000), "1700000000");
    assert_eq!(i64_to_string(i64::MAX), i64::MAX.to_string());
    assert_eq!(i64_to_string(i64::MIN), i64::MIN.to_string());
}

#[test]
fn string_equality() {
    assert!(str_eq("ароль", "ароль"));
    assert!(!str_eq("abc", "abd"));
    assert!(!str_eq("ab", "abc"));
    assert!(str_eq("", ""));
}

#[test]
fn tags_join_and_split() {
    let tags = vec!["prod".to_string(), "db".to_string(), "москва".to_string()];
    let joined = join_tags(&tags);
    assert_eq!(joined, "prod,db,москва");
    assert_eq!(split_tags(&joined), tags);
}

#[test]
fn tags_split_drops_empty_fields() {
    assert_eq!(split_tags("a,,b,"), vec!["a".to_string(), "b".to_string()]);
    assert_eq!(split_tags(",,"), Vec::<String>::new());
    assert_eq!(split_tags(""), Vec::<String>::new());
    assert_eq!(join_tags(&Vec::new()), "");
}

#[test]
fn data_paths() {
    assert_eq!(data_dir(Some("/home/user".to_string())), "/home/user/.local/share/remotix");
    assert_eq!(data_dir(Some("/home/user/".to_string())), "/home/user/.local/share/remotix");
    assert_eq!(data_dir(None), "./.local/share/remotix");
    assert_eq!(
        db_path("/home/user/.local/share/remotix"),
        "/home/user/.local/share/remotix/remotix.db"
    );
    assert_eq!(join_path("", "a"), "a");
    assert_eq!(join_path("/srv", "/etc"), "/etc");
    assert_eq!(join_path(".", "docs"), "./docs");
}

#[test]
fn trimming() {
    assert_eq!(trim("  a b \t\n"), "a b");
    assert_eq!(trim("\u{3000}x\u{3000}"), "x");
    assert_eq!(trim("   "), "");
}

#[test]
fn quick_connection_user_at_host() {
    let p = quick_profile("  admin@10.0.0.5 ").unwrap();
    assert_eq!(p.username.as_deref(), Some("admin"));
    assert_eq!(p.host, "10.0.0.5");
    assert_eq!(p.name, "10.0.0.5");
    assert_eq!(p.port, 22);
    assert_eq!(p.protocol, Protocol::Ssh);
    assert_eq!(p.id, 0);
    assert!(p.password.is_none() && p.tags.is_empty());
}

#[test]
fn quick_connection_host_only_and_empty() {
    let p = quick_profile("server.local").unwrap();
    assert!(p.username.is_none());
    assert_eq!(p.host, "server.local");
    assert!(quick_profile("   ").is_none());
    let q = quick_profile("a@b@c").unwrap();
    assert_eq!(q.username.as_deref(), Some("a"));
    assert_eq!(q.host, "b@c");
}

#[test]
fn sftp_listing_entries() {
    assert_eq!(listing_entry(Some("a.txt".to_string()), Some(10), Some(20)), ("a.txt".to_string(), 10, 20));
    assert_eq!(listing_entry(None, None, None), (String::new(), 0, 0));
    assert_eq!(listing_entry(None, None, Some(u64::MAX)), (String::new(), 0, -1));
}

#[test]
fn whitespace_matches_char_is_whitespace() {
    for c in (0u32..=0x10FFFF).filter_map(char::from_u32) {
        assert_eq!(is_whitespace(c), c.is_whitespace(), "{:?}", c);
    }
    assert_eq!(trim("\u{3000}\u{a0} x \u{2029}"), "x");
}
