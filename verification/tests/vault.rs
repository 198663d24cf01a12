use remotix::crypto::{
    decrypt, derive_key, encrypt, new_nonce, new_salt, seal_with_nonce, Argon2Params, NONCE_LEN, SALT_LEN,
};
use remotix::models::{HistoryEntry, NewProfile, Protocol, RdpOptions};
use remotix::vault::{
    confirm_new_master, create_master, master_from, history_csv, now, open_profile,
    open_secret, parse_protocol, reencrypt_secret, ResealError, schema_version_bytes, seal_profile,
    seal_secret, unix_seconds, unlock_with, verify_unlock, StoredProfile, SCHEMA_VERSION,
};

const SMALL: Argon2Params = Argon2Params { memory_kib: 64, iterations: 1, parallelism: 1 };

fn key_from(password: &str) -> [u8; 32] {
    derive_key(password, b"saltsaltsalt", &SMALL)
}

#[test]
fn argon2_params_default() {
    let p = Argon2Params::default();
    assert_eq!((p.memory_kib, p.iterations, p.parallelism), (65536, 3, 4));
}

#[test]
fn derive_key_depends_on_inputs() {
    let a = derive_key("secret", b"saltsaltsalt", &SMALL);
    let b = derive_key("secret", b"saltsaltsalt", &SMALL);
    let c = derive_key("secret", b"othersaltxx", &SMALL);
    let d = derive_key("Secret", b"saltsaltsalt", &SMALL);
    assert_eq!(a, b);
    assert_ne!(a, c);
    assert_ne!(a, d);
    assert_ne!(&a[..6], b"secret");
}

#[test]
fn salt_is_random() {
    let a = new_salt().unwrap();
    let b = new_salt().unwrap();
    assert_eq!(a.len(), SALT_LEN);
    assert_ne!(a, b);
}

#[test]
fn encrypt_then_decrypt() {
    let key = key_from("master");
    let blob = encrypt(&key, b"hunter2").unwrap();
    assert_eq!(blob.len(), NONCE_LEN + 7 + 16);
    assert_ne!(&blob[NONCE_LEN..NONCE_LEN + 7], b"hunter2");
    assert_eq!(decrypt(&key, &blob).unwrap(), b"hunter2");
    let again = encrypt(&key, b"hunter2").unwrap();
    assert_ne!(blob, again);
}

#[test]
fn decrypt_errors() {
    let key = key_from("master");
    assert_eq!(decrypt(&key, &[1, 2, 3]).unwrap_err(), "повреждённый шифротекст");
    let blob = encrypt(&key, b"data").unwrap();
    let other = key_from("other");
    assert_eq!(
        decrypt(&other, &blob).unwrap_err(),
        "неверный мастер-пароль или повреждённые данные"
    );
    let mut tampered = blob.clone();
    let last = tampered.len() - 1;
    tampered[last] ^= 1;
    assert!(decrypt(&key, &tampered).is_err());
}

#[test]
fn unlock_after_create_master() {
    let (key, record) = create_master("correct horse").unwrap();
    assert_eq!(record.params.memory_kib, 65536);
    let got = unlock_with(
        "correct horse",
        Some(&record.salt),
        Some(record.params),
        Some(&record.verifier),
    );
    assert_eq!(got.unwrap(), key);
    let wrong = unlock_with("wrong", Some(&record.salt), Some(record.params), Some(&record.verifier));
    assert_eq!(wrong.unwrap_err(), "неверный мастер-пароль или повреждённые данные");
}

#[test]
fn unlock_missing_meta() {
    assert_eq!(
        unlock_with("x", None, None, None).unwrap_err(),
        "хранилище не инициализировано"
    );
    assert_eq!(
        unlock_with("x", Some(b"saltsaltsalt"), Some(SMALL), None).unwrap_err(),
        "хранилище повреждено"
    );
    assert_eq!(
        unlock_with("x", Some(b"saltsaltsalt"), Some(SMALL), Some(&[0u8; 4])).unwrap_err(),
        "повреждённый шифротекст"
    );
}

#[test]
fn unlock_with_other_verifier_text() {
    let key = key_from("pw");
    let verifier = encrypt(&key, b"something-else").unwrap();
    let r = unlock_with("pw", Some(b"saltsaltsalt"), Some(SMALL), Some(&verifier));
    assert_eq!(r.unwrap_err(), "неверный мастер-пароль");
    let good = encrypt(&key, b"remotix-verifier").unwrap();
    let r = unlock_with("pw", Some(b"saltsaltsalt"), Some(SMALL), Some(&good));
    assert_eq!(r.unwrap(), key);
}

#[test]
fn password_change_reseals_secrets() {
    let old_key = key_from("old");
    let verifier = encrypt(&old_key, b"remotix-verifier").unwrap();
    let bad = unlock_with("nope", Some(b"saltsaltsalt"), Some(SMALL), Some(&verifier));
    assert_eq!(bad.unwrap_err(), "неверный мастер-пароль или повреждённые данные");
    let k_old = unlock_with("old", Some(b"saltsaltsalt"), Some(SMALL), Some(&verifier)).unwrap();
    assert_eq!(k_old, old_key);
    let (k_new, record) = create_master("new").unwrap();
    assert_eq!(
        unlock_with("new", Some(&record.salt), Some(record.params), Some(&record.verifier)).unwrap(),
        k_new
    );
    assert!(unlock_with("old", Some(&record.salt), Some(record.params), Some(&record.verifier)).is_err());
    let blob = Some(encrypt(&old_key, "пароль".as_bytes()).unwrap());
    let resealed = reencrypt_secret(&old_key, &k_new, &blob).unwrap().unwrap();
    assert_eq!(resealed.len(), NONCE_LEN + "пароль".len() + 16);
    assert_eq!(decrypt(&k_new, &resealed).unwrap(), "пароль".as_bytes());
    assert_eq!(reencrypt_secret(&old_key, &k_new, &None).unwrap(), None);
    match reencrypt_secret(&k_new, &old_key, &blob) {
        Err(ResealError::Open(e)) => assert_eq!(e, "неверный мастер-пароль или повреждённые данные"),
        other => panic!("unexpected {other:?}"),
    }
    match reencrypt_secret(&old_key, &k_new, &Some(vec![1, 2])) {
        Err(ResealError::Open(e)) => assert_eq!(e, "повреждённый шифротекст"),
        other => panic!("unexpected {other:?}"),
    }
}

#[test]
fn secrets_seal_and_open() {
    let key = key_from("k");
    assert_eq!(seal_secret(&key, &None).unwrap(), None);
    let sealed = seal_secret(&key, &Some("s3cr3t".to_string())).unwrap();
    assert_eq!(open_secret(&key, &sealed).as_deref(), Some("s3cr3t"));
    assert_eq!(open_secret(&key, &None), None);
    assert_eq!(open_secret(&key_from("other"), &sealed), None);
    assert_eq!(sealed.as_ref().map(|b| b.len()), Some(NONCE_LEN + "s3cr3t".len() + 16));
}

#[test]
fn protocol_labels_parse() {
    assert_eq!(parse_protocol("RDP"), Protocol::Rdp);
    assert_eq!(parse_protocol("VNC"), Protocol::Vnc);
    assert_eq!(parse_protocol("SSH"), Protocol::Ssh);
    assert_eq!(parse_protocol("rdp"), Protocol::Ssh);
}

fn sample_new_profile() -> NewProfile {
    NewProfile {
        name: "Сервер".to_string(),
        protocol: Some(Protocol::Rdp),
        host: "10.1.1.1".to_string(),
        port: 3390,
        username: Some("admin".to_string()),
        password: Some("pässword".to_string()),
        ssh_key_path: Some("/home/u/.ssh/id".to_string()),
        ssh_key_passphrase: None,
        root_password: Some("toor".to_string()),
        group_id: Some(3),
        tags: vec!["prod".to_string(), "win".to_string()],
        icon: None,
        notes: Some("n".to_string()),
    }
}

#[test]
fn profile_store_round_trip() {
    let key = key_from("vault");
    let p = sample_new_profile();
    let s = seal_profile(&key, &p).unwrap();
    assert_eq!(s.protocol, "RDP");
    assert_eq!(s.tags, "prod,win");
    assert_ne!(s.username.as_deref(), Some("admin".as_bytes()));
    assert_eq!(s.password.as_ref().map(|b| b.len()), Some("pässword".len() + NONCE_LEN + 16));
    assert_eq!(s.ssh_key_passphrase, None);
    let row = StoredProfile {
        id: 5,
        name: s.name.clone(),
        protocol: s.protocol.to_string(),
        host: s.host.clone(),
        port: s.port,
        username: s.username.clone(),
        password: s.password.clone(),
        ssh_key_path: s.ssh_key_path.clone(),
        ssh_key_passphrase: s.ssh_key_passphrase.clone(),
        root_password: s.root_password.clone(),
        group_id: s.group_id,
        tags: Some(s.tags.clone()),
        icon: s.icon.clone(),
        notes: s.notes.clone(),
        created_at: 100,
        updated_at: 100,
        last_connected_at: None,
    };
    let q = open_profile(&key, row, None, None, None);
    assert_eq!(q.id, 5);
    assert_eq!(q.name, "Сервер");
    assert_eq!(q.protocol, Protocol::Rdp);
    assert_eq!(q.port, 3390);
    assert_eq!(q.username.as_deref(), Some("admin"));
    assert_eq!(q.password.as_deref(), Some("pässword"));
    assert_eq!(q.ssh_key_passphrase, None);
    assert_eq!(q.root_password.as_deref(), Some("toor"));
    assert_eq!(q.tags, vec!["prod".to_string(), "win".to_string()]);
    assert_eq!(q.group_id, Some(3));
    assert_eq!(q.rdp_options.color_depth, 32);
    assert!(q.rdp_options.clipboard_to_remote);
    assert_eq!(q.created_at, 100);
}

#[test]
fn profile_without_protocol_is_ssh_and_options_kept() {
    let key = key_from("vault");
    let mut p = sample_new_profile();
    p.protocol = None;
    p.tags = vec![];
    let s = seal_profile(&key, &p).unwrap();
    assert_eq!(s.protocol, "SSH");
    let row = StoredProfile {
        id: 1,
        name: s.name,
        protocol: s.protocol.to_string(),
        host: s.host,
        port: s.port,
        username: s.username,
        password: Some(vec![9; 40]),
        ssh_key_path: s.ssh_key_path,
        ssh_key_passphrase: s.ssh_key_passphrase,
        root_password: s.root_password,
        group_id: s.group_id,
        tags: None,
        icon: s.icon,
        notes: s.notes,
        created_at: 1,
        updated_at: 2,
        last_connected_at: Some(3),
    };
    let mut rdp = RdpOptions::default();
    rdp.width = 1920;
    let q = open_profile(&key, row, Some(rdp), None, None);
    assert_eq!(q.protocol, Protocol::Ssh);
    assert_eq!(q.password, None);
    assert!(q.tags.is_empty());
    assert_eq!(q.rdp_options.width, 1920);
    assert_eq!(q.last_connected_at, Some(3));
}

#[test]
fn history_export_text() {
    let rows = vec![
        HistoryEntry {
            id: 2,
            profile_id: 1,
            profile_name: "web".to_string(),
            started_at: 1700000100,
            ended_at: Some(1700000200),
            status: "success".to_string(),
            error_code: None,
            error_message: None,
        },
        HistoryEntry {
            id: 1,
            profile_id: 9,
            profile_name: "?".to_string(),
            started_at: 1700000000,
            ended_at: None,
            status: "error".to_string(),
            error_code: Some("E1".to_string()),
            error_message: Some("отказ".to_string()),
        },
    ];
    assert_eq!(
        history_csv(&rows),
        "id;profile;started_at;ended_at;status;error_code;error_message\n\
         2;web;1700000100;1700000200;success;;\n\
         1;?;1700000000;;error;E1;отказ\n"
    );
    assert_eq!(
        history_csv(&Vec::new()),
        "id;profile;started_at;ended_at;status;error_code;error_message\n"
    );
}

#[test]
fn master_confirmation() {
    assert_eq!(confirm_new_master(true, "a", "b").unwrap_err(), "Пароли не совпадают");
    assert!(confirm_new_master(true, "a", "a").is_ok());
    assert!(confirm_new_master(false, "a", "b").is_ok());
}

#[test]
fn timestamps() {
    assert!(now() > 1_600_000_000);
    assert_eq!(unix_seconds(None), 0);
    assert_eq!(unix_seconds(Some(5)), 5);
    assert_eq!(unix_seconds(Some(u64::MAX)), -1);
}

#[test]
fn schema_version_encoding() {
    assert_eq!(schema_version_bytes(), SCHEMA_VERSION.to_le_bytes());
}

#[test]
fn verifier_check_after_opening() {
    let key = [7u8; 32];
    assert_eq!(verify_unlock(key, Ok(b"remotix-verifier".to_vec())).unwrap(), key);
    assert_eq!(verify_unlock(key, Ok(b"remotix".to_vec())).unwrap_err(), "неверный мастер-пароль");
    assert_eq!(verify_unlock(key, Err("x".to_string())).unwrap_err(), "x");
}

#[test]
fn sealing_under_a_given_nonce() {
    let key = key_from("n");
    let nonce = [7u8; NONCE_LEN];
    let blob = seal_with_nonce(&key, &nonce, b"abc");
    assert_eq!(&blob[..NONCE_LEN], &nonce);
    assert_eq!(blob.len(), NONCE_LEN + 3 + 16);
    assert_eq!(decrypt(&key, &blob).unwrap(), b"abc");
    assert_eq!(seal_with_nonce(&key, &nonce, b"abc"), blob);
    assert_ne!(seal_with_nonce(&key, &[8u8; NONCE_LEN], b"abc"), blob);
    let fresh = new_nonce().unwrap();
    assert_eq!(fresh.len(), NONCE_LEN);
}

#[test]
fn master_record_from_salt_and_nonce() {
    let salt = [3u8; SALT_LEN];
    let nonce = [5u8; NONCE_LEN];
    let (key, record) = master_from("pw", salt, &nonce);
    assert_eq!(record.salt, salt);
    assert_eq!(record.params.memory_kib, 65536);
    assert_eq!(&record.verifier[..NONCE_LEN], &nonce);
    assert_eq!(key, derive_key("pw", &salt, &Argon2Params::default()));
    assert_eq!(decrypt(&key, &record.verifier).unwrap(), b"remotix-verifier");
    let got = unlock_with("pw", Some(&record.salt), Some(record.params), Some(&record.verifier));
    assert_eq!(got.unwrap(), key);
}

#[test]
fn profile_without_secrets_seals() {
    let key = key_from("vault");
    let mut p = sample_new_profile();
    p.username = None;
    p.password = None;
    p.root_password = None;
    let s = seal_profile(&key, &p).unwrap();
    assert_eq!(s.username, None);
    assert_eq!(s.password, None);
    assert_eq!(s.root_password, None);
    assert_eq!(s.name, "Сервер");
}
