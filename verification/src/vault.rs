//! The credential store's logic: the master record that guards the store,
//! unlocking it, changing the master password, sealing and opening the
//! secrets of profiles, and the connection-log export. Reading and writing
//! the SQLite tables is the caller's part; this module computes what is
//! written and what is read.
use vstd::prelude::*;
use vstd::utf8::{encode_utf8, encode_utf8_decode_utf8, encode_utf8_valid_utf8};

use crate::crypto::{
    argon2_accepts, argon2id_key, bytes_eq, decrypt, is_sealing, random_failure, derive_key, encrypt, new_nonce, new_salt, open_blob,
    seal_with_nonce,
    Argon2Params, NONCE_LEN, PLAINTEXT_MAX, SALT_LEN,
};
use crate::models::{HistoryEntry, NewProfile, Profile, Protocol, RdpOptions, SshOptions, VncOptions};
use crate::text::{
    clone_opt_string, decimal, push_decimal_i64, join_tags, join_with, lossy_text, opt_chars, split_tags, str_eq,
    string_from_utf8_lossy, strings_chars, tag_list,
};

verus! {

/// Version of the database schema.
pub const SCHEMA_VERSION: i64 = 2;

/// The plaintext of the verifier: the bytes of "remotix-verifier".
pub open spec fn verifier_text() -> Seq<u8> {
    seq![114u8, 101, 109, 111, 116, 105, 120, 45, 118, 101, 114, 105, 102, 105, 101, 114]
}

fn verifier_plaintext() -> (v: [u8; 16])
    ensures
        v@ == verifier_text(),
{
    let v: [u8; 16] = [114, 101, 109, 111, 116, 105, 120, 45, 118, 101, 114, 105, 102, 105, 101, 114];
    assert(v@ == verifier_text());
    v
}

/// The Argon2id parameters that a store without stored parameters uses.
pub open spec fn default_params() -> Argon2Params {
    Argon2Params { memory_kib: 65536, iterations: 3, parallelism: 4 }
}

/// The parameters that unlocking uses: the stored ones, else the defaults.
pub open spec fn effective_params(params: Option<Argon2Params>) -> Argon2Params {
    match params {
        Some(p) => p,
        None => default_params(),
    }
}

/// The key that a master password opens the store with.
pub open spec fn master_key(password: Seq<char>, salt: Seq<u8>, params: Argon2Params) -> Seq<u8> {
    argon2id_key(encode_utf8(password), salt, params.memory_kib, params.iterations, params.parallelism)
}

/// The bytes of an optional byte slice.
pub open spec fn opt_bytes(o: Option<&[u8]>) -> Option<Seq<u8>> {
    match o {
        Some(b) => Some(b@),
        None => None,
    }
}

/// The bytes of an optional byte vector.
pub open spec fn opt_blob(o: Option<Vec<u8>>) -> Option<Seq<u8>> {
    match o {
        Some(b) => Some(b@),
        None => None,
    }
}

/// The salt, parameters and verifier that guard a store.
#[derive(Debug)]
pub struct MasterRecord {
    pub salt: [u8; SALT_LEN],
    pub params: Argon2Params,
    pub verifier: Vec<u8>,
}

impl MasterRecord {
    /// The record guards the store for this password: the verifier opens
    /// to the verifier text under the password's key.
    pub open spec fn guards(self, password: Seq<char>) -> bool {
        &&& self.params.is_default()
        &&& open_blob(master_key(password, self.salt@, self.params), self.verifier@) == Some(
            verifier_text(),
        )
    }
}

/// The master record of a new store made with the given salt and verifier
/// nonce: the default parameters, and the verifier sealed under the key
/// derived from the password, which is returned with it.
pub fn master_from(master_password: &str, salt: [u8; SALT_LEN], nonce: &[u8; NONCE_LEN]) -> (r: (
    [u8; 32],
    MasterRecord,
))
    requires
        encode_utf8(master_password@).len() <= 0xFFFFFFFF,
    ensures
        r.1.guards(master_password@),
        r.1.salt == salt,
        r.1.params == default_params(),
        r.0@ == master_key(master_password@, salt@, r.1.params),
        is_sealing(r.0@, verifier_text(), r.1.verifier@),
        r.1.verifier@.subrange(0, NONCE_LEN as int) == nonce@,
{
    let params = Argon2Params::default();
    let key = derive_key(master_password, &salt, &params);
    let plain = verifier_plaintext();
    let verifier = seal_with_nonce(&key, nonce, &plain);
    (key, MasterRecord { salt, params, verifier })
}

/// Creates the master record of a new store (first start: the master
/// password is set): a fresh salt and verifier nonce, the default
/// parameters, and the verifier sealed under the derived key, which is
/// returned with it; an error when the operating system gives no random
/// bytes for the salt or the nonce.
pub fn create_master(master_password: &str) -> (r: Result<([u8; 32], MasterRecord), String>)
    requires
        encode_utf8(master_password@).len() <= 0xFFFFFFFF,
    ensures
        r matches Ok((key, record)) ==> record.guards(master_password@) && key@ == master_key(
            master_password@,
            record.salt@,
            record.params,
        ),
        r matches Err(e) ==> e@ == random_failure(),
{
    let salt = match new_salt() {
        Ok(s) => s,
        Err(e) => return Err(e),
    };
    let nonce = match new_nonce() {
        Ok(n) => n,
        Err(e) => return Err(e),
    };
    Ok(master_from(master_password, salt, &nonce))
}

/// Checks the entry of a new master password on first start: the password
/// and its confirmation must be the same; later starts ask no confirmation.
pub fn confirm_new_master(first_run: bool, password: &str, confirm: &str) -> (r: Result<(), String>)
    ensures
        first_run && password@ != confirm@ ==> (r matches Err(e) && e@ == "Пароли не совпадают"@),
        !(first_run && password@ != confirm@) ==> r is Ok,
{
    if first_run && !str_eq(password, confirm) {
        Err(String::from_str("Пароли не совпадают"))
    } else {
        Ok(())
    }
}

/// What unlocking gives: the key, or the message of the error.
pub open spec fn unlock_outcome(
    password: Seq<char>,
    salt: Option<Seq<u8>>,
    params: Option<Argon2Params>,
    verifier: Option<Seq<u8>>,
) -> Result<Seq<u8>, Seq<char>> {
    match salt {
        None => Err("хранилище не инициализировано"@),
        Some(s) => {
            let key = master_key(password, s, effective_params(params));
            match verifier {
                None => Err("хранилище повреждено"@),
                Some(v) => {
                    if v.len() < NONCE_LEN {
                        Err("повреждённый шифротекст"@)
                    } else {
                        match open_blob(key, v) {
                            None => Err("неверный мастер-пароль или повреждённые данные"@),
                            Some(p) => {
                                if p == verifier_text() {
                                    Ok(key)
                                } else {
                                    Err("неверный мастер-пароль"@)
                                }
                            },
                        }
                    }
                },
            }
        },
    }
}

/// The key or error message of a result.
pub open spec fn key_outcome(r: Result<[u8; 32], String>) -> Result<Seq<u8>, Seq<char>> {
    match r {
        Ok(k) => Ok(k@),
        Err(e) => Err(e@),
    }
}

/// What unlocking asks of Argon2: a salt, when there is one, and the
/// parameters in force must be accepted.
pub open spec fn unlockable(
    password: Seq<char>,
    salt: Option<Seq<u8>>,
    params: Option<Argon2Params>,
) -> bool {
    salt matches Some(s) ==> argon2_accepts(encode_utf8(password).len(), s.len(), effective_params(params))
}

/// Checks the master password against the stored salt, parameters and
/// verifier, and returns the encryption key.
pub fn unlock_with(
    master_password: &str,
    salt: Option<&[u8]>,
    params: Option<Argon2Params>,
    verifier: Option<&[u8]>,
) -> (r: Result<[u8; 32], String>)
    requires
        unlockable(master_password@, opt_bytes(salt), params),
    ensures
        key_outcome(r) == unlock_outcome(master_password@, opt_bytes(salt), params, opt_bytes(verifier)),
{
    let salt = match salt {
        Some(s) => s,
        None => return Err(String::from_str("хранилище не инициализировано")),
    };
    let params = match params {
        Some(p) => p,
        None => Argon2Params::default(),
    };
    let key = derive_key(master_password, salt, &params);
    let verifier = match verifier {
        Some(v) => v,
        None => return Err(String::from_str("хранилище повреждено")),
    };
    verify_unlock(key, decrypt(&key, verifier))
}

/// Completes unlocking once the stored verifier has been opened under the
/// derived key: the key when the verifier holds the verifier text, else the
/// error.
pub fn verify_unlock(key: [u8; 32], opened: Result<Vec<u8>, String>) -> (r: Result<[u8; 32], String>)
    ensures
        match opened {
            Err(e) => r matches Err(x) && x@ == e@,
            Ok(p) => if p@ == verifier_text() {
                r == Ok::<[u8; 32], String>(key)
            } else {
                r matches Err(x) && x@ == "неверный мастер-пароль"@
            },
        },
{
    let plain = match opened {
        Ok(p) => p,
        Err(e) => return Err(e),
    };
    let expected = verifier_plaintext();
    if bytes_eq(plain.as_slice(), &expected) {
        Ok(key)
    } else {
        Err(String::from_str("неверный мастер-пароль"))
    }
}

/// Law: a store created with a master password unlocks with that password,
/// and gives the key that was derived at creation.
pub proof fn lemma_unlock_after_create(password: Seq<char>, record: MasterRecord)
    requires
        record.guards(password),
    ensures
        unlock_outcome(password, Some(record.salt@), Some(record.params), Some(record.verifier@))
            == Ok::<Seq<u8>, Seq<char>>(master_key(password, record.salt@, record.params)),
{
}

/// Why a stored secret could not be sealed again under a new key.
#[derive(Debug)]
pub enum ResealError {
    /// The blob did not open under the old key (the decryption error).
    Open(String),
    /// The secret is longer than AES-256-GCM seals.
    TooLong,
    /// The operating system gave no random nonce (the error message).
    NoRandom(String),
}

/// A secret re-sealed under another key: nothing stays nothing, a blob that
/// opens under the old key is sealed again under the new one. In the error
/// outcome, `Some` is the message of a blob that does not open or of the
/// missing random nonce, `None` a secret too long to seal.
pub open spec fn resealed(
    old_key: Seq<u8>,
    new_key: Seq<u8>,
    blob: Option<Seq<u8>>,
    r: Result<Option<Seq<u8>>, Option<Seq<char>>>,
) -> bool {
    match blob {
        None => r == Ok::<Option<Seq<u8>>, Option<Seq<char>>>(None),
        Some(b) => {
            if b.len() < NONCE_LEN {
                r == Err::<Option<Seq<u8>>, Option<Seq<char>>>(Some("повреждённый шифротекст"@))
            } else {
                match open_blob(old_key, b) {
                    None => r == Err::<Option<Seq<u8>>, Option<Seq<char>>>(
                        Some("неверный мастер-пароль или повреждённые данные"@),
                    ),
                    Some(p) => if p.len() > PLAINTEXT_MAX {
                        r == Err::<Option<Seq<u8>>, Option<Seq<char>>>(None)
                    } else {
                        ||| (r matches Ok(Some(c)) && is_sealing(new_key, p, c))
                        ||| r == Err::<Option<Seq<u8>>, Option<Seq<char>>>(Some(random_failure()))
                    },
                }
            }
        },
    }
}

/// The blob or error of a re-sealing result.
pub open spec fn reseal_outcome(r: Result<Option<Vec<u8>>, ResealError>) -> Result<
    Option<Seq<u8>>,
    Option<Seq<char>>,
> {
    match r {
        Ok(o) => Ok(opt_blob(o)),
        Err(ResealError::Open(e)) => Err(Some(e@)),
        Err(ResealError::TooLong) => Err(None),
        Err(ResealError::NoRandom(e)) => Err(Some(e@)),
    }
}

/// Re-seals one stored secret under a new key (changing the master
/// password). The secret itself is unchanged: the new blob opens to it.
pub fn reencrypt_secret(old_key: &[u8; 32], new_key: &[u8; 32], blob: &Option<Vec<u8>>) -> (r: Result<
    Option<Vec<u8>>,
    ResealError,
>)
    ensures
        resealed(old_key@, new_key@, opt_blob(*blob), reseal_outcome(r)),
{
    match blob {
        None => Ok(None),
        Some(b) => {
            let plain = match decrypt(old_key, b.as_slice()) {
                Ok(p) => p,
                Err(e) => return Err(ResealError::Open(e)),
            };
            if plain.len() as u64 > PLAINTEXT_MAX {
                return Err(ResealError::TooLong);
            }
            match encrypt(new_key, plain.as_slice()) {
                Ok(c) => Ok(Some(c)),
                Err(e) => Err(ResealError::NoRandom(e)),
            }
        },
    }
}

/// Law: a secret that was sealed again when the master password changed
/// reads back under the new key exactly as it read under the old one.
pub proof fn lemma_secret_survives_password_change(
    old_key: Seq<u8>,
    new_key: Seq<u8>,
    blob: Seq<u8>,
    new_blob: Seq<u8>,
)
    requires
        resealed(
            old_key,
            new_key,
            Some(blob),
            Ok::<Option<Seq<u8>>, Option<Seq<char>>>(Some(new_blob)),
        ),
    ensures
        opened_secret(new_key, Some(new_blob)) == opened_secret(old_key, Some(blob)),
        opened_secret(old_key, Some(blob)) is Some,
{
}

/// A secret fits in a sealed blob.
pub open spec fn secret_fits(s: Option<String>) -> bool {
    match s {
        Some(x) => encode_utf8(x@).len() <= PLAINTEXT_MAX,
        None => true,
    }
}

/// The blob seals the secret under the key: no secret, no blob; else the
/// blob opens to the secret's UTF-8 bytes.
pub open spec fn seals_secret(key: Seq<u8>, secret: Option<Seq<char>>, blob: Option<Seq<u8>>) -> bool {
    match (secret, blob) {
        (None, None) => true,
        (Some(s), Some(b)) => is_sealing(key, encode_utf8(s), b),
        _ => false,
    }
}

/// Seals an optional secret; an error when the operating system gives no
/// random nonce.
pub fn seal_secret(key: &[u8; 32], secret: &Option<String>) -> (r: Result<Option<Vec<u8>>, String>)
    requires
        secret_fits(*secret),
    ensures
        r matches Ok(b) ==> seals_secret(key@, opt_chars(*secret), opt_blob(b)),
        r matches Err(e) ==> secret is Some && e@ == random_failure(),
{
    match secret {
        Some(s) => match encrypt(key, s.as_str().as_bytes()) {
            Ok(b) => Ok(Some(b)),
            Err(e) => Err(e),
        },
        None => Ok(None),
    }
}

/// What opening a stored secret gives: nothing for no blob or a blob that
/// does not open, else the text of its bytes.
pub open spec fn opened_secret(key: Seq<u8>, blob: Option<Seq<u8>>) -> Option<Seq<char>> {
    match blob {
        None => None,
        Some(b) => match open_blob(key, b) {
            None => None,
            Some(p) => Some(lossy_text(p)),
        },
    }
}

/// Opens an optional stored secret.
pub fn open_secret(key: &[u8; 32], blob: &Option<Vec<u8>>) -> (r: Option<String>)
    ensures
        opt_chars(r) == opened_secret(key@, opt_blob(*blob)),
{
    match blob {
        None => None,
        Some(b) => match decrypt(key, b.as_slice()) {
            Ok(p) => Some(string_from_utf8_lossy(p.as_slice())),
            Err(_) => None,
        },
    }
}

/// Law: a secret sealed under a key opens to the same text under that key.
pub proof fn lemma_secret_round_trip(key: Seq<u8>, secret: Option<Seq<char>>, blob: Option<Seq<u8>>)
    requires
        seals_secret(key, secret, blob),
    ensures
        opened_secret(key, blob) == secret,
{
    if let Some(s) = secret {
        encode_utf8_valid_utf8(s);
        encode_utf8_decode_utf8(s);
    }
}

/// The protocol that a profile without one is created with: SSH.
pub open spec fn protocol_or_ssh(p: Option<Protocol>) -> Protocol {
    match p {
        Some(x) => x,
        None => Protocol::Ssh,
    }
}

/// The protocol that a stored label is read as: RDP and VNC by their labels,
/// anything else as SSH.
pub open spec fn protocol_from_label(label: Seq<char>) -> Protocol {
    if label == Protocol::Rdp.label() {
        Protocol::Rdp
    } else if label == Protocol::Vnc.label() {
        Protocol::Vnc
    } else {
        Protocol::Ssh
    }
}

/// Reads a stored protocol label.
pub fn parse_protocol(label: &str) -> (p: Protocol)
    ensures
        p == protocol_from_label(label@),
{
    proof {
        reveal_strlit("RDP");
        reveal_strlit("VNC");
        assert("RDP"@ =~= Protocol::Rdp.label());
        assert("VNC"@ =~= Protocol::Vnc.label());
    }
    if str_eq(label, "RDP") {
        Protocol::Rdp
    } else if str_eq(label, "VNC") {
        Protocol::Vnc
    } else {
        Protocol::Ssh
    }
}

/// The columns that adding a profile writes, besides the option documents
/// and the timestamps: secrets sealed, tags joined with commas.
#[derive(Debug)]
pub struct SealedProfile {
    pub name: String,
    pub protocol: &'static str,
    pub host: String,
    pub port: u16,
    pub username: Option<Vec<u8>>,
    pub password: Option<Vec<u8>>,
    pub ssh_key_path: Option<String>,
    pub ssh_key_passphrase: Option<Vec<u8>>,
    pub root_password: Option<Vec<u8>>,
    pub group_id: Option<i64>,
    pub tags: String,
    pub icon: Option<String>,
    pub notes: Option<String>,
}

impl SealedProfile {
    /// These columns store the new profile under the key.
    pub open spec fn seals(self, key: Seq<u8>, p: NewProfile) -> bool {
        &&& self.name@ == p.name@
        &&& self.protocol@ == protocol_or_ssh(p.protocol).label()
        &&& self.host@ == p.host@
        &&& self.port == p.port
        &&& seals_secret(key, opt_chars(p.username), opt_blob(self.username))
        &&& seals_secret(key, opt_chars(p.password), opt_blob(self.password))
        &&& opt_chars(self.ssh_key_path) == opt_chars(p.ssh_key_path)
        &&& seals_secret(key, opt_chars(p.ssh_key_passphrase), opt_blob(self.ssh_key_passphrase))
        &&& seals_secret(key, opt_chars(p.root_password), opt_blob(self.root_password))
        &&& self.group_id == p.group_id
        &&& self.tags@ == join_with(strings_chars(p.tags@), ',')
        &&& opt_chars(self.icon) == opt_chars(p.icon)
        &&& opt_chars(self.notes) == opt_chars(p.notes)
    }
}

/// The secrets of a new profile fit in sealed blobs.
pub open spec fn profile_secrets_fit(p: NewProfile) -> bool {
    &&& secret_fits(p.username)
    &&& secret_fits(p.password)
    &&& secret_fits(p.ssh_key_passphrase)
    &&& secret_fits(p.root_password)
}

/// Computes the columns of a new profile: the login, password, key
/// passphrase and root password are sealed under the key.
pub fn seal_profile(key: &[u8; 32], p: &NewProfile) -> (r: Result<SealedProfile, String>)
    requires
        profile_secrets_fit(*p),
    ensures
        r matches Ok(sealed) ==> sealed.seals(key@, *p),
        r matches Err(e) ==> e@ == random_failure(),
        r is Err ==> (p.username is Some || p.password is Some || p.ssh_key_passphrase is Some
            || p.root_password is Some),
{
    let protocol = match p.protocol {
        Some(x) => x,
        None => Protocol::Ssh,
    };
    let username = match seal_secret(key, &p.username) {
        Ok(b) => b,
        Err(e) => return Err(e),
    };
    let password = match seal_secret(key, &p.password) {
        Ok(b) => b,
        Err(e) => return Err(e),
    };
    let ssh_key_passphrase = match seal_secret(key, &p.ssh_key_passphrase) {
        Ok(b) => b,
        Err(e) => return Err(e),
    };
    let root_password = match seal_secret(key, &p.root_password) {
        Ok(b) => b,
        Err(e) => return Err(e),
    };
    Ok(
        SealedProfile {
            name: p.name.clone(),
            protocol: protocol.as_str(),
            host: p.host.clone(),
            port: p.port,
            username,
            password,
            ssh_key_path: clone_opt_string(&p.ssh_key_path),
            ssh_key_passphrase,
            root_password,
            group_id: p.group_id,
            tags: join_tags(&p.tags),
            icon: clone_opt_string(&p.icon),
            notes: clone_opt_string(&p.notes),
        },
    )
}

/// The columns of a stored profile as they are read back, besides the
/// option documents.
#[derive(Debug)]
pub struct StoredProfile {
    pub id: i64,
    pub name: String,
    pub protocol: String,
    pub host: String,
    pub port: u16,
    pub username: Option<Vec<u8>>,
    pub password: Option<Vec<u8>>,
    pub ssh_key_path: Option<String>,
    pub ssh_key_passphrase: Option<Vec<u8>>,
    pub root_password: Option<Vec<u8>>,
    pub group_id: Option<i64>,
    pub tags: Option<String>,
    pub icon: Option<String>,
    pub notes: Option<String>,
    pub created_at: i64,
    pub updated_at: i64,
    pub last_connected_at: Option<i64>,
}

/// The characters of a stored tag column; a missing column reads as empty.
pub open spec fn tags_column(tags: Option<String>) -> Seq<char> {
    match tags {
        Some(t) => t@,
        None => Seq::empty(),
    }
}

/// The profile that a stored row opens to under the key, given the option
/// documents that could be read (a missing or unreadable one is `None`).
pub open spec fn opens_to(
    key: Seq<u8>,
    row: StoredProfile,
    rdp: Option<RdpOptions>,
    vnc: Option<VncOptions>,
    ssh: Option<SshOptions>,
    p: Profile,
) -> bool {
    &&& p.id == row.id
    &&& p.name@ == row.name@
    &&& p.protocol == protocol_from_label(row.protocol@)
    &&& p.host@ == row.host@
    &&& p.port == row.port
    &&& opt_chars(p.username) == opened_secret(key, opt_blob(row.username))
    &&& opt_chars(p.password) == opened_secret(key, opt_blob(row.password))
    &&& opt_chars(p.ssh_key_path) == opt_chars(row.ssh_key_path)
    &&& opt_chars(p.ssh_key_passphrase) == opened_secret(key, opt_blob(row.ssh_key_passphrase))
    &&& opt_chars(p.root_password) == opened_secret(key, opt_blob(row.root_password))
    &&& p.group_id == row.group_id
    &&& strings_chars(p.tags@) == tag_list(tags_column(row.tags))
    &&& opt_chars(p.icon) == opt_chars(row.icon)
    &&& opt_chars(p.notes) == opt_chars(row.notes)
    &&& match rdp {
        Some(o) => p.rdp_options == o,
        None => p.rdp_options.is_default(),
    }
    &&& match vnc {
        Some(o) => p.vnc_options == o,
        None => p.vnc_options.is_default(),
    }
    &&& match ssh {
        Some(o) => p.ssh_options == o,
        None => p.ssh_options.is_default(),
    }
    &&& p.created_at == row.created_at
    &&& p.updated_at == row.updated_at
    &&& p.last_connected_at == row.last_connected_at
}

/// Builds a profile from a stored row: the secrets are opened under the key
/// (one that does not open reads as absent), the protocol label is read,
/// the tag list is split, and missing option documents take their defaults.
pub fn open_profile(
    key: &[u8; 32],
    row: StoredProfile,
    rdp: Option<RdpOptions>,
    vnc: Option<VncOptions>,
    ssh: Option<SshOptions>,
) -> (p: Profile)
    ensures
        opens_to(key@, row, rdp, vnc, ssh, p),
        rdp matches Some(o) ==> p.rdp_options == o,
        vnc matches Some(o) ==> p.vnc_options == o,
        ssh matches Some(o) ==> p.ssh_options == o,
{
    let username = open_secret(key, &row.username);
    let password = open_secret(key, &row.password);
    let ssh_key_passphrase = open_secret(key, &row.ssh_key_passphrase);
    let root_password = open_secret(key, &row.root_password);
    let protocol = parse_protocol(row.protocol.as_str());
    let tags = match &row.tags {
        Some(t) => split_tags(t.as_str()),
        None => {
            let e = String::new();
            split_tags(e.as_str())
        },
    };
    let rdp_options = match rdp {
        Some(o) => o,
        None => RdpOptions::default(),
    };
    let vnc_options = match vnc {
        Some(o) => o,
        None => VncOptions::default(),
    };
    let ssh_options = match ssh {
        Some(o) => o,
        None => SshOptions::default(),
    };
    Profile {
        id: row.id,
        name: row.name,
        protocol,
        host: row.host,
        port: row.port,
        username,
        password,
        ssh_key_path: row.ssh_key_path,
        ssh_key_passphrase,
        root_password,
        group_id: row.group_id,
        tags,
        icon: row.icon,
        notes: row.notes,
        rdp_options,
        vnc_options,
        ssh_options,
        created_at: row.created_at,
        updated_at: row.updated_at,
        last_connected_at: row.last_connected_at,
    }
}

/// Law: a profile that is stored and read back under the same key keeps its
/// secrets and its protocol, and a tag list of storable tags comes back as
/// it was.
pub proof fn lemma_profile_round_trip(key: Seq<u8>, p: NewProfile, sealed: SealedProfile)
    requires
        sealed.seals(key, p),
    ensures
        opened_secret(key, opt_blob(sealed.username)) == opt_chars(p.username),
        opened_secret(key, opt_blob(sealed.password)) == opt_chars(p.password),
        opened_secret(key, opt_blob(sealed.ssh_key_passphrase)) == opt_chars(p.ssh_key_passphrase),
        opened_secret(key, opt_blob(sealed.root_password)) == opt_chars(p.root_password),
        protocol_from_label(sealed.protocol@) == protocol_or_ssh(p.protocol),
        (forall|i: int| 0 <= i < p.tags@.len() ==> storable_tag_string(#[trigger] p.tags@[i]))
            ==> tag_list(sealed.tags@) == strings_chars(p.tags@),
{
    lemma_secret_round_trip(key, opt_chars(p.username), opt_blob(sealed.username));
    lemma_secret_round_trip(key, opt_chars(p.password), opt_blob(sealed.password));
    lemma_secret_round_trip(key, opt_chars(p.ssh_key_passphrase), opt_blob(sealed.ssh_key_passphrase));
    lemma_secret_round_trip(key, opt_chars(p.root_password), opt_blob(sealed.root_password));
    if forall|i: int| 0 <= i < p.tags@.len() ==> storable_tag_string(#[trigger] p.tags@[i]) {
        let t = strings_chars(p.tags@);
        assert forall|i: int| 0 <= i < t.len() implies crate::text::storable_tag(#[trigger] t[i]) by {
            assert(storable_tag_string(p.tags@[i]));
        }
        crate::text::lemma_tag_list_round_trip(t);
    }
}

/// The stored row holds what adding a profile wrote: its sealed columns, the
/// new row id, the creation time `t` as both timestamps, and no connection
/// yet.
pub open spec fn row_holds(row: StoredProfile, sealed: SealedProfile, id: i64, t: i64) -> bool {
    &&& row.id == id
    &&& row.name@ == sealed.name@
    &&& row.protocol@ == sealed.protocol@
    &&& row.host@ == sealed.host@
    &&& row.port == sealed.port
    &&& opt_blob(row.username) == opt_blob(sealed.username)
    &&& opt_blob(row.password) == opt_blob(sealed.password)
    &&& opt_chars(row.ssh_key_path) == opt_chars(sealed.ssh_key_path)
    &&& opt_blob(row.ssh_key_passphrase) == opt_blob(sealed.ssh_key_passphrase)
    &&& opt_blob(row.root_password) == opt_blob(sealed.root_password)
    &&& row.group_id == sealed.group_id
    &&& tags_column(row.tags) == sealed.tags@
    &&& opt_chars(row.icon) == opt_chars(sealed.icon)
    &&& opt_chars(row.notes) == opt_chars(sealed.notes)
    &&& row.created_at == t
    &&& row.updated_at == t
    &&& row.last_connected_at is None
}

/// Law: a profile that was added under a key and is listed under the same
/// key comes back with its data, its secrets in clear, its protocol (SSH
/// when none was given) and its storable tags; both timestamps are the time
/// of adding, and it has no connection yet.
pub proof fn lemma_list_after_add(
    key: Seq<u8>,
    p: NewProfile,
    sealed: SealedProfile,
    row: StoredProfile,
    id: i64,
    t: i64,
    rdp: Option<RdpOptions>,
    vnc: Option<VncOptions>,
    ssh: Option<SshOptions>,
    q: Profile,
)
    requires
        sealed.seals(key, p),
        row_holds(row, sealed, id, t),
        opens_to(key, row, rdp, vnc, ssh, q),
        forall|i: int| 0 <= i < p.tags@.len() ==> storable_tag_string(#[trigger] p.tags@[i]),
    ensures
        q.id == id,
        q.name@ == p.name@,
        q.protocol == protocol_or_ssh(p.protocol),
        q.host@ == p.host@,
        q.port == p.port,
        opt_chars(q.username) == opt_chars(p.username),
        opt_chars(q.password) == opt_chars(p.password),
        opt_chars(q.ssh_key_path) == opt_chars(p.ssh_key_path),
        opt_chars(q.ssh_key_passphrase) == opt_chars(p.ssh_key_passphrase),
        opt_chars(q.root_password) == opt_chars(p.root_password),
        q.group_id == p.group_id,
        strings_chars(q.tags@) == strings_chars(p.tags@),
        opt_chars(q.icon) == opt_chars(p.icon),
        opt_chars(q.notes) == opt_chars(p.notes),
        q.created_at == t,
        q.updated_at == t,
        q.last_connected_at is None,
{
    lemma_profile_round_trip(key, p, sealed);
}

/// A tag string that survives being stored.
pub open spec fn storable_tag_string(s: String) -> bool {
    crate::text::storable_tag(s@)
}

/// The header line of the connection-log export.
pub open spec fn csv_header() -> Seq<char> {
    "id;profile;started_at;ended_at;status;error_code;error_message\n"@
}

/// An optional number as exported: its decimal form, or nothing.
pub open spec fn opt_decimal(n: Option<i64>) -> Seq<char> {
    match n {
        Some(v) => decimal(v as int),
        None => Seq::empty(),
    }
}

/// An optional text as exported: the text, or nothing.
pub open spec fn opt_text(t: Option<String>) -> Seq<char> {
    match t {
        Some(v) => v@,
        None => Seq::empty(),
    }
}

/// One exported line: the fields separated by semicolons.
pub open spec fn csv_line(h: HistoryEntry) -> Seq<char> {
    decimal(h.id as int) + seq![';'] + h.profile_name@ + seq![';'] + decimal(h.started_at as int)
        + seq![';'] + opt_decimal(h.ended_at) + seq![';'] + h.status@ + seq![';'] + opt_text(
        h.error_code,
    ) + seq![';'] + opt_text(h.error_message) + seq!['\n']
}

/// The lines of a sequence of entries, in order.
pub open spec fn csv_lines(rows: Seq<HistoryEntry>) -> Seq<char>
    decreases rows.len(),
{
    if rows.len() == 0 {
        Seq::empty()
    } else {
        csv_lines(rows.drop_last()) + csv_line(rows.last())
    }
}

fn push_semicolon(s: &mut String)
    ensures
        final(s)@ == old(s)@.push(';'),
{
    proof {
        reveal_strlit(";");
    }
    s.append(";");
}

fn push_opt_decimal(s: &mut String, n: Option<i64>)
    ensures
        final(s)@ == old(s)@ + opt_decimal(n),
{
    match n {
        Some(v) => push_decimal_i64(s, v),
        None => {
            assert(old(s)@ + Seq::<char>::empty() == old(s)@);
        },
    }
}

fn push_opt_text(s: &mut String, t: &Option<String>)
    ensures
        final(s)@ == old(s)@ + opt_text(*t),
{
    match t {
        Some(v) => s.append(v.as_str()),
        None => {
            assert(old(s)@ + Seq::<char>::empty() == old(s)@);
        },
    }
}

/// Appends one exported line.
fn push_csv_line(csv: &mut String, h: &HistoryEntry)
    ensures
        final(csv)@ == old(csv)@ + csv_line(*h),
{
    let ghost s0 = csv@;
    push_decimal_i64(csv, h.id);
    push_semicolon(csv);
    csv.append(h.profile_name.as_str());
    push_semicolon(csv);
    let ghost s1 = csv@;
    assert(s1 == s0 + (decimal(h.id as int) + seq![';'] + h.profile_name@ + seq![';']));
    push_decimal_i64(csv, h.started_at);
    push_semicolon(csv);
    push_opt_decimal(csv, h.ended_at);
    push_semicolon(csv);
    let ghost s2 = csv@;
    assert(s2 == s1 + (decimal(h.started_at as int) + seq![';'] + opt_decimal(h.ended_at) + seq![';']));
    csv.append(h.status.as_str());
    push_semicolon(csv);
    push_opt_text(csv, &h.error_code);
    push_semicolon(csv);
    let ghost s3 = csv@;
    assert(s3 == s2 + (h.status@ + seq![';'] + opt_text(h.error_code) + seq![';']));
    push_opt_text(csv, &h.error_message);
    proof {
        reveal_strlit("\n");
    }
    csv.append("\n");
    let ghost s4 = csv@;
    assert(s4 == s3 + (opt_text(h.error_message) + seq!['\n']));
    assert(csv_line(*h) == (decimal(h.id as int) + seq![';'] + h.profile_name@ + seq![';']) + (
    decimal(h.started_at as int) + seq![';'] + opt_decimal(h.ended_at) + seq![';']) + (h.status@
        + seq![';'] + opt_text(h.error_code) + seq![';']) + (opt_text(h.error_message) + seq![
        '\n',
    ]));
}

/// Renders the connection log as the semicolon-separated text that is
/// exported: a header, then one line per entry.
pub fn history_csv(rows: &Vec<HistoryEntry>) -> (csv: String)
    ensures
        csv@ == csv_header() + csv_lines(rows@),
{
    let mut csv = String::from_str("id;profile;started_at;ended_at;status;error_code;error_message\n");
    let mut i: usize = 0;
    while i < rows.len()
        invariant
            i <= rows@.len(),
            csv@ == csv_header() + csv_lines(rows@.subrange(0, i as int)),
        decreases rows@.len() - i,
    {
        push_csv_line(&mut csv, &rows[i]);
        proof {
            let sub = rows@.subrange(0, i + 1);
            assert(sub.drop_last() == rows@.subrange(0, i as int));
            assert(sub.last() == rows@[i as int]);
        }
        i = i + 1;
    }
    assert(rows@.subrange(0, rows@.len() as int) == rows@);
    csv
}

#[verifier::external_type_specification]
#[verifier::external_body]
pub struct ExSystemTime(std::time::SystemTime);

#[verifier::external_type_specification]
#[verifier::external_body]
pub struct ExSystemTimeError(std::time::SystemTimeError);

/// Reads the clock with `std::time::SystemTime::now`. Nothing is claimed of
/// the time it gives.
#[verifier::external_body]
fn system_time_now() -> std::time::SystemTime {
    std::time::SystemTime::now()
}

/// The time elapsed since the Unix epoch, with
/// `std::time::SystemTime::duration_since(UNIX_EPOCH)`; an error when the
/// clock is before the epoch. Nothing is claimed of the duration.
#[verifier::external_body]
fn since_unix_epoch(t: &std::time::SystemTime) -> std::result::Result<
    std::time::Duration,
    std::time::SystemTimeError,
> {
    t.duration_since(std::time::UNIX_EPOCH)
}

/// The whole seconds of a duration, with `std::time::Duration::as_secs`.
/// Nothing is claimed: the duration is opaque here.
#[verifier::external_body]
fn whole_seconds(d: &std::time::Duration) -> u64 {
    d.as_secs()
}

/// The timestamp recorded for an elapsed time since the epoch: the seconds
/// (as `i64`, wrapping like `as`), or 0 when the clock is before the epoch.
pub fn unix_seconds(elapsed: Option<u64>) -> (t: i64)
    ensures
        t == match elapsed {
            Some(s) => s as i64,
            None => 0i64,
        },
{
    match elapsed {
        Some(s) => s as i64,
        None => 0,
    }
}

/// The current Unix time in seconds (0 if the clock is before the epoch).
pub fn now() -> i64 {
    let t = system_time_now();
    match since_unix_epoch(&t) {
        Ok(d) => unix_seconds(Some(whole_seconds(&d))),
        Err(_) => unix_seconds(None),
    }
}

/// The little-endian bytes of a number, as `to_le_bytes` gives them.
pub open spec fn le_bytes(n: i64) -> Seq<u8> {
    Seq::new(8, |k: int| ((n as u64) >> ((8 * k) as u64)) as u8)
}

/// The schema version as it is stored in the meta table: its eight
/// little-endian bytes.
pub fn schema_version_bytes() -> (b: [u8; 8])
    ensures
        b@ == le_bytes(SCHEMA_VERSION),
{
    let b: [u8; 8] = [2, 0, 0, 0, 0, 0, 0, 0];
    assert(((2u64 >> 0u64) as u8) == 2u8) by (bit_vector);
    assert(((2u64 >> 8u64) as u8) == 0u8) by (bit_vector);
    assert(((2u64 >> 16u64) as u8) == 0u8) by (bit_vector);
    assert(((2u64 >> 24u64) as u8) == 0u8) by (bit_vector);
    assert(((2u64 >> 32u64) as u8) == 0u8) by (bit_vector);
    assert(((2u64 >> 40u64) as u8) == 0u8) by (bit_vector);
    assert(((2u64 >> 48u64) as u8) == 0u8) by (bit_vector);
    assert(((2u64 >> 56u64) as u8) == 0u8) by (bit_vector);
    assert(b@ =~= le_bytes(SCHEMA_VERSION));
    b
}

} // verus!
