//! Key derivation and sealing of secrets: Argon2id turns the master password
//! into a 32-byte key, AES-256-GCM seals each secret under a fresh nonce.
use vstd::prelude::*;

use aes_gcm::aead::{Aead, KeyInit, OsRng};
use aes_gcm::{Aes256Gcm, Key, Nonce};
use rand::RngCore;
use vstd::slice::slice_subrange;
use vstd::utf8::encode_utf8;

verus! {

/// Length of the Argon2id salt in bytes.
pub const SALT_LEN: usize = 16;

/// Length of the AES-256-GCM nonce in bytes.
pub const NONCE_LEN: usize = 12;

/// Length of the AES-256-GCM authentication tag in bytes.
pub const TAG_LEN: usize = 16;

/// The message of the error when the operating system gives no random bytes.
pub open spec fn random_failure() -> Seq<char> {
    "ОС не выдала случайные байты"@
}

/// Largest plaintext that AES-256-GCM seals: 2^36 bytes.
pub const PLAINTEXT_MAX: u64 = 68719476736;

/// Largest ciphertext body (without the tag) that AES-256-GCM opens:
/// 2^36 + 16 bytes.
pub const CIPHERTEXT_MAX: u64 = 68719476752;

/// Argon2id cost parameters, kept in the store beside the salt.
#[derive(Clone, Copy, Debug)]
pub struct Argon2Params {
    pub memory_kib: u32,
    pub iterations: u32,
    pub parallelism: u32,
}

impl Argon2Params {
    /// The parameters with which a new store is created:
    /// 64 MiB of memory, three passes, four lanes.
    pub open spec fn is_default(self) -> bool {
        self.memory_kib == 65536 && self.iterations == 3 && self.parallelism == 4
    }
}

impl Default for Argon2Params {
    fn default() -> (p: Self)
        ensures
            p.is_default(),
    {
        Argon2Params { memory_kib: 65536, iterations: 3, parallelism: 4 }
    }
}

/// The inputs on which Argon2id (version 0x13, 32-byte output) computes a key
/// rather than rejecting them.
pub open spec fn argon2_accepts(password_len: nat, salt_len: nat, params: Argon2Params) -> bool {
    &&& params.memory_kib >= 8
    &&& params.memory_kib >= 8 * params.parallelism
    &&& params.iterations >= 1
    &&& 1 <= params.parallelism <= 0xFFFFFF
    &&& password_len <= 0xFFFFFFFF
    &&& 8 <= salt_len <= 0xFFFFFFFF
}

/// The cost parameters that `argon2::Params::new` accepts.
pub open spec fn argon2_params_ok(params: Argon2Params) -> bool {
    &&& params.memory_kib >= 8
    &&& params.memory_kib >= 8 * params.parallelism
    &&& params.iterations >= 1
    &&& 1 <= params.parallelism <= 0xFFFFFF
}

/// Why Argon2id would refuse to derive a key.
#[derive(Debug, Clone, Copy, PartialEq, Eq, Structural)]
pub enum Argon2Refusal {
    /// The cost parameters are out of range.
    Params,
    /// The password is too long or the salt too short or too long.
    Inputs,
}

/// Tells whether Argon2id derives a key from these inputs, and if not, why:
/// the parameters are checked first, then the password and the salt.
pub fn argon2_refusal(master_password: &str, salt: &[u8], params: &Argon2Params) -> (r: Option<
    Argon2Refusal,
>)
    ensures
        r is None <==> argon2_accepts(encode_utf8(master_password@).len(), salt@.len(), *params),
        r == Some(Argon2Refusal::Params) <==> !argon2_params_ok(*params),
{
    let m = params.memory_kib as u64;
    let p = params.parallelism as u64;
    if m < 8 || m < 8 * p || params.iterations < 1 || p < 1 || p > 0xFFFFFF {
        return Some(Argon2Refusal::Params);
    }
    let pw = master_password.as_bytes().len() as u64;
    let sl = salt.len() as u64;
    if pw > 0xFFFFFFFF || sl < 8 || sl > 0xFFFFFFFF {
        return Some(Argon2Refusal::Inputs);
    }
    None
}

/// The 32-byte key that Argon2id (version 0x13) derives from a password and a
/// salt under the given memory, pass and lane counts.
pub uninterp spec fn argon2id_key(
    password: Seq<u8>,
    salt: Seq<u8>,
    memory_kib: u32,
    iterations: u32,
    parallelism: u32,
) -> Seq<u8>;

/// The ciphertext (with its 16-byte tag appended) that AES-256-GCM produces
/// for a key, a nonce and a plaintext, with no associated data.
pub uninterp spec fn aes256gcm_seal(key: Seq<u8>, nonce: Seq<u8>, plaintext: Seq<u8>) -> Seq<u8>;

/// What AES-256-GCM opens from a ciphertext under a key and a nonce, with no
/// associated data: the plaintext, or nothing when the tag does not verify.
pub uninterp spec fn aes256gcm_open(key: Seq<u8>, nonce: Seq<u8>, ciphertext: Seq<u8>) -> Option<
    Seq<u8>,
>;

/// Derives a key with `argon2::Argon2::hash_password_into` (Argon2id, version
/// 0x13, a 32-byte output), building the context with `argon2::Params::new`.
/// Claimed: the call yields a key exactly when the inputs pass the checks that
/// `Params::new` and `hash_password_into` make in argon2 0.5, and that key is
/// `argon2id_key` of the inputs. Not stated: the working memory of
/// `memory_kib` KiB is allocated, and a failed allocation aborts the process.
#[verifier::external_body]
fn argon2id_hash(password: &[u8], salt: &[u8], memory_kib: u32, iterations: u32, parallelism: u32) -> (r: Option<[u8; 32]>)
    requires
        parallelism <= 0xFFFFFF,
    ensures
        r is Some <==> argon2_accepts(
            password@.len(),
            salt@.len(),
            Argon2Params { memory_kib, iterations, parallelism },
        ),
        r matches Some(k) ==> k@ == argon2id_key(password@, salt@, memory_kib, iterations, parallelism),
{
    let params = match argon2::Params::new(memory_kib, iterations, parallelism, Some(32)) {
        Ok(p) => p,
        Err(_) => return None,
    };
    let ctx = argon2::Argon2::new(argon2::Algorithm::Argon2id, argon2::Version::V0x13, params);
    let mut key = [0u8; 32];
    match ctx.hash_password_into(password, salt, &mut key) {
        Ok(()) => Some(key),
        Err(_) => None,
    }
}

/// Seals with `aes_gcm::Aes256Gcm::encrypt` (no associated data). Claimed: it
/// succeeds exactly when the plaintext is at most 2^36 bytes (the `P_MAX` check
/// of aes-gcm 0.10), the ciphertext is `aes256gcm_seal` of the inputs, it is
/// as long as the plaintext plus the 16-byte tag that `encrypt_in_place`
/// appends, and opening it under the same key and nonce gives the plaintext
/// back (the defining property of an AEAD).
#[verifier::external_body]
fn aes256gcm_encrypt(key: &[u8; 32], nonce: &[u8], plaintext: &[u8]) -> (r: Option<Vec<u8>>)
    requires
        nonce@.len() == NONCE_LEN,
    ensures
        r is Some <==> plaintext@.len() <= PLAINTEXT_MAX,
        r matches Some(c) ==> c@ == aes256gcm_seal(key@, nonce@, plaintext@),
        r matches Some(c) ==> c@.len() == plaintext@.len() + TAG_LEN,
        r matches Some(c) ==> aes256gcm_open(key@, nonce@, c@) == Some(plaintext@),
{
    let cipher = Aes256Gcm::new(Key::<Aes256Gcm>::from_slice(key));
    cipher.encrypt(Nonce::from_slice(nonce), plaintext).ok()
}

/// Opens with `aes_gcm::Aes256Gcm::decrypt` (no associated data). Claimed: the
/// result is `aes256gcm_open` of the inputs, and a plaintext it yields is at
/// most 2^36 + 16 bytes (aes-gcm 0.10 rejects a ciphertext whose body, the
/// part before the 16-byte tag, is longer than `C_MAX`).
#[verifier::external_body]
fn aes256gcm_decrypt(key: &[u8; 32], nonce: &[u8], ciphertext: &[u8]) -> (r: Option<Vec<u8>>)
    requires
        nonce@.len() == NONCE_LEN,
    ensures
        r is Some <==> aes256gcm_open(key@, nonce@, ciphertext@) is Some,
        r matches Some(p) ==> aes256gcm_open(key@, nonce@, ciphertext@) == Some(p@),
        r matches Some(p) ==> p@.len() <= CIPHERTEXT_MAX,
{
    let cipher = Aes256Gcm::new(Key::<Aes256Gcm>::from_slice(key));
    cipher.decrypt(Nonce::from_slice(nonce), ciphertext).ok()
}

/// Fills a buffer from the operating system's generator with
/// `rand::RngCore::try_fill_bytes` on `OsRng`. Claimed: the buffer keeps its
/// length, and the result tells whether the generator gave the bytes (it
/// fails when the operating system refuses them). The bytes are random.
#[verifier::external_body]
fn fill_random(buf: &mut [u8]) -> (filled: bool)
    ensures
        final(buf)@.len() == old(buf)@.len(),
{
    OsRng.try_fill_bytes(buf).is_ok()
}

/// Appends the bytes of a slice to a vector.
pub fn extend_bytes(out: &mut Vec<u8>, src: &[u8])
    ensures
        final(out)@ == old(out)@ + src@,
{
    let mut i: usize = 0;
    while i < src.len()
        invariant
            i <= src@.len(),
            out@ == old(out)@ + src@.subrange(0, i as int),
        decreases src@.len() - i,
    {
        out.push(src[i]);
        i = i + 1;
        assert(src@.subrange(0, i as int) == src@.subrange(0, i - 1) + seq![src@[i - 1]]);
    }
    assert(src@.subrange(0, src@.len() as int) == src@);
}

/// Derives the 32-byte encryption key from the master password (Argon2id).
pub fn derive_key(master_password: &str, salt: &[u8], params: &Argon2Params) -> (key: [u8; 32])
    requires
        argon2_accepts(encode_utf8(master_password@).len(), salt@.len(), *params),
    ensures
        key@ == argon2id_key(
            encode_utf8(master_password@),
            salt@,
            params.memory_kib,
            params.iterations,
            params.parallelism,
        ),
{
    match argon2id_hash(
        master_password.as_bytes(),
        salt,
        params.memory_kib,
        params.iterations,
        params.parallelism,
    ) {
        Some(k) => k,
        None => [0u8; 32],
    }
}

/// What a sealed blob (nonce followed by ciphertext) opens to under a key.
pub open spec fn open_blob(key: Seq<u8>, blob: Seq<u8>) -> Option<Seq<u8>> {
    if blob.len() < NONCE_LEN {
        None
    } else {
        aes256gcm_open(
            key,
            blob.subrange(0, NONCE_LEN as int),
            blob.subrange(NONCE_LEN as int, blob.len() as int),
        )
    }
}

/// The blob is a sealing of the plaintext under the key: a 12-byte nonce,
/// then the AES-256-GCM ciphertext with its tag, 28 bytes longer than the
/// plaintext in all; it opens to the plaintext under the same key.
pub open spec fn is_sealing(key: Seq<u8>, plaintext: Seq<u8>, blob: Seq<u8>) -> bool {
    &&& blob.len() == NONCE_LEN + plaintext.len() + TAG_LEN
    &&& blob.subrange(NONCE_LEN as int, blob.len() as int) == aes256gcm_seal(
        key,
        blob.subrange(0, NONCE_LEN as int),
        plaintext,
    )
    &&& open_blob(key, blob) == Some(plaintext)
}

/// Seals data with AES-256-GCM under the given nonce and returns
/// nonce || ciphertext.
pub fn seal_with_nonce(key: &[u8; 32], nonce: &[u8; NONCE_LEN], plaintext: &[u8]) -> (blob: Vec<u8>)
    requires
        plaintext@.len() <= PLAINTEXT_MAX,
    ensures
        is_sealing(key@, plaintext@, blob@),
        blob@.subrange(0, NONCE_LEN as int) == nonce@,
{
    let ct = match aes256gcm_encrypt(key, nonce, plaintext) {
        Some(c) => c,
        None => Vec::new(),
    };
    let mut out: Vec<u8> = Vec::new();
    extend_bytes(&mut out, nonce);
    extend_bytes(&mut out, ct.as_slice());
    assert(out@.subrange(0, NONCE_LEN as int) == nonce@);
    assert(out@.subrange(NONCE_LEN as int, out@.len() as int) == ct@);
    out
}

/// Seals data with AES-256-GCM under a fresh random nonce and returns
/// nonce || ciphertext; an error when the operating system gives no random
/// nonce.
pub fn encrypt(key: &[u8; 32], plaintext: &[u8]) -> (r: Result<Vec<u8>, String>)
    requires
        plaintext@.len() <= PLAINTEXT_MAX,
    ensures
        r matches Ok(blob) ==> is_sealing(key@, plaintext@, blob@),
        r matches Err(e) ==> e@ == random_failure(),
{
    match new_nonce() {
        Ok(nonce) => Ok(seal_with_nonce(key, &nonce, plaintext)),
        Err(e) => Err(e),
    }
}

/// Opens a blob produced by `encrypt` (nonce || ciphertext).
pub fn decrypt(key: &[u8; 32], blob: &[u8]) -> (r: Result<Vec<u8>, String>)
    ensures
        blob@.len() < NONCE_LEN ==> (r matches Err(e) && e@ == "повреждённый шифротекст"@),
        blob@.len() >= NONCE_LEN ==> (r is Ok <==> open_blob(key@, blob@) is Some),
        r matches Ok(p) ==> open_blob(key@, blob@) == Some(p@),
        r matches Ok(p) ==> p@.len() <= CIPHERTEXT_MAX,
        blob@.len() >= NONCE_LEN && r is Err ==> (r matches Err(e) && e@
            == "неверный мастер-пароль или повреждённые данные"@),
{
    if blob.len() < NONCE_LEN {
        return Err(String::from_str("повреждённый шифротекст"));
    }
    let nonce = slice_subrange(blob, 0, NONCE_LEN);
    let ct = slice_subrange(blob, NONCE_LEN, blob.len());
    match aes256gcm_decrypt(key, nonce, ct) {
        Some(p) => Ok(p),
        None => Err(String::from_str("неверный мастер-пароль или повреждённые данные")),
    }
}

/// Compares two byte sequences.
pub fn bytes_eq(a: &[u8], b: &[u8]) -> (r: bool)
    ensures
        r == (a@ == b@),
{
    if a.len() != b.len() {
        return false;
    }
    let mut i: usize = 0;
    while i < a.len()
        invariant
            a@.len() == b@.len(),
            i <= a@.len(),
            forall|j: int| 0 <= j < i ==> a@[j] == b@[j],
        decreases a@.len() - i,
    {
        if a[i] != b[i] {
            return false;
        }
        i = i + 1;
    }
    assert(a@ == b@);
    true
}

/// Draws a fresh random nonce; an error when the operating system gives no
/// random bytes.
pub fn new_nonce() -> (r: Result<[u8; NONCE_LEN], String>)
    ensures
        r matches Err(e) ==> e@ == random_failure(),
{
    let mut nonce = [0u8; NONCE_LEN];
    if fill_random(&mut nonce) {
        Ok(nonce)
    } else {
        Err(String::from_str("ОС не выдала случайные байты"))
    }
}

/// Generates a new random salt; an error when the operating system gives
/// no random bytes.
pub fn new_salt() -> (r: Result<[u8; SALT_LEN], String>)
    ensures
        r matches Err(e) ==> e@ == random_failure(),
{
    let mut salt = [0u8; SALT_LEN];
    if fill_random(&mut salt) {
        Ok(salt)
    } else {
        Err(String::from_str("ОС не выдала случайные байты"))
    }
}

} // verus!
