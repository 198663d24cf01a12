//! SSH (libssh2): the choice of authentication, the two-step login through
//! `su -`, and the recognition of the password prompt.
use vstd::prelude::*;
use vstd::string::{StrSliceExecFns, StringExecFns};

use crate::models::Profile;
use crate::text::{lossy_text, string_from_utf8_lossy};

verus! {

/// How an SSH session authenticates.
#[derive(Debug)]
pub enum SshAuth {
    /// Through the identities of the running ssh-agent.
    Agent,
    /// With a private key file, optionally protected by a passphrase.
    KeyFile { path: String, passphrase: Option<String> },
    /// With a password (sent over the encrypted channel).
    Password(String),
}

/// Chooses the authentication of a profile: a profile with a key path uses
/// the agent when it asks for it and an agent is available, else the key
/// file; a profile without one uses its password (empty when none).
pub fn ssh_auth(p: &Profile, agent_available: bool) -> (a: SshAuth)
    ensures
        match p.ssh_key_path {
            Some(path) => if p.ssh_options.use_agent && agent_available {
                a is Agent
            } else {
                a matches SshAuth::KeyFile { path: k, passphrase: pp } && k@ == path@
                    && crate::text::opt_chars(pp) == crate::text::opt_chars(p.ssh_key_passphrase)
            },
            None => a matches SshAuth::Password(pw) && pw@ == (match p.password {
                Some(x) => x@,
                None => Seq::<char>::empty(),
            }),
        },
{
    match &p.ssh_key_path {
        Some(path) => {
            if p.ssh_options.use_agent && agent_available {
                SshAuth::Agent
            } else {
                SshAuth::KeyFile {
                    path: path.clone(),
                    passphrase: crate::text::clone_opt_string(&p.ssh_key_passphrase),
                }
            }
        },
        None => {
            let pw = match &p.password {
                Some(x) => x.clone(),
                None => String::new(),
            };
            SshAuth::Password(pw)
        },
    }
}

/// The local user name: the value of `USER` when it is set, else "root".
pub fn local_user(user_env: Option<String>) -> (u: String)
    ensures
        u@ == (match user_env {
            Some(x) => x@,
            None => "root"@,
        }),
{
    match user_env {
        Some(x) => x,
        None => String::from_str("root"),
    }
}

/// The user an SSH session logs in as: the profile's login, else the local
/// user.
pub fn ssh_username(p: &Profile, local: String) -> (u: String)
    ensures
        u@ == (match p.username {
            Some(x) => x@,
            None => local@,
        }),
{
    match &p.username {
        Some(x) => x.clone(),
        None => local,
    }
}

/// The profile asks for the two-step login (su to root) and has a root
/// password.
pub open spec fn wants_su_of(p: Profile) -> bool {
    p.ssh_options.su_to_root && p.root_password is Some
}

/// Whether the session runs `su -` after logging in.
pub fn wants_su(p: &Profile) -> (b: bool)
    ensures
        b == wants_su_of(*p),
        b ==> p.ssh_options.su_to_root,
        b ==> p.root_password is Some,
        p.ssh_options.su_to_root && p.root_password is Some ==> b,
{
    p.ssh_options.su_to_root && p.root_password.is_some()
}

/// The root password that answers the prompt of `su -`: an error when the
/// profile has none or an empty one.
pub fn su_password(p: &Profile) -> (r: Result<String, String>)
    ensures
        match p.root_password {
            Some(x) => if x@.len() > 0 {
                r matches Ok(s) && s@ == x@
            } else {
                r matches Err(e) && e@ == "в профиле не задан пароль root"@
            },
            None => r matches Err(e) && e@ == "в профиле не задан пароль root"@,
        },
{
    match &p.root_password {
        Some(x) => {
            if x.as_str().unicode_len() > 0 {
                Ok(x.clone())
            } else {
                Err(String::from_str("в профиле не задан пароль root"))
            }
        },
        None => Err(String::from_str("в профиле не задан пароль root")),
    }
}

/// `pattern` occurs in `s` at position `i`.
pub open spec fn occurs_at(s: Seq<char>, pattern: Seq<char>, i: int) -> bool {
    0 <= i && i + pattern.len() <= s.len() && s.subrange(i, i + pattern.len()) == pattern
}

/// `pattern` occurs in `s`.
pub open spec fn occurs_in(s: Seq<char>, pattern: Seq<char>) -> bool {
    exists|i: int| occurs_at(s, pattern, i)
}

fn matches_at(s: &str, n: usize, pattern: &str, m: usize, i: usize) -> (r: bool)
    requires
        n == s@.len(),
        m == pattern@.len(),
        i + m <= n,
    ensures
        r == occurs_at(s@, pattern@, i as int),
{
    let mut j: usize = 0;
    while j < m
        invariant
            n == s@.len(),
            m == pattern@.len(),
            i + m <= n,
            j <= m,
            forall|k: int| 0 <= k < j ==> s@[i + k] == pattern@[k],
        decreases m - j,
    {
        if s.get_char(i + j) != pattern.get_char(j) {
            assert(s@.subrange(i as int, i + m)[j as int] != pattern@[j as int]);
            return false;
        }
        j = j + 1;
    }
    assert(s@.subrange(i as int, i + m) =~= pattern@);
    true
}

/// Whether `pattern` occurs in `s`.
pub fn contains_text(s: &str, pattern: &str) -> (r: bool)
    ensures
        r == occurs_in(s@, pattern@),
{
    let n = s.unicode_len();
    let m = pattern.unicode_len();
    if m > n {
        assert forall|i: int| !occurs_at(s@, pattern@, i) by {}
        return false;
    }
    let mut i: usize = 0;
    while i <= n - m
        invariant
            n == s@.len(),
            m == pattern@.len(),
            m <= n,
            i <= n - m + 1,
            forall|k: int| 0 <= k < i ==> !occurs_at(s@, pattern@, k),
        decreases n - m + 1 - i,
    {
        if matches_at(s, n, pattern, m, i) {
            return true;
        }
        if i == n - m {
            assert forall|k: int| !occurs_at(s@, pattern@, k) by {
                if 0 <= k && k + m <= n {
                    assert(k <= i);
                }
            }
            return false;
        }
        i = i + 1;
    }
    assert forall|k: int| !occurs_at(s@, pattern@, k) by {
        if 0 <= k && k + m <= n {
            assert(k < i);
        }
    }
    false
}

/// The output of `su -` so far asks for the password ("Password:" or
/// "Пароль:", matched without the first letter).
pub open spec fn is_password_prompt_of(seen: Seq<char>) -> bool {
    occurs_in(seen, "assword"@) || occurs_in(seen, "ароль"@)
}

/// Whether the output seen so far asks for the password.
pub fn is_password_prompt(seen: &str) -> (b: bool)
    ensures
        b == is_password_prompt_of(seen@),
{
    contains_text(seen, "assword") || contains_text(seen, "ароль")
}

/// Watches the output of `su -` for the password prompt. The raw bytes are
/// kept, so a character split between two reads is decoded whole.
pub struct PromptWatcher {
    seen: Vec<u8>,
}

impl PromptWatcher {
    /// The bytes seen so far.
    pub closed spec fn spec_seen(&self) -> Seq<u8> {
        self.seen@
    }

    pub fn new() -> (w: Self)
        ensures
            w.spec_seen() == Seq::<u8>::empty(),
    {
        PromptWatcher { seen: Vec::new() }
    }

    /// Adds a chunk of output to the bytes seen and tells whether their text
    /// (decoded as a whole, lossily) now holds the password prompt.
    pub fn feed(&mut self, chunk: &[u8]) -> (prompted: bool)
        ensures
            final(self).spec_seen() == old(self).spec_seen() + chunk@,
            prompted == is_password_prompt_of(lossy_text(final(self).spec_seen())),
    {
        crate::crypto::extend_bytes(&mut self.seen, chunk);
        let text = string_from_utf8_lossy(self.seen.as_slice());
        is_password_prompt(text.as_str())
    }
}

} // verus!
