//! Quick connection: a profile made on the fly from "user@host" or "host".
use vstd::prelude::*;
use vstd::string::{StrSliceExecFns, StringExecFns};

use crate::models::{Profile, Protocol, RdpOptions, SshOptions, VncOptions};
use crate::text::opt_chars;

verus! {

/// Whether a character has the Unicode White_Space property, which
/// `char::is_whitespace` tests: U+0009..=U+000D, U+0020, U+0085, U+00A0,
/// U+1680, U+2000..=U+200A, U+2028, U+2029, U+202F, U+205F and U+3000.
pub open spec fn unicode_white_space(c: char) -> bool {
    let v = c as u32;
    ||| 0x09 <= v <= 0x0d
    ||| v == 0x20
    ||| v == 0x85
    ||| v == 0xa0
    ||| v == 0x1680
    ||| 0x2000 <= v <= 0x200a
    ||| v == 0x2028
    ||| v == 0x2029
    ||| v == 0x202f
    ||| v == 0x205f
    ||| v == 0x3000
}

/// Whether a character is white space (what `char::is_whitespace` answers).
pub fn is_whitespace(c: char) -> (b: bool)
    ensures
        b == unicode_white_space(c),
{
    let v = c as u32;
    (0x09 <= v && v <= 0x0d) || v == 0x20 || v == 0x85 || v == 0xa0 || v == 0x1680 || (0x2000 <= v
        && v <= 0x200a) || v == 0x2028 || v == 0x2029 || v == 0x202f || v == 0x205f || v == 0x3000
}

/// The text without its leading white space.
pub open spec fn trim_start_of(s: Seq<char>) -> Seq<char>
    decreases s.len(),
{
    if s.len() > 0 && unicode_white_space(s[0]) {
        trim_start_of(s.drop_first())
    } else {
        s
    }
}

/// The text without its trailing white space.
pub open spec fn trim_end_of(s: Seq<char>) -> Seq<char>
    decreases s.len(),
{
    if s.len() > 0 && unicode_white_space(s.last()) {
        trim_end_of(s.drop_last())
    } else {
        s
    }
}

/// The text without leading and trailing white space (what `trim` gives).
pub open spec fn trim_of(s: Seq<char>) -> Seq<char> {
    trim_end_of(trim_start_of(s))
}

/// Removes the leading and trailing white space of a text.
pub fn trim(s: &str) -> (t: String)
    ensures
        t@ == trim_of(s@),
{
    let n = s.unicode_len();
    let mut start: usize = 0;
    assert(s@.subrange(0, n as int) == s@);
    while start < n && is_whitespace(s.get_char(start))
        invariant
            n == s@.len(),
            start <= n,
            trim_start_of(s@.subrange(start as int, n as int)) == trim_start_of(s@),
        decreases n - start,
    {
        assert(s@.subrange(start as int, n as int).drop_first() == s@.subrange(start + 1, n as int));
        start = start + 1;
    }
    let ghost rest = s@.subrange(start as int, n as int);
    assert(trim_start_of(rest) == rest);
    let mut end: usize = n;
    while end > start && is_whitespace(s.get_char(end - 1))
        invariant
            n == s@.len(),
            start <= end <= n,
            trim_end_of(s@.subrange(start as int, end as int)) == trim_end_of(rest),
        decreases end - start,
    {
        assert(s@.subrange(start as int, end as int).drop_last() == s@.subrange(start as int, end - 1));
        end = end - 1;
    }
    s.substring_char(start, end).to_owned()
}

/// Where the first '@' of a text stands, if it has one.
pub open spec fn first_at(s: Seq<char>, i: int) -> Option<int>
    decreases s.len() - i,
{
    if i < 0 || i >= s.len() {
        None
    } else if s[i] == '@' {
        Some(i)
    } else {
        first_at(s, i + 1)
    }
}

/// The login and host of a quick-connection text: "user@host" splits at the
/// first '@', a text without one is a host.
pub open spec fn quick_target(t: Seq<char>) -> (Option<Seq<char>>, Seq<char>) {
    match first_at(t, 0) {
        Some(i) => (Some(t.subrange(0, i)), t.subrange(i + 1, t.len() as int)),
        None => (None, t),
    }
}

fn find_at(s: &str, n: usize) -> (r: Option<usize>)
    requires
        n == s@.len(),
    ensures
        match r {
            Some(i) => first_at(s@, 0) == Some(i as int) && i < n,
            None => first_at(s@, 0) is None,
        },
{
    let mut i: usize = 0;
    while i < n
        invariant
            n == s@.len(),
            i <= n,
            first_at(s@, i as int) == first_at(s@, 0),
        decreases n - i,
    {
        if s.get_char(i) == '@' {
            return Some(i);
        }
        i = i + 1;
    }
    None
}

/// The SSH profile of a quick connection: named after the host, port 22,
/// default options, nothing stored.
pub open spec fn is_quick_profile(p: Profile, user: Option<Seq<char>>, host: Seq<char>) -> bool {
    &&& p.id == 0
    &&& p.name@ == host
    &&& p.protocol == Protocol::Ssh
    &&& p.host@ == host
    &&& p.port == 22
    &&& opt_chars(p.username) == user
    &&& p.password is None
    &&& p.ssh_key_path is None
    &&& p.ssh_key_passphrase is None
    &&& p.root_password is None
    &&& p.group_id is None
    &&& p.tags@.len() == 0
    &&& p.icon is None
    &&& p.notes is None
    &&& p.rdp_options.is_default()
    &&& p.vnc_options.is_default()
    &&& p.ssh_options.is_default()
    &&& p.created_at == 0
    &&& p.updated_at == 0
    &&& p.last_connected_at is None
}

/// Parses a quick connection "user@host" or "host" (surrounding white space
/// ignored) into an SSH profile; nothing for an empty text.
pub fn quick_profile(text: &str) -> (r: Option<Profile>)
    ensures
        trim_of(text@).len() == 0 ==> r is None,
        trim_of(text@).len() > 0 ==> (r matches Some(p) && is_quick_profile(
            p,
            quick_target(trim_of(text@)).0,
            quick_target(trim_of(text@)).1,
        )),
{
    let t = trim(text);
    let n = t.as_str().unicode_len();
    if n == 0 {
        return None;
    }
    let ts = t.as_str();
    let found = find_at(ts, n);
    let username: Option<String>;
    let host: String;
    match found {
        Some(i) => {
            let u = ts.substring_char(0, i).to_owned();
            let h = ts.substring_char(i + 1, n).to_owned();
            username = Some(u);
            host = h;
        },
        None => {
            username = None;
            host = t.clone();
        },
    }
    Some(
        Profile {
            id: 0,
            name: host.clone(),
            protocol: Protocol::Ssh,
            host,
            port: 22,
            username,
            password: None,
            ssh_key_path: None,
            ssh_key_passphrase: None,
            root_password: None,
            group_id: None,
            tags: Vec::new(),
            icon: None,
            notes: None,
            rdp_options: RdpOptions::default(),
            vnc_options: VncOptions::default(),
            ssh_options: SshOptions::default(),
            created_at: 0,
            updated_at: 0,
            last_connected_at: None,
        },
    )
}

} // verus!
