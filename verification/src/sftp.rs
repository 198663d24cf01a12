//! The two-pane SFTP client: what a directory listing shows of each entry.
use vstd::prelude::*;

verus! {

/// A row of the remote listing: name, size in bytes, modification time.
/// A missing name reads as empty, a missing size or time as 0; the time is
/// taken as `i64` as `as` takes it.
pub fn listing_entry(name: Option<String>, size: Option<u64>, mtime: Option<u64>) -> (e: (
    String,
    u64,
    i64,
))
    ensures
        e.0@ == (match name {
            Some(n) => n@,
            None => Seq::<char>::empty(),
        }),
        e.1 == (match size {
            Some(s) => s,
            None => 0u64,
        }),
        e.2 == (match mtime {
            Some(t) => t as i64,
            None => 0i64,
        }),
{
    let n = match name {
        Some(n) => n,
        None => String::new(),
    };
    let s: u64 = match size {
        Some(s) => s,
        None => 0,
    };
    let t: i64 = match mtime {
        Some(t) => t as i64,
        None => 0,
    };
    (n, s, t)
}

} // verus!
