//! Where the application keeps its data.
use vstd::prelude::*;
use vstd::string::{StrSliceExecFns, StringExecFns};

verus! {

/// A path appended to a path, as `Path::join` appends it on Unix: an
/// absolute path replaces the base; a relative one follows it, with a '/'
/// between them unless the base is empty or already ends with one.
pub open spec fn path_join(base: Seq<char>, part: Seq<char>) -> Seq<char> {
    if part.len() > 0 && part[0] == '/' {
        part
    } else if base.len() == 0 {
        part
    } else if base.last() == '/' {
        base + part
    } else {
        base.push('/') + part
    }
}

/// Joins a path to a path.
pub fn join_component(base: String, part: &str) -> (r: String)
    ensures
        r@ == path_join(base@, part@),
{
    if part.unicode_len() > 0 && part.get_char(0) == '/' {
        return String::from_str(part);
    }
    let n = base.as_str().unicode_len();
    if n == 0 {
        return String::from_str(part);
    }
    let mut r = base;
    if r.as_str().get_char(n - 1) != '/' {
        proof {
            reveal_strlit("/");
        }
        r.append("/");
    }
    r.append(part);
    r
}

/// Joins a path to a path, as `Path::join` does.
pub fn join_path(base: &str, part: &str) -> (r: String)
    ensures
        r@ == path_join(base@, part@),
{
    join_component(String::from_str(base), part)
}

/// The data directory under a home directory: `<home>/.local/share/remotix`,
/// with "." as the home when `HOME` is not set.
pub open spec fn data_dir_of(home: Option<Seq<char>>) -> Seq<char> {
    let h = match home {
        Some(x) => x,
        None => "."@,
    };
    path_join(path_join(path_join(h, ".local"@), "share"@), "remotix"@)
}

/// The application's data directory, given the value of `HOME` if set.
pub fn data_dir(home: Option<String>) -> (d: String)
    ensures
        d@ == data_dir_of(crate::text::opt_chars(home)),
{
    let h = match home {
        Some(x) => x,
        None => String::from_str("."),
    };
    let a = join_component(h, ".local");
    let b = join_component(a, "share");
    join_component(b, "remotix")
}

/// The path of the database file in the data directory.
pub fn db_path(data_dir: &str) -> (p: String)
    ensures
        p@ == path_join(data_dir@, "remotix.db"@),
{
    join_path(data_dir, "remotix.db")
}

} // verus!
