//! Files of the application data directory (request history, cookie jar).
//! Which directory that is, and creating it, is the caller's part; the
//! directory and the files are handled here as path text.

use vstd::prelude::*;

verus! {

/// The path text that `Path::join` makes of `name` joined onto the
/// directory `dir`.
pub uninterp spec fn joined(dir: Seq<char>, name: Seq<char>) -> Seq<char>;

/// `std::path::Path::join`: `name` joined onto `dir`, as text. The result
/// depends on the two texts alone; joining valid text gives valid text, so
/// the conversion back loses nothing.
#[verifier::external_body]
fn join_path(dir: &str, name: &str) -> (r: String)
    ensures
        r@ == joined(dir@, name@),
{
    std::path::Path::new(dir).join(name).to_string_lossy().into_owned()
}

/// The path of `name` inside the data directory `dir`; nothing when no data
/// directory could be determined.
pub fn data_file(dir: Option<String>, name: &str) -> (r: Option<String>)
    ensures
        match dir {
            Some(d) => r matches Some(p) && p@ == joined(d@, name@),
            None => r is None,
        },
{
    match dir {
        Some(d) => Some(join_path(d.as_str(), name)),
        None => None,
    }
}

/// The cookie jar file `cookies.json` in the data directory `dir`.
pub fn cookies_path(dir: Option<String>) -> (r: Option<String>)
    ensures
        match dir {
            Some(d) => r matches Some(p) && p@ == joined(d@, "cookies.json"@),
            None => r is None,
        },
{
    data_file(dir, "cookies.json")
}

} // verus!
