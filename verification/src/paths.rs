//! The two operations on paths that the library needs, through `std::path`.
//! Both follow the path syntax of the platform the crate is built for.

use vstd::prelude::*;
use std::path::Path;

verus! {

/// The last component of the path `dir`, as `Path::file_name` gives it:
/// `None` when the path ends in `..` or has no normal component at all.
pub uninterp spec fn path_file_name(dir: Seq<char>) -> Option<Seq<char>>;

/// The path `file` joined onto `dir`, as `Path::join` gives it (an absolute
/// `file` replaces `dir`).
pub uninterp spec fn path_joined(dir: Seq<char>, file: Seq<char>) -> Seq<char>;

/// Calls `Path::file_name` on `dir`. The contract only names the result: it
/// is a function of the text of the path.
#[verifier::external_body]
pub(crate) fn file_name(dir: &str) -> (r: Option<String>)
    ensures
        match r {
            Some(n) => path_file_name(dir@) == Some(n@),
            None => path_file_name(dir@) is None,
        },
{
    match Path::new(dir).file_name() {
        Some(n) => Some(n.to_string_lossy().into_owned()),
        None => None,
    }
}

/// Calls `Path::join` with `dir` and `file`. The contract only names the
/// result: it is a function of the two texts.
#[verifier::external_body]
pub(crate) fn join(dir: &str, file: &str) -> (r: String)
    ensures
        r@ == path_joined(dir@, file@),
{
    Path::new(dir).join(file).to_string_lossy().into_owned()
}

} // verus!
