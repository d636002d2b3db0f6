//! The `std::path` operations that the library relies on, as trusted
//! wrappers over path text.
//!
//! Each wrapper makes one call into `std::path`; paths cross as UTF-8 text,
//! and the wrapper converts to and from `Path`/`PathBuf`.

use std::path::{Path, PathBuf};
use vstd::prelude::*;

verus! {

/// The text of `Path::new(base).join(rel)`.
pub uninterp spec fn std_path_join(base: Seq<char>, rel: Seq<char>) -> Seq<char>;

/// The text of the `PathBuf` collected (by `FromIterator`, that is one
/// `push` per item) from these segments, starting from an empty path.
pub uninterp spec fn std_path_collect(segments: Seq<Seq<char>>) -> Seq<char>;

/// The text left by `PathBuf::pop` on this path, or `None` where `pop`
/// returns `false` (the path has no parent).
pub uninterp spec fn std_path_pop(path: Seq<char>) -> Option<Seq<char>>;

/// `outcome` is an outcome `std::path::absolute` can have for `path`: the
/// text of the absolute path it returns, or `None` where it fails (for a
/// relative `path` the outcome also depends on the current directory).
pub uninterp spec fn absolute_outcome(path: Seq<char>, outcome: Option<Seq<char>>) -> bool;

/// `Path == Path` on these texts (which compares path components).
pub uninterp spec fn std_path_eq(a: Seq<char>, b: Seq<char>) -> bool;

/// `std::path::Path::join`, read back as text. The contract claims that the
/// text is a function of the two arguments.
#[verifier::external_body]
pub(crate) fn path_join(base: &str, rel: &str) -> (r: String)
    ensures
        r@ == std_path_join(base@, rel@),
{
    Path::new(base).join(rel).to_string_lossy().into_owned()
}

/// `std::path::absolute`, read back as text; `None` where it fails. For a
/// relative argument the result depends on the process's current directory,
/// so the contract claims only that the outcome, success or failure, is one
/// that `absolute` can have for this argument (`absolute_outcome`).
#[verifier::external_body]
pub(crate) fn path_absolute(path: &str) -> (r: Option<String>)
    ensures
        absolute_outcome(
            path@,
            match r {
                Some(a) => Some(a@),
                None => None,
            },
        ),
{
    std::path::absolute(path).ok().map(|p| p.to_string_lossy().into_owned())
}

/// `PathBuf: FromIterator`, collecting the segments one `push` after the
/// other, read back as text. The contract claims that the text is a
/// function of the segments.
#[verifier::external_body]
pub(crate) fn path_from_segments(segments: &Vec<String>) -> (r: String)
    ensures
        r@ == std_path_collect(segments@.map_values(|s: String| s@)),
{
    segments.iter().map(|s| s.as_str()).collect::<PathBuf>().to_string_lossy().into_owned()
}

/// `std::path::PathBuf::pop`: the parent path as text, or `None` where `pop`
/// reports that there is none. The contract claims that the outcome is a
/// function of the path text.
#[verifier::external_body]
pub(crate) fn path_pop(path: &str) -> (r: Option<String>)
    ensures
        match r {
            Some(parent) => std_path_pop(path@) == Some(parent@),
            None => std_path_pop(path@) is None,
        },
{
    let mut buf = PathBuf::from(path);
    if buf.pop() {
        Some(buf.to_string_lossy().into_owned())
    } else {
        None
    }
}

/// `Path`'s `==` on two path texts. The contract claims that the answer is
/// a function of the two texts, and, as `Path` implements `Eq`, that it is
/// reflexive and symmetric.
#[verifier::external_body]
pub(crate) fn paths_equal(a: &str, b: &str) -> (r: bool)
    ensures
        r == std_path_eq(a@, b@),
        r == std_path_eq(b@, a@),
        a@ == b@ ==> r,
{
    Path::new(a) == Path::new(b)
}

} // verus!
