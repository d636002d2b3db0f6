//! The glob matching that the library borrows from `globset`.
//!
//! Every item here is trusted: its contract is read off the `globset` source
//! and is not proved. The library's own logic around these calls lives in
//! `patterns` and `watch`.

use globset::{Glob, GlobSet, GlobSetBuilder};
use vstd::prelude::*;

verus! {

#[verifier::external_type_specification]
#[verifier::external_body]
pub struct ExGlob(Glob);

#[verifier::external_type_specification]
#[verifier::external_body]
pub struct ExGlobSet(GlobSet);

#[verifier::external_type_specification]
#[verifier::external_body]
pub struct ExGlobSetBuilder(GlobSetBuilder);

#[verifier::external_type_specification]
#[verifier::external_body]
pub struct ExGlobError(globset::Error);

/// The pattern text a `Glob` was built from (what `Glob::glob` returns).
pub uninterp spec fn glob_text(g: Glob) -> Seq<char>;

/// The pattern texts of the globs added to a builder, in the order added.
pub uninterp spec fn builder_globs(b: GlobSetBuilder) -> Seq<Seq<char>>;

/// The pattern texts of the globs a set was built from, in order.
pub uninterp spec fn set_globs(s: GlobSet) -> Seq<Seq<char>>;

/// The glob was built with default options, as `Glob::new` builds it.
pub uninterp spec fn glob_default(g: Glob) -> bool;

/// Every glob added to the builder was built with default options.
pub uninterp spec fn builder_default(b: GlobSetBuilder) -> bool;

/// Every glob of the set was built with default options.
pub uninterp spec fn set_default(s: GlobSet) -> bool;

/// Whether `Glob::new` accepts the pattern text (with the default options
/// of the platform the library is built for).
pub uninterp spec fn glob_parses(pattern: Seq<char>) -> bool;

/// Whether `GlobSet::new` (through `GlobSetBuilder::build`) succeeds on
/// globs with these pattern texts, all built with default options.
pub uninterp spec fn globset_builds(globs: Seq<Seq<char>>) -> bool;

/// Whether a set built from globs with these pattern texts, all with
/// default options, matches `path`.
pub uninterp spec fn globset_is_match(globs: Seq<Seq<char>>, path: Seq<char>) -> bool;

/// `globset::Glob::new`: builds a glob with default options. The contract
/// claims that success depends on the pattern text alone and that the glob
/// keeps that text and has default options.
#[verifier::external_body]
pub(crate) fn glob_new(pattern: &str) -> (r: Result<Glob, globset::Error>)
    ensures
        r is Ok <==> glob_parses(pattern@),
        r matches Ok(g) ==> glob_text(g) == pattern@ && glob_default(g),
{
    Glob::new(pattern)
}

/// `globset::GlobSetBuilder::new`: a builder with no globs.
#[verifier::external_body]
pub(crate) fn builder_new() -> (r: GlobSetBuilder)
    ensures
        builder_globs(r) == Seq::<Seq<char>>::empty(),
        builder_default(r),
{
    GlobSetBuilder::new()
}

/// `globset::GlobSetBuilder::add`: appends the glob to the builder's list.
#[verifier::external_body]
pub(crate) fn builder_add(b: &mut GlobSetBuilder, g: Glob)
    ensures
        builder_globs(*final(b)) == builder_globs(*old(b)).push(glob_text(g)),
        builder_default(*final(b)) == (builder_default(*old(b)) && glob_default(g)),
{
    b.add(g);
}

/// `globset::GlobSetBuilder::build`: builds a set from the globs added so
/// far. The contract claims that, where every glob has default options,
/// success depends on their pattern texts alone; that the set is made of
/// exactly those globs, with their options; and that a set built from no
/// globs always succeeds (the source returns `GlobSet::empty()` then).
#[verifier::external_body]
pub(crate) fn builder_build(b: &GlobSetBuilder) -> (r: Result<GlobSet, globset::Error>)
    ensures
        builder_default(*b) ==> (r is Ok <==> globset_builds(builder_globs(*b))),
        r matches Ok(s) ==> set_globs(s) == builder_globs(*b) && set_default(s) == builder_default(*b),
        builder_globs(*b).len() == 0 ==> r is Ok,
{
    b.build()
}

/// `globset::GlobSet::empty`: a set of no globs, which matches nothing.
#[verifier::external_body]
pub(crate) fn set_empty() -> (r: GlobSet)
    ensures
        set_globs(r) == Seq::<Seq<char>>::empty(),
        set_default(r),
{
    GlobSet::empty()
}

/// `globset::GlobSet::is_match` on a path given as text. The contract claims
/// that, for a set whose globs all have default options, the answer is a
/// function of the set's pattern texts and the path, and that a set of no
/// globs matches nothing (documented, and the source returns `false` at once
/// for an empty set). Of a set with other options nothing more is claimed.
#[verifier::external_body]
pub(crate) fn set_is_match(s: &GlobSet, path: &str) -> (r: bool)
    ensures
        set_default(*s) ==> r == globset_is_match(set_globs(*s), path@),
        set_globs(*s).len() == 0 ==> !r,
{
    s.is_match(path)
}

/// The `Display` text of a `globset::Error`. Nothing is claimed of the text.
#[verifier::external_body]
pub(crate) fn glob_error_text(e: &globset::Error) -> (r: String)
{
    e.to_string()
}

} // verus!
