//! How the patterns of a watchfile become globs and watch roots.

use crate::paths::{absolute_outcome, path_absolute, path_from_segments, path_join, std_path_collect, std_path_join};
use crate::text::{as_glob, forward_slashes, has_glob, has_glob_spec, split_segments, split_spec, views};
use vstd::prelude::*;

verus! {

/// The globs an `ignore` entry stands for. A trailing `/` marks a directory
/// name, matched anywhere and with everything below it; a glob is kept as
/// written; any other entry is a name matched anywhere, with everything
/// below it.
pub open spec fn ignore_globs_spec(p: Seq<char>) -> Seq<Seq<char>> {
    if p.len() > 0 && p.last() == '/' {
        let dir = p.drop_last();
        seq!["**/"@ + dir, "**/"@ + dir + "/**"@]
    } else if has_glob_spec(p) {
        seq![p]
    } else {
        seq!["**/"@ + p, "**/"@ + p + "/**"@]
    }
}

/// The globs a `watch` entry stands for, given the entry's absolute path:
/// a glob is matched as written (made absolute); a plain path matches
/// itself and everything below it.
pub open spec fn watch_globs_spec(pattern: Seq<char>, absolute: Seq<char>) -> Seq<Seq<char>> {
    let g = forward_slashes(absolute);
    if has_glob_spec(pattern) {
        seq![g]
    } else {
        seq![g, g + "/**"@]
    }
}

/// `a` is the absolute path a `watch` entry gets against `cwd`: what
/// `std::path::absolute` returns for the entry joined onto `cwd`, or `.`
/// where it fails.
pub open spec fn made_absolute(cwd: Seq<char>, pattern: Seq<char>, a: Seq<char>) -> bool {
    let joined = std_path_join(cwd, pattern);
    ||| absolute_outcome(joined, Some(a))
    ||| absolute_outcome(joined, None) && a == "."@
}

/// The number of leading segments that hold no glob metacharacter.
pub open spec fn plain_len(segs: Seq<Seq<char>>) -> nat
    decreases segs.len(),
{
    if segs.len() == 0 {
        0
    } else if has_glob_spec(segs[0]) {
        0
    } else {
        1 + plain_len(segs.drop_first())
    }
}

/// The directory part of a glob: the path made of its segments up to the
/// first one holding a glob metacharacter, or `.` where that is empty.
pub open spec fn glob_base_spec(pattern: Seq<char>) -> Seq<char> {
    let segs = split_spec(pattern);
    let base = std_path_collect(segs.take(plain_len(segs) as int));
    if base.len() == 0 {
        "."@
    } else {
        base
    }
}

/// Where the search for a pattern's watch root starts: the directory part of
/// a glob, the path itself otherwise, and `.` for an empty path.
pub open spec fn root_start_spec(pattern: Seq<char>) -> Seq<char> {
    if has_glob_spec(pattern) {
        glob_base_spec(pattern)
    } else if pattern.len() == 0 {
        "."@
    } else {
        pattern
    }
}

proof fn lemma_plain_len(segs: Seq<Seq<char>>, k: int)
    requires
        0 <= k <= segs.len(),
        forall|j: int| 0 <= j < k ==> !has_glob_spec(#[trigger] segs[j]),
        k == segs.len() || has_glob_spec(segs[k]),
    ensures
        plain_len(segs) == k,
    decreases k,
{
    if k > 0 {
        assert(!has_glob_spec(segs[0]));
        let rest = segs.drop_first();
        assert forall|j: int| 0 <= j < k - 1 implies !has_glob_spec(#[trigger] rest[j]) by {
            assert(rest[j] == segs[j + 1]);
        }
        if k < segs.len() {
            assert(rest[k - 1] == segs[k]);
        }
        lemma_plain_len(rest, k - 1);
    }
}

/// The globs an `ignore` entry expands to.
pub fn expand_ignore_pattern(pattern: &str) -> (r: Vec<String>)
    ensures
        views(r@) == ignore_globs_spec(pattern@),
{
    proof {
        reveal_strlit("**/");
        reveal_strlit("/**");
    }
    let n = pattern.unicode_len();
    if n > 0 && pattern.get_char(n - 1) == '/' {
        let dir = pattern.substring_char(0, n - 1);
        assert(dir@ =~= pattern@.drop_last());
        let mut first = String::from_str("**/");
        first.append(dir);
        let mut second = String::from_str("**/");
        second.append(dir);
        second.append("/**");
        let r = vec![first, second];
        assert(views(r@) =~= ignore_globs_spec(pattern@));
        return r;
    }
    if has_glob(pattern) {
        let r = vec![String::from_str(pattern)];
        assert(views(r@) =~= ignore_globs_spec(pattern@));
        return r;
    }
    let mut first = String::from_str("**/");
    first.append(pattern);
    let mut second = String::from_str("**/");
    second.append(pattern);
    second.append("/**");
    let r = vec![first, second];
    assert(views(r@) =~= ignore_globs_spec(pattern@));
    r
}

/// The globs a `watch` entry expands to, given its absolute path.
pub fn expand_watch_globs(pattern: &str, absolute: &str) -> (r: Vec<String>)
    ensures
        views(r@) == watch_globs_spec(pattern@, absolute@),
{
    proof {
        reveal_strlit("/**");
    }
    let g = as_glob(absolute);
    if has_glob(pattern) {
        let r = vec![g];
        assert(views(r@) =~= watch_globs_spec(pattern@, absolute@));
        return r;
    }
    let mut all = g.clone();
    all.append("/**");
    let r = vec![g, all];
    assert(views(r@) =~= watch_globs_spec(pattern@, absolute@));
    r
}

/// The globs a `watch` entry expands to: the entry is joined onto `cwd` and
/// made absolute by `std::path::absolute` (or becomes `.` where that
/// fails), then expanded by `expand_watch_globs`.
pub fn expand_watch_pattern(pattern: &str, cwd: &str) -> (r: Vec<String>)
    ensures
        exists|absolute: Seq<char>|
            #[trigger] made_absolute(cwd@, pattern@, absolute) && views(r@) == watch_globs_spec(
                pattern@,
                absolute,
            ),
{
    let joined = path_join(cwd, pattern);
    let absolute = match path_absolute(joined.as_str()) {
        Some(a) => a,
        None => String::from_str("."),
    };
    proof {
        reveal_strlit(".");
    }
    let r = expand_watch_globs(pattern, absolute.as_str());
    assert(made_absolute(cwd@, pattern@, absolute@));
    assert(views(r@) == watch_globs_spec(pattern@, absolute@));
    r
}

/// The directory part of a glob pattern (see `glob_base_spec`).
pub fn glob_base(pattern: &str) -> (r: String)
    ensures
        r@ == glob_base_spec(pattern@),
{
    let segs = split_segments(pattern);
    let ghost all = split_spec(pattern@);
    let mut plain: Vec<String> = Vec::new();
    let mut k: usize = 0;
    let mut stop = false;
    while k < segs.len() && !stop
        invariant
            views(segs@) == all,
            k <= segs.len(),
            views(plain@) == all.take(k as int),
            forall|j: int| 0 <= j < k ==> !has_glob_spec(#[trigger] all[j]),
            stop ==> k < all.len() && has_glob_spec(all[k as int]),
        decreases segs.len() - k + (if stop { 0int } else { 1int }),
    {
        let seg = &segs[k];
        assert(views(segs@)[k as int] == segs@[k as int]@);
        assert(seg@ == all[k as int]);
        if has_glob(seg.as_str()) {
            stop = true;
        } else {
            let ghost before = views(plain@);
            plain.push(seg.clone());
            assert(views(plain@) =~= before.push(seg@));
            assert(views(plain@) =~= all.take(k + 1));
            k = k + 1;
        }
    }
    proof {
        lemma_plain_len(all, k as int);
    }
    let base = path_from_segments(&plain);
    if base.unicode_len() == 0 {
        proof { reveal_strlit("."); }
        String::from_str(".")
    } else {
        base
    }
}

/// Where the search for a pattern's watch root starts (see
/// `root_start_spec`); the search itself walks up from there to the first
/// path that exists.
pub fn watch_root(pattern: &str) -> (r: String)
    ensures
        r@ == root_start_spec(pattern@),
{
    if has_glob(pattern) {
        glob_base(pattern)
    } else if pattern.unicode_len() == 0 {
        proof { reveal_strlit("."); }
        String::from_str(".")
    } else {
        String::from_str(pattern)
    }
}

} // verus!
