//! String helpers shared by the other modules.

use vstd::prelude::*;

verus! {

/// A character that makes a pattern a glob rather than a plain path.
pub open spec fn is_glob_char(c: char) -> bool {
    c == '*' || c == '?' || c == '['
}

/// The string holds at least one glob metacharacter.
pub open spec fn has_glob_spec(s: Seq<char>) -> bool {
    exists|i: int| 0 <= i < s.len() && #[trigger] is_glob_char(s[i])
}

/// Whether `value` contains one of `*`, `?` or `[`.
pub fn has_glob(value: &str) -> (r: bool)
    ensures
        r == has_glob_spec(value@),
{
    let n = value.unicode_len();
    let mut i: usize = 0;
    while i < n
        invariant
            n == value@.len(),
            i <= n,
            forall|j: int| 0 <= j < i ==> !#[trigger] is_glob_char(value@[j]),
        decreases n - i,
    {
        let c = value.get_char(i);
        if c == '*' || c == '?' || c == '[' {
            assert(is_glob_char(value@[i as int]));
            return true;
        }
        i = i + 1;
    }
    false
}


/// The index of the first element of `s` that satisfies `p`, if any.
pub open spec fn first_where<A>(s: Seq<A>, p: spec_fn(A) -> bool) -> Option<int>
    decreases s.len(),
{
    if s.len() == 0 {
        None
    } else if p(s[0]) {
        Some(0)
    } else {
        match first_where(s.drop_first(), p) {
            Some(i) => Some(i + 1),
            None => None,
        }
    }
}

/// `first_where` finds `k` where `k` is the first index satisfying `p`.
pub proof fn lemma_first_where_at<A>(s: Seq<A>, p: spec_fn(A) -> bool, k: int)
    requires
        0 <= k < s.len(),
        p(s[k]),
        forall|j: int| 0 <= j < k ==> !p(#[trigger] s[j]),
    ensures
        first_where(s, p) == Some(k),
    decreases k,
{
    if k > 0 {
        assert(!p(s[0]));
        let rest = s.drop_first();
        assert forall|j: int| 0 <= j < k - 1 implies !p(#[trigger] rest[j]) by {
            assert(rest[j] == s[j + 1]);
        }
        assert(rest[k - 1] == s[k]);
        lemma_first_where_at(rest, p, k - 1);
    }
}

/// `first_where` finds nothing where no element satisfies `p`.
pub proof fn lemma_first_where_none<A>(s: Seq<A>, p: spec_fn(A) -> bool)
    requires
        forall|j: int| 0 <= j < s.len() ==> !p(#[trigger] s[j]),
    ensures
        first_where(s, p) is None,
    decreases s.len(),
{
    if s.len() > 0 {
        let rest = s.drop_first();
        assert forall|j: int| 0 <= j < rest.len() implies !p(#[trigger] rest[j]) by {
            assert(rest[j] == s[j + 1]);
        }
        lemma_first_where_none(rest, p);
    }
}

/// What `first_where` finds is a first index satisfying `p`.
pub proof fn lemma_first_where_found<A>(s: Seq<A>, p: spec_fn(A) -> bool)
    ensures
        first_where(s, p) matches Some(k) ==> 0 <= k < s.len() && p(s[k]) && forall|j: int|
            0 <= j < k ==> !p(#[trigger] s[j]),
        first_where(s, p) is None ==> forall|j: int| 0 <= j < s.len() ==> !p(#[trigger] s[j]),
    decreases s.len(),
{
    if s.len() > 0 {
        let rest = s.drop_first();
        lemma_first_where_found(rest, p);
        if !p(s[0]) {
            match first_where(rest, p) {
                Some(k) => {
                    assert(s[k + 1] == rest[k]);
                    assert forall|j: int| 0 <= j < k + 1 implies !p(#[trigger] s[j]) by {
                        if j > 0 {
                            assert(s[j] == rest[j - 1]);
                        }
                    }
                },
                None => {
                    assert forall|j: int| 0 <= j < s.len() implies !p(#[trigger] s[j]) by {
                        if j > 0 {
                            assert(s[j] == rest[j - 1]);
                        }
                    }
                },
            }
        }
    }
}

/// `m` begins with `prefix`.
pub open spec fn starts_with(m: Seq<char>, prefix: Seq<char>) -> bool {
    prefix.len() <= m.len() && m.subrange(0, prefix.len() as int) == prefix
}

/// The texts of a sequence of strings.
pub open spec fn views(v: Seq<String>) -> Seq<Seq<char>> {
    v.map_values(|s: String| s@)
}

/// Separators between path segments: both `/` and `\`.
pub open spec fn is_sep(c: char) -> bool {
    c == '/' || c == '\\'
}

/// `s` split at every separator, as `str::split` does: `n` separators give
/// `n + 1` segments, some of them possibly empty.
pub open spec fn split_spec(s: Seq<char>) -> Seq<Seq<char>>
    decreases s.len(),
{
    if s.len() == 0 {
        seq![Seq::<char>::empty()]
    } else {
        let prev = split_spec(s.drop_last());
        if is_sep(s.last()) {
            prev.push(Seq::<char>::empty())
        } else {
            prev.update(prev.len() - 1, prev.last().push(s.last()))
        }
    }
}

/// `s` with every `\` turned into `/`.
pub open spec fn forward_slashes(s: Seq<char>) -> Seq<char> {
    s.map_values(|c: char| if c == '\\' { '/' } else { c })
}

pub proof fn lemma_split_nonempty(s: Seq<char>)
    ensures
        split_spec(s).len() >= 1,
    decreases s.len(),
{
    if s.len() > 0 {
        lemma_split_nonempty(s.drop_last());
    }
}

/// `char::to_string`: the one-character string.
#[verifier::external_body]
pub(crate) fn char_text(c: char) -> (r: String)
    ensures
        r@ == seq![c],
{
    c.to_string()
}

/// Splits `s` at every `/` and `\`.
pub fn split_segments(s: &str) -> (r: Vec<String>)
    ensures
        views(r@) == split_spec(s@),
{
    let n = s.unicode_len();
    let mut done: Vec<String> = Vec::new();
    let mut cur = String::new();
    let mut i: usize = 0;
    assert(s@.take(0) =~= Seq::<char>::empty());
    while i < n
        invariant
            n == s@.len(),
            i <= n,
            views(done@).push(cur@) == split_spec(s@.take(i as int)),
        decreases n - i,
    {
        let c = s.get_char(i);
        let ghost prev = split_spec(s@.take(i as int));
        assert(s@.take(i + 1).drop_last() =~= s@.take(i as int));
        assert(s@.take(i + 1).last() == c);
        proof {
            lemma_split_nonempty(s@.take(i as int));
        }
        if c == '/' || c == '\\' {
            let seg = cur;
            done.push(seg);
            cur = String::new();
            assert(views(done@).push(cur@) =~= prev.push(Seq::<char>::empty()));
        } else {
            let one = s.substring_char(i, i + 1);
            assert(one@ =~= seq![c]);
            let ghost old_cur = cur@;
            assert(prev.last() == old_cur);
            assert(prev.len() - 1 == views(done@).len());
            cur.append(one);
            assert(cur@ =~= old_cur.push(c));
            assert(views(done@).push(cur@) =~= prev.update(prev.len() - 1, prev.last().push(c)));
        }
        i = i + 1;
    }
    assert(s@.take(n as int) =~= s@);
    done.push(cur);
    assert(views(done@) =~= split_spec(s@));
    done
}

/// `path` with every `\` replaced by `/`, as glob patterns expect.
pub fn as_glob(path: &str) -> (r: String)
    ensures
        r@ == forward_slashes(path@),
{
    let n = path.unicode_len();
    let mut out = String::new();
    let mut i: usize = 0;
    while i < n
        invariant
            n == path@.len(),
            i <= n,
            out@ =~= forward_slashes(path@.take(i as int)),
        decreases n - i,
    {
        let c = path.get_char(i);
        if c == '\\' {
            out.append("/");
            proof { reveal_strlit("/"); }
        } else {
            let one = path.substring_char(i, i + 1);
            out.append(one);
        }
        assert(forward_slashes(path@.take(i + 1)) =~= forward_slashes(path@.take(i as int)).push(
            if c == '\\' { '/' } else { c },
        ));
        i = i + 1;
    }
    assert(path@.take(n as int) =~= path@);
    out
}

} // verus!
