//! What happens while watching: which globs each target and the `ignore`
//! list stand for, which targets a batch of changed paths fires, what a
//! fired target does, and which directories are watched.

use crate::config::{Config, Target};
use crate::globs::{
    builder_add, builder_build, builder_default, builder_globs, builder_new, glob_error_text, glob_new,
    glob_parses, globset_builds, globset_is_match, set_default, set_empty, set_globs, set_is_match,
};
use crate::paths::{path_pop, paths_equal, std_path_eq, std_path_pop};
use crate::patterns::{
    expand_ignore_pattern, expand_watch_pattern, ignore_globs_spec, made_absolute, root_start_spec,
    watch_globs_spec, watch_root,
};
use crate::text::{first_where, lemma_first_where_at, lemma_first_where_none, starts_with, views};
use globset::GlobSet;
use vstd::prelude::*;

verus! {

/// A set of globs built by this library: every glob in it was made by
/// `Glob::new`, with default options. Only the functions of this module
/// build one.
pub struct PatternSet {
    set: GlobSet,
}

impl PatternSet {
    #[verifier::type_invariant]
    spec fn default_options(self) -> bool {
        set_default(self.set)
    }

    /// The pattern texts of the set's globs, in order.
    pub closed spec fn globs(self) -> Seq<Seq<char>> {
        set_globs(self.set)
    }

    /// Whether the set matches `path`: a set of no globs matches nothing.
    pub fn is_match(&self, path: &str) -> (r: bool)
        ensures
            r == globset_is_match(self.globs(), path@),
            self.globs().len() == 0 ==> !r,
    {
        proof {
            use_type_invariant(self);
        }
        set_is_match(&self.set, path)
    }
}

/// A watched target with the globs its `watch` entries stand for.
pub struct CompiledTarget {
    /// The target's position in the watchfile's `targets`.
    pub index: usize,
    /// The set of its globs.
    pub filter: PatternSet,
}

/// The texts of (entry, glob) pairs.
pub open spec fn pair_views(pairs: Seq<(String, String)>) -> Seq<(Seq<char>, Seq<char>)> {
    pairs.map_values(|p: (String, String)| (p.0@, p.1@))
}

/// The globs of (entry, glob) pairs.
pub open spec fn pair_globs(pairs: Seq<(Seq<char>, Seq<char>)>) -> Seq<Seq<char>> {
    pairs.map_values(|p: (Seq<char>, Seq<char>)| p.1)
}

/// The pair's glob is refused by `Glob::new`.
pub open spec fn unparsable() -> spec_fn((Seq<char>, Seq<char>)) -> bool {
    |p: (Seq<char>, Seq<char>)| !glob_parses(p.1)
}

/// The outcome of building one set from (entry, glob) pairs: the first glob
/// that does not parse fails the build, with a message naming its entry; a
/// set that does not build fails with `invalid watch set: ` and the
/// library's reason; otherwise the set is made of the globs, in order.
pub open spec fn glob_set_outcome(r: Result<PatternSet, String>, pairs: Seq<(Seq<char>, Seq<char>)>) -> bool {
    match first_where(pairs, unparsable()) {
        Some(i) => r matches Err(m) && starts_with(m@, "invalid watch pattern `"@ + pairs[i].0 + "`: "@),
        None => if globset_builds(pair_globs(pairs)) {
            r matches Ok(s) && s.globs() == pair_globs(pairs)
        } else {
            r matches Err(m) && starts_with(m@, "invalid watch set: "@)
        },
    }
}

/// Builds one set from globs, each paired with the `watch` entry it came
/// from (see `glob_set_outcome`).
pub fn build_glob_set(pairs: &Vec<(String, String)>) -> (r: Result<PatternSet, String>)
    ensures
        glob_set_outcome(r, pair_views(pairs@)),
{
    let mut b = builder_new();
    let ghost p = unparsable();
    let ghost pv = pair_views(pairs@);
    let mut k: usize = 0;
    while k < pairs.len()
        invariant
            k <= pairs@.len(),
            p == unparsable(),
            pv == pair_views(pairs@),
            builder_globs(b) == pair_globs(pv.take(k as int)),
            builder_default(b),
            forall|j: int| 0 <= j < k ==> !p(#[trigger] pv[j]),
        decreases pairs.len() - k,
    {
        assert(pv[k as int] == (pairs@[k as int].0@, pairs@[k as int].1@));
        match glob_new(pairs[k].1.as_str()) {
            Err(e) => {
                proof {
                    lemma_first_where_at(pv, p, k as int);
                }
                let mut m = String::from_str("invalid watch pattern `");
                m.append(pairs[k].0.as_str());
                m.append("`: ");
                let ghost head = m@;
                let t = glob_error_text(&e);
                m.append(t.as_str());
                assert(m@.subrange(0, head.len() as int) =~= head);
                return Err(m);
            },
            Ok(g) => {
                builder_add(&mut b, g);
                assert(pair_globs(pv.take(k + 1)) =~= pair_globs(pv.take(k as int)).push(
                    pairs@[k as int].1@,
                ));
            },
        }
        k = k + 1;
    }
    proof {
        lemma_first_where_none(pv, p);
    }
    assert(pv.take(pairs@.len() as int) =~= pv);
    match builder_build(&b) {
        Ok(s) => Ok(PatternSet { set: s }),
        Err(e) => {
            let mut m = String::from_str("invalid watch set: ");
            let ghost head = m@;
            let t = glob_error_text(&e);
            m.append(t.as_str());
            assert(m@.subrange(0, head.len() as int) =~= head);
            Err(m)
        },
    }
}

/// The (entry, glob) pairs of a target's `watch` entries, each entry
/// expanded with the absolute path at the same position of `absolute`.
pub open spec fn watch_set_pairs(patterns: Seq<Seq<char>>, absolute: Seq<Seq<char>>) -> Seq<
    (Seq<char>, Seq<char>),
>
    decreases patterns.len(),
{
    if patterns.len() == 0 {
        Seq::empty()
    } else {
        watch_set_pairs(patterns.drop_last(), absolute.drop_last()) + watch_globs_spec(
            patterns.last(),
            absolute.last(),
        ).map_values(|g: Seq<char>| (patterns.last(), g))
    }
}

/// The outcome of building a target's set against `cwd` when its entries
/// get these absolute paths: each path is the entry joined onto `cwd` and
/// made absolute (see `made_absolute`), and the set is built from the
/// expanded globs as `glob_set_outcome` says.
pub open spec fn watch_set_outcome(
    r: Result<PatternSet, String>,
    cwd: Seq<char>,
    patterns: Seq<Seq<char>>,
    absolute: Seq<Seq<char>>,
) -> bool {
    &&& absolute.len() == patterns.len()
    &&& forall|i: int| 0 <= i < patterns.len() ==> made_absolute(cwd, patterns[i], #[trigger] absolute[i])
    &&& glob_set_outcome(r, watch_set_pairs(patterns, absolute))
}

/// Builds the set of globs a target's `watch` entries stand for, each entry
/// made absolute against `cwd` (see `expand_watch_pattern`). Which absolute
/// path `std::path::absolute` gives depends on the current directory, so
/// the contract states the outcome up to those paths.
pub fn build_watch_set(patterns: &Vec<String>, cwd: &str) -> (r: Result<PatternSet, String>)
    ensures
        exists|absolute: Seq<Seq<char>>| #[trigger]
            watch_set_outcome(r, cwd@, views(patterns@), absolute),
{
    let mut pairs: Vec<(String, String)> = Vec::new();
    let ghost mut absolute: Seq<Seq<char>> = Seq::empty();
    let mut i: usize = 0;
    while i < patterns.len()
        invariant
            i <= patterns@.len(),
            absolute.len() == i,
            forall|j: int| 0 <= j < i ==> made_absolute(cwd@, patterns@[j]@, #[trigger] absolute[j]),
            pair_views(pairs@) == watch_set_pairs(views(patterns@.take(i as int)), absolute),
        decreases patterns.len() - i,
    {
        let pattern = &patterns[i];
        let globs = expand_watch_pattern(pattern.as_str(), cwd);
        let ghost a = choose|a: Seq<char>|
            #[trigger] made_absolute(cwd@, pattern@, a) && views(globs@) == watch_globs_spec(pattern@, a);
        let ghost tagged = views(globs@).map_values(|g: Seq<char>| (pattern@, g));
        let ghost before = pair_views(pairs@);
        let mut j: usize = 0;
        while j < globs.len()
            invariant
                j <= globs@.len(),
                tagged == views(globs@).map_values(|g: Seq<char>| (pattern@, g)),
                pair_views(pairs@) == before + tagged.take(j as int),
            decreases globs.len() - j,
        {
            let entry = (pattern.clone(), globs[j].clone());
            assert(entry.1@ == views(globs@)[j as int]);
            let ghost prev = pair_views(pairs@);
            pairs.push(entry);
            assert(pair_views(pairs@) =~= prev.push((entry.0@, entry.1@)));
            assert(pair_views(pairs@) =~= before + tagged.take(j + 1));
            j = j + 1;
        }
        assert(tagged.take(globs@.len() as int) =~= tagged);
        proof {
            let ps = views(patterns@.take(i + 1));
            assert(ps.drop_last() =~= views(patterns@.take(i as int)));
            assert(ps.last() == pattern@);
            assert(absolute.push(a).drop_last() =~= absolute);
            absolute = absolute.push(a);
        }
        i = i + 1;
    }
    assert(patterns@.take(patterns@.len() as int) =~= patterns@);
    let r = build_glob_set(&pairs);
    assert forall|j: int| 0 <= j < views(patterns@).len() implies made_absolute(
        cwd@,
        views(patterns@)[j],
        #[trigger] absolute[j],
    ) by {
        assert(views(patterns@)[j] == patterns@[j]@);
    }
    assert(watch_set_outcome(r, cwd@, views(patterns@), absolute));
    r
}

/// All globs the `ignore` entries expand to, in order.
pub open spec fn ignore_all(patterns: Seq<Seq<char>>) -> Seq<Seq<char>>
    decreases patterns.len(),
{
    if patterns.len() == 0 {
        Seq::empty()
    } else {
        ignore_all(patterns.drop_last()) + ignore_globs_spec(patterns.last())
    }
}

/// The `ignore` globs that parse.
pub open spec fn ignore_kept(patterns: Seq<Seq<char>>) -> Seq<Seq<char>> {
    ignore_all(patterns).filter(|g: Seq<char>| glob_parses(g))
}

/// The globs of the `ignore` set: those that parse, where they build into
/// a set; none otherwise.
pub open spec fn ignore_set_globs(patterns: Seq<Seq<char>>) -> Seq<Seq<char>> {
    if globset_builds(ignore_kept(patterns)) {
        ignore_kept(patterns)
    } else {
        Seq::empty()
    }
}

/// Builds the set of `ignore` globs. Globs that do not parse are left out,
/// and a set that does not build is replaced by the empty set.
pub fn build_ignore_set(patterns: &Vec<String>) -> (r: PatternSet)
    ensures
        r.globs() == ignore_set_globs(views(patterns@)),
{
    let mut b = builder_new();
    let ghost pred = |g: Seq<char>| glob_parses(g);
    let mut i: usize = 0;
    assert(ignore_all(views(patterns@.take(0))).filter(pred) =~= Seq::<Seq<char>>::empty()) by {
        assert(views(patterns@.take(0)) =~= Seq::<Seq<char>>::empty());
        reveal_with_fuel(Seq::<_>::filter, 1);
    }
    while i < patterns.len()
        invariant
            i <= patterns@.len(),
            pred == (|g: Seq<char>| glob_parses(g)),
            builder_globs(b) == ignore_all(views(patterns@.take(i as int))).filter(pred),
            builder_default(b),
        decreases patterns.len() - i,
    {
        let globs = expand_ignore_pattern(patterns[i].as_str());
        let ghost base = ignore_all(views(patterns@.take(i as int)));
        let mut j: usize = 0;
        while j < globs.len()
            invariant
                j <= globs@.len(),
                pred == (|g: Seq<char>| glob_parses(g)),
                builder_globs(b) == (base + views(globs@).take(j as int)).filter(pred),
                builder_default(b),
            decreases globs.len() - j,
        {
            let ghost next = base + views(globs@).take(j + 1);
            assert(next.drop_last() =~= base + views(globs@).take(j as int));
            assert(next.last() == globs@[j as int]@);
            proof {
                reveal_with_fuel(Seq::<_>::filter, 1);
            }
            match glob_new(globs[j].as_str()) {
                Ok(g) => {
                    builder_add(&mut b, g);
                },
                Err(_) => {},
            }
            j = j + 1;
        }
        proof {
            let ps = views(patterns@.take(i + 1));
            assert(ps.drop_last() =~= views(patterns@.take(i as int)));
            assert(ps.last() == patterns@[i as int]@);
            assert(views(globs@).take(globs@.len() as int) =~= views(globs@));
        }
        i = i + 1;
    }
    assert(patterns@.take(patterns@.len() as int) =~= patterns@);
    match builder_build(&b) {
        Ok(s) => PatternSet { set: s },
        Err(_) => PatternSet { set: set_empty() },
    }
}

/// The `watch` entries of the target at position `i`.
pub open spec fn watch_entries(c: Config, i: usize) -> Seq<Seq<char>> {
    views(c.targets@[i as int].1.watch@)
}

/// The set of the target at `i` was built against `cwd`, as `filter`.
pub open spec fn compiled_as(c: Config, i: usize, cwd: Seq<char>, filter: PatternSet) -> bool {
    exists|absolute: Seq<Seq<char>>|
        #[trigger] watch_set_outcome(Ok::<PatternSet, String>(filter), cwd, watch_entries(c, i), absolute)
}

/// The set of the target at `i` failed to build against `cwd`, with `m`.
pub open spec fn failed_with(c: Config, i: usize, cwd: Seq<char>, m: String) -> bool {
    exists|absolute: Seq<Seq<char>>|
        #[trigger] watch_set_outcome(Err::<PatternSet, String>(m), cwd, watch_entries(c, i), absolute)
}

/// The set of the target at `i` builds against `cwd` (for the absolute
/// paths it got).
pub open spec fn builds(c: Config, i: usize, cwd: Seq<char>) -> bool {
    exists|filter: PatternSet| #[trigger] compiled_as(c, i, cwd, filter)
}

/// The `k`-th watched target is the first whose set failed to build, with
/// `m`.
pub open spec fn first_failure(c: Config, watched: Seq<usize>, cwd: Seq<char>, m: String, k: int) -> bool {
    &&& 0 <= k < watched.len()
    &&& forall|j: int| 0 <= j < k ==> builds(c, #[trigger] watched[j], cwd)
    &&& failed_with(c, watched[k], cwd, m)
}

/// Builds the glob sets of the watched targets (positions in the
/// watchfile's `targets`) against `cwd`, in order (see `build_watch_set`);
/// the first target whose set fails to build fails the whole, with that
/// build's message.
pub fn compile_targets(config: &Config, watched: &Vec<usize>, cwd: &str) -> (r: Result<
    Vec<CompiledTarget>,
    String,
>)
    requires
        forall|k: int| 0 <= k < watched@.len() ==> #[trigger] watched@[k] < config.targets@.len(),
    ensures
        match r {
            Ok(ts) => ts@.len() == watched@.len() && forall|k: int|
                0 <= k < ts@.len() ==> (#[trigger] ts@[k]).index == watched@[k] && compiled_as(
                    *config,
                    watched@[k],
                    cwd@,
                    ts@[k].filter,
                ),
            Err(m) => exists|k: int| #[trigger] first_failure(*config, watched@, cwd@, m, k),
        },
{
    let mut out: Vec<CompiledTarget> = Vec::new();
    let mut pos: usize = 0;
    while pos < watched.len()
        invariant
            pos <= watched@.len(),
            forall|j: int| 0 <= j < watched@.len() ==> #[trigger] watched@[j] < config.targets@.len(),
            out@.len() == pos,
            forall|j: int|
                0 <= j < pos ==> (#[trigger] out@[j]).index == watched@[j] && compiled_as(
                    *config,
                    watched@[j],
                    cwd@,
                    out@[j].filter,
                ),
        decreases watched.len() - pos,
    {
        let index = watched[pos];
        let built = build_watch_set(&config.targets[index].1.watch, cwd);
        let ghost entries = watch_entries(*config, index);
        assert(entries == views(config.targets@[index as int].1.watch@));
        let ghost a = choose|a: Seq<Seq<char>>| #[trigger] watch_set_outcome(built, cwd@, entries, a);
        assert(watch_set_outcome(built, cwd@, entries, a));
        match built {
            Err(e) => {
                let r: Result<Vec<CompiledTarget>, String> = Err(e);
                proof {
                    let m = r->Err_0;
                    assert(watch_set_outcome(Err::<PatternSet, String>(m), cwd@, entries, a));
                    assert(failed_with(*config, watched@[pos as int], cwd@, m));
                    assert forall|j: int| 0 <= j < pos implies builds(
                        *config,
                        #[trigger] watched@[j],
                        cwd@,
                    ) by {
                        assert(compiled_as(*config, watched@[j], cwd@, out@[j].filter));
                    }
                    assert(first_failure(*config, watched@, cwd@, m, pos as int));
                }
                return r;
            },
            Ok(filter) => {
                assert(watch_set_outcome(Ok::<PatternSet, String>(filter), cwd@, entries, a));
                assert(compiled_as(*config, index, cwd@, filter));
                let ghost prev = out@;
                out.push(CompiledTarget { index, filter });
                assert(forall|j: int| 0 <= j < pos ==> out@[j] == prev[j]);
                assert(out@[pos as int].filter == filter);
            },
        }
        pos = pos + 1;
    }
    assert(out@.len() == watched@.len());
    let r = Ok(out);
    assert(r matches Ok(ts) ==> ts@.len() == watched@.len());
    r
}

/// Which compiled targets have their command started when watching begins:
/// the `interrupt` targets (the others run when a change fires them).
pub fn starts_when_watching(config: &Config, targets: &Vec<CompiledTarget>) -> (r: Vec<bool>)
    requires
        forall|k: int| 0 <= k < targets@.len() ==> #[trigger] targets@[k].index < config.targets@.len(),
    ensures
        r@.len() == targets@.len(),
        forall|k: int|
            0 <= k < targets@.len() ==> #[trigger] r@[k] == config.targets@[targets@[k].index as int].1.interrupt,
{
    let mut r: Vec<bool> = Vec::new();
    let mut k: usize = 0;
    while k < targets.len()
        invariant
            k <= targets@.len(),
            forall|j: int| 0 <= j < targets@.len() ==> #[trigger] targets@[j].index < config.targets@.len(),
            r@.len() == k,
            forall|j: int|
                0 <= j < k ==> #[trigger] r@[j] == config.targets@[targets@[j].index as int].1.interrupt,
        decreases targets.len() - k,
    {
        r.push(config.targets[targets[k].index].1.interrupt);
        k = k + 1;
    }
    r
}

/// Changed path `e` fires compiled target `i`: `ignore` does not match it
/// and the target's set does.
pub open spec fn fires(ts: Seq<CompiledTarget>, ignore: PatternSet, events: Seq<String>, i: int, e: int) -> bool {
    &&& 0 <= e < events.len()
    &&& !globset_is_match(ignore.globs(), events[e]@)
    &&& globset_is_match(ts[i].filter.globs(), events[e]@)
}

/// Some path of the batch fires compiled target `i`.
pub open spec fn fired(ts: Seq<CompiledTarget>, ignore: PatternSet, events: Seq<String>, i: int) -> bool {
    exists|e: int| #[trigger] fires(ts, ignore, events, i, e)
}

/// The positions (in `targets`) of the targets that a batch of changed
/// paths fires, in increasing order, each once.
pub fn match_targets(targets: &Vec<CompiledTarget>, ignore: &PatternSet, events: &Vec<String>) -> (r:
    Vec<usize>)
    ensures
        forall|a: int, b: int| 0 <= a < b < r@.len() ==> r@[a] < r@[b],
        forall|k: int| 0 <= k < r@.len() ==> #[trigger] r@[k] < targets@.len(),
        forall|i: int|
            0 <= i < targets@.len() ==> (r@.contains(i as usize) <==> fired(
                targets@,
                *ignore,
                events@,
                i,
            )),
        forall|i: int|
            0 <= i < targets@.len() ==> (#[trigger] r@.contains(i as usize) <==> exists|e: int|
                0 <= e < events@.len() && !globset_is_match(ignore.globs(), (#[trigger] events@[e])@)
                    && globset_is_match(targets@[i].filter.globs(), events@[e]@)),
{
    let n = targets.len();
    let mut hit: Vec<bool> = Vec::new();
    let mut i: usize = 0;
    while i < n
        invariant
            n == targets@.len(),
            i <= n,
            hit@.len() == i,
            forall|j: int| 0 <= j < i ==> !hit@[j],
        decreases n - i,
    {
        hit.push(false);
        i = i + 1;
    }
    let mut e: usize = 0;
    while e < events.len()
        invariant
            n == targets@.len(),
            hit@.len() == n,
            e <= events@.len(),
            forall|j: int|
                0 <= j < n ==> (#[trigger] hit@[j] <==> exists|x: int|
                    0 <= x < e && #[trigger] fires(targets@, *ignore, events@, j, x)),
        decreases events.len() - e,
    {
        let path = events[e].as_str();
        if !ignore.is_match(path) {
            let mut t: usize = 0;
            while t < n
                invariant
                    n == targets@.len(),
                    hit@.len() == n,
                    e < events@.len(),
                    path@ == events@[e as int]@,
                    !globset_is_match(ignore.globs(), path@),
                    t <= n,
                    forall|j: int|
                        0 <= j < n ==> (#[trigger] hit@[j] <==> (exists|x: int|
                            0 <= x < e && #[trigger] fires(targets@, *ignore, events@, j, x)) || (j
                            < t && fires(targets@, *ignore, events@, j, e as int))),
                decreases n - t,
            {
                if targets[t].filter.is_match(path) {
                    hit.set(t, true);
                }
                t = t + 1;
            }
            assert forall|j: int| 0 <= j < n implies (#[trigger] hit@[j] <==> exists|x: int|
                0 <= x < e + 1 && #[trigger] fires(targets@, *ignore, events@, j, x)) by {
                if hit@[j] && fires(targets@, *ignore, events@, j, e as int) {
                    assert(0 <= e < e + 1);
                }
            }
        } else {
            assert forall|j: int| 0 <= j < n implies (#[trigger] hit@[j] <==> exists|x: int|
                0 <= x < e + 1 && #[trigger] fires(targets@, *ignore, events@, j, x)) by {
                assert(!fires(targets@, *ignore, events@, j, e as int));
            }
        }
        e = e + 1;
    }
    let mut r: Vec<usize> = Vec::new();
    let mut i: usize = 0;
    while i < n
        invariant
            n == targets@.len(),
            hit@.len() == n,
            i <= n,
            forall|j: int| 0 <= j < n ==> (#[trigger] hit@[j] <==> fired(targets@, *ignore, events@, j)),
            forall|a: int, b: int| 0 <= a < b < r@.len() ==> r@[a] < r@[b],
            forall|k: int| 0 <= k < r@.len() ==> #[trigger] r@[k] < i,
            forall|j: int| 0 <= j < i ==> (r@.contains(j as usize) <==> hit@[j]),
        decreases n - i,
    {
        let ghost old_r = r@;
        if hit[i] {
            r.push(i);
        }
        proof {
            assert forall|j: int| 0 <= j < i + 1 implies (r@.contains(j as usize) <==> hit@[j]) by {
                if r@.contains(j as usize) {
                    let k = choose|k: int| 0 <= k < r@.len() && r@[k] == j as usize;
                    if k < old_r.len() {
                        assert(old_r[k] == j as usize);
                        assert(old_r.contains(j as usize));
                    }
                }
                if j < i && old_r.contains(j as usize) {
                    let k = choose|k: int| 0 <= k < old_r.len() && old_r[k] == j as usize;
                    assert(r@[k] == j as usize);
                }
                if j == i && hit@[j] {
                    assert(r@[r@.len() - 1] == j as usize);
                }
                if j == i && !hit@[j] {
                    assert(r@ == old_r);
                    if old_r.contains(j as usize) {
                        let k = choose|k: int| 0 <= k < old_r.len() && old_r[k] == j as usize;
                        assert(old_r[k] < i);
                    }
                }
            }
        }
        i = i + 1;
    }
    assert forall|j: int| 0 <= j < n implies (r@.contains(j as usize) <==> fired(
        targets@,
        *ignore,
        events@,
        j,
    )) by {
        assert(hit@[j] <==> fired(targets@, *ignore, events@, j));
    }
    assert forall|j: int| 0 <= j < n implies (#[trigger] r@.contains(j as usize) <==> exists|e: int|
        0 <= e < events@.len() && !globset_is_match(ignore.globs(), (#[trigger] events@[e])@)
            && globset_is_match(targets@[j].filter.globs(), events@[e]@)) by {
        assert(hit@[j] <==> fired(targets@, *ignore, events@, j));
        if fired(targets@, *ignore, events@, j) {
            let e = choose|e: int| #[trigger] fires(targets@, *ignore, events@, j, e);
            assert(events@[e] == events@[e]);
        }
        if exists|e: int|
            0 <= e < events@.len() && !globset_is_match(ignore.globs(), (#[trigger] events@[e])@)
                && globset_is_match(targets@[j].filter.globs(), events@[e]@) {
            let e = choose|e: int|
                0 <= e < events@.len() && !globset_is_match(ignore.globs(), (#[trigger] events@[e])@)
                    && globset_is_match(targets@[j].filter.globs(), events@[e]@);
            assert(fires(targets@, *ignore, events@, j, e));
        }
    }
    r
}

/// What a fired target does.
pub enum TriggerAction {
    /// An `interrupt` target: stop the running command where one is running
    /// (`stop_running`), then start it again.
    Restart { stop_running: bool },
    /// Any other target: run its command to completion.
    RunToCompletion,
}

/// What a fired target does, given whether its command is running.
pub fn trigger_action(target: &Target, running: bool) -> (r: TriggerAction)
    ensures
        target.interrupt ==> r == (TriggerAction::Restart { stop_running: running }),
        !target.interrupt ==> r == TriggerAction::RunToCompletion,
{
    if target.interrupt {
        TriggerAction::Restart { stop_running: running }
    } else {
        TriggerAction::RunToCompletion
    }
}

/// The starting points of the watch-root searches of the watched targets'
/// `watch` entries, target by target and entry by entry.
pub open spec fn root_starts(c: Config, watched: Seq<usize>) -> Seq<Seq<char>>
    decreases watched.len(),
{
    if watched.len() == 0 {
        Seq::empty()
    } else {
        root_starts(c, watched.drop_last()) + views(
            c.targets@[watched.last() as int].1.watch@,
        ).map_values(|p: Seq<char>| root_start_spec(p))
    }
}

/// Where the watch-root searches of the watched targets start (see
/// `watch_root`).
pub fn root_candidates(config: &Config, watched: &Vec<usize>) -> (r: Vec<String>)
    requires
        forall|k: int| 0 <= k < watched@.len() ==> #[trigger] watched@[k] < config.targets@.len(),
    ensures
        views(r@) == root_starts(*config, watched@),
{
    let mut out: Vec<String> = Vec::new();
    let mut k: usize = 0;
    while k < watched.len()
        invariant
            k <= watched@.len(),
            forall|j: int| 0 <= j < watched@.len() ==> #[trigger] watched@[j] < config.targets@.len(),
            views(out@) == root_starts(*config, watched@.take(k as int)),
        decreases watched.len() - k,
    {
        let patterns = &config.targets[watched[k]].1.watch;
        let ghost base = views(out@);
        let ghost mapped = views(patterns@).map_values(|p: Seq<char>| root_start_spec(p));
        let mut j: usize = 0;
        while j < patterns.len()
            invariant
                j <= patterns@.len(),
                mapped == views(patterns@).map_values(|p: Seq<char>| root_start_spec(p)),
                views(out@) == base + mapped.take(j as int),
            decreases patterns.len() - j,
        {
            let root = watch_root(patterns[j].as_str());
            let ghost prev = views(out@);
            out.push(root);
            assert(views(out@) =~= prev.push(root@));
            assert(mapped[j as int] == root_start_spec(patterns@[j as int]@));
            assert(views(out@) =~= base + mapped.take(j + 1));
            j = j + 1;
        }
        assert(mapped.take(patterns@.len() as int) =~= mapped);
        assert(watched@.take(k + 1).drop_last() =~= watched@.take(k as int));
        k = k + 1;
    }
    assert(watched@.take(watched@.len() as int) =~= watched@);
    out
}

/// One step of the search for an existing ancestor.
pub enum AncestorStep {
    /// The search is over: watch this path.
    Found(String),
    /// Check whether this path exists next.
    Check(String),
}

/// One step of the search for the nearest existing ancestor of a path:
/// a path that exists is the answer; otherwise its parent is checked next,
/// and a path without a parent gives `.`.
pub fn ancestor_step(current: String, exists: bool) -> (r: AncestorStep)
    ensures
        exists ==> r == AncestorStep::Found(current),
        !exists ==> match std_path_pop(current@) {
            Some(parent) => r matches AncestorStep::Check(p) && p@ == parent,
            None => r matches AncestorStep::Found(p) && p@ == "."@,
        },
{
    if exists {
        return AncestorStep::Found(current);
    }
    match path_pop(current.as_str()) {
        Some(parent) => AncestorStep::Check(parent),
        None => {
            proof { reveal_strlit("."); }
            AncestorStep::Found(String::from_str("."))
        },
    }
}

/// `roots` keeping only the first of paths that compare equal (as
/// `Vec::contains` on paths does), in order.
pub open spec fn dedup_paths(roots: Seq<Seq<char>>) -> Seq<Seq<char>>
    decreases roots.len(),
{
    if roots.len() == 0 {
        Seq::empty()
    } else {
        let kept = dedup_paths(roots.drop_last());
        if exists|k: int| 0 <= k < kept.len() && std_path_eq(#[trigger] kept[k], roots.last()) {
            kept
        } else {
            kept.push(roots.last())
        }
    }
}

/// The directories to watch: the resolved roots of the watch entries,
/// without repeats (see `dedup_paths`).
pub fn watch_roots(resolved: &Vec<String>) -> (r: Vec<String>)
    ensures
        views(r@) == dedup_paths(views(resolved@)),
{
    let mut out: Vec<String> = Vec::new();
    let ghost all = views(resolved@);
    let mut i: usize = 0;
    while i < resolved.len()
        invariant
            all == views(resolved@),
            i <= resolved@.len(),
            views(out@) == dedup_paths(all.take(i as int)),
        decreases resolved.len() - i,
    {
        let root = &resolved[i];
        assert(all.take(i + 1).drop_last() =~= all.take(i as int));
        assert(all.take(i + 1).last() == root@);
        let mut found = false;
        let mut k: usize = 0;
        while k < out.len()
            invariant
                k <= out@.len(),
                found <==> exists|x: int| 0 <= x < k && std_path_eq(#[trigger] views(out@)[x], root@),
            decreases out.len() - k,
        {
            if paths_equal(out[k].as_str(), root.as_str()) {
                found = true;
            }
            assert(views(out@)[k as int] == out@[k as int]@);
            k = k + 1;
        }
        if !found {
            let ghost prev = views(out@);
            out.push(root.clone());
            assert(views(out@) =~= prev.push(root@));
        }
        i = i + 1;
    }
    assert(all.take(all.len() as int) =~= all);
    out
}

} // verus!
