//! Properties of the library as a whole, stated over the specifications
//! that the functions' contracts use, and proved.

use crate::cli::{
    drive, lemma_flag_names_distinct, lexopt_next, lexopt_value, update_requested, ArgView, Cli, CliView,
    NextView, ParseOutcome,
};
use crate::config::{validation_error, Config, Target};
use lexopt::Parser;
use crate::globs::globset_is_match;
use crate::paths::std_path_eq;
use crate::patterns::{ignore_globs_spec, watch_globs_spec};
use crate::plan::{no_default_msg, runs_at_startup, selection, startup_spec, watch_spec};
use crate::runner::join_spec;
use crate::text::{has_glob_spec, lemma_first_where_found, lemma_first_where_none, views};
use crate::watch::{dedup_paths, fired, fires, CompiledTarget, PatternSet};
use vstd::prelude::*;

verus! {

/// Targets named on the command line, all of them defined, are exactly the
/// targets the run selects, in the order given.
pub proof fn named_targets_are_selected(cli: Cli, c: Config)
    requires
        cli.targets@.len() > 0,
        forall|i: int| 0 <= i < cli.targets@.len() ==> c.defines(#[trigger] cli.targets@[i]@),
    ensures
        selection(cli, c) == Ok::<Seq<Seq<char>>, Seq<char>>(views(cli.targets@)),
{
    let q = |t: String| !c.defines(t@);
    assert forall|j: int| 0 <= j < cli.targets@.len() implies !q(#[trigger] cli.targets@[j]) by {}
    lemma_first_where_none(cli.targets@, q);
}

/// A run that names a target the watchfile does not define fails.
pub proof fn undefined_named_target_fails(cli: Cli, c: Config, i: int)
    requires
        0 <= i < cli.targets@.len(),
        !c.defines(cli.targets@[i]@),
    ensures
        selection(cli, c) is Err,
{
    let q = |t: String| !c.defines(t@);
    lemma_first_where_found(cli.targets@, q);
    assert(q(cli.targets@[i]));
}

/// Without target names, the run selects the watchfile's `default`.
pub proof fn default_is_selected_without_names(cli: Cli, c: Config)
    requires
        cli.targets@.len() == 0,
        c.default@.len() > 0,
    ensures
        selection(cli, c) == Ok::<Seq<Seq<char>>, Seq<char>>(views(c.default@)),
{
}

/// Without target names and without `default`, the run fails.
pub proof fn no_names_and_no_default_fails(cli: Cli, c: Config)
    requires
        cli.targets@.len() == 0,
        c.default@.len() == 0,
    ensures
        selection(cli, c) == Err::<Seq<Seq<char>>, Seq<char>>(no_default_msg()),
{
}

/// A target with run commands that is not an `interrupt` target runs to
/// completion at startup, watched or not; so does any target with run
/// commands and nothing to watch, which therefore runs exactly once.
pub proof fn plain_targets_run_at_startup(t: Target, once: bool)
    requires
        t.run@.len() > 0,
        !t.interrupt || !t.watchable(),
    ensures
        runs_at_startup(t, once),
{
}

/// An `interrupt` target with `watch` entries is not run at startup when
/// watching: the watcher starts it instead. With `--once`, or with nothing
/// to watch, it runs once at startup like any other target.
pub proof fn interrupt_targets_wait_for_the_watcher(t: Target, once: bool)
    requires
        t.interrupt,
    ensures
        runs_at_startup(t, once) <==> ((once || !t.watchable()) && t.run@.len() > 0),
{
}

/// A selected target with run commands always runs: at startup, or (when
/// watching) by the watcher, which watches it.
pub proof fn targets_with_commands_run(t: Target, once: bool)
    requires
        t.run@.len() > 0,
    ensures
        runs_at_startup(t, once) || (!once && t.watchable()),
{
}

/// With `--once`, nothing is watched; otherwise exactly the selected
/// targets that have `watch` entries are, in order.
pub proof fn once_watches_nothing(c: Config, selected: Seq<usize>)
    ensures
        watch_spec(c, selected, true) == Seq::<usize>::empty(),
        watch_spec(c, selected, false) == selected.filter(
            |i: usize| c.targets@[i as int].1.watchable(),
        ),
{
}

/// Every watched target has `watch` entries, and every target run at
/// startup has run commands; both lists keep only selected targets.
pub proof fn planned_targets_qualify(c: Config, selected: Seq<usize>, once: bool)
    ensures
        forall|k: int|
            0 <= k < watch_spec(c, selected, once).len() ==> c.targets@[#[trigger] watch_spec(
                c,
                selected,
                once,
            )[k] as int].1.watchable() && selected.contains(watch_spec(c, selected, once)[k]),
        forall|k: int|
            0 <= k < startup_spec(c, selected, once).len() ==> c.targets@[#[trigger] startup_spec(
                c,
                selected,
                once,
            )[k] as int].1.run@.len() > 0 && selected.contains(startup_spec(c, selected, once)[k]),
{
    let pw = |i: usize| c.targets@[i as int].1.watchable();
    let ps = |i: usize| runs_at_startup(c.targets@[i as int].1, once);
    let w = watch_spec(c, selected, once);
    let st = startup_spec(c, selected, once);
    assert forall|k: int| 0 <= k < w.len() implies c.targets@[#[trigger] w[k] as int].1.watchable()
        && selected.contains(w[k]) by {
        selected.lemma_filter_pred(pw, k);
        assert(w.contains(w[k]));
        selected.lemma_filter_contains_rev(pw, w[k]);
    }
    assert forall|k: int| 0 <= k < st.len() implies c.targets@[#[trigger] st[k] as int].1.run@.len() > 0
        && selected.contains(st[k]) by {
        selected.lemma_filter_pred(ps, k);
        assert(st.contains(st[k]));
        selected.lemma_filter_contains_rev(ps, st[k]);
    }
}

/// A target's commands run as one shell command: a single command as it
/// is, and each further command after ` && `.
pub proof fn commands_chain_with_and(commands: Seq<Seq<char>>, next: Seq<char>)
    ensures
        commands.len() == 1 ==> join_spec(commands, " && "@) == commands[0],
        commands.len() > 0 ==> join_spec(commands.push(next), " && "@) == join_spec(
            commands,
            " && "@,
        ) + " && "@ + next,
{
    assert(commands.push(next).drop_last() =~= commands);
}

/// A changed path that `ignore` matches fires no target: a batch whose
/// every path is ignored fires nothing.
pub proof fn ignored_changes_fire_nothing(
    ts: Seq<CompiledTarget>,
    ignore: PatternSet,
    events: Seq<String>,
)
    requires
        forall|e: int| 0 <= e < events.len() ==> globset_is_match(ignore.globs(), #[trigger] events[e]@),
    ensures
        forall|i: int| 0 <= i < ts.len() ==> !#[trigger] fired(ts, ignore, events, i),
{
    assert forall|i: int| 0 <= i < ts.len() implies !#[trigger] fired(ts, ignore, events, i) by {
        if fired(ts, ignore, events, i) {
            let e = choose|e: int| #[trigger] fires(ts, ignore, events, i, e);
            assert(globset_is_match(ignore.globs(), events[e]@));
        }
    }
}

/// An `ignore` entry that names a directory with a trailing `/` means the
/// same as the bare name.
pub proof fn trailing_slash_ignores_alike(name: Seq<char>)
    requires
        !has_glob_spec(name),
        name.len() == 0 || name.last() != '/',
    ensures
        ignore_globs_spec(name.push('/')) == ignore_globs_spec(name),
{
    assert(name.push('/').drop_last() =~= name);
}

/// A plain `watch` path (no glob) covers itself and everything below it; a
/// glob covers what it matches.
pub proof fn plain_watch_paths_cover_their_tree(pattern: Seq<char>, absolute: Seq<char>)
    ensures
        !has_glob_spec(pattern) ==> watch_globs_spec(pattern, absolute).len() == 2
            && watch_globs_spec(pattern, absolute)[1] == watch_globs_spec(pattern, absolute)[0]
            + "/**"@,
        has_glob_spec(pattern) ==> watch_globs_spec(pattern, absolute).len() == 1,
{
}

/// `wat update` updates the program when no watchfile was read or the
/// watchfile has no `update` target; a target named `update` takes over the
/// name.
pub proof fn update_yields_to_a_target_named_update(cli: Cli, c: Config)
    requires
        views(cli.targets@) == seq!["update"@],
    ensures
        update_requested(cli, None),
        update_requested(cli, Some(c)) <==> !c.defines("update"@),
{
}

/// A watchfile that passes validation defines a target, every target has
/// run commands, and every `default` name is a target.
pub proof fn valid_watchfiles_are_complete(path: Seq<char>, c: Config)
    requires
        validation_error(path, c) is None,
    ensures
        c.targets@.len() > 0,
        forall|i: int| 0 <= i < c.targets@.len() ==> (#[trigger] c.targets@[i]).1.run@.len() > 0,
        c.defaults_defined(),
{
    let p = crate::config::entry_runless();
    lemma_first_where_found(c.targets@, p);
    let q = |d: String| !c.defines(d@);
    lemma_first_where_found(c.default@, q);
    assert forall|i: int| 0 <= i < c.targets@.len() implies (#[trigger] c.targets@[i]).1.run@.len()
        > 0 by {
        assert(!p(c.targets@[i]));
    }
    assert forall|i: int| 0 <= i < c.default@.len() implies c.defines(#[trigger] c.default@[i]@) by {
        assert(!q(c.default@[i]));
    }
}

/// Watching a root never repeats a path: the kept roots are taken from
/// the resolved ones, in order, and every resolved root is kept or equal
/// (as paths) to one kept before it.
pub proof fn watch_roots_cover_without_repeats(roots: Seq<Seq<char>>)
    ensures
        forall|j: int| 0 <= j < dedup_paths(roots).len() ==> roots.contains(#[trigger] dedup_paths(roots)[j]),
        forall|i: int|
            0 <= i < roots.len() ==> (dedup_paths(roots).contains(#[trigger] roots[i]) || exists|
                k: int,
            |
                0 <= k < dedup_paths(roots).len() && std_path_eq(
                    #[trigger] dedup_paths(roots)[k],
                    roots[i],
                )),
    decreases roots.len(),
{
    if roots.len() > 0 {
        let prev = roots.drop_last();
        watch_roots_cover_without_repeats(prev);
        let kept = dedup_paths(prev);
        let last = roots.last();
        assert forall|j: int| 0 <= j < dedup_paths(roots).len() implies roots.contains(
            #[trigger] dedup_paths(roots)[j],
        ) by {
            if j < kept.len() {
                let x = kept[j];
                assert(prev.contains(x));
                let w = choose|w: int| 0 <= w < prev.len() && prev[w] == x;
                assert(roots[w] == x);
            } else {
                assert(roots[roots.len() - 1] == last);
            }
        }
        assert forall|i: int| 0 <= i < roots.len() implies (dedup_paths(roots).contains(
            #[trigger] roots[i],
        ) || exists|k: int|
            0 <= k < dedup_paths(roots).len() && std_path_eq(
                #[trigger] dedup_paths(roots)[k],
                roots[i],
            )) by {
            if i < prev.len() {
                assert(roots[i] == prev[i]);
                if kept.contains(prev[i]) {
                    let k = choose|k: int| 0 <= k < kept.len() && kept[k] == prev[i];
                    assert(dedup_paths(roots)[k] == prev[i]);
                } else {
                    let k = choose|k: int|
                        0 <= k < kept.len() && std_path_eq(#[trigger] kept[k], prev[i]);
                    assert(dedup_paths(roots)[k] == kept[k]);
                }
            } else {
                if exists|k: int| 0 <= k < kept.len() && std_path_eq(#[trigger] kept[k], last) {
                    let k = choose|k: int| 0 <= k < kept.len() && std_path_eq(#[trigger] kept[k], last);
                    assert(dedup_paths(roots)[k] == kept[k]);
                } else {
                    assert(dedup_paths(roots)[kept.len() as int] == last);
                }
            }
        }
    }
}

/// Which targets a batch fires depends only on which paths it holds: the
/// targets two batches fire together are those either fires, so order and
/// repetition of changed paths do not matter.
pub proof fn firing_is_a_union(
    ts: Seq<CompiledTarget>,
    ignore: PatternSet,
    e1: Seq<String>,
    e2: Seq<String>,
)
    ensures
        forall|i: int|
            #[trigger] fired(ts, ignore, e1 + e2, i) <==> fired(ts, ignore, e1, i) || fired(ts, ignore, e2, i),
{
    let both = e1 + e2;
    assert forall|i: int|
        #[trigger] fired(ts, ignore, both, i) <==> fired(ts, ignore, e1, i) || fired(ts, ignore, e2, i) by {
        if fired(ts, ignore, both, i) {
            let e = choose|e: int| #[trigger] fires(ts, ignore, both, i, e);
            if e < e1.len() {
                assert(both[e] == e1[e]);
                assert(fires(ts, ignore, e1, i, e));
            } else {
                assert(both[e] == e2[e - e1.len()]);
                assert(fires(ts, ignore, e2, i, e - e1.len()));
            }
        }
        if fired(ts, ignore, e1, i) {
            let e = choose|e: int| #[trigger] fires(ts, ignore, e1, i, e);
            assert(both[e] == e1[e]);
            assert(fires(ts, ignore, both, i, e));
        }
        if fired(ts, ignore, e2, i) {
            let e = choose|e: int| #[trigger] fires(ts, ignore, e2, i, e);
            assert(both[e + e1.len()] == e2[e]);
            assert(fires(ts, ignore, both, i, e + e1.len()));
        }
    }
}

/// Two batches that hold the same paths fire the same targets.
pub proof fn firing_ignores_order_and_repeats(
    ts: Seq<CompiledTarget>,
    ignore: PatternSet,
    e1: Seq<String>,
    e2: Seq<String>,
)
    requires
        forall|x: String| e1.contains(x) <==> e2.contains(x),
    ensures
        forall|i: int| #[trigger] fired(ts, ignore, e1, i) <==> fired(ts, ignore, e2, i),
{
    assert forall|i: int| #[trigger] fired(ts, ignore, e1, i) <==> fired(ts, ignore, e2, i) by {
        if fired(ts, ignore, e1, i) {
            let e = choose|e: int| #[trigger] fires(ts, ignore, e1, i, e);
            assert(e1.contains(e1[e]));
            let f = choose|f: int| 0 <= f < e2.len() && e2[f] == e1[e];
            assert(fires(ts, ignore, e2, i, f));
        }
        if fired(ts, ignore, e2, i) {
            let e = choose|e: int| #[trigger] fires(ts, ignore, e2, i, e);
            assert(e2.contains(e2[e]));
            let f = choose|f: int| 0 <= f < e1.len() && e1[f] == e2[e];
            assert(fires(ts, ignore, e1, i, f));
        }
    }
}

/// No watched root equals (as a path) one kept before it.
pub proof fn watch_roots_do_not_repeat(roots: Seq<Seq<char>>)
    ensures
        forall|i: int, j: int|
            0 <= i < j < dedup_paths(roots).len() ==> !std_path_eq(
                #[trigger] dedup_paths(roots)[i],
                #[trigger] dedup_paths(roots)[j],
            ),
    decreases roots.len(),
{
    if roots.len() > 0 {
        let prev = roots.drop_last();
        watch_roots_do_not_repeat(prev);
        let kept = dedup_paths(prev);
        let out = dedup_paths(roots);
        assert forall|i: int, j: int| 0 <= i < j < out.len() implies !std_path_eq(
            #[trigger] out[i],
            #[trigger] out[j],
        ) by {
            if j < kept.len() {
                assert(out[i] == kept[i] && out[j] == kept[j]);
            } else {
                assert(out[i] == kept[i]);
                assert(out[j] == roots.last());
            }
        }
    }
}

/// In a watchfile whose target names are unique (as they are when read
/// from TOML), looking a name up finds the one target of that name.
pub proof fn lookups_find_the_named_target(c: Config, i: int)
    requires
        c.names_unique(),
        0 <= i < c.targets@.len(),
    ensures
        c.index_of(c.targets@[i].0@) == Some(i),
{
    let name = c.targets@[i].0@;
    let p = crate::config::entry_named(name);
    assert forall|j: int| 0 <= j < i implies !p(#[trigger] c.targets@[j]) by {
        assert(c.targets@[j].0@ != c.targets@[i].0@);
    }
    crate::text::lemma_first_where_at(c.targets@, p, i);
}

/// A target fires on a batch exactly when some changed path that `ignore`
/// does not match is matched by the target's own glob set, whatever the
/// other targets match: two targets watching the same path both fire.
pub proof fn each_matching_target_fires(
    ts: Seq<CompiledTarget>,
    ignore: PatternSet,
    events: Seq<String>,
    i: int,
)
    ensures
        fired(ts, ignore, events, i) <==> exists|e: int|
            0 <= e < events.len() && !globset_is_match(ignore.globs(), (#[trigger] events[e])@)
                && globset_is_match(ts[i].filter.globs(), events[e]@),
{
    if fired(ts, ignore, events, i) {
        let e = choose|e: int| #[trigger] fires(ts, ignore, events, i, e);
        assert(events[e] == events[e]);
    }
    if exists|e: int|
        0 <= e < events.len() && !globset_is_match(ignore.globs(), (#[trigger] events[e])@)
            && globset_is_match(ts[i].filter.globs(), events[e]@) {
        let e = choose|e: int|
            0 <= e < events.len() && !globset_is_match(ignore.globs(), (#[trigger] events[e])@)
                && globset_is_match(ts[i].filter.globs(), events[e]@);
        assert(fires(ts, ignore, events, i, e));
    }
}

/// A positional argument names one more target, whatever came before it:
/// the parse goes on from the same state with the value appended.
pub proof fn positional_arguments_append_targets(p: Parser, cli: CliView, fuel: nat, v: Seq<char>)
    requires
        fuel > 0,
        lexopt_next(p).0 == NextView::Item(ArgView::Value(v)),
    ensures
        drive(p, cli, fuel) == drive(
            lexopt_next(p).1,
            CliView { config_path: cli.config_path, targets: cli.targets.push(v), once: cli.once },
            (fuel - 1) as nat,
        ),
{
}

/// `--once` sets `once` and keeps everything else; the parse goes on.
pub proof fn once_only_sets_once(p: Parser, cli: CliView, fuel: nat)
    requires
        fuel > 0,
        lexopt_next(p).0 == NextView::Item(ArgView::Long("once"@)),
    ensures
        drive(p, cli, fuel) == drive(
            lexopt_next(p).1,
            CliView { config_path: cli.config_path, targets: cli.targets, once: true },
            (fuel - 1) as nat,
        ),
{
    lemma_flag_names_distinct();
}

/// `-f`/`--file` takes the value `lexopt` reads next as the watchfile and
/// keeps the targets and `once`; a missing value is a parser error.
pub proof fn file_flag_takes_the_next_value(p: Parser, cli: CliView, fuel: nat)
    requires
        fuel > 0,
        lexopt_next(p).0 == NextView::Item(ArgView::Short('f')) || lexopt_next(p).0
            == NextView::Item(ArgView::Long("file"@)),
    ensures
        ({
            let (value, p2) = lexopt_value(lexopt_next(p).1);
            match value {
                Some(v) => drive(p, cli, fuel) == drive(
                    p2,
                    CliView { config_path: Some(v), targets: cli.targets, once: cli.once },
                    (fuel - 1) as nat,
                ),
                None => drive(p, cli, fuel) == Some(ParseOutcome::ParserError),
            }
        }),
{
    lemma_flag_names_distinct();
}

/// `-h`/`--help` and `-v`/`--version` end the parse with their answer,
/// whatever else the command line holds.
pub proof fn help_and_version_end_the_parse(p: Parser, cli: CliView, fuel: nat)
    requires
        fuel > 0,
    ensures
        lexopt_next(p).0 == NextView::Item(ArgView::Short('h')) || lexopt_next(p).0 == NextView::Item(
            ArgView::Long("help"@),
        ) ==> drive(p, cli, fuel) == Some(ParseOutcome::Help),
        lexopt_next(p).0 == NextView::Item(ArgView::Short('v')) || lexopt_next(p).0 == NextView::Item(
            ArgView::Long("version"@),
        ) ==> drive(p, cli, fuel) == Some(ParseOutcome::Version),
{
    lemma_flag_names_distinct();
}

/// At the end of the command line the parse runs with the state it reached;
/// an error from `lexopt` ends it with that error.
pub proof fn the_end_runs_what_was_read(p: Parser, cli: CliView, fuel: nat)
    requires
        fuel > 0,
    ensures
        lexopt_next(p).0 == NextView::End ==> drive(p, cli, fuel) == Some(ParseOutcome::Run(cli)),
        lexopt_next(p).0 == NextView::Error ==> drive(p, cli, fuel) == Some(ParseOutcome::ParserError),
{
}

/// An `ignore` entry that ends in `/` stands for the directory named by the
/// rest, anywhere and with everything below it; an entry without glob
/// characters likewise stands for that name anywhere (even a path such as
/// `frontend/dist`); a glob entry is matched as written.
pub proof fn ignore_entries_match_anywhere(p: Seq<char>)
    ensures
        p.len() > 0 && p.last() == '/' ==> ignore_globs_spec(p) == seq![
            "**/"@ + p.drop_last(),
            "**/"@ + p.drop_last() + "/**"@,
        ],
        (p.len() == 0 || p.last() != '/') && !has_glob_spec(p) ==> ignore_globs_spec(p) == seq![
            "**/"@ + p,
            "**/"@ + p + "/**"@,
        ],
        (p.len() == 0 || p.last() != '/') && has_glob_spec(p) ==> ignore_globs_spec(p) == seq![p],
{
}

/// A watchfile passes validation exactly when it defines a target, every
/// target has run commands, and every `default` name is a target; an
/// empty `default` is fine.
pub proof fn complete_watchfiles_are_valid(path: Seq<char>, c: Config)
    ensures
        validation_error(path, c) is None <==> (c.targets@.len() > 0 && (forall|i: int|
            0 <= i < c.targets@.len() ==> (#[trigger] c.targets@[i]).1.run@.len() > 0) && (forall|
            i: int,
        |
            0 <= i < c.default@.len() ==> c.defines(#[trigger] c.default@[i]@))),
{
    let p = crate::config::entry_runless();
    let q = |d: String| !c.defines(d@);
    lemma_first_where_found(c.targets@, p);
    lemma_first_where_found(c.default@, q);
    if validation_error(path, c) is None {
        valid_watchfiles_are_complete(path, c);
    }
    if c.targets@.len() > 0 && (forall|i: int|
        0 <= i < c.targets@.len() ==> (#[trigger] c.targets@[i]).1.run@.len() > 0) && (forall|i: int|
        0 <= i < c.default@.len() ==> c.defines(#[trigger] c.default@[i]@)) {
        assert forall|j: int| 0 <= j < c.targets@.len() implies !p(#[trigger] c.targets@[j]) by {}
        assert forall|j: int| 0 <= j < c.default@.len() implies !q(#[trigger] c.default@[j]) by {}
        lemma_first_where_none(c.targets@, p);
        lemma_first_where_none(c.default@, q);
    }
}

/// An update is asked for exactly when the command line names the single
/// target `update` and no watchfile read defines a target of that name; a
/// bare `wat`, or any other names, never asks for one.
pub proof fn update_needs_the_single_name_update(cli: Cli, config: Option<Config>)
    ensures
        update_requested(cli, config) <==> (views(cli.targets@) == seq!["update"@] && match config {
            None => true,
            Some(c) => !c.defines("update"@),
        }),
        cli.targets@.len() != 1 ==> !update_requested(cli, config),
{
    if cli.targets@.len() != 1 {
        assert(views(cli.targets@).len() != 1);
    }
}

} // verus!
