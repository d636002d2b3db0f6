//! Which targets a run involves, and what happens to each of them.

use crate::cli::Cli;
use crate::config::{Config, Target};
use crate::text::{first_where, lemma_first_where_at, lemma_first_where_none, views};
use vstd::prelude::*;

verus! {

/// The error when no target is named and the watchfile sets no `default`.
pub open spec fn no_default_msg() -> Seq<char> {
    "no target names given and `default` is not set"@
}

/// The targets a run selects, by name: those named on the command line
/// (each of which must be defined), else the watchfile's `default`; with
/// neither, the run fails.
pub open spec fn selection(cli: Cli, c: Config) -> Result<Seq<Seq<char>>, Seq<char>> {
    if cli.targets@.len() > 0 {
        match first_where(cli.targets@, |t: String| !c.defines(t@)) {
            Some(i) => Err("target `"@ + cli.targets@[i]@ + "` is not defined"@),
            None => Ok(views(cli.targets@)),
        }
    } else if c.default@.len() > 0 {
        Ok(views(c.default@))
    } else {
        Err(no_default_msg())
    }
}

/// A copy of a list of strings.
pub fn copy_strings(v: &Vec<String>) -> (r: Vec<String>)
    ensures
        r@ == v@,
{
    let mut r: Vec<String> = Vec::new();
    let mut i: usize = 0;
    while i < v.len()
        invariant
            i <= v@.len(),
            r@ == v@.take(i as int),
        decreases v.len() - i,
    {
        r.push(v[i].clone());
        assert(r@ =~= v@.take(i + 1));
        i = i + 1;
    }
    assert(v@.take(v@.len() as int) =~= v@);
    r
}

/// The names of the targets the run selects (see `selection`).
pub fn select_targets(cli: &Cli, config: &Config) -> (r: Result<Vec<String>, String>)
    ensures
        match selection(*cli, *config) {
            Ok(names) => r matches Ok(v) && views(v@) == names,
            Err(m) => r matches Err(e) && e@ == m,
        },
{
    if cli.targets.len() != 0 {
        let ghost q = |t: String| !config.defines(t@);
        let n = cli.targets.len();
        let mut i: usize = 0;
        while i < n
            invariant
                n == cli.targets@.len(),
                i <= n,
                q == (|t: String| !config.defines(t@)),
                forall|j: int| 0 <= j < i ==> !q(#[trigger] cli.targets@[j]),
            decreases n - i,
        {
            let name = &cli.targets[i];
            if config.find_target(name).is_none() {
                proof {
                    lemma_first_where_at(cli.targets@, q, i as int);
                }
                let mut e = String::from_str("target `");
                e.append(name.as_str());
                e.append("` is not defined");
                return Err(e);
            }
            i = i + 1;
        }
        proof {
            lemma_first_where_none(cli.targets@, q);
        }
        return Ok(copy_strings(&cli.targets));
    }
    if config.default.len() != 0 {
        return Ok(copy_strings(&config.default));
    }
    Err(String::from_str("no target names given and `default` is not set"))
}

/// A target runs at startup when it has run commands and is not an
/// `interrupt` target, when the run is `--once`, or when it has nothing to
/// watch (so the watcher would never start it).
pub open spec fn runs_at_startup(t: Target, once: bool) -> bool {
    t.run@.len() > 0 && (!t.interrupt || once || !t.watchable())
}

/// The startup targets among `selected` (positions in `c.targets`).
pub open spec fn startup_spec(c: Config, selected: Seq<usize>, once: bool) -> Seq<usize> {
    selected.filter(|i: usize| runs_at_startup(c.targets@[i as int].1, once))
}

/// The watched targets among `selected`: none for a `--once` run, else
/// those with `watch` entries.
pub open spec fn watch_spec(c: Config, selected: Seq<usize>, once: bool) -> Seq<usize> {
    if once {
        Seq::empty()
    } else {
        selected.filter(|i: usize| c.targets@[i as int].1.watchable())
    }
}

/// What a run does, as positions in the watchfile's `targets`.
pub struct RunPlan {
    /// The selected targets, in the order selected.
    pub selected: Vec<usize>,
    /// Those run to completion at startup, in order.
    pub startup: Vec<usize>,
    /// Those watched afterwards, in order.
    pub watch: Vec<usize>,
}

/// The positions of the selected targets, in the order of their names.
pub open spec fn positions(c: Config, names: Seq<Seq<char>>, selected: Seq<usize>) -> bool {
    &&& selected.len() == names.len()
    &&& forall|k: int| 0 <= k < names.len() ==> c.index_of(#[trigger] names[k]) == Some(
        selected[k] as int,
    )
}

/// The selected positions that satisfy `p`, in order.
fn filter_positions(selected: &Vec<usize>, p: Ghost<spec_fn(usize) -> bool>, keep: &Vec<bool>) -> (r: Vec<usize>)
    requires
        keep@.len() == selected@.len(),
        forall|k: int| 0 <= k < keep@.len() ==> keep@[k] == p@(#[trigger] selected@[k]),
    ensures
        r@ == selected@.filter(p@),
{
    let mut r: Vec<usize> = Vec::new();
    let mut k: usize = 0;
    while k < selected.len()
        invariant
            keep@.len() == selected@.len(),
            forall|j: int| 0 <= j < keep@.len() ==> keep@[j] == p@(#[trigger] selected@[j]),
            k <= selected@.len(),
            r@ == selected@.take(k as int).filter(p@),
        decreases selected.len() - k,
    {
        proof {
            reveal_with_fuel(Seq::<_>::filter, 1);
            assert(selected@.take(k + 1).drop_last() =~= selected@.take(k as int));
        }
        if keep[k] {
            r.push(selected[k]);
        }
        k = k + 1;
    }
    assert(selected@.take(selected@.len() as int) =~= selected@);
    r
}

/// Plans a run: the selected targets (see `select_targets`), the ones run
/// at startup, and the ones watched. An empty selection fails with `no
/// watchable targets found`.
pub fn plan_run(cli: &Cli, config: &Config) -> (r: Result<RunPlan, String>)
    requires
        config.defaults_defined(),
    ensures
        match selection(*cli, *config) {
            Err(m) => r matches Err(e) && e@ == m,
            Ok(names) => if names.len() == 0 {
                r matches Err(e) && e@ == "no watchable targets found"@
            } else {
                r matches Ok(plan) && positions(*config, names, plan.selected@) && plan.startup@
                    == startup_spec(*config, plan.selected@, cli.once) && plan.watch@ == watch_spec(
                    *config,
                    plan.selected@,
                    cli.once,
                )
            },
        },
{
    let names = match select_targets(cli, config) {
        Ok(names) => names,
        Err(e) => return Err(e),
    };
    if names.len() == 0 {
        return Err(String::from_str("no watchable targets found"));
    }
    let ghost chosen = views(names@);
    proof {
        if cli.targets@.len() == 0 {
            assert forall|k: int| 0 <= k < chosen.len() implies config.defines(#[trigger] chosen[k]) by {
                assert(chosen[k] == config.default@[k]@);
            }
        } else {
            crate::text::lemma_first_where_found(cli.targets@, |t: String| !config.defines(t@));
            assert forall|k: int| 0 <= k < chosen.len() implies config.defines(#[trigger] chosen[k]) by {
                assert(chosen[k] == cli.targets@[k]@);
            }
        }
    }
    let mut selected: Vec<usize> = Vec::new();
    let mut at_start: Vec<bool> = Vec::new();
    let mut watched: Vec<bool> = Vec::new();
    let ghost ps = |i: usize| runs_at_startup(config.targets@[i as int].1, cli.once);
    let ghost pw = |i: usize| config.targets@[i as int].1.watchable();
    let mut k: usize = 0;
    while k < names.len()
        invariant
            chosen == views(names@),
            forall|j: int| 0 <= j < chosen.len() ==> config.defines(#[trigger] chosen[j]),
            k <= names@.len(),
            selected@.len() == k,
            at_start@.len() == k,
            watched@.len() == k,
            forall|j: int| 0 <= j < k ==> config.index_of(#[trigger] chosen[j]) == Some(
                selected@[j] as int,
            ),
            forall|j: int| 0 <= j < k ==> selected@[j] < config.targets@.len(),
            ps == (|i: usize| runs_at_startup(config.targets@[i as int].1, cli.once)),
            pw == (|i: usize| config.targets@[i as int].1.watchable()),
            forall|j: int| 0 <= j < k ==> at_start@[j] == ps(#[trigger] selected@[j]),
            forall|j: int| 0 <= j < k ==> watched@[j] == pw(#[trigger] selected@[j]),
        decreases names.len() - k,
    {
        assert(chosen[k as int] == names@[k as int]@);
        assert(config.defines(chosen[k as int]));
        let i = match config.find_target(&names[k]) {
            Some(i) => i,
            None => {
                return Err(String::from_str("no watchable targets found"));
            },
        };
        let t = &config.targets[i].1;
        selected.push(i);
        at_start.push(t.run.len() != 0 && (!t.interrupt || cli.once || !t.is_watchable()));
        watched.push(t.is_watchable());
        k = k + 1;
    }
    let startup = filter_positions(&selected, Ghost(ps), &at_start);
    let watch = if cli.once {
        Vec::new()
    } else {
        filter_positions(&selected, Ghost(pw), &watched)
    };
    Ok(RunPlan { selected, startup, watch })
}

} // verus!
