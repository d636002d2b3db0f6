//! The watchfile's model: its targets, and the rules a loaded watchfile
//! must meet.

use crate::text::{first_where, lemma_first_where_at, lemma_first_where_none, views};
use vstd::prelude::*;

verus! {

/// One target of a watchfile.
pub struct Target {
    /// Paths or globs whose changes fire the target.
    pub watch: Vec<String>,
    /// Whether a change restarts the running command instead of running it
    /// to completion.
    pub interrupt: bool,
    /// Shell commands, chained with `&&` when run.
    pub run: Vec<String>,
}

/// A watchfile: the `ignore` and `default` lists and the named targets.
/// A watchfile read from TOML has unique target names (`names_unique`,
/// checked by `has_unique_names`); lookups by name take the first target of
/// that name, which is then the only one.
pub struct Config {
    /// Paths or globs whose changes never fire a target.
    pub ignore: Vec<String>,
    /// Targets run when no target is named on the command line.
    pub default: Vec<String>,
    /// The targets, by name.
    pub targets: Vec<(String, Target)>,
}

impl Target {
    /// A target is watched when it has at least one `watch` entry.
    pub open spec fn watchable(&self) -> bool {
        self.watch@.len() > 0
    }

    /// Whether the target has anything to watch.
    pub fn is_watchable(&self) -> (r: bool)
        ensures
            r == self.watchable(),
    {
        self.watch.len() != 0
    }
}

/// The entry is named `name`.
pub open spec fn entry_named(name: Seq<char>) -> spec_fn((String, Target)) -> bool {
    |e: (String, Target)| e.0@ == name
}

/// The entry has no run commands.
pub open spec fn entry_runless() -> spec_fn((String, Target)) -> bool {
    |e: (String, Target)| e.1.run@.len() == 0
}

impl Config {
    /// The position of the target named `name`, if the watchfile defines one.
    pub open spec fn index_of(&self, name: Seq<char>) -> Option<int> {
        first_where(self.targets@, entry_named(name))
    }

    /// No two targets share a name (as in a TOML table).
    pub open spec fn names_unique(&self) -> bool {
        forall|i: int, j: int|
            0 <= i < j < self.targets@.len() ==> #[trigger] self.targets@[i].0@
                != #[trigger] self.targets@[j].0@
    }

    /// The watchfile defines a target named `name`.
    pub open spec fn defines(&self, name: Seq<char>) -> bool {
        exists|i: int| 0 <= i < self.targets@.len() && #[trigger] self.targets@[i].0@ == name
    }

    /// Every name in `default` is a defined target.
    pub open spec fn defaults_defined(&self) -> bool {
        forall|i: int| 0 <= i < self.default@.len() ==> self.defines(#[trigger] self.default@[i]@)
    }

    /// Whether no two targets share a name.
    pub fn has_unique_names(&self) -> (r: bool)
        ensures
            r == self.names_unique(),
    {
        let n = self.targets.len();
        let mut j: usize = 0;
        while j < n
            invariant
                n == self.targets@.len(),
                j <= n,
                forall|a: int, b: int|
                    0 <= a < b < j ==> #[trigger] self.targets@[a].0@ != #[trigger] self.targets@[b].0@,
            decreases n - j,
        {
            let mut i: usize = 0;
            while i < j
                invariant
                    n == self.targets@.len(),
                    i <= j < n,
                    forall|a: int, b: int|
                        0 <= a < b < j ==> #[trigger] self.targets@[a].0@ != #[trigger] self.targets@[b].0@,
                    forall|a: int| 0 <= a < i ==> #[trigger] self.targets@[a].0@ != self.targets@[j as int].0@,
                decreases j - i,
            {
                if self.targets[i].0 == self.targets[j].0 {
                    return false;
                }
                i = i + 1;
            }
            j = j + 1;
        }
        true
    }

    /// The position of the first target named `name`.
    pub fn find_target(&self, name: &String) -> (r: Option<usize>)
        ensures
            match r {
                Some(i) => self.index_of(name@) == Some(i as int),
                None => self.index_of(name@) is None,
            },
            r is Some <==> self.defines(name@),
            r matches Some(i) ==> i < self.targets@.len() && self.targets@[i as int].0@ == name@,
    {
        let ghost p = entry_named(name@);
        let n = self.targets.len();
        let mut i: usize = 0;
        while i < n
            invariant
                n == self.targets@.len(),
                i <= n,
                p == entry_named(name@),
                forall|j: int| 0 <= j < i ==> !p(#[trigger] self.targets@[j]),
            decreases n - i,
        {
            if self.targets[i].0 == *name {
                proof {
                    lemma_first_where_at(self.targets@, p, i as int);
                }
                return Some(i);
            }
            i = i + 1;
        }
        proof {
            lemma_first_where_none(self.targets@, p);
            assert forall|j: int| 0 <= j < self.targets@.len() implies #[trigger] self.targets@[j].0@
                != name@ by {
                assert(!p(self.targets@[j]));
            }
        }
        None
    }
}

/// The `ignore` list of a watchfile that sets none: the `.git` directory.
pub fn default_ignore() -> (r: Vec<String>)
    ensures
        views(r@) == seq![".git/"@],
{
    let r = vec![String::from_str(".git/")];
    assert(views(r@) =~= seq![".git/"@]);
    r
}

/// The names a watchfile is looked for under, in order.
pub open spec fn config_names_spec() -> Seq<Seq<char>> {
    seq!["watfile"@, "watfile.toml"@]
}

/// The names a watchfile is looked for under, in order of preference.
pub fn default_config_names() -> (r: Vec<String>)
    ensures
        views(r@) == config_names_spec(),
{
    let r = vec![String::from_str("watfile"), String::from_str("watfile.toml")];
    assert(views(r@) =~= config_names_spec());
    r
}

/// Whether the `i`-th default name was found to be a file (an answer
/// missing from `is_file` counts as no).
pub open spec fn probe(is_file: Seq<bool>, i: int) -> bool {
    0 <= i < is_file.len() && is_file[i]
}

/// The answers for the default names, one per name.
pub open spec fn probes(is_file: Seq<bool>) -> Seq<bool> {
    Seq::new(config_names_spec().len(), |i: int| probe(is_file, i))
}

/// Picks the watchfile among the default names: `is_file[i]` tells whether
/// the `i`-th name of `default_config_names` is a file. The first that is
/// wins; where none is, the error is `no watfile found`.
pub fn find_config(is_file: &Vec<bool>) -> (r: Result<String, String>)
    ensures
        match first_where(probes(is_file@), |b: bool| b) {
            Some(i) => r matches Ok(name) && name@ == config_names_spec()[i],
            None => r matches Err(msg) && msg@ == "no watfile found"@,
        },
{
    let names = default_config_names();
    let ghost ps = probes(is_file@);
    let ghost p = |b: bool| b;
    let mut i: usize = 0;
    while i < names.len()
        invariant
            views(names@) == config_names_spec(),
            ps == probes(is_file@),
            p == (|b: bool| b),
            i <= names@.len(),
            forall|j: int| 0 <= j < i ==> !p(#[trigger] ps[j]),
        decreases names.len() - i,
    {
        if i < is_file.len() && is_file[i] {
            assert(p(ps[i as int]));
            proof {
                lemma_first_where_at(ps, p, i as int);
            }
            assert(views(names@)[i as int] == names@[i as int]@);
            return Ok(names[i].clone());
        }
        assert(!p(ps[i as int]));
        i = i + 1;
    }
    proof {
        lemma_first_where_none(ps, p);
    }
    Err(String::from_str("no watfile found"))
}

/// The first problem `validate` reports for a watchfile read from `path`,
/// if any: no targets at all; then the first target without run commands;
/// then the first `default` name that no target has.
pub open spec fn validation_error(path: Seq<char>, c: Config) -> Option<Seq<char>> {
    if c.targets@.len() == 0 {
        Some(path + ": no targets defined"@)
    } else {
        match first_where(c.targets@, entry_runless()) {
            Some(i) => Some(path + ": target `"@ + c.targets@[i].0@ + "` has no run commands"@),
            None => match first_where(c.default@, |d: String| !c.defines(d@)) {
                Some(i) => Some(
                    path + ": `default` references undefined target `"@ + c.default@[i]@ + "`"@,
                ),
                None => None,
            },
        }
    }
}

/// Checks a watchfile read from `path`: it must define a target, every
/// target must have run commands, and every `default` name must be a
/// target. The error names the first problem found.
pub fn validate(path: &str, config: &Config) -> (r: Result<(), String>)
    ensures
        match validation_error(path@, *config) {
            None => r is Ok,
            Some(m) => r matches Err(e) && e@ == m,
        },
        r is Ok ==> config.targets@.len() > 0 && config.defaults_defined(),
{
    if config.targets.len() == 0 {
        let mut e = String::from_str(path);
        e.append(": no targets defined");
        return Err(e);
    }
    let n = config.targets.len();
    let ghost p = entry_runless();
    let mut i: usize = 0;
    while i < n
        invariant
            n == config.targets@.len(),
            i <= n,
            p == entry_runless(),
            forall|j: int| 0 <= j < i ==> !p(#[trigger] config.targets@[j]),
        decreases n - i,
    {
        if config.targets[i].1.run.len() == 0 {
            proof {
                lemma_first_where_at(config.targets@, p, i as int);
            }
            let mut e = String::from_str(path);
            e.append(": target `");
            e.append(config.targets[i].0.as_str());
            e.append("` has no run commands");
            return Err(e);
        }
        i = i + 1;
    }
    proof {
        lemma_first_where_none(config.targets@, p);
    }
    let ghost q = |d: String| !config.defines(d@);
    let m = config.default.len();
    let mut k: usize = 0;
    while k < m
        invariant
            m == config.default@.len(),
            k <= m,
            q == (|d: String| !config.defines(d@)),
            config.targets@.len() > 0,
            first_where(config.targets@, entry_runless()) is None,
            forall|j: int| 0 <= j < k ==> !q(#[trigger] config.default@[j]),
        decreases m - k,
    {
        let name = &config.default[k];
        if config.find_target(name).is_none() {
            proof {
                lemma_first_where_at(config.default@, q, k as int);
            }
            let mut e = String::from_str(path);
            e.append(": `default` references undefined target `");
            e.append(name.as_str());
            e.append("`");
            return Err(e);
        }
        k = k + 1;
    }
    proof {
        lemma_first_where_none(config.default@, q);
        assert forall|j: int| 0 <= j < config.default@.len() implies config.defines(
            #[trigger] config.default@[j]@,
        ) by {
            assert(!q(config.default@[j]));
        }
    }
    Ok(())
}

} // verus!
