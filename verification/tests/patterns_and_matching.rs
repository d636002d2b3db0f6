use wat::config::{Config, Target};
use wat::patterns::{expand_ignore_pattern, expand_watch_globs, expand_watch_pattern, glob_base, watch_root};
use wat::text::{as_glob, has_glob, split_segments};
use wat::watch::{
    ancestor_step, build_glob_set, build_ignore_set, build_watch_set, compile_targets, match_targets,
    root_candidates, starts_when_watching, watch_roots, AncestorStep,
};

fn strings(v: &[&str]) -> Vec<String> {
    v.iter().map(|s| s.to_string()).collect()
}

#[test]
fn glob_detection() {
    assert!(has_glob("src/**"));
    assert!(has_glob("a?.rs"));
    assert!(has_glob("[ab].txt"));
    assert!(!has_glob("backend/Cargo.toml"));
    assert!(!has_glob(""));
}

#[test]
fn segments_split_on_both_separators() {
    assert_eq!(split_segments("a/b\\c"), strings(&["a", "b", "c"]));
    assert_eq!(split_segments("/x//y/"), strings(&["", "x", "", "y", ""]));
    assert_eq!(split_segments(""), strings(&[""]));
}

#[test]
fn backslashes_become_slashes() {
    assert_eq!(as_glob("C:\\work\\src"), "C:/work/src");
    assert_eq!(as_glob("/already/fine"), "/already/fine");
}

#[test]
fn ignore_expansion() {
    assert_eq!(expand_ignore_pattern(".git/"), strings(&["**/.git", "**/.git/**"]));
    assert_eq!(expand_ignore_pattern("target"), strings(&["**/target", "**/target/**"]));
    assert_eq!(expand_ignore_pattern("*.log"), strings(&["*.log"]));
    // a trailing slash names the same directory as the bare name
    assert_eq!(expand_ignore_pattern("node_modules/"), expand_ignore_pattern("node_modules"));
}

#[test]
fn watch_expansion_given_absolute_path() {
    assert_eq!(expand_watch_globs("src/**", "/p/src/**"), strings(&["/p/src/**"]));
    assert_eq!(expand_watch_globs("Cargo.toml", "/p/Cargo.toml"), strings(&["/p/Cargo.toml", "/p/Cargo.toml/**"]));
}

#[test]
fn watch_expansion_joins_onto_cwd() {
    assert_eq!(expand_watch_pattern("backend/Cargo.toml", "/work"), strings(&["/work/backend/Cargo.toml", "/work/backend/Cargo.toml/**"]));
    assert_eq!(expand_watch_pattern("src/**/*.rs", "/work"), strings(&["/work/src/**/*.rs"]));
    assert_eq!(expand_watch_pattern("/abs/x", "/work"), strings(&["/abs/x", "/abs/x/**"]));
}

#[test]
fn glob_bases() {
    assert_eq!(glob_base("backend/src/**"), "backend/src");
    assert_eq!(glob_base("**/*.rs"), ".");
    assert_eq!(glob_base("a\\b\\*.txt"), "a/b");
}

#[test]
fn watch_root_starts() {
    assert_eq!(watch_root("frontend/src/**"), "frontend/src");
    assert_eq!(watch_root("backend/Cargo.toml"), "backend/Cargo.toml");
    assert_eq!(watch_root(""), ".");
}

#[test]
fn ancestor_search_steps() {
    assert!(matches!(ancestor_step("a/b".to_string(), true), AncestorStep::Found(p) if p == "a/b"));
    assert!(matches!(ancestor_step("a/b".to_string(), false), AncestorStep::Check(p) if p == "a"));
    assert!(matches!(ancestor_step("a".to_string(), false), AncestorStep::Check(p) if p.is_empty()));
    assert!(matches!(ancestor_step("".to_string(), false), AncestorStep::Found(p) if p == "."));
}

#[test]
fn roots_are_not_repeated() {
    assert_eq!(watch_roots(&strings(&["a", "b", "a", "a/", "c"])), strings(&["a", "b", "c"]));
    assert_eq!(watch_roots(&strings(&[])), Vec::<String>::new());
}

fn sample() -> Config {
    Config {
        ignore: strings(&[".git/"]),
        default: Vec::new(),
        targets: vec![
            ("backend".to_string(), Target { watch: strings(&["backend/src/**", "backend/Cargo.toml"]), interrupt: false, run: strings(&["x"]) }),
            ("frontend".to_string(), Target { watch: strings(&["frontend/src/**"]), interrupt: true, run: strings(&["y"]) }),
            ("init".to_string(), Target { watch: Vec::new(), interrupt: false, run: strings(&["z"]) }),
        ],
    }
}

#[test]
fn root_candidates_in_order() {
    let c = sample();
    assert_eq!(root_candidates(&c, &vec![0, 1]), strings(&["backend/src", "backend/Cargo.toml", "frontend/src"]));
    assert_eq!(root_candidates(&c, &vec![2]), Vec::<String>::new());
}

#[test]
fn bad_glob_names_its_entry() {
    let pairs = vec![("ok".to_string(), "/a/**".to_string()), ("broken".to_string(), "/a/[".to_string())];
    let e = build_glob_set(&pairs).err().expect("an error");
    assert!(e.starts_with("invalid watch pattern `broken`: "), "{e}");
    assert!(build_watch_set(&strings(&["src/{a"]), "/w").is_err());
}

#[test]
fn matching_fires_targets_in_order_once() {
    let c = sample();
    let compiled = compile_targets(&c, &vec![0, 1], "/w").ok().expect("compiled");
    let ignore = build_ignore_set(&c.ignore);
    let events = strings(&[
        "/w/frontend/src/app.ts",
        "/w/backend/src/main.rs",
        "/w/backend/src/lib.rs",
        "/w/elsewhere/file",
    ]);
    assert_eq!(match_targets(&compiled, &ignore, &events), vec![0, 1]);
    assert_eq!(match_targets(&compiled, &ignore, &strings(&["/w/backend/Cargo.toml"])), vec![0]);
    assert_eq!(match_targets(&compiled, &ignore, &strings(&["/w/backend/Cargo.toml/inner"])), vec![0]);
    assert_eq!(match_targets(&compiled, &ignore, &strings(&["/w/other"])), Vec::<usize>::new());
}

#[test]
fn ignored_changes_fire_nothing() {
    let c = sample();
    let compiled = compile_targets(&c, &vec![0, 1], "/w").ok().expect("compiled");
    let ignore = build_ignore_set(&strings(&[".git/", "*.tmp"]));
    let events = strings(&["/w/backend/src/.git/HEAD", "/w/frontend/src/x.tmp"]);
    assert_eq!(match_targets(&compiled, &ignore, &events), Vec::<usize>::new());
}

#[test]
fn bad_ignore_globs_are_skipped() {
    let ignore = build_ignore_set(&strings(&["[", "dist"]));
    let compiled = compile_targets(&sample(), &vec![0], "/w").ok().expect("compiled");
    assert_eq!(match_targets(&compiled, &ignore, &strings(&["/w/backend/src/dist/a.js"])), Vec::<usize>::new());
    assert_eq!(match_targets(&compiled, &ignore, &strings(&["/w/backend/src/a.js"])), vec![0]);
}

#[test]
fn bad_watch_entry_is_named_as_written() {
    let e = build_watch_set(&strings(&["src/**", "src/[a"]), "/w").err().expect("an error");
    assert!(e.starts_with("invalid watch pattern `src/[a`: "), "{e}");
}

#[test]
fn first_failing_target_reports() {
    let c = Config {
        ignore: Vec::new(),
        default: Vec::new(),
        targets: vec![
            ("ok".to_string(), Target { watch: strings(&["src/**"]), interrupt: false, run: strings(&["x"]) }),
            ("bad1".to_string(), Target { watch: strings(&["a/[x"]), interrupt: false, run: strings(&["x"]) }),
            ("bad2".to_string(), Target { watch: strings(&["b/[y"]), interrupt: false, run: strings(&["x"]) }),
        ],
    };
    let e = compile_targets(&c, &vec![0, 2, 1], "/w").err().expect("an error");
    assert!(e.starts_with("invalid watch pattern `b/[y`: "), "{e}");
}

#[test]
fn interrupt_targets_start_with_the_watcher() {
    let c = sample();
    let compiled = compile_targets(&c, &vec![0, 1], "/w").ok().expect("compiled");
    assert_eq!(starts_when_watching(&c, &compiled), vec![false, true]);
}

#[test]
fn a_batch_fires_the_union_of_its_parts() {
    let c = sample();
    let compiled = compile_targets(&c, &vec![0, 1], "/w").ok().expect("compiled");
    let ignore = build_ignore_set(&c.ignore);
    let e1 = strings(&["/w/frontend/src/a.ts"]);
    let e2 = strings(&["/w/backend/src/b.rs", "/w/frontend/src/a.ts"]);
    let both: Vec<String> = e1.iter().chain(e2.iter()).cloned().collect();
    assert_eq!(match_targets(&compiled, &ignore, &e1), vec![1]);
    assert_eq!(match_targets(&compiled, &ignore, &e2), vec![0, 1]);
    assert_eq!(match_targets(&compiled, &ignore, &both), vec![0, 1]);
    let reordered = strings(&["/w/backend/src/b.rs", "/w/frontend/src/a.ts", "/w/backend/src/b.rs"]);
    assert_eq!(match_targets(&compiled, &ignore, &reordered), vec![0, 1]);
}

#[test]
fn pattern_sets_match_their_globs() {
    let ignore = build_ignore_set(&strings(&["target"]));
    assert!(ignore.is_match("/w/target"));
    assert!(ignore.is_match("/w/x/target/debug/app"));
    assert!(!ignore.is_match("/w/targets"));
    let empty = build_ignore_set(&strings(&[]));
    assert!(!empty.is_match("/anything"));
    let set = build_watch_set(&strings(&["src"]), "/w").ok().expect("a set");
    assert!(set.is_match("/w/src"));
    assert!(set.is_match("/w/src/main.rs"));
    assert!(!set.is_match("/w/srcx"));
}
