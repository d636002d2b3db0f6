use wat::config::{default_config_names, default_ignore, find_config, validate, Config, Target};

fn target(watch: &[&str], interrupt: bool, run: &[&str]) -> Target {
    Target {
        watch: watch.iter().map(|s| s.to_string()).collect(),
        interrupt,
        run: run.iter().map(|s| s.to_string()).collect(),
    }
}

fn config(default: &[&str], targets: Vec<(&str, Target)>) -> Config {
    Config {
        ignore: default_ignore(),
        default: default.iter().map(|s| s.to_string()).collect(),
        targets: targets.into_iter().map(|(n, t)| (n.to_string(), t)).collect(),
    }
}

#[test]
fn watchable_needs_watch_entries() {
    assert!(target(&["src/**"], false, &["make"]).is_watchable());
    assert!(!target(&[], false, &["make"]).is_watchable());
}

#[test]
fn ignore_defaults_to_git() {
    assert_eq!(default_ignore(), vec![".git/".to_string()]);
}

#[test]
fn config_names_in_order() {
    assert_eq!(default_config_names(), vec!["watfile".to_string(), "watfile.toml".to_string()]);
}

#[test]
fn find_config_takes_first_present_name() {
    assert_eq!(find_config(&vec![true, true]), Ok("watfile".to_string()));
    assert_eq!(find_config(&vec![false, true]), Ok("watfile.toml".to_string()));
    assert_eq!(find_config(&vec![false, false]), Err("no watfile found".to_string()));
    assert_eq!(find_config(&vec![]), Err("no watfile found".to_string()));
}

#[test]
fn validate_accepts_the_readme_example() {
    let c = config(
        &["backend", "frontend"],
        vec![
            ("init", target(&[], false, &["npm install --prefix frontend"])),
            ("backend", target(&["backend/src/**", "backend/Cargo.toml"], false, &["cd backend && cargo build"])),
            ("frontend", target(&["frontend/src/**"], false, &["npm run build --prefix frontend"])),
            ("serve-backend", target(&["backend/src/**"], true, &["cd backend && cargo run"])),
        ],
    );
    assert_eq!(validate("watfile", &c), Ok(()));
}

#[test]
fn validate_rejects_no_targets() {
    let c = config(&[], vec![]);
    assert_eq!(validate("watfile", &c), Err("watfile: no targets defined".to_string()));
}

#[test]
fn validate_rejects_target_without_run() {
    let c = config(&[], vec![("a", target(&[], false, &["x"])), ("b", target(&["src"], false, &[])), ("c", target(&[], false, &[]))]);
    assert_eq!(validate("w.toml", &c), Err("w.toml: target `b` has no run commands".to_string()));
}

#[test]
fn validate_rejects_undefined_default() {
    let c = config(&["a", "ghost", "other"], vec![("a", target(&[], false, &["x"]))]);
    assert_eq!(
        validate("watfile", &c),
        Err("watfile: `default` references undefined target `ghost`".to_string())
    );
}

#[test]
fn find_target_by_name() {
    let c = config(&[], vec![("a", target(&[], false, &["x"])), ("b", target(&[], false, &["y"]))]);
    assert_eq!(c.find_target(&"b".to_string()), Some(1));
    assert_eq!(c.find_target(&"z".to_string()), None);
}

#[test]
fn unique_names_are_checked() {
    let ok = config(&[], vec![("a", target(&[], false, &["x"])), ("b", target(&[], false, &["y"]))]);
    assert!(ok.has_unique_names());
    let twice = config(&[], vec![("a", target(&[], false, &["x"])), ("b", target(&[], false, &["y"])), ("a", target(&[], false, &["z"]))]);
    assert!(!twice.has_unique_names());
    assert_eq!(twice.find_target(&"a".to_string()), Some(0));
}
