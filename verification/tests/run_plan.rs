use wat::cli::Cli;
use wat::config::{Config, Target};
use wat::plan::{plan_run, select_targets};
use wat::runner::join_commands;
use wat::watch::{trigger_action, TriggerAction};

fn target(watch: &[&str], interrupt: bool, run: &[&str]) -> Target {
    Target {
        watch: watch.iter().map(|s| s.to_string()).collect(),
        interrupt,
        run: run.iter().map(|s| s.to_string()).collect(),
    }
}

fn sample(default: &[&str]) -> Config {
    Config {
        ignore: Vec::new(),
        default: default.iter().map(|s| s.to_string()).collect(),
        targets: vec![
            ("init".to_string(), target(&[], false, &["npm install"])),
            ("backend".to_string(), target(&["backend/src/**"], false, &["cargo build"])),
            ("serve".to_string(), target(&["backend/src/**"], true, &["cargo run"])),
        ],
    }
}

fn cli(targets: &[&str], once: bool) -> Cli {
    Cli { config_path: None, targets: targets.iter().map(|s| s.to_string()).collect(), once }
}

#[test]
fn named_targets_win_over_default() {
    let c = sample(&["init"]);
    assert_eq!(select_targets(&cli(&["serve", "backend"], false), &c), Ok(vec!["serve".to_string(), "backend".to_string()]));
}

#[test]
fn undefined_named_target_is_an_error() {
    let c = sample(&[]);
    assert_eq!(select_targets(&cli(&["backend", "nope"], false), &c), Err("target `nope` is not defined".to_string()));
}

#[test]
fn default_is_used_without_names() {
    let c = sample(&["backend", "serve"]);
    assert_eq!(select_targets(&cli(&[], false), &c), Ok(vec!["backend".to_string(), "serve".to_string()]));
}

#[test]
fn no_names_and_no_default_is_an_error() {
    let c = sample(&[]);
    assert_eq!(
        select_targets(&cli(&[], true), &c),
        Err("no target names given and `default` is not set".to_string())
    );
}

#[test]
fn plan_when_watching() {
    let c = sample(&["init", "backend", "serve"]);
    let plan = plan_run(&cli(&[], false), &c).ok().expect("a plan");
    assert_eq!(plan.selected, vec![0, 1, 2]);
    // the interrupt target is started by the watcher, not at startup
    assert_eq!(plan.startup, vec![0, 1]);
    // init has nothing to watch
    assert_eq!(plan.watch, vec![1, 2]);
}

#[test]
fn plan_once_runs_everything_and_watches_nothing() {
    let c = sample(&[]);
    let plan = plan_run(&cli(&["serve", "init"], true), &c).ok().expect("a plan");
    assert_eq!(plan.selected, vec![2, 0]);
    assert_eq!(plan.startup, vec![2, 0]);
    assert!(plan.watch.is_empty());
}

#[test]
fn plan_reports_selection_errors() {
    let c = sample(&[]);
    assert_eq!(plan_run(&cli(&["x"], false), &c).err(), Some("target `x` is not defined".to_string()));
}

#[test]
fn commands_join_with_and() {
    assert_eq!(join_commands(&vec![]), "");
    assert_eq!(join_commands(&vec!["cargo build".to_string()]), "cargo build");
    assert_eq!(
        join_commands(&vec!["cargo fmt --check".to_string(), "cargo build".to_string(), "cargo test".to_string()]),
        "cargo fmt --check && cargo build && cargo test"
    );
}

#[test]
fn fired_targets_run_or_restart() {
    let plain = target(&["a"], false, &["x"]);
    let restart = target(&["a"], true, &["x"]);
    assert!(matches!(trigger_action(&plain, false), TriggerAction::RunToCompletion));
    assert!(matches!(trigger_action(&plain, true), TriggerAction::RunToCompletion));
    assert!(matches!(trigger_action(&restart, true), TriggerAction::Restart { stop_running: true }));
    assert!(matches!(trigger_action(&restart, false), TriggerAction::Restart { stop_running: false }));
}

#[test]
fn interrupt_target_without_watch_runs_once_at_startup() {
    let c = Config {
        ignore: Vec::new(),
        default: Vec::new(),
        targets: vec![
            ("server".to_string(), target(&[], true, &["serve"])),
            ("watcher".to_string(), target(&["src/**"], true, &["dev"])),
        ],
    };
    let plan = plan_run(&cli(&["server", "watcher"], false), &c).ok().expect("a plan");
    assert_eq!(plan.startup, vec![0]);
    assert_eq!(plan.watch, vec![1]);
}
