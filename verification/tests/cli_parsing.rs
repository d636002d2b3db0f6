use lexopt::Parser;
use wat::cli::{apply_arg, help_text, is_update_request, parse, version_text, ArgStep, Cli, CliArg, ParseResult};
use wat::config::{Config, Target};

fn run(args: &[&str]) -> Result<ParseResult, String> {
    let mut parser = Parser::from_args(args.iter().copied());
    parse(&mut parser)
}

fn empty_cli() -> Cli {
    Cli { config_path: None, targets: Vec::new(), once: false }
}

#[test]
fn no_arguments_runs_with_defaults() {
    match run(&[]) {
        Ok(ParseResult::Run(cli)) => {
            assert!(cli.config_path.is_none());
            assert!(cli.targets.is_empty());
            assert!(!cli.once);
        }
        _ => panic!("expected a run"),
    }
}

#[test]
fn targets_file_and_once_are_collected() {
    match run(&["build", "-f", "other.toml", "tests", "--once"]) {
        Ok(ParseResult::Run(cli)) => {
            assert_eq!(cli.config_path.as_deref(), Some("other.toml"));
            assert_eq!(cli.targets, vec!["build".to_string(), "tests".to_string()]);
            assert!(cli.once);
        }
        _ => panic!("expected a run"),
    }
}

#[test]
fn long_file_option_with_equals_sign() {
    match run(&["--file=./watfile.toml", "backend"]) {
        Ok(ParseResult::Run(cli)) => {
            assert_eq!(cli.config_path.as_deref(), Some("./watfile.toml"));
            assert_eq!(cli.targets, vec!["backend".to_string()]);
        }
        _ => panic!("expected a run"),
    }
}

#[test]
fn help_and_version_end_the_parse() {
    assert!(matches!(run(&["build", "-h", "--bogus"]), Ok(ParseResult::Help)));
    assert!(matches!(run(&["--help"]), Ok(ParseResult::Help)));
    assert!(matches!(run(&["-v"]), Ok(ParseResult::Version)));
    assert!(matches!(run(&["--version", "x"]), Ok(ParseResult::Version)));
}

#[test]
fn unknown_flags_are_errors() {
    assert_eq!(run(&["-x"]).err(), Some("unknown flag `-x`".to_string()));
    assert_eq!(run(&["--nope"]).err(), Some("unknown flag `--nope`".to_string()));
}

#[test]
fn file_without_value_is_an_error() {
    let e = run(&["-f"]).err().expect("an error");
    assert_eq!(e, "missing argument for option '-f'");
}

#[test]
fn value_attached_to_a_flag_is_an_error() {
    let e = run(&["--once=yes"]).err().expect("an error");
    assert!(e.starts_with("unexpected argument for option '--once'"));
}

#[test]
fn apply_arg_steps() {
    assert!(matches!(apply_arg(empty_cli(), CliArg::Short('f')), ArgStep::NeedFile(_)));
    assert!(matches!(apply_arg(empty_cli(), CliArg::Long("file".to_string())), ArgStep::NeedFile(_)));
    match apply_arg(empty_cli(), CliArg::Long("once".to_string())) {
        ArgStep::Continue(c) => assert!(c.once),
        _ => panic!("expected to continue"),
    }
    match apply_arg(empty_cli(), CliArg::Value("web".to_string())) {
        ArgStep::Continue(c) => assert_eq!(c.targets, vec!["web".to_string()]),
        _ => panic!("expected to continue"),
    }
    match apply_arg(empty_cli(), CliArg::Short('q')) {
        ArgStep::Fail(m) => assert_eq!(m, "unknown flag `-q`"),
        _ => panic!("expected a failure"),
    }
}

#[test]
fn texts() {
    assert!(help_text().starts_with("wat - a tiny config-driven file watcher"));
    assert!(help_text().contains("--once"));
    assert_eq!(version_text(), "wat 0.1.0");
}

fn config_with(names: &[&str]) -> Config {
    Config {
        ignore: Vec::new(),
        default: Vec::new(),
        targets: names
            .iter()
            .map(|n| {
                (n.to_string(), Target { watch: Vec::new(), interrupt: false, run: vec!["true".to_string()] })
            })
            .collect(),
    }
}

#[test]
fn update_unless_a_target_takes_the_name() {
    let cli = Cli { config_path: None, targets: vec!["update".to_string()], once: false };
    assert!(is_update_request(&cli, None));
    assert!(is_update_request(&cli, Some(&config_with(&["build"]))));
    assert!(!is_update_request(&cli, Some(&config_with(&["build", "update"]))));
    let two = Cli { config_path: None, targets: vec!["update".to_string(), "x".to_string()], once: false };
    assert!(!is_update_request(&two, None));
    assert!(!is_update_request(&empty_cli(), None));
}
