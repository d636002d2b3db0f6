//! Command-line interpretation.
//!
//! `lexopt` splits the command line into options and values; the library
//! decides what each of them means (`apply_arg`) and drives the parser
//! (`parse`).

use crate::config::Config;
use crate::text::{char_text, views};
use lexopt::Parser;
use vstd::prelude::*;

verus! {

#[verifier::external_type_specification]
#[verifier::external_body]
pub struct ExParser(Parser);

#[verifier::external_type_specification]
#[verifier::external_body]
pub struct ExLexoptError(lexopt::Error);

/// How much of the command line a parser has left to hand out: one unit
/// per byte plus one per argument not yet read, plus the bytes of the
/// option cluster (`-abc`) or attached value (`--opt=value`) in progress.
pub uninterp spec fn parser_remaining(p: Parser) -> nat;

/// What the command line asked for, where it asked to run targets.
pub struct Cli {
    /// The watchfile given with `-f`/`--file`.
    pub config_path: Option<String>,
    /// The targets named on the command line, in order.
    pub targets: Vec<String>,
    /// `--once`: run the targets once, without watching.
    pub once: bool,
}

/// What the command line asks for.
pub enum ParseResult {
    /// Run targets as described.
    Run(Cli),
    /// Show the help text.
    Help,
    /// Show the version.
    Version,
}

/// One item of the command line as `lexopt` hands it out.
pub enum CliArg {
    /// A short option, such as `-f` (without the dash).
    Short(char),
    /// A long option, such as `--file` (without the dashes).
    Long(String),
    /// A positional argument.
    Value(String),
}

/// What one item of the command line does to the parse.
pub enum ArgStep {
    /// Go on with this state.
    Continue(Cli),
    /// The next value of the command line is the watchfile's path.
    NeedFile(Cli),
    /// The parse is over with this answer.
    Done(ParseResult),
    /// The parse fails with this message.
    Fail(String),
}

/// The text of a command-line item.
pub enum ArgView {
    Short(char),
    Long(Seq<char>),
    Value(Seq<char>),
}

impl View for CliArg {
    type V = ArgView;

    open spec fn view(&self) -> ArgView {
        match self {
            CliArg::Short(c) => ArgView::Short(*c),
            CliArg::Long(s) => ArgView::Long(s@),
            CliArg::Value(v) => ArgView::Value(v@),
        }
    }
}

/// The text of a parse state.
pub struct CliView {
    pub config_path: Option<Seq<char>>,
    pub targets: Seq<Seq<char>>,
    pub once: bool,
}

impl View for Cli {
    type V = CliView;

    open spec fn view(&self) -> CliView {
        CliView {
            config_path: match self.config_path {
                Some(p) => Some(p@),
                None => None,
            },
            targets: views(self.targets@),
            once: self.once,
        }
    }
}

/// The state a parse starts from.
pub open spec fn empty_cli() -> CliView {
    CliView { config_path: None, targets: Seq::empty(), once: false }
}

/// How a parse ends, in text.
pub enum ParseOutcome {
    /// Run targets as described.
    Run(CliView),
    /// Show the help text.
    Help,
    /// Show the version.
    Version,
    /// Fail with this message.
    Fail(Seq<char>),
    /// Fail with the text of an error that `lexopt` reported.
    ParserError,
}

/// What one item does to the parse, in text.
pub enum StepView {
    Continue(CliView),
    NeedFile(CliView),
    Stop(ParseOutcome),
}

/// What one item of the command line does: `-h`/`--help` and
/// `-v`/`--version` end the parse, `-f`/`--file` takes the next value as the
/// watchfile, `--once` sets `once`, a positional argument names a target,
/// and any other option is an error.
pub open spec fn step_view(cli: CliView, a: ArgView) -> StepView {
    match a {
        ArgView::Short(c) => if c == 'h' {
            StepView::Stop(ParseOutcome::Help)
        } else if c == 'v' {
            StepView::Stop(ParseOutcome::Version)
        } else if c == 'f' {
            StepView::NeedFile(cli)
        } else {
            StepView::Stop(ParseOutcome::Fail("unknown flag `-"@ + seq![c] + "`"@))
        },
        ArgView::Long(s) => if s == "help"@ {
            StepView::Stop(ParseOutcome::Help)
        } else if s == "version"@ {
            StepView::Stop(ParseOutcome::Version)
        } else if s == "file"@ {
            StepView::NeedFile(cli)
        } else if s == "once"@ {
            StepView::Continue(CliView { config_path: cli.config_path, targets: cli.targets, once: true })
        } else {
            StepView::Stop(ParseOutcome::Fail("unknown flag `--"@ + s + "`"@))
        },
        ArgView::Value(v) => StepView::Continue(
            CliView { config_path: cli.config_path, targets: cli.targets.push(v), once: cli.once },
        ),
    }
}

/// A step of `apply_arg` agrees with its text.
pub open spec fn step_agrees(r: ArgStep, s: StepView) -> bool {
    match (r, s) {
        (ArgStep::Continue(c), StepView::Continue(v)) => c@ == v,
        (ArgStep::NeedFile(c), StepView::NeedFile(v)) => c@ == v,
        (ArgStep::Done(ParseResult::Help), StepView::Stop(ParseOutcome::Help)) => true,
        (ArgStep::Done(ParseResult::Version), StepView::Stop(ParseOutcome::Version)) => true,
        (ArgStep::Fail(m), StepView::Stop(ParseOutcome::Fail(t))) => m@ == t,
        _ => false,
    }
}

/// What `lexopt::Parser::next` hands out, in text.
pub enum NextView {
    /// The command line is exhausted.
    End,
    /// This item.
    Item(ArgView),
    /// An error.
    Error,
}

/// What `lexopt::Parser::next` hands out from a parser in this state, and
/// the state it leaves the parser in.
pub uninterp spec fn lexopt_next(p: Parser) -> (NextView, Parser);

/// What `lexopt::Parser::value` hands out from a parser in this state (its
/// text, or `None` for an error), and the state it leaves the parser in.
pub uninterp spec fn lexopt_value(p: Parser) -> (Option<Seq<char>>, Parser);

/// The outcome of parsing from parser state `p` with parse state `cli`,
/// reading at most `fuel` items (`None` where that is not enough).
pub open spec fn drive(p: Parser, cli: CliView, fuel: nat) -> Option<ParseOutcome>
    decreases fuel,
{
    if fuel == 0 {
        None
    } else {
        let (next, p1) = lexopt_next(p);
        match next {
            NextView::Error => Some(ParseOutcome::ParserError),
            NextView::End => Some(ParseOutcome::Run(cli)),
            NextView::Item(a) => match step_view(cli, a) {
                StepView::Continue(c) => drive(p1, c, (fuel - 1) as nat),
                StepView::NeedFile(c) => {
                    let (value, p2) = lexopt_value(p1);
                    match value {
                        None => Some(ParseOutcome::ParserError),
                        Some(v) => drive(
                            p2,
                            CliView { config_path: Some(v), targets: c.targets, once: c.once },
                            (fuel - 1) as nat,
                        ),
                    }
                },
                StepView::Stop(o) => Some(o),
            },
        }
    }
}

/// The outcome of parsing the command line a parser holds: each item read
/// by `lexopt` is interpreted by `step_view`, and `-f`/`--file` takes the
/// value `lexopt` reads next. Every item uses up some of what the parser
/// has left, so this much fuel is enough.
pub open spec fn parse_spec(p: Parser) -> Option<ParseOutcome> {
    drive(p, empty_cli(), parser_remaining(p) + 1)
}

/// A parse result agrees with an outcome: a parser error comes back as
/// some message, everything else exactly.
pub open spec fn result_agrees(r: Result<ParseResult, String>, o: ParseOutcome) -> bool {
    match o {
        ParseOutcome::Run(c) => r matches Ok(ParseResult::Run(x)) && x@ == c,
        ParseOutcome::Help => r matches Ok(ParseResult::Help),
        ParseOutcome::Version => r matches Ok(ParseResult::Version),
        ParseOutcome::Fail(m) => r matches Err(e) && e@ == m,
        ParseOutcome::ParserError => r is Err,
    }
}

/// The item is the short option `c` or the long option `name`.
pub open spec fn is_flag(arg: CliArg, c: char, name: Seq<char>) -> bool {
    match arg {
        CliArg::Short(x) => x == c,
        CliArg::Long(s) => s@ == name,
        CliArg::Value(_) => false,
    }
}

pub open spec fn is_help(arg: CliArg) -> bool {
    is_flag(arg, 'h', "help"@)
}

pub open spec fn is_version(arg: CliArg) -> bool {
    is_flag(arg, 'v', "version"@)
}

pub open spec fn is_file(arg: CliArg) -> bool {
    is_flag(arg, 'f', "file"@)
}

pub open spec fn is_once(arg: CliArg) -> bool {
    match arg {
        CliArg::Long(s) => s@ == "once"@,
        _ => false,
    }
}

/// The item is an option the program knows.
pub open spec fn is_known(arg: CliArg) -> bool {
    is_help(arg) || is_version(arg) || is_file(arg) || is_once(arg)
}

/// The long option names the program knows are pairwise different.
pub proof fn lemma_flag_names_distinct()
    ensures
        "help"@ != "version"@,
        "help"@ != "file"@,
        "help"@ != "once"@,
        "version"@ != "file"@,
        "version"@ != "once"@,
        "file"@ != "once"@,
{
    reveal_strlit("help");
    reveal_strlit("version");
    reveal_strlit("file");
    reveal_strlit("once");
    assert("help"@.len() != "version"@.len());
    assert("help"@[0] != "file"@[0]);
    assert("help"@[0] != "once"@[0]);
    assert("version"@.len() != "file"@.len());
    assert("version"@.len() != "once"@.len());
    assert("file"@[0] != "once"@[0]);
}

/// Equality of two strings by their text.
fn same_text(a: &String, b: &str) -> (r: bool)
    ensures
        r == (a@ == b@),
{
    let b = String::from_str(b);
    *a == b
}

/// What one item of the command line does: `-h`/`--help` and
/// `-v`/`--version` end the parse, `-f`/`--file` takes the next value as the
/// watchfile, `--once` sets `once`, a positional argument names a target,
/// and any other option is an error.
pub fn apply_arg(cli: Cli, arg: CliArg) -> (r: ArgStep)
    ensures
        is_help(arg) ==> r matches ArgStep::Done(ParseResult::Help),
        is_version(arg) ==> r matches ArgStep::Done(ParseResult::Version),
        is_file(arg) ==> (r matches ArgStep::NeedFile(c) && c == cli),
        is_once(arg) ==> (r matches ArgStep::Continue(c) && c.once && c.targets == cli.targets
            && c.config_path == cli.config_path),
        arg matches CliArg::Value(v) ==> (r matches ArgStep::Continue(c) && c.targets@
            == cli.targets@.push(v) && c.once == cli.once && c.config_path == cli.config_path),
        !is_known(arg) ==> (match arg {
            CliArg::Short(x) => r matches ArgStep::Fail(m) && m@ == "unknown flag `-"@ + seq![x]
                + "`"@,
            CliArg::Long(s) => r matches ArgStep::Fail(m) && m@ == "unknown flag `--"@ + s@
                + "`"@,
            CliArg::Value(_) => true,
        }),
        step_agrees(r, step_view(cli@, arg@)),
{
    proof {
        lemma_flag_names_distinct();
    }
    match arg {
        CliArg::Short(ch) => {
            if ch == 'h' {
                ArgStep::Done(ParseResult::Help)
            } else if ch == 'v' {
                ArgStep::Done(ParseResult::Version)
            } else if ch == 'f' {
                ArgStep::NeedFile(cli)
            } else {
                let mut m = String::from_str("unknown flag `-");
                let t = char_text(ch);
                m.append(t.as_str());
                m.append("`");
                proof {
                    reveal_strlit("unknown flag `-");
                    reveal_strlit("`");
                }
                assert(m@ =~= "unknown flag `-"@ + seq![ch] + "`"@);
                ArgStep::Fail(m)
            }
        },
        CliArg::Long(s) => {
            if same_text(&s, "help") {
                ArgStep::Done(ParseResult::Help)
            } else if same_text(&s, "version") {
                ArgStep::Done(ParseResult::Version)
            } else if same_text(&s, "file") {
                ArgStep::NeedFile(cli)
            } else if same_text(&s, "once") {
                let mut c = cli;
                c.once = true;
                assert(c@ == (CliView { config_path: cli@.config_path, targets: cli@.targets, once: true }));
                ArgStep::Continue(c)
            } else {
                let mut m = String::from_str("unknown flag `--");
                m.append(s.as_str());
                m.append("`");
                ArgStep::Fail(m)
            }
        },
        CliArg::Value(v) => {
            let mut c = cli;
            c.targets.push(v);
            assert(views(c.targets@) =~= views(cli.targets@).push(v@));
            assert(c@ == (CliView {
                config_path: cli@.config_path,
                targets: cli@.targets.push(v@),
                once: cli@.once,
            }));
            ArgStep::Continue(c)
        },
    }
}

/// `lexopt::Parser::next`, with the item converted: a long option's name is
/// copied and a positional argument is read as text (lossily where it is
/// not UTF-8). The contract claims that what it hands out and the state it
/// leaves are a function of the parser's state (`lexopt_next`; the source is
/// deterministic), and that an item handed out uses up some of what the
/// parser has left (the source reads an argument or advances in a cluster of
/// short options each time it returns one).
#[verifier::external_body]
fn parser_next(p: &mut Parser) -> (r: Result<Option<CliArg>, lexopt::Error>)
    ensures
        parser_remaining(*final(p)) <= parser_remaining(*old(p)),
        r matches Ok(Some(_)) ==> parser_remaining(*final(p)) < parser_remaining(*old(p)),
        *final(p) == lexopt_next(*old(p)).1,
        match r {
            Err(_) => lexopt_next(*old(p)).0 == NextView::Error,
            Ok(None) => lexopt_next(*old(p)).0 == NextView::End,
            Ok(Some(a)) => lexopt_next(*old(p)).0 == NextView::Item(a@),
        },
{
    match p.next() {
        Ok(None) => Ok(None),
        Ok(Some(lexopt::Arg::Short(c))) => Ok(Some(CliArg::Short(c))),
        Ok(Some(lexopt::Arg::Long(s))) => Ok(Some(CliArg::Long(s.to_string()))),
        Ok(Some(lexopt::Arg::Value(v))) => Ok(Some(CliArg::Value(v.to_string_lossy().into_owned()))),
        Err(e) => Err(e),
    }
}

/// `lexopt::Parser::value`, read as text (lossily where it is not UTF-8).
/// The contract claims that what it hands out and the state it leaves are a
/// function of the parser's state (`lexopt_value`), and that the parser
/// never gains input from the call.
#[verifier::external_body]
fn parser_value(p: &mut Parser) -> (r: Result<String, lexopt::Error>)
    ensures
        parser_remaining(*final(p)) <= parser_remaining(*old(p)),
        *final(p) == lexopt_value(*old(p)).1,
        match r {
            Err(_) => lexopt_value(*old(p)).0 is None,
            Ok(v) => lexopt_value(*old(p)).0 == Some(v@),
        },
{
    p.value().map(|v| v.to_string_lossy().into_owned())
}

/// The `Display` text of a `lexopt::Error`. Nothing is claimed of the text.
#[verifier::external_body]
fn lexopt_error_text(e: &lexopt::Error) -> (r: String)
{
    e.to_string()
}

/// Reads the command line from `parser` until it is exhausted, an item ends
/// the parse, or an error occurs; each item is interpreted by `apply_arg`,
/// and `-f`/`--file` takes the next value. The parser's own errors are
/// reported by their text. The result is the outcome `parse_spec` gives
/// for the parser's state; the parser is left advanced.
pub fn parse(parser: &mut Parser) -> (r: Result<ParseResult, String>)
    ensures
        parse_spec(*old(parser)) matches Some(o) && result_agrees(r, o),
        parser_remaining(*final(parser)) <= parser_remaining(*old(parser)),
{
    let mut cli = Cli { config_path: None, targets: Vec::new(), once: false };
    let ghost mut fuel: nat = parser_remaining(*parser) + 1;
    assert(cli@ =~= empty_cli()) by {
        assert(views(cli.targets@) =~= Seq::<Seq<char>>::empty());
    }
    loop
        invariant
            parser_remaining(*parser) <= parser_remaining(*old(parser)),
            fuel >= parser_remaining(*parser) + 1,
            parse_spec(*old(parser)) == drive(*parser, cli@, fuel),
        decreases parser_remaining(*parser),
    {
        match parser_next(parser) {
            Err(e) => {
                return Err(lexopt_error_text(&e));
            },
            Ok(None) => {
                return Ok(ParseResult::Run(cli));
            },
            Ok(Some(arg)) => {
                match apply_arg(cli, arg) {
                    ArgStep::Continue(c) => {
                        cli = c;
                        proof {
                            fuel = (fuel - 1) as nat;
                        }
                    },
                    ArgStep::NeedFile(c) => {
                        match parser_value(parser) {
                            Err(e) => {
                                return Err(lexopt_error_text(&e));
                            },
                            Ok(v) => {
                                cli = c;
                                cli.config_path = Some(v);
                                proof {
                                    fuel = (fuel - 1) as nat;
                                }
                            },
                        }
                    },
                    ArgStep::Done(result) => {
                        return Ok(result);
                    },
                    ArgStep::Fail(m) => {
                        return Err(m);
                    },
                }
            },
        }
    }
}

/// `wat update` asks to update the program itself, unless the watchfile
/// (where one was read) defines a target named `update`.
pub open spec fn update_requested(cli: Cli, config: Option<Config>) -> bool {
    &&& views(cli.targets@) == seq!["update"@]
    &&& match config {
        None => true,
        Some(c) => !c.defines("update"@),
    }
}

/// Whether the command line asks to update the program (see
/// `update_requested`).
pub fn is_update_request(cli: &Cli, config: Option<&Config>) -> (r: bool)
    ensures
        r == update_requested(*cli, match config {
            Some(c) => Some(*c),
            None => None,
        }),
{
    if cli.targets.len() != 1 {
        assert(views(cli.targets@).len() != 1);
        return false;
    }
    if !same_text(&cli.targets[0], "update") {
        assert(views(cli.targets@)[0] == cli.targets@[0]@);
        return false;
    }
    assert(views(cli.targets@) =~= seq!["update"@]);
    match config {
        None => true,
        Some(c) => {
            let name = String::from_str("update");
            c.find_target(&name).is_none()
        },
    }
}

/// The help text.
pub fn help_text() -> (r: &'static str)
    ensures
        r@ == HELP@,
{
    HELP
}

/// The version line: the program's name and version.
pub fn version_text() -> (r: &'static str)
    ensures
        r@ == "wat 0.1.0"@,
{
    "wat 0.1.0"
}

pub const HELP: &'static str = "wat - a tiny config-driven file watcher

USAGE:
  wat [target...] [--once]
  wat --file ./watfile.toml [target...] [--once]

FLAGS:
  -f, --file <path>   Use a specific config file
  -v, --version       Show the version
      --once          Run target(s) once without watching
  -h, --help          Show this help text

SUBCOMMANDS:
  update              Update wat to the latest version when no target named `update` exists

EXAMPLES:
  wat
  wat build
  wat backend tests
  wat build --once";

} // verus!
