//! The command line: `<program> [-h|V] <EXECUTABLE> [..<ARG>]`.
//!
//! The first argument decides. Where it starts with `-` it is a flag: `-h`
//! asks for the usage line, `-V` for the version, and any other flag is a
//! mistake. Where it is no flag it names the executable, which has to be
//! given by an absolute path; all that follows it are the executable's own
//! arguments, flags or not.

use vstd::prelude::*;
use crate::request::{is_absolute, names, starts_with_char, ExecutionRequest};
use crate::stream::text_of;

verus! {

/// Exit status of an invocation that cannot be understood.
pub const EXIT_USAGE: i32 = 2;

/// The flag that asks for the usage line.
pub const HELP: char = 'h';

/// The flag that asks for the version.
pub const VERSION: char = 'V';

/// Where a notice is printed.
#[derive(Clone, Copy, Debug, PartialEq, Eq, Structural)]
pub enum PrintDestination {
    /// Standard output: the notice was asked for.
    Stdout,
    /// Standard error: the notice reports a mistake.
    Stderr,
}

/// What a command line asks for.
#[derive(Debug)]
pub enum Invocation {
    /// No argument was given.
    MissingArguments,
    /// The usage line was asked for.
    Help,
    /// The version was asked for.
    Version,
    /// A flag was given that the program does not know.
    UnknownFlag,
    /// The executable was not named by an absolute path.
    RelativePath,
    /// An executable is to be run as administrator.
    Run(ExecutionRequest),
}

/// What a command line asks for, as contracts see it.
pub enum Parsed {
    /// No argument was given.
    MissingArguments,
    /// The usage line was asked for.
    Help,
    /// The version was asked for.
    Version,
    /// A flag was given that the program does not know.
    UnknownFlag,
    /// The executable was not named by an absolute path.
    RelativePath,
    /// The executable at `executable` is to be run with `args`.
    Run { executable: Seq<char>, args: Seq<Seq<char>> },
}

impl View for Invocation {
    type V = Parsed;

    open spec fn view(&self) -> Parsed {
        match self {
            Invocation::MissingArguments => Parsed::MissingArguments,
            Invocation::Help => Parsed::Help,
            Invocation::Version => Parsed::Version,
            Invocation::UnknownFlag => Parsed::UnknownFlag,
            Invocation::RelativePath => Parsed::RelativePath,
            Invocation::Run(request) => Parsed::Run {
                executable: request.path(),
                args: request.arguments(),
            },
        }
    }
}

/// `arg` starts with `-`.
pub open spec fn is_flag(arg: Seq<char>) -> bool {
    arg.len() > 0 && arg[0] == '-'
}

/// `arg` is `-` followed by the one character `c`.
pub open spec fn is_flag_named(arg: Seq<char>, c: char) -> bool {
    arg.len() == 2 && arg[0] == '-' && arg[1] == c
}

/// What the first argument `first` decides, with `rest` after it.
pub open spec fn decision(first: Seq<char>, rest: Seq<Seq<char>>) -> Parsed {
    if is_flag_named(first, HELP) {
        Parsed::Help
    } else if is_flag_named(first, VERSION) {
        Parsed::Version
    } else if is_flag(first) {
        Parsed::UnknownFlag
    } else if is_absolute(first) {
        Parsed::Run { executable: first, args: rest }
    } else {
        Parsed::RelativePath
    }
}

/// What the arguments `args` ask for; the program's own name is not among
/// them.
pub open spec fn parse(args: Seq<Seq<char>>) -> Parsed {
    if args.len() == 0 {
        Parsed::MissingArguments
    } else {
        decision(args[0], args.skip(1))
    }
}

/// The exit status with which `parsed` ends the program at once, if it does.
pub open spec fn early_exit(parsed: Parsed) -> Option<i32> {
    match parsed {
        Parsed::MissingArguments => Some(EXIT_USAGE),
        Parsed::Help => Some(0i32),
        Parsed::Version => Some(0i32),
        Parsed::UnknownFlag => Some(EXIT_USAGE),
        Parsed::RelativePath => Some(EXIT_USAGE),
        Parsed::Run { .. } => None,
    }
}

/// The usage line of the program called `program`.
pub open spec fn usage_text(program: Seq<char>) -> Seq<char> {
    program + " [-h|V] <EXECUTABLE> [..<ARG>]"@
}

/// The text that answers `parsed` where nothing is run, for the program
/// called `program` in the version `version`.
pub open spec fn notice_text(parsed: Parsed, program: Seq<char>, version: Seq<char>) -> Option<
    Seq<char>,
> {
    match parsed {
        Parsed::MissingArguments => Some(usage_text(program)),
        Parsed::Help => Some(usage_text(program)),
        Parsed::Version => Some(version),
        Parsed::UnknownFlag => Some(usage_text(program)),
        Parsed::RelativePath => Some("absolute path required"@),
        Parsed::Run { .. } => None,
    }
}

/// Whether `arg` is `-` followed by the one character `c`.
pub fn names_flag(arg: &str, c: char) -> (r: bool)
    ensures
        r == is_flag_named(arg@, c),
{
    arg.unicode_len() == 2 && arg.get_char(0) == '-' && arg.get_char(1) == c
}

/// Reads the arguments that follow the program's name.
///
/// An empty command line, a flag other than `-h` and `-V` in the first
/// place, and an executable that is not named by an absolute path are
/// mistakes; `-h` and `-V` are answered without running anything.
pub fn parse_args(args: &[String]) -> (r: Invocation)
    ensures
        r@ == parse(names(args@)),
{
    let n: usize = args.len();
    if n == 0 {
        return Invocation::MissingArguments;
    }
    let ghost all = names(args@);
    let first: &str = args[0].as_str();
    assert(first@ == all[0]);
    if names_flag(first, HELP) {
        return Invocation::Help;
    }
    if names_flag(first, VERSION) {
        return Invocation::Version;
    }
    if starts_with_char(first, '-') {
        return Invocation::UnknownFlag;
    }
    let executable: String = args[0].clone();
    let mut rest: Vec<String> = Vec::new();
    let mut j: usize = 1;
    while j < n
        invariant
            n == args@.len(),
            1 <= j <= n,
            all == names(args@),
            names(rest@) == all.subrange(1, j as int),
        decreases n - j,
    {
        let ghost before = rest@;
        let item: String = args[j].clone();
        rest.push(item);
        assert(names(rest@) =~= names(before).push(all[j as int]));
        assert(all.subrange(1, j + 1) =~= all.subrange(1, j as int).push(all[j as int]));
        j += 1;
    }
    assert(all.subrange(1, n as int) =~= all.skip(1));
    match ExecutionRequest::new(executable, rest) {
        Ok(request) => Invocation::Run(request),
        Err(_) => Invocation::RelativePath,
    }
}

impl Invocation {
    /// The exit status with which the program ends at once: none where an
    /// executable is to be run, zero where a notice was asked for, the usage
    /// status for a mistake.
    pub fn exit_status(&self) -> (r: Option<i32>)
        ensures
            r == early_exit(self@),
            r is None <==> self is Run,
    {
        match self {
            Invocation::MissingArguments => Some(EXIT_USAGE),
            Invocation::Help => Some(0),
            Invocation::Version => Some(0),
            Invocation::UnknownFlag => Some(EXIT_USAGE),
            Invocation::RelativePath => Some(EXIT_USAGE),
            Invocation::Run(_) => None,
        }
    }

    /// Where the notice that answers the invocation is printed: what was
    /// asked for goes to standard output, a mistake to standard error.
    pub fn destination(&self) -> (r: Option<PrintDestination>)
        ensures
            r is None <==> self is Run,
            r == Some(PrintDestination::Stdout) <==> self is Help || self is Version,
            r == Some(PrintDestination::Stderr) <==> self is MissingArguments
                || self is UnknownFlag || self is RelativePath,
    {
        match self {
            Invocation::MissingArguments => Some(PrintDestination::Stderr),
            Invocation::Help => Some(PrintDestination::Stdout),
            Invocation::Version => Some(PrintDestination::Stdout),
            Invocation::UnknownFlag => Some(PrintDestination::Stderr),
            Invocation::RelativePath => Some(PrintDestination::Stderr),
            Invocation::Run(_) => None,
        }
    }

    /// The text that answers the invocation where nothing is run: the usage
    /// line where it was asked for, where no argument was given and where a
    /// flag is not known; the version where that was asked for; and for an
    /// executable that is not named by an absolute path, a notice that says
    /// so.
    pub fn notice(&self, program: &str, version: &str) -> (r: Option<String>)
        ensures
            text_of(r) == notice_text(self@, program@, version@),
            r is None <==> self is Run,
            self is Help || self is MissingArguments || self is UnknownFlag ==> text_of(r) == Some(
                program@ + " [-h|V] <EXECUTABLE> [..<ARG>]"@,
            ),
            self is Version ==> text_of(r) == Some(version@),
            self is RelativePath ==> text_of(r) == Some("absolute path required"@),
    {
        match self {
            Invocation::MissingArguments => Some(usage_line(program)),
            Invocation::Help => Some(usage_line(program)),
            Invocation::Version => Some(String::from_str(version)),
            Invocation::UnknownFlag => Some(usage_line(program)),
            Invocation::RelativePath => Some(String::from_str(relative_path_notice())),
            Invocation::Run(_) => None,
        }
    }
}

/// The usage line of the program called `program`.
pub fn usage_line(program: &str) -> (r: String)
    ensures
        r@ == usage_text(program@),
        r@ == program@ + " [-h|V] <EXECUTABLE> [..<ARG>]"@,
{
    let mut line = String::from_str(program);
    line.append(" [-h|V] <EXECUTABLE> [..<ARG>]");
    line
}

/// The notice for an executable that is not named by an absolute path.
pub fn relative_path_notice() -> (r: &'static str)
    ensures
        r@ == "absolute path required"@,
{
    "absolute path required"
}

/// A flag in the first place that is neither `-h` nor `-V` is a mistake,
/// whatever follows it: nothing is run, and the program ends with the usage
/// status.
pub proof fn law_unknown_flag_is_a_mistake(args: Seq<Seq<char>>)
    requires
        args.len() > 0,
        is_flag(args[0]),
        !is_flag_named(args[0], HELP),
        !is_flag_named(args[0], VERSION),
    ensures
        parse(args) == Parsed::UnknownFlag,
        early_exit(parse(args)) == Some(EXIT_USAGE),
{
}

/// An executable is run only where the first argument names it by an
/// absolute path, and then with exactly the arguments that follow: every
/// other command line ends the program before anything is asked of the
/// trust authority, and a mistake ends it with the usage status.
pub proof fn law_only_absolute_paths_run(args: Seq<Seq<char>>)
    ensures
        parse(args) matches Parsed::Run { executable, args: rest } ==> {
            &&& args.len() > 0
            &&& executable == args[0]
            &&& rest == args.skip(1)
            &&& is_absolute(executable)
            &&& !is_flag(executable)
        },
        parse(args) is Run <==> args.len() > 0 && is_absolute(args[0]),
        !(parse(args) is Run) ==> early_exit(parse(args)) is Some,
        parse(args) is MissingArguments || parse(args) is UnknownFlag || parse(args)
            is RelativePath ==> early_exit(parse(args)) == Some(EXIT_USAGE),
        parse(args) is Help || parse(args) is Version ==> early_exit(parse(args)) == Some(0i32),
{
}

/// What is printed, where and with which status belong together: a notice
/// is printed exactly where the program ends at once.
pub proof fn law_notice_goes_with_early_exit(
    parsed: Parsed,
    program: Seq<char>,
    version: Seq<char>,
)
    ensures
        notice_text(parsed, program, version) is Some <==> early_exit(parsed) is Some,
        notice_text(parsed, program, version) is None <==> parsed is Run,
{
}

} // verus!
