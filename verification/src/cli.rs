//! Command-line arguments: `[-f|--force] [-d|--debug] [-h|--help]`.
use vstd::prelude::*;
use vstd::string::*;
use crate::text::{concat_strs, str_eq};

verus! {

broadcast use vstd::string::group_string_axioms;

/// What the user asked for.
#[derive(Debug, Clone, Copy, PartialEq, Eq, Structural)]
pub struct Config {
    /// Hard-reset a dirty work tree instead of stopping.
    pub force: bool,
    /// Print the git commands being run.
    pub debug: bool,
}

/// What the arguments ask for.
#[derive(Debug, Clone, Copy, PartialEq, Eq, Structural)]
pub enum ParsedArgs {
    Config(Config),
    HelpRequested,
}

/// Why the arguments are refused.
#[derive(Debug)]
pub enum CliError {
    UnknownArgument(String),
}

impl CliError {
    /// The message that reports this error.
    pub open spec fn message_spec(&self) -> Seq<char> {
        match self {
            CliError::UnknownArgument(a) => "Unknown argument: "@ + a@,
        }
    }

    /// The message that reports this error.
    pub fn to_string(&self) -> (m: String)
        ensures
            m@ == self.message_spec(),
    {
        match self {
            CliError::UnknownArgument(a) => concat_strs("Unknown argument: ", a.as_str()),
        }
    }
}

/// What one argument is.
pub enum ArgKind {
    Force,
    Debug,
    Help,
    Unknown,
}

pub open spec fn arg_kind(a: Seq<char>) -> ArgKind {
    if a == "-f"@ || a == "--force"@ {
        ArgKind::Force
    } else if a == "-d"@ || a == "--debug"@ {
        ArgKind::Debug
    } else if a == "-h"@ || a == "--help"@ {
        ArgKind::Help
    } else {
        ArgKind::Unknown
    }
}

/// What a list of arguments comes to.
pub enum ArgsOutcome {
    Flags { force: bool, debug: bool },
    Help,
    Unknown(Seq<char>),
}

/// Reading `args` from the left, with the flags seen so far: flags set their
/// setting; the first help or unknown argument ends the reading.
pub open spec fn parse_spec(args: Seq<Seq<char>>, force: bool, debug: bool) -> ArgsOutcome
    decreases args.len(),
{
    if args.len() == 0 {
        ArgsOutcome::Flags { force, debug }
    } else {
        match arg_kind(args[0]) {
            ArgKind::Force => parse_spec(args.drop_first(), true, debug),
            ArgKind::Debug => parse_spec(args.drop_first(), force, true),
            ArgKind::Help => ArgsOutcome::Help,
            ArgKind::Unknown => ArgsOutcome::Unknown(args[0]),
        }
    }
}

/// The texts of the arguments.
pub open spec fn arg_texts(args: Seq<&str>) -> Seq<Seq<char>> {
    args.map_values(|a: &str| a@)
}

/// The view of a parse result.
pub open spec fn outcome_of(r: Result<ParsedArgs, CliError>) -> ArgsOutcome {
    match r {
        Ok(ParsedArgs::Config(c)) => ArgsOutcome::Flags { force: c.force, debug: c.debug },
        Ok(ParsedArgs::HelpRequested) => ArgsOutcome::Help,
        Err(CliError::UnknownArgument(a)) => ArgsOutcome::Unknown(a@),
    }
}

/// Reads the command-line arguments (without the program name).
pub fn parse_args_from(args: &[&str]) -> (r: Result<ParsedArgs, CliError>)
    ensures
        outcome_of(r) == parse_spec(arg_texts(args@), false, false),
{
    let mut force = false;
    let mut debug = false;
    let ghost all = arg_texts(args@);
    let mut i: usize = 0;
    assert(all.skip(0) =~= all);
    while i < args.len()
        invariant
            i <= args.len(),
            all == arg_texts(args@),
            all.len() == args.len(),
            parse_spec(all, false, false) == parse_spec(all.skip(i as int), force, debug),
        decreases args.len() - i,
    {
        let a = args[i];
        assert(all[i as int] == a@);
        assert(all.skip(i as int).drop_first() =~= all.skip(i + 1));
        assert(all.skip(i as int)[0] == a@);
        if str_eq(a, "-f") || str_eq(a, "--force") {
            force = true;
        } else if str_eq(a, "-d") || str_eq(a, "--debug") {
            debug = true;
        } else if str_eq(a, "-h") || str_eq(a, "--help") {
            return Ok(ParsedArgs::HelpRequested);
        } else {
            return Err(CliError::UnknownArgument(String::from_str(a)));
        }
        i += 1;
    }
    assert(all.skip(i as int) =~= Seq::<Seq<char>>::empty());
    Ok(ParsedArgs::Config(Config { force, debug }))
}


/// Whether an argument is one of the flags.
pub open spec fn is_flag(a: Seq<char>) -> bool {
    arg_kind(a) is Force || arg_kind(a) is Debug
}

/// Arguments that are all flags give the settings they name, in any order
/// and any number of times, in either their short or long form.
pub proof fn law_flags_only(args: Seq<Seq<char>>, force: bool, debug: bool)
    requires
        forall|i: int| 0 <= i < args.len() ==> is_flag(#[trigger] args[i]),
    ensures
        parse_spec(args, force, debug) == (ArgsOutcome::Flags {
            force: force || exists|i: int| 0 <= i < args.len() && #[trigger] arg_kind(args[i]) is Force,
            debug: debug || exists|i: int| 0 <= i < args.len() && #[trigger] arg_kind(args[i]) is Debug,
        }),
    decreases args.len(),
{
    if args.len() > 0 {
        let rest = args.drop_first();
        assert forall|i: int| 0 <= i < rest.len() implies is_flag(#[trigger] rest[i]) by {
            assert(rest[i] == args[i + 1]);
        }
        assert(is_flag(args[0]));
        let f2 = force || arg_kind(args[0]) is Force;
        let d2 = debug || arg_kind(args[0]) is Debug;
        law_flags_only(rest, f2, d2);
        assert((exists|i: int| 0 <= i < args.len() && #[trigger] arg_kind(args[i]) is Force) == (
        arg_kind(args[0]) is Force || exists|i: int|
            0 <= i < rest.len() && #[trigger] arg_kind(rest[i]) is Force)) by {
            if exists|i: int| 0 <= i < args.len() && #[trigger] arg_kind(args[i]) is Force {
                let i = choose|i: int| 0 <= i < args.len() && #[trigger] arg_kind(args[i]) is Force;
                if i > 0 {
                    assert(rest[i - 1] == args[i]);
                }
            }
            if exists|i: int| 0 <= i < rest.len() && #[trigger] arg_kind(rest[i]) is Force {
                let i = choose|i: int| 0 <= i < rest.len() && #[trigger] arg_kind(rest[i]) is Force;
                assert(rest[i] == args[i + 1]);
            }
        }
        assert((exists|i: int| 0 <= i < args.len() && #[trigger] arg_kind(args[i]) is Debug) == (
        arg_kind(args[0]) is Debug || exists|i: int|
            0 <= i < rest.len() && #[trigger] arg_kind(rest[i]) is Debug)) by {
            if exists|i: int| 0 <= i < args.len() && #[trigger] arg_kind(args[i]) is Debug {
                let i = choose|i: int| 0 <= i < args.len() && #[trigger] arg_kind(args[i]) is Debug;
                if i > 0 {
                    assert(rest[i - 1] == args[i]);
                }
            }
            if exists|i: int| 0 <= i < rest.len() && #[trigger] arg_kind(rest[i]) is Debug {
                let i = choose|i: int| 0 <= i < rest.len() && #[trigger] arg_kind(rest[i]) is Debug;
                assert(rest[i] == args[i + 1]);
            }
        }
    }
}

/// The first argument that is not a flag decides: help asks for the usage,
/// anything else is refused; the arguments after it are not looked at.
pub proof fn law_first_non_flag_decides(args: Seq<Seq<char>>, k: int, force: bool, debug: bool)
    requires
        0 <= k < args.len(),
        forall|i: int| 0 <= i < k ==> is_flag(#[trigger] args[i]),
        !is_flag(args[k]),
    ensures
        parse_spec(args, force, debug) == (if arg_kind(args[k]) is Help {
            ArgsOutcome::Help
        } else {
            ArgsOutcome::Unknown(args[k])
        }),
    decreases k,
{
    if k > 0 {
        let rest = args.drop_first();
        assert forall|i: int| 0 <= i < k - 1 implies is_flag(#[trigger] rest[i]) by {
            assert(rest[i] == args[i + 1]);
        }
        assert(rest[k - 1] == args[k]);
        assert(is_flag(args[0]));
        law_first_non_flag_decides(
            rest,
            k - 1,
            force || arg_kind(args[0]) is Force,
            debug || arg_kind(args[0]) is Debug,
        );
    }
}


/// The six spellings are different from each other.
proof fn lemma_spellings_distinct()
    ensures
        "-d"@ != "-f"@,
        "-d"@ != "--force"@,
        "--debug"@ != "-f"@,
        "--debug"@ != "--force"@,
        "-h"@ != "-f"@,
        "-h"@ != "--force"@,
        "-h"@ != "-d"@,
        "-h"@ != "--debug"@,
        "--help"@ != "-f"@,
        "--help"@ != "--force"@,
        "--help"@ != "-d"@,
        "--help"@ != "--debug"@,
{
    reveal_strlit("-f");
    reveal_strlit("--force");
    reveal_strlit("-d");
    reveal_strlit("--debug");
    reveal_strlit("-h");
    reveal_strlit("--help");
    assert("-d"@[1] != "-f"@[1]);
    assert("-d"@.len() != "--force"@.len());
    assert("--debug"@.len() != "-f"@.len());
    assert("--debug"@[2] != "--force"@[2]);
    assert("-h"@[1] != "-f"@[1]);
    assert("-h"@.len() != "--force"@.len());
    assert("-h"@[1] != "-d"@[1]);
    assert("-h"@.len() != "--debug"@.len());
    assert("--help"@.len() != "-f"@.len());
    assert("--help"@[2] != "--force"@[2]);
    assert("--help"@.len() != "-d"@.len());
    assert("--help"@[2] != "--debug"@[2]);
}

/// The flags by their spelling: `-f`/`--force` set `force`, `-d`/`--debug`
/// set `debug`; arguments made only of these give exactly the settings they
/// spell, in any order and any number of times.
pub proof fn law_flags_by_spelling(args: Seq<Seq<char>>)
    requires
        forall|i: int|
            0 <= i < args.len() ==> #[trigger] args[i] == "-f"@ || args[i] == "--force"@ || args[i]
                == "-d"@ || args[i] == "--debug"@,
    ensures
        parse_spec(args, false, false) == (ArgsOutcome::Flags {
            force: exists|i: int| 0 <= i < args.len() && (#[trigger] args[i] == "-f"@ || args[i] == "--force"@),
            debug: exists|i: int| 0 <= i < args.len() && (#[trigger] args[i] == "-d"@ || args[i] == "--debug"@),
        }),
{
    reveal_strlit("-f");
    reveal_strlit("--force");
    reveal_strlit("-d");
    reveal_strlit("--debug");
    reveal_strlit("-h");
    reveal_strlit("--help");
    lemma_spellings_distinct();
    assert forall|i: int| 0 <= i < args.len() implies is_flag(#[trigger] args[i]) by {}
    law_flags_only(args, false, false);
    assert((exists|i: int| 0 <= i < args.len() && #[trigger] arg_kind(args[i]) is Force) == (
    exists|i: int| 0 <= i < args.len() && (#[trigger] args[i] == "-f"@ || args[i] == "--force"@)))
        by {
        if exists|i: int| 0 <= i < args.len() && #[trigger] arg_kind(args[i]) is Force {
            let i = choose|i: int| 0 <= i < args.len() && #[trigger] arg_kind(args[i]) is Force;
            assert(args[i] == "-f"@ || args[i] == "--force"@);
        }
        if exists|i: int| 0 <= i < args.len() && (#[trigger] args[i] == "-f"@ || args[i] == "--force"@) {
            let i = choose|i: int| 0 <= i < args.len() && (#[trigger] args[i] == "-f"@ || args[i] == "--force"@);
            assert(arg_kind(args[i]) is Force);
        }
    }
    assert((exists|i: int| 0 <= i < args.len() && #[trigger] arg_kind(args[i]) is Debug) == (
    exists|i: int| 0 <= i < args.len() && (#[trigger] args[i] == "-d"@ || args[i] == "--debug"@)))
        by {
        if exists|i: int| 0 <= i < args.len() && #[trigger] arg_kind(args[i]) is Debug {
            let i = choose|i: int| 0 <= i < args.len() && #[trigger] arg_kind(args[i]) is Debug;
            assert(args[i] == "-d"@ || args[i] == "--debug"@);
        }
        if exists|i: int| 0 <= i < args.len() && (#[trigger] args[i] == "-d"@ || args[i] == "--debug"@) {
            let i = choose|i: int| 0 <= i < args.len() && (#[trigger] args[i] == "-d"@ || args[i] == "--debug"@);
            assert(arg_kind(args[i]) is Debug);
        }
    }
}

/// After any flags, `-h` or `--help` asks for the usage, and any argument
/// other than the six known spellings is refused by name.
pub proof fn law_stop_by_spelling(args: Seq<Seq<char>>, k: int)
    requires
        0 <= k < args.len(),
        forall|i: int|
            0 <= i < k ==> #[trigger] args[i] == "-f"@ || args[i] == "--force"@ || args[i] == "-d"@
                || args[i] == "--debug"@,
    ensures
        args[k] == "-h"@ || args[k] == "--help"@ ==> parse_spec(args, false, false)
            == ArgsOutcome::Help,
        !(args[k] == "-h"@ || args[k] == "--help"@ || args[k] == "-f"@ || args[k] == "--force"@
            || args[k] == "-d"@ || args[k] == "--debug"@) ==> parse_spec(args, false, false)
            == ArgsOutcome::Unknown(args[k]),
{
    reveal_strlit("-f");
    reveal_strlit("--force");
    reveal_strlit("-d");
    reveal_strlit("--debug");
    reveal_strlit("-h");
    reveal_strlit("--help");
    lemma_spellings_distinct();
    assert forall|i: int| 0 <= i < k implies is_flag(#[trigger] args[i]) by {}
    if !is_flag(args[k]) {
        law_first_non_flag_decides(args, k, false, false);
    }
}

} // verus!
