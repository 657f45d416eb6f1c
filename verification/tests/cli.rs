use gfresh::cli::{parse_args_from, CliError, Config, ParsedArgs};

#[test]
fn parse_defaults() {
    let parsed = parse_args_from(&[]).unwrap();
    assert_eq!(
        parsed,
        ParsedArgs::Config(Config {
            force: false,
            debug: false
        })
    );
}

#[test]
fn parse_force_and_debug() {
    let parsed = parse_args_from(&["--force", "-d"]).unwrap();
    assert_eq!(
        parsed,
        ParsedArgs::Config(Config {
            force: true,
            debug: true
        })
    );
}

#[test]
fn parse_help() {
    let parsed = parse_args_from(&["--help"]).unwrap();
    assert_eq!(parsed, ParsedArgs::HelpRequested);
}

#[test]
fn parse_unknown_arg_errors() {
    let err = parse_args_from(&["--wat"]).unwrap_err().to_string();
    assert!(err.contains("Unknown argument"));
}

#[test]
fn unknown_argument_message_names_it() {
    let err = parse_args_from(&["-f", "--wat", "--help"]).unwrap_err();
    assert_eq!(err.to_string(), "Unknown argument: --wat");
    match err {
        CliError::UnknownArgument(a) => assert_eq!(a, "--wat"),
    }
}

#[test]
fn short_and_long_flags_in_any_order() {
    let a = parse_args_from(&["-d", "--force", "-f", "--debug"]).unwrap();
    assert_eq!(a, ParsedArgs::Config(Config { force: true, debug: true }));
    let b = parse_args_from(&["-f"]).unwrap();
    assert_eq!(b, ParsedArgs::Config(Config { force: true, debug: false }));
    let c = parse_args_from(&["--debug"]).unwrap();
    assert_eq!(c, ParsedArgs::Config(Config { force: false, debug: true }));
}

#[test]
fn help_before_unknown_wins() {
    assert_eq!(parse_args_from(&["-d", "-h", "--wat"]).unwrap(), ParsedArgs::HelpRequested);
    assert!(parse_args_from(&["--wat", "-h"]).is_err());
}

#[test]
fn arguments_are_matched_exactly() {
    assert!(parse_args_from(&["--Force"]).is_err());
    assert!(parse_args_from(&["-f "]).is_err());
    assert!(parse_args_from(&[""]).is_err());
}
