use lonk::args::{parse_error_exit_code, ArgErrorKind};
use lonk::cli::{Cli, Cmd};

fn argv(a: &[&str]) -> Vec<String> {
    a.iter().map(|s| s.to_string()).collect()
}

fn parse(a: &[&str]) -> Result<Cli, ArgErrorKind> {
    Cli::try_parse_from(&argv(a))
}

#[test]
fn parses_urls_and_flags() {
    let cli = parse(&["lonk", "--qr", "https://a.example", "https://b.example"]).unwrap();
    assert!(cli.qr);
    assert_eq!(cli.urls, vec!["https://a.example", "https://b.example"]);
    assert!(cli.cmd.is_none());
}

#[test]
fn parses_setup_subcommand_with_profile() {
    let cli = parse(&["lonk", "setup", "--profile", "work", "https://s.example"]).unwrap();
    match cli.cmd {
        Some(Cmd::Setup { base_url }) => assert_eq!(base_url.as_deref(), Some("https://s.example")),
        other => panic!("expected setup, got {other:?}"),
    }
    assert_eq!(cli.profile.as_deref(), Some("work"));
}

#[test]
fn qr_and_qr_svg_conflict() {
    assert!(parse(&["lonk", "--qr", "--qr-svg", "https://a.example"]).is_err());
}

#[test]
fn zero_args_is_an_error_that_shows_help() {
    let err = parse(&["lonk"]).unwrap_err();
    assert_eq!(err, ArgErrorKind::DisplayHelpOnMissingArgumentOrSubcommand);
}

#[test]
fn parses_repeated_headers() {
    let cli = parse(&[
        "lonk",
        "-H",
        "X-A: 1",
        "--header",
        "X-B: 2",
        "https://a.example",
    ])
    .unwrap();
    assert_eq!(cli.headers, vec!["X-A: 1", "X-B: 2"]);
}

#[test]
fn parses_status_subcommand() {
    let cli = parse(&["lonk", "status", "Ab3dEf9"]).unwrap();
    match cli.cmd {
        Some(Cmd::Status { target }) => assert_eq!(target, "Ab3dEf9"),
        other => panic!("expected status, got {other:?}"),
    }
}

#[test]
fn help_flags_ask_for_help() {
    assert_eq!(parse(&["lonk", "-h"]).unwrap_err(), ArgErrorKind::DisplayHelp);
    assert_eq!(parse(&["lonk", "--help"]).unwrap_err(), ArgErrorKind::DisplayHelp);
    assert_eq!(parse(&["lonk", "help"]).unwrap_err(), ArgErrorKind::DisplayHelp);
    assert_eq!(
        parse(&["lonk", "setup", "--help"]).unwrap_err(),
        ArgErrorKind::DisplayHelp
    );
}

#[test]
fn option_values_inline_and_attached() {
    let cli = parse(&["lonk", "--profile=work", "-HX-A: 1", "-H=X-B: 2", "--header=X-C: 3", "u"]).unwrap();
    assert_eq!(cli.profile.as_deref(), Some("work"));
    assert_eq!(cli.headers, vec!["X-A: 1", "X-B: 2", "X-C: 3"]);
    assert_eq!(cli.urls, vec!["u"]);
}

#[test]
fn option_without_value_is_invalid() {
    assert_eq!(parse(&["lonk", "--profile"]).unwrap_err(), ArgErrorKind::InvalidValue);
    assert_eq!(parse(&["lonk", "-H", "--qr"]).unwrap_err(), ArgErrorKind::InvalidValue);
}

#[test]
fn repeated_flag_conflicts() {
    assert_eq!(parse(&["lonk", "--qr", "--qr", "u"]).unwrap_err(), ArgErrorKind::ArgumentConflict);
    assert_eq!(
        parse(&["lonk", "--profile", "a", "--profile", "b"]).unwrap_err(),
        ArgErrorKind::ArgumentConflict
    );
}

#[test]
fn unknown_and_misplaced_arguments() {
    assert_eq!(parse(&["lonk", "--nope"]).unwrap_err(), ArgErrorKind::UnknownArgument);
    assert_eq!(parse(&["lonk", "-x"]).unwrap_err(), ArgErrorKind::UnknownArgument);
    assert_eq!(parse(&["lonk", "setup", "--qr"]).unwrap_err(), ArgErrorKind::UnknownArgument);
    assert_eq!(parse(&["lonk", "setup", "a", "b"]).unwrap_err(), ArgErrorKind::UnknownArgument);
    assert_eq!(parse(&["lonk", "--qr=1", "u"]).unwrap_err(), ArgErrorKind::TooManyValues);
}

#[test]
fn status_needs_a_target() {
    assert_eq!(parse(&["lonk", "status"]).unwrap_err(), ArgErrorKind::MissingRequiredArgument);
}

#[test]
fn subcommand_names_after_urls_are_urls() {
    let cli = parse(&["lonk", "https://a.example", "setup"]).unwrap();
    assert_eq!(cli.urls, vec!["https://a.example", "setup"]);
    assert!(cli.cmd.is_none());
    let cli = parse(&["lonk", "--", "status"]).unwrap();
    assert_eq!(cli.urls, vec!["status"]);
}

#[test]
fn global_profile_after_subcommand_and_flags() {
    let cli = parse(&["lonk", "status", "--profile", "work", "Ab3dEf9"]).unwrap();
    assert_eq!(cli.profile.as_deref(), Some("work"));
    let cli = parse(&["lonk", "--valid", "-", "x"]).unwrap();
    assert!(cli.valid);
    assert_eq!(cli.urls, vec!["-", "x"]);
}

#[test]
fn help_exits_0_and_other_parse_errors_exit_1() {
    let zero = parse(&["lonk"]).unwrap_err();
    assert_eq!(parse_error_exit_code(zero), 1);
    for help in [&["lonk", "-h"][..], &["lonk", "--help"][..]] {
        let kind = parse(help).unwrap_err();
        assert_eq!(kind, ArgErrorKind::DisplayHelp);
        assert_eq!(parse_error_exit_code(kind), 0);
    }
    let conflict = parse(&["lonk", "--qr", "--qr-svg", "https://a.example"]).unwrap_err();
    assert_eq!(parse_error_exit_code(conflict), 1);
    let unknown = parse(&["lonk", "--nope"]).unwrap_err();
    assert_eq!(parse_error_exit_code(unknown), 1);
}

#[test]
fn subcommand_name_after_a_flag_is_a_subcommand() {
    let cli = parse(&["lonk", "https://a.example", "--qr", "setup"]).unwrap();
    match cli.cmd {
        Some(Cmd::Setup { base_url }) => assert_eq!(base_url, None),
        other => panic!("expected setup, got {other:?}"),
    }
    assert_eq!(cli.urls, vec!["https://a.example"]);
    let cli = parse(&["lonk", "https://a.example", "setup"]).unwrap();
    assert!(cli.cmd.is_none());
    assert_eq!(cli.urls, vec!["https://a.example", "setup"]);
    let cli = parse(&["lonk", "-H", "X-A: 1", "status", "Ab3dEf9"]).unwrap();
    match cli.cmd {
        Some(Cmd::Status { target }) => assert_eq!(target, "Ab3dEf9"),
        other => panic!("expected status, got {other:?}"),
    }
    let cli = parse(&["lonk", "--", "setup"]).unwrap();
    assert_eq!(cli.urls, vec!["setup"]);
}
