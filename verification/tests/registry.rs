use cliguard::ir::Framework;
use cliguard::parser::runner::{
    choose_output, help_attempts, is_usable, may_fetch_sub_help, next_help_step, split_words,
    strip_ansi, HelpStep,
    subcommand_help_attempts, version_from_output, within_size_limit, MAX_OUTPUT_BYTES,
};
use cliguard::parser::{
    framework_from_lowercase, parse_framework, CliError, Parser, ParserKind, ParserRegistry,
};

const CLAP_HELP: &str = "tool 0.1.0\nDoes things\n\nUsage: tool [OPTIONS]\n\nOptions:\n  -h, --help  Print help\n";
const GNU_HELP: &str = "Usage: ls [OPTION]... [FILE]...\nList files.\n\n  -a, --all  everything\n";

#[test]
fn registry_detects_clap() {
    let reg = ParserRegistry::new();
    let none = |_: &str| -> Option<String> { None };
    let t = reg.detect_and_parse("tool", CLAP_HELP, &none).unwrap();
    assert_eq!(t.framework, Framework::Clap);
    assert_eq!(reg.detected_parser(CLAP_HELP), Some(ParserKind::Clap));
}

#[test]
fn registry_falls_back_to_gnu() {
    let reg = ParserRegistry::default();
    let none = |_: &str| -> Option<String> { None };
    let t = reg.detect_and_parse("x", "nothing recognisable here", &none).unwrap();
    assert_eq!(t.framework, Framework::GnuStyle);
    assert_eq!(reg.detected_parser(GNU_HELP), Some(ParserKind::Gnu));
}

#[test]
fn registry_parses_with_named_framework() {
    let reg = ParserRegistry::new();
    let none = |_: &str| -> Option<String> { None };
    let t = reg.parse_with_framework(&Framework::Argparse, "x", CLAP_HELP, &none).unwrap();
    assert_eq!(t.framework, Framework::Argparse);
    let g = reg.parse_with_framework(&Framework::Unknown, "x", CLAP_HELP, &none).unwrap();
    assert_eq!(g.framework, Framework::Unknown);
}

#[test]
fn parser_kind_names() {
    assert_eq!(ParserKind::Gcloud.name(), "gcloud");
    assert_eq!(ParserKind::Gnu.framework(), Framework::GnuStyle);
}

#[test]
fn parses_framework_names() {
    assert_eq!(parse_framework("clap"), Ok(Framework::Clap));
    assert_eq!(parse_framework("COBRA"), Ok(Framework::Cobra));
    assert_eq!(parse_framework("Gnu"), Ok(Framework::GnuStyle));
    assert_eq!(
        parse_framework("Fish"),
        Err(CliError::UnknownFramework("fish".to_string()))
    );
    assert_eq!(framework_from_lowercase("argparse"), Ok(Framework::Argparse));
    assert_eq!(
        framework_from_lowercase("gcloud"),
        Err(CliError::UnknownFramework("gcloud".to_string()))
    );
}

#[test]
fn strips_ansi_codes() {
    assert_eq!(strip_ansi("\x1b[1mbold\x1b[0m text"), "bold text");
}

#[test]
fn chooses_stderr_when_stdout_blank() {
    assert_eq!(choose_output("  \n", "\x1b[31mhelp\x1b[0m"), "help");
    assert_eq!(choose_output("out", "err"), "out");
    assert_eq!(choose_output("", ""), "");
}

#[test]
fn usable_output_is_not_blank() {
    assert!(is_usable(" x "));
    assert!(!is_usable(" \n\t"));
}

#[test]
fn help_argument_sets() {
    assert_eq!(
        help_attempts(),
        vec![vec!["--help".to_string()], vec!["-h".to_string()], vec!["help".to_string()]]
    );
    assert_eq!(
        subcommand_help_attempts(" remote  add "),
        vec![
            vec!["remote".to_string(), "add".to_string(), "--help".to_string()],
            vec!["help".to_string(), "remote".to_string(), "add".to_string()],
        ]
    );
    assert_eq!(split_words("a\tb  c"), vec!["a", "b", "c"]);
}

#[test]
fn version_is_trimmed_output() {
    assert_eq!(version_from_output(" tool 1.2\n"), Some("tool 1.2".to_string()));
    assert_eq!(version_from_output("  "), None);
}

#[test]
fn limits() {
    assert!(within_size_limit(MAX_OUTPUT_BYTES, 0));
    assert!(!within_size_limit(MAX_OUTPUT_BYTES + 1, 0));
    assert!(may_fetch_sub_help(false, 4999));
    assert!(!may_fetch_sub_help(false, 5000));
    assert!(!may_fetch_sub_help(true, 0));
}

#[test]
fn framework_names_round_trip() {
    for f in [
        Framework::Clap,
        Framework::Cobra,
        Framework::Click,
        Framework::Argparse,
        Framework::GnuStyle,
    ] {
        assert_eq!(parse_framework(&f.to_string()), Ok(f));
    }
}

#[test]
fn recursion_stops_at_depth_limit() {
    let help = "Usage: tool [COMMAND]\n\nCommands:\n  again  Go one level deeper\n\nOptions:\n  -h, --help  Print help\n";
    let same = |_: &str| -> Option<String> { Some(help.to_string()) };
    let t = ParserRegistry::new().detect_and_parse("tool", help, &same).unwrap();
    assert_eq!(t.framework, Framework::Clap);
    let mut levels = 0;
    let mut cmd = &t.commands[0];
    loop {
        levels += 1;
        if cmd.subcommands.is_empty() {
            break;
        }
        cmd = &cmd.subcommands[0];
    }
    assert_eq!(levels, cliguard::security::MAX_SUBCOMMAND_DEPTH + 1);
}

#[test]
fn help_search_steps() {
    assert_eq!(next_help_step(3, 0, None), HelpStep::Run(0));
    assert_eq!(next_help_step(3, 1, Some("  \n".to_string())), HelpStep::Run(1));
    assert_eq!(next_help_step(3, 2, Some("Usage: x".to_string())), HelpStep::Found("Usage: x".to_string()));
    assert_eq!(next_help_step(3, 3, None), HelpStep::NotFound);
}

#[test]
fn error_messages() {
    assert_eq!(
        CliError::UnknownFramework("fish".to_string()).message(),
        "Unknown framework: fish. Supported: clap, cobra, click, argparse, gnu"
    );
    assert_eq!(
        CliError::NoParserForFramework(Framework::Click).message(),
        "No parser registered for framework: click"
    );
    assert_eq!(CliError::NoParsers.message(), "No parsers registered");
}

#[test]
fn version_supplemented_only_when_missing() {
    use_supplement();
}

fn use_supplement() {
    let none = |_: &str| -> Option<String> { None };
    let reg = ParserRegistry::new();
    let t = reg.detect_and_parse("x", "nothing here", &none).unwrap();
    assert!(t.version.is_none());
    let t = cliguard::parser::runner::supplement_version(t, Some("x 9.9".to_string()));
    assert_eq!(t.version, Some("x 9.9".to_string()));
    let t = cliguard::parser::runner::supplement_version(t, Some("other".to_string()));
    assert_eq!(t.version, Some("x 9.9".to_string()));
}

#[test]
fn nested_help_is_fetched_by_path() {
    let calls = std::cell::RefCell::new(Vec::new());
    let top = "Usage: git [COMMAND]\n\nCommands:\n  remote  Manage remotes\n\nOptions:\n  -h, --help  Print help\n";
    let remote = "Usage: git remote [COMMAND]\n\nCommands:\n  add  Add a remote\n\nOptions:\n  -h, --help  Print help\n";
    let add = "Usage: git remote add [OPTIONS]\n\nOptions:\n  -f, --fetch  Fetch after adding\n  -h, --help   Print help\n";
    let sub = |path: &str| -> Option<String> {
        calls.borrow_mut().push(path.to_string());
        match path {
            "remote" => Some(remote.to_string()),
            "remote add" => Some(add.to_string()),
            _ => None,
        }
    };
    let t = ParserRegistry::new().detect_and_parse("git", top, &sub).unwrap();
    assert_eq!(t.commands[0].name, "remote");
    let a = &t.commands[0].subcommands[0];
    assert_eq!(a.name, "add");
    assert_eq!(a.flags.len(), 1);
    assert_eq!(a.flags[0].long, Some("--fetch".to_string()));
    assert_eq!(*calls.borrow(), vec!["remote".to_string(), "remote add".to_string()]);
}
