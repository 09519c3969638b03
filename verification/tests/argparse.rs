use cliguard::ir::ValueType;
use cliguard::parser::argparse::{
    parse_argparse_flag, parse_description, parse_optional_args, parse_positional_args,
    parse_subparsers, parse_version, ArgparseParser,
};
use cliguard::parser::Parser;

const SAMPLE_ARGPARSE_HELP: &str = "\
usage: mytool [-h] [--verbose] [--output FILE] {process,validate} ...

A data processing tool

positional arguments:
  {process,validate}  Command to run
  input               Input file path

optional arguments:
  -h, --help          show this help message and exit
  --verbose           Enable verbose mode
  -o, --output FILE   Output file path (default: stdout)
";

#[test]
fn detects_argparse_output() {
    let parser = ArgparseParser;
    assert!(parser.detect(SAMPLE_ARGPARSE_HELP));
}

#[test]
fn argparse_does_not_detect_clap() {
    let parser = ArgparseParser;
    let clap_help = "Usage: tool [OPTIONS]\n\nOptions:\n  -h, --help  Print help";
    assert!(!parser.detect(clap_help));
}

#[test]
fn argparse_parses_description() {
    let desc = parse_description(SAMPLE_ARGPARSE_HELP);
    assert!(desc.contains("data processing tool"));
}

#[test]
fn parses_optional_args() {
    let flags = parse_optional_args(SAMPLE_ARGPARSE_HELP);
    assert_eq!(flags.len(), 2); // --help filtered
    assert_eq!(flags[0].long, Some("--verbose".to_string()));
    assert_eq!(flags[1].value_type, ValueType::Path);
}

#[test]
fn parses_positional_args() {
    let args = parse_positional_args(SAMPLE_ARGPARSE_HELP);
    assert_eq!(args.len(), 1); // {process,validate} skipped, input parsed
    assert_eq!(args[0].name, "input");
}

#[test]
fn parses_subparsers() {
    let no_recurse = |_: &str| -> Option<String> { None };
    let (cmds, _) = parse_subparsers(SAMPLE_ARGPARSE_HELP, "mytool", &no_recurse, 0);
    assert_eq!(cmds.len(), 2);
    assert_eq!(cmds[0].name, "process");
    assert_eq!(cmds[1].name, "validate");
}

#[test]
fn argparse_reads_choices_and_default() {
    let f = parse_argparse_flag("--mode MODE  One of {fast, slow} (default: fast)").unwrap();
    assert_eq!(
        f.value_type,
        ValueType::Enum(vec!["fast".to_string(), "slow".to_string()])
    );
    assert_eq!(f.default, Some("fast".to_string()));
}

#[test]
fn argparse_version_on_early_line() {
    assert_eq!(parse_version("usage: t\n\nt 2.10.3 tool\n"), Some("2.10.3".to_string()));
    assert_eq!(parse_version("a\nb\nc\nd\ne\nv 1.2.3\n"), None);
}

#[test]
fn argparse_description_is_exact() {
    assert_eq!(parse_description(SAMPLE_ARGPARSE_HELP), "A data processing tool");
}

#[test]
fn argparse_section_end_keeps_last_entry_once() {
    let help = "usage: t\n\noptions:\n  --alpha  First\n  --beta   Second\nepilog text\n";
    let flags = parse_optional_args(help);
    assert_eq!(flags.len(), 2);
    assert_eq!(flags[0].long, Some("--alpha".to_string()));
    assert_eq!(flags[1].long, Some("--beta".to_string()));
}

#[test]
fn argparse_parse_without_subcommands_makes_root_command() {
    let help = "usage: tool [-h] input\n\nDo things\n\npositional arguments:\n  input  The input\n\noptions:\n  -h, --help  show help\n";
    let no_recurse = |_: &str| -> Option<String> { None };
    let spec = ArgparseParser.parse("tool", help, &no_recurse).unwrap();
    assert_eq!(spec.commands.len(), 1);
    assert_eq!(spec.commands[0].name, "tool");
    assert_eq!(spec.commands[0].args.len(), 1);
    assert!(spec.groups.is_empty());
}

#[test]
fn argparse_listed_subcommands_group() {
    let help = "usage: t\n\nsubcommands:\n  run   Run it\n  stop  Stop it\nother:\n";
    let no_recurse = |_: &str| -> Option<String> { None };
    let (cmds, groups) = parse_subparsers(help, "t", &no_recurse, 0);
    assert_eq!(cmds.len(), 2);
    assert_eq!(cmds[1].description, "Stop it");
    assert_eq!(groups.len(), 1);
    assert_eq!(groups[0].commands, vec!["run".to_string(), "stop".to_string()]);
}
