use cliguard::ir::{Framework, ValueType};
use cliguard::parser::gnu::{
    infer_gnu_arg_type, infer_gnu_type, parse_description, parse_gnu_options, parse_usage_args,
    parse_version, GnuParser,
};
use cliguard::parser::Parser;

const SAMPLE_GNU_HELP: &str = "\
Usage: ls [OPTION]... [FILE]...
List information about the FILEs.

  -a, --all                  do not ignore entries starting with .
  -l                         use a long listing format
  -h, --human-readable       with -l, print sizes in human readable format
  -r, --reverse              reverse order while sorting
  -S                         sort by file size, largest first
  -t                         sort by time, newest first
      --color=WHEN           colorize the output; WHEN can be 'always', 'auto', or 'never'
      --help     display this help and exit
      --version  output version information and exit
";

#[test]
fn detects_gnu_output() {
    let parser = GnuParser;
    assert!(parser.detect(SAMPLE_GNU_HELP));
}

#[test]
fn gnu_parses_description() {
    let desc = parse_description(SAMPLE_GNU_HELP);
    assert!(desc.contains("List information about the FILEs"));
}

#[test]
fn parses_gnu_options() {
    let flags = parse_gnu_options(SAMPLE_GNU_HELP);
    assert!(flags.len() >= 5);
    assert_eq!(flags[0].short, Some("-a".to_string()));
    assert_eq!(flags[0].long, Some("--all".to_string()));
    assert_eq!(flags[0].value_type, ValueType::Bool);
}

#[test]
fn parses_color_flag_with_value() {
    let flags = parse_gnu_options(SAMPLE_GNU_HELP);
    let color = flags.iter().find(|f| f.long.as_deref() == Some("--color"));
    assert!(color.is_some());
    assert_eq!(color.unwrap().value_type, ValueType::String);
}

#[test]
fn parses_usage_args() {
    let args = parse_usage_args(SAMPLE_GNU_HELP);
    assert_eq!(args.len(), 1);
    assert_eq!(args[0].name, "FILE");
    assert!(args[0].variadic);
}

#[test]
fn gnu_description_is_exact() {
    assert_eq!(parse_description(SAMPLE_GNU_HELP), "List information about the FILEs.");
}

#[test]
fn gnu_description_falls_back_to_line_before_usage() {
    let help = "mytool - does things\n\nUsage: mytool [OPTION]\n  -a, --all  everything\n";
    assert_eq!(parse_description(help), "mytool - does things");
}

#[test]
fn gnu_help_and_version_dropped() {
    let flags = parse_gnu_options(SAMPLE_GNU_HELP);
    assert_eq!(flags.len(), 7);
    assert!(flags.iter().all(|f| f.long.as_deref() != Some("--help")));
}

#[test]
fn gnu_version_on_first_lines() {
    assert_eq!(parse_version("tool 2.3.1\nUsage: tool\n"), Some("2.3.1".to_string()));
    assert_eq!(parse_version(SAMPLE_GNU_HELP), None);
}

#[test]
fn gnu_infers_types() {
    assert_eq!(infer_gnu_type("file"), ValueType::Path);
    assert_eq!(infer_gnu_type("NUM"), ValueType::Int);
    assert_eq!(infer_gnu_type("WHEN"), ValueType::String);
    assert_eq!(infer_gnu_arg_type("FILE"), ValueType::Path);
    assert_eq!(infer_gnu_arg_type("PATTERN"), ValueType::String);
}

#[test]
fn gnu_parse_builds_root_command() {
    let no_recurse = |_: &str| -> Option<String> { None };
    let t = GnuParser.parse("ls", SAMPLE_GNU_HELP, &no_recurse).unwrap();
    assert_eq!(t.framework, Framework::GnuStyle);
    assert_eq!(t.commands.len(), 1);
    assert_eq!(t.commands[0].name, "ls");
    assert_eq!(t.commands[0].args[0].name, "FILE");
}
