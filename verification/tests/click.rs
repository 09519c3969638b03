use cliguard::ir::{Framework, ValueType};
use cliguard::parser::click::{
    infer_click_type, parse_click_args, parse_click_commands, parse_click_options,
    parse_description, ClickParser,
};
use cliguard::parser::Parser;

const SAMPLE_CLICK_HELP: &str = "\
Usage: mytool [OPTIONS] COMMAND [ARGS]...

  A tool for processing data files.

Options:
  -v, --verbose          Enable verbose output
  -c, --config PATH      Config file path  [env: MYTOOL_CONFIG]
  -f, --format TEXT      Output format  [default: json]
  --help                 Show this message and exit.

Commands:
  process   Process input files
  validate  Validate configuration
";

#[test]
fn detects_click_output() {
    let parser = ClickParser;
    assert!(parser.detect(SAMPLE_CLICK_HELP));
}

#[test]
fn click_parses_description() {
    let desc = parse_description(SAMPLE_CLICK_HELP);
    assert!(desc.contains("processing data files"));
}

#[test]
fn click_parses_options() {
    let flags = parse_click_options(SAMPLE_CLICK_HELP);
    assert_eq!(flags.len(), 3); // --help filtered
    assert_eq!(flags[0].long, Some("--verbose".to_string()));
    assert_eq!(flags[1].value_type, ValueType::Path);
    assert_eq!(flags[1].env_var, Some("MYTOOL_CONFIG".to_string()));
    assert_eq!(flags[2].default, Some("json".to_string()));
}

#[test]
fn click_parses_commands() {
    let no_recurse = |_: &str| -> Option<String> { None };
    let (cmds, groups) = parse_click_commands(SAMPLE_CLICK_HELP, "mytool", &no_recurse, 0);
    assert_eq!(cmds.len(), 2);
    assert_eq!(cmds[0].name, "process");
    assert_eq!(groups.len(), 1);
}

#[test]
fn click_description_is_exact() {
    assert_eq!(parse_description(SAMPLE_CLICK_HELP), "A tool for processing data files.");
}

#[test]
fn click_infers_value_types() {
    assert_eq!(infer_click_type("INTEGER"), ValueType::Int);
    assert_eq!(infer_click_type("PATH"), ValueType::Path);
    assert_eq!(infer_click_type("TEXT"), ValueType::String);
}

#[test]
fn click_verbose_is_a_switch() {
    let flags = parse_click_options(SAMPLE_CLICK_HELP);
    assert_eq!(flags[0].short, Some("-v".to_string()));
    assert_eq!(flags[0].value_type, ValueType::Bool);
    assert_eq!(flags[0].description, "Enable verbose output");
}

#[test]
fn click_args_from_usage_line() {
    // OPTIONS, COMMAND and ARGS are placeholders, not arguments.
    assert!(parse_click_args(SAMPLE_CLICK_HELP).is_empty());
    let args = parse_click_args("Usage: tool [OPTIONS] SRC [DEST]\n");
    assert_eq!(args.len(), 2);
    assert_eq!(args[0].name, "SRC");
    assert!(args[0].required);
    assert_eq!(args[1].name, "DEST");
    assert!(!args[1].required);
    assert!(!args[1].variadic);
}

#[test]
fn click_parse_builds_tool() {
    let no_recurse = |_: &str| -> Option<String> { None };
    let t = ClickParser.parse("mytool", SAMPLE_CLICK_HELP, &no_recurse).unwrap();
    assert_eq!(t.framework, Framework::Click);
    assert_eq!(t.commands.len(), 2);
    assert_eq!(t.global_flags.len(), 3);
    assert_eq!(t.groups.len(), 1);
}
