use cliguard::ir::ValueType;
use cliguard::parser::clap_parser::{
    infer_value_type, parse_arg_line, parse_args_section, parse_commands_section, parse_description,
    parse_flag_line, parse_options_section, parse_version, ClapParser,
};
use cliguard::parser::Parser;

const SAMPLE_CLAP_HELP: &str = "\
cliguard 0.1.0
Auto-generate agentic AI guides from CLI help output

Usage: cliguard [OPTIONS] <BINARY>

Arguments:
  <BINARY>  The CLI binary to generate a guide for

Options:
  -f, --framework <FRAMEWORK>  Force a specific framework parser
  -o, --output <PATH>          Output file path
      --format <FORMAT>        Output format [default: md]
  -h, --help                   Print help
  -V, --version                Print version

Commands:
  parse     Parse a binary and output IR
  generate  Generate a guide from IR
  help      Print this message or the help of the given subcommand(s)
";

#[test]
fn detects_clap_output() {
    let parser = ClapParser;
    assert!(parser.detect(SAMPLE_CLAP_HELP));
}

#[test]
fn does_not_detect_cobra() {
    let parser = ClapParser;
    let cobra_help = "Usage:\n  tool [command]\n\nAvailable Commands:\n  foo  Do foo\n\nFlags:\n  -h, --help   help for tool";
    assert!(!parser.detect(cobra_help));
}

#[test]
fn clap_parser_parses_description() {
    let desc = parse_description(SAMPLE_CLAP_HELP);
    assert!(desc.contains("Auto-generate agentic AI guides"));
}

#[test]
fn parses_version() {
    let ver = parse_version(SAMPLE_CLAP_HELP);
    assert_eq!(ver, Some("0.1.0".to_string()));
}

#[test]
fn clap_parser_parses_options() {
    let flags = parse_options_section(SAMPLE_CLAP_HELP);
    assert_eq!(flags.len(), 3);
    assert_eq!(flags[0].long, Some("--framework".to_string()));
    assert_eq!(flags[1].long, Some("--output".to_string()));
    assert_eq!(flags[1].value_type, ValueType::Path);
    assert_eq!(flags[2].default, Some("md".to_string()));
}

#[test]
fn parses_args() {
    let args = parse_args_section(SAMPLE_CLAP_HELP);
    assert_eq!(args.len(), 1);
    assert_eq!(args[0].name, "BINARY");
    assert!(args[0].required);
}

#[test]
fn clap_parser_parses_commands() {
    let no_recurse = |_: &str| -> Option<String> { None };
    let (cmds, groups) = parse_commands_section(SAMPLE_CLAP_HELP, "cliguard", &no_recurse, 0);
    assert_eq!(cmds.len(), 2);
    assert_eq!(cmds[0].name, "parse");
    assert_eq!(groups.len(), 1);
}

#[test]
fn clap_description_is_exact() {
    assert_eq!(
        parse_description(SAMPLE_CLAP_HELP),
        "Auto-generate agentic AI guides from CLI help output"
    );
}

#[test]
fn clap_flag_line_reads_env_and_default() {
    let f = parse_flag_line("-t, --token <TOKEN>  API token [env: TOKEN_VAR] [default: none]")
        .unwrap();
    assert_eq!(f.short, Some("-t".to_string()));
    assert_eq!(f.env_var, Some("TOKEN_VAR".to_string()));
    assert_eq!(f.default, Some("none".to_string()));
    assert!(f.required);
    assert_eq!(f.value_type, ValueType::String);
}

#[test]
fn clap_infers_value_types() {
    assert_eq!(infer_value_type("dir"), ValueType::Path);
    assert_eq!(infer_value_type("N"), ValueType::Int);
    assert_eq!(infer_value_type("decimal"), ValueType::Float);
    assert_eq!(infer_value_type("BOOLEAN"), ValueType::Bool);
    assert_eq!(infer_value_type("NAME"), ValueType::String);
}

#[test]
fn clap_recurses_into_subcommands() {
    let sub = |name: &str| -> Option<String> {
        if name == "parse" {
            Some("Usage: x parse\n\nOptions:\n  -q, --quiet  Be quiet\n\nCommands:\n  deep  Go deeper\n".to_string())
        } else {
            None
        }
    };
    let (cmds, _) = parse_commands_section(SAMPLE_CLAP_HELP, "cliguard", &sub, 0);
    assert_eq!(cmds[0].flags.len(), 1);
    assert_eq!(cmds[0].subcommands.len(), 1);
    assert_eq!(cmds[0].subcommands[0].name, "deep");
    assert_eq!(cmds[1].flags.len(), 0);
}

#[test]
fn clap_parse_builds_tool() {
    let no_recurse = |_: &str| -> Option<String> { None };
    let spec = ClapParser.parse("cliguard", SAMPLE_CLAP_HELP, &no_recurse).unwrap();
    assert_eq!(spec.name, "cliguard");
    assert_eq!(spec.version, Some("0.1.0".to_string()));
    assert_eq!(spec.global_flags.len(), 3);
    assert_eq!(spec.commands.len(), 2);
}

#[test]
fn clap_arg_required_by_its_brackets() {
    let a = parse_arg_line("[PATH]  Directory, defaults to <cwd>").unwrap();
    assert_eq!(a.name, "PATH");
    assert_eq!(a.description, "Directory, defaults to <cwd>");
    assert!(!a.required);
    assert!(!a.variadic);
    assert!(parse_arg_line("<FILE>  Input [optional text]").unwrap().required);
}
