use cliguard::ir::{Framework, ValueType};
use cliguard::parser::cobra::{
    infer_cobra_type, parse_available_commands, parse_cobra_flag, parse_description,
    parse_flags_section, CobraParser,
};
use cliguard::parser::Parser;

const SAMPLE_COBRA_HELP: &str = "\
Tool for managing things

Usage:
  tool [command]

Available Commands:
  create      Create a new resource
  delete      Delete a resource
  list        List resources
  help        Help about any command

Additional Commands:
  config      Manage configuration

Flags:
  -h, --help           help for tool
  -o, --output string  Output format (default \"json\")
  -v, --verbose        Enable verbose output

Global Flags:
      --config string  Config file path

Use \"tool [command] --help\" for more information about a command.
";

#[test]
fn detects_cobra_output() {
    let parser = CobraParser;
    assert!(parser.detect(SAMPLE_COBRA_HELP));
}

#[test]
fn cobra_does_not_detect_clap() {
    let parser = CobraParser;
    let clap_help = "Usage: tool [OPTIONS]\n\nOptions:\n  -h, --help  Print help";
    assert!(!parser.detect(clap_help));
}

#[test]
fn cobra_parses_description() {
    let desc = parse_description(SAMPLE_COBRA_HELP);
    assert!(desc.contains("managing things"));
}

#[test]
fn parses_flags() {
    let flags = parse_flags_section(SAMPLE_COBRA_HELP, "Flags:");
    assert_eq!(flags.len(), 2);
    assert_eq!(flags[0].long, Some("--output".to_string()));
    assert_eq!(flags[0].value_type, ValueType::String);
}

#[test]
fn cobra_parses_global_flags() {
    let flags = parse_flags_section(SAMPLE_COBRA_HELP, "Global Flags:");
    assert_eq!(flags.len(), 1);
    assert_eq!(flags[0].long, Some("--config".to_string()));
}

#[test]
fn parses_commands_with_groups() {
    let no_recurse = |_: &str| -> Option<String> { None };
    let (cmds, groups) = parse_available_commands(SAMPLE_COBRA_HELP, "tool", &no_recurse, 0);
    assert_eq!(cmds.len(), 4);
    assert_eq!(groups.len(), 2);
    assert_eq!(groups[0].name, "Available Commands");
    assert_eq!(groups[1].name, "Additional Commands");
}

#[test]
fn cobra_description_is_exact() {
    assert_eq!(parse_description(SAMPLE_COBRA_HELP), "Tool for managing things");
}

#[test]
fn cobra_flag_reads_default_and_switch() {
    let out = parse_cobra_flag("  -o, --output string  Output format (default \"json\")").unwrap();
    assert_eq!(out.short, Some("-o".to_string()));
    assert_eq!(out.default, Some("\"json\"".to_string()));
    let verbose = parse_flags_section(SAMPLE_COBRA_HELP, "Flags:").pop().unwrap();
    assert_eq!(verbose.long, Some("--verbose".to_string()));
    assert_eq!(verbose.value_type, ValueType::Bool);
}

#[test]
fn cobra_infers_value_types() {
    assert_eq!(infer_cobra_type("int"), ValueType::Int);
    assert_eq!(infer_cobra_type("string"), ValueType::String);
}

#[test]
fn cobra_recurses_into_subcommands() {
    let sub = |name: &str| -> Option<String> {
        if name == "create" {
            Some("Create things\n\nUsage:\n  tool create [command]\n\nAvailable Commands:\n  pod         Create a pod\n\nFlags:\n  -n, --name string  Name of it\n".to_string())
        } else {
            None
        }
    };
    let (cmds, _) = parse_available_commands(SAMPLE_COBRA_HELP, "tool", &sub, 0);
    assert_eq!(cmds[0].name, "create");
    assert_eq!(cmds[0].subcommands.len(), 1);
    assert_eq!(cmds[0].subcommands[0].name, "pod");
    assert_eq!(cmds[0].flags.len(), 1);
    assert_eq!(cmds[1].subcommands.len(), 0);
}

#[test]
fn cobra_parse_builds_tool() {
    let no_recurse = |_: &str| -> Option<String> { None };
    let t = CobraParser.parse("tool", SAMPLE_COBRA_HELP, &no_recurse).unwrap();
    assert_eq!(t.framework, Framework::Cobra);
    assert_eq!(t.name, "tool");
    // Global Flags first, then Flags.
    assert_eq!(t.global_flags.len(), 3);
    assert_eq!(t.global_flags[0].long, Some("--config".to_string()));
    assert_eq!(t.commands.len(), 4);
}

const GH_STYLE_HELP: &str = "\
Work seamlessly with GitHub from the command line.

USAGE
  gh <command> <subcommand> [flags]

CORE COMMANDS
  auth:        Authenticate gh and git with GitHub
  browse:      Open the repository in the browser

ADDITIONAL COMMANDS
  alias:       Create command shortcuts

FLAGS
  --help      Show help for command
  --version   Show gh version
";

#[test]
fn cobra_reads_gh_style_output() {
    assert!(CobraParser.detect(GH_STYLE_HELP));
    let no_recurse = |_: &str| -> Option<String> { None };
    let (cmds, groups) = parse_available_commands(GH_STYLE_HELP, "gh", &no_recurse, 0);
    assert_eq!(cmds.len(), 3);
    assert_eq!(cmds[0].name, "auth");
    assert_eq!(cmds[2].description, "Create command shortcuts");
    assert_eq!(groups.len(), 2);
    assert_eq!(groups[0].name, "CORE COMMANDS");
    assert_eq!(groups[0].commands, vec!["auth".to_string(), "browse".to_string()]);
    assert_eq!(groups[1].name, "ADDITIONAL COMMANDS");
    let t = CobraParser.parse("gh", GH_STYLE_HELP, &no_recurse).unwrap();
    assert_eq!(t.global_flags.len(), 1);
    assert_eq!(t.global_flags[0].long, Some("--version".to_string()));
    assert_eq!(t.global_flags[0].value_type, ValueType::Bool);
}

#[test]
fn cobra_reads_aliases_of_subcommands() {
    let sub = |name: &str| -> Option<String> {
        if name == "list" {
            Some("List resources\n\nUsage:\n  tool list [flags]\n\nAliases:\n  list, ls, l\n\nFlags:\n  -a, --all  Show all\n".to_string())
        } else {
            None
        }
    };
    let (cmds, _) = parse_available_commands(SAMPLE_COBRA_HELP, "tool", &sub, 0);
    assert_eq!(cmds[2].name, "list");
    assert_eq!(cmds[2].aliases, vec!["ls".to_string(), "l".to_string()]);
    assert_eq!(cmds[2].flags.len(), 1);
    assert!(cmds[0].aliases.is_empty());
    assert_eq!(
        cliguard::parser::cobra::parse_aliases("Aliases:\n  get,g , \n", "get"),
        vec!["g".to_string()]
    );
}
