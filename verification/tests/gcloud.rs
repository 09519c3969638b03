use cliguard::ir::Framework;
use cliguard::parser::gcloud::{
    parse_gcloud_commands, parse_gcloud_description, parse_gcloud_flags, GcloudParser,
};
use cliguard::parser::Parser;

const SAMPLE_GCLOUD: &str = "\
NAME
    gcloud - manage Google Cloud resources

SYNOPSIS
    gcloud GROUP | COMMAND [--account=ACCOUNT] [--project=PROJECT_ID]

DESCRIPTION
    The gcloud CLI manages authentication and interactions with Google Cloud.

GLOBAL FLAGS
     --account=ACCOUNT
        Google Cloud user account to use.

     --project=PROJECT_ID
        The Google Cloud project ID.

     -q, --quiet
        Disable all interactive prompts.

GROUPS
    GROUP is one of the following:

     compute
        Create and manage Compute Engine resources.

     storage
        Create and manage Cloud Storage resources.

COMMANDS
    COMMAND is one of the following:

     init
        Initialize or reinitialize gcloud.

     info
        Display information about the current gcloud environment.

     help
        Search gcloud help text.
";

#[test]
fn detects_gcloud() {
    let parser = GcloudParser;
    assert!(parser.detect(SAMPLE_GCLOUD));
}

#[test]
fn gcloud_does_not_detect_clap() {
    let parser = GcloudParser;
    assert!(!parser.detect("Usage: tool [OPTIONS]\n\nOptions:\n  -h, --help"));
}

#[test]
fn gcloud_parses_description() {
    let desc = parse_gcloud_description(SAMPLE_GCLOUD);
    assert!(desc.contains("manages authentication"));
}

#[test]
fn gcloud_parses_global_flags() {
    let flags = parse_gcloud_flags(SAMPLE_GCLOUD, "GLOBAL FLAGS");
    assert!(flags.len() >= 2);
    let account = flags.iter().find(|f| f.long.as_deref() == Some("--account"));
    assert!(account.is_some());
    let quiet = flags.iter().find(|f| f.long.as_deref() == Some("--quiet"));
    assert!(quiet.is_some());
}

#[test]
fn parses_groups_and_commands() {
    let no_recurse = |_: &str| -> Option<String> { None };
    let (cmds, groups) = parse_gcloud_commands(SAMPLE_GCLOUD, "gcloud", &no_recurse);
    assert!(cmds.len() >= 4);
    assert_eq!(groups.len(), 2);

    let compute = cmds.iter().find(|c| c.name == "compute");
    assert!(compute.is_some());
    assert!(compute.unwrap().description.contains("Compute Engine"));
}

#[test]
fn gcloud_description_is_exact() {
    assert_eq!(
        parse_gcloud_description(SAMPLE_GCLOUD),
        "The gcloud CLI manages authentication and interactions with Google Cloud."
    );
}

#[test]
fn gcloud_flags_exact() {
    let flags = parse_gcloud_flags(SAMPLE_GCLOUD, "GLOBAL FLAGS");
    assert_eq!(flags.len(), 3);
    // The entry that the section's end closes keeps its short name too.
    assert_eq!(flags[2].short, Some("-q".to_string()));
    assert_eq!(flags[2].long, Some("--quiet".to_string()));
    assert_eq!(flags[2].description, "Disable all interactive prompts.");
}

#[test]
fn gcloud_parse_builds_tool() {
    let no_recurse = |_: &str| -> Option<String> { None };
    let t = GcloudParser.parse("gcloud", SAMPLE_GCLOUD, &no_recurse).unwrap();
    assert_eq!(t.framework, Framework::Unknown);
    assert!(t.version.is_none());
    assert_eq!(t.groups[0].name, "GROUPS");
}

#[test]
fn gcloud_crawls_subcommand_help_by_path() {
    let calls = std::cell::RefCell::new(Vec::new());
    let compute = "\
NAME
    gcloud compute - create and manipulate Compute Engine resources

FLAGS
     --zone=ZONE
        The zone to use.

GROUPS
    GROUP is one of the following:

     instances
        Read and manipulate Compute Engine virtual machine instances.
";
    let sub = |path: &str| -> Option<String> {
        calls.borrow_mut().push(path.to_string());
        if path == "compute" {
            Some(compute.to_string())
        } else {
            None
        }
    };
    let (cmds, _) = parse_gcloud_commands(SAMPLE_GCLOUD, "gcloud", &sub);
    let c = cmds.iter().find(|c| c.name == "compute").unwrap();
    assert_eq!(c.flags.len(), 1);
    assert_eq!(c.flags[0].long, Some("--zone".to_string()));
    assert_eq!(c.subcommands.len(), 1);
    assert_eq!(c.subcommands[0].name, "instances");
    assert!(calls.borrow().contains(&"compute instances".to_string()));
    assert!(calls.borrow().contains(&"storage".to_string()));
}
