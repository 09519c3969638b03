use cliguard::generator::generate_guide;
use cliguard::ir::{Arg, Command, CommandGroup, Flag, Framework, ToolSpec, ValueType};

fn sample_spec() -> ToolSpec {
    ToolSpec {
        name: "mytool".to_string(),
        version: Some("1.0.0".to_string()),
        description: "A sample tool for testing".to_string(),
        framework: Framework::Clap,
        commands: vec![
            Command {
                name: "run".to_string(),
                description: "Run the main process".to_string(),
                aliases: Vec::new(),
                subcommands: Vec::new(),
                flags: vec![Flag {
                    short: Some("-n".to_string()),
                    long: Some("--count".to_string()),
                    description: "Number of iterations".to_string(),
                    value_type: ValueType::Int,
                    required: false,
                    default: Some("1".to_string()),
                    env_var: None,
                }],
                args: vec![Arg {
                    name: "INPUT".to_string(),
                    description: "Input file".to_string(),
                    value_type: ValueType::Path,
                    required: true,
                    variadic: false,
                }],
                examples: Vec::new(),
            },
            Command {
                name: "check".to_string(),
                description: "Validate configuration".to_string(),
                aliases: Vec::new(),
                subcommands: Vec::new(),
                flags: Vec::new(),
                args: Vec::new(),
                examples: Vec::new(),
            },
        ],
        global_flags: vec![Flag {
            short: Some("-v".to_string()),
            long: Some("--verbose".to_string()),
            description: "Enable verbose output".to_string(),
            value_type: ValueType::Bool,
            required: false,
            default: None,
            env_var: None,
        }],
        groups: vec![CommandGroup {
            name: "Commands".to_string(),
            commands: vec!["run".to_string(), "check".to_string()],
        }],
    }
}

#[test]
fn generates_non_empty_guide() {
    let guide = generate_guide(&sample_spec()).unwrap();
    assert!(!guide.is_empty());
}

#[test]
fn guide_has_header() {
    let guide = generate_guide(&sample_spec()).unwrap();
    assert!(guide.contains("# mytool for AI Agents"));
}

#[test]
fn guide_has_quick_reference() {
    let guide = generate_guide(&sample_spec()).unwrap();
    assert!(guide.contains("## Quick Reference"));
    assert!(guide.contains("```bash"));
    assert!(guide.contains("mytool run"));
}

#[test]
fn guide_has_command_reference() {
    let guide = generate_guide(&sample_spec()).unwrap();
    assert!(guide.contains("## Command Reference"));
    assert!(guide.contains("`mytool run`"));
    assert!(guide.contains("| `INPUT`"));
}

#[test]
fn guide_has_global_options() {
    let guide = generate_guide(&sample_spec()).unwrap();
    assert!(guide.contains("## Global Options"));
    assert!(guide.contains("--verbose"));
}

#[test]
fn guide_has_footer() {
    let guide = generate_guide(&sample_spec()).unwrap();
    assert!(guide.contains("**Framework**: clap"));
    assert!(guide.contains("**Version**: 1.0.0"));
}

#[test]
fn guide_full_text() {
    let guide = generate_guide(&sample_spec()).unwrap();
    let expected = "\
# mytool for AI Agents

A sample tool for testing

## Quick Reference

```bash
# Commands
mytool run <INPUT>                           # Run the main process
mytool check                                 # Validate configuration

# Global options
mytool --verbose                            # Enable verbose output
```

## Command Reference

### `mytool run`

Run the main process

**Arguments:**

| Name | Type | Required | Description |
|------|------|----------|-------------|
| `INPUT` | path | yes | Input file |

**Options:**

| Flag | Type | Default | Description |
|------|------|---------|-------------|
| `-n, --count` | int | 1 | Number of iterations |

### `mytool check`

Validate configuration

## Global Options

| Flag | Type | Default | Description |
|------|------|---------|-------------|
| `-v, --verbose` | bool | - | Enable verbose output |

---
**Framework**: clap | **Version**: 1.0.0
";
    assert_eq!(guide, expected);
}

#[test]
fn guide_without_commands_or_flags_has_no_such_sections() {
    let spec = ToolSpec {
        name: "bare".to_string(),
        version: None,
        description: String::new(),
        framework: Framework::GnuStyle,
        commands: Vec::new(),
        global_flags: Vec::new(),
        groups: Vec::new(),
    };
    let guide = generate_guide(&spec).unwrap();
    assert_eq!(
        guide,
        "# bare for AI Agents\n\n## Quick Reference\n\n```bash\n```\n\n---\n**Framework**: gnu | **Version**: unknown\n"
    );
}

#[test]
fn guide_nests_subcommands_one_level_deeper() {
    let mut spec = sample_spec();
    spec.groups = Vec::new();
    spec.commands[1].subcommands.push(Command {
        name: "deep".to_string(),
        description: String::new(),
        aliases: Vec::new(),
        subcommands: Vec::new(),
        flags: Vec::new(),
        args: Vec::new(),
        examples: Vec::new(),
    });
    let guide = generate_guide(&spec).unwrap();
    assert!(guide.contains("#### `mytool check deep`\n\n"));
    assert!(guide.contains("mytool check deep                            # \n"));
}

#[test]
fn guide_escapes_names() {
    let mut spec = sample_spec();
    spec.name = "a|b".to_string();
    let guide = generate_guide(&spec).unwrap();
    assert!(guide.starts_with("# a\\|b for AI Agents\n\n"));
}

#[test]
fn framework_labels() {
    assert_eq!(Framework::Clap.to_string(), "clap");
    assert_eq!(Framework::GnuStyle.to_string(), "gnu");
    assert_eq!(Framework::Unknown.to_string(), "unknown");
}

#[test]
fn clone_keeps_everything() {
    let mut spec = sample_spec();
    let sub = spec.commands[1].clone();
    spec.commands[0].subcommands.push(sub);
    let copy = spec.clone();
    assert_eq!(format!("{:?}", copy), format!("{:?}", spec));
    assert_eq!(generate_guide(&copy).unwrap(), generate_guide(&spec).unwrap());
}

#[test]
fn descriptions_do_not_change_line_count() {
    let a = sample_spec();
    let mut b = sample_spec();
    b.description = "a\nb|c\r\nd".to_string();
    b.commands[0].description = "x\n\ny".to_string();
    b.commands[0].flags[0].description = "many\nlines\nhere".to_string();
    b.commands[0].args[0].description = "`tick`\n".to_string();
    b.global_flags[0].description = "g\nh".to_string();
    let ga = generate_guide(&a).unwrap();
    let gb = generate_guide(&b).unwrap();
    assert_ne!(ga, gb);
    assert_eq!(ga.matches('\n').count(), gb.matches('\n').count());
}
