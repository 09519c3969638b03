# cliguard

Guides for AI agents, drawn from the help output of command-line tools:
the help text of a tool is parsed into a description of its commands,
flags and arguments, and a markdown guide is written from it.

## Layout

- `src/` — the library, verified with Verus.
  - `text.rs`: character-level text over `Seq<char>` (trimming, lines,
    splitting, joining) and its executable versions.
  - `pattern.rs`: the regular expressions the parsers match, through the
    `regex` crate; results are named by their arguments.
  - `ir.rs`: the tool description and its mathematical views.
  - `common.rs`: pieces the parsers share, and the nesting bound on commands.
  - `parser.rs` and `parser/`: one parser per framework (clap, cobra,
    gcloud, click, argparse, GNU style), the registry that picks one, and
    `runner.rs`, the decisions around running a tool for its help.
  - `security.rs`: limits, markdown escaping, description truncation, and
    the output path checks.
  - `generator.rs`: the guide, specified as text and written to match.
  - `layout.rs`: that description text never changes the number of lines
    of a guide.
- `tests/` — tests of the library.
- `app/` — the `cliguard` command: arguments, running the tool, JSON output
  and writing files.
