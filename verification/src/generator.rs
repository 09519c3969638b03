//! The markdown guide for AI agents, written from a parsed tool.
use vstd::prelude::*;

use crate::ir::{
    framework_label, Arg, ArgV, Command, CommandV, Flag, FlagV, GroupV, ToolSpec, ToolV, TypeV,
    ValueType,
};
use crate::parser::CliError;
use crate::security::{
    byte_len, char_width, escape_markdown, escape_md, lemma_byte_len_prefix, lemma_byte_len_step,
    safe_desc, safe_description, MAX_DESCRIPTION_LENGTH,
};
use crate::text::{has_infix, join, join_chars, owned, str_chars, views};
use vstd::string::StringExecFns;

verus! {

/// The head of an argument table.
pub const ARGS_HEAD: &'static str =
    "**Arguments:**\n\n| Name | Type | Required | Description |\n|------|------|----------|-------------|\n";

/// The head of an option table.
pub const OPTIONS_HEAD: &'static str =
    "**Options:**\n\n| Flag | Type | Default | Description |\n|------|------|---------|-------------|\n";

/// The head of the global option table.
pub const GLOBAL_HEAD: &'static str =
    "## Global Options\n\n| Flag | Type | Default | Description |\n|------|------|---------|-------------|\n";

/// The head of the quick reference.
pub const QUICK_HEAD: &'static str = "## Quick Reference\n\n```bash\n";

// ------------------------------------------------------------------ the text

/// `n` spaces.
pub open spec fn spaces(n: nat) -> Seq<char> {
    Seq::new(n, |i: int| ' ')
}

/// `n` `#` signs.
pub open spec fn hashes(n: nat) -> Seq<char> {
    Seq::new(n, |i: int| '#')
}

/// The padding that brings a text of `w` bytes to column 45; none past it.
pub open spec fn pad_to_45(w: nat) -> nat {
    if w >= 45 {
        0
    } else {
        (45 - w) as nat
    }
}

/// The parts, one after another.
pub open spec fn concat(parts: Seq<Seq<char>>) -> Seq<char>
    decreases parts.len(),
{
    if parts.len() == 0 {
        seq![]
    } else {
        concat(parts.drop_last()) + parts.last()
    }
}

/// The name of a value type in a table.
pub open spec fn type_label(t: TypeV) -> Seq<char> {
    match t {
        TypeV::Text => "string"@,
        TypeV::Boolean => "bool"@,
        TypeV::Integer => "int"@,
        TypeV::Real => "float"@,
        TypeV::FilePath => "path"@,
        TypeV::Choice(_) => "enum"@,
        TypeV::Named(s) => s,
    }
}

/// A flag's names: `-s, --long`, or whichever of the two it has.
pub open spec fn flag_name_text(f: FlagV) -> Seq<char> {
    match (f.short, f.long) {
        (Some(s), Some(l)) => s + ", "@ + l,
        (Some(s), None) => s,
        (None, Some(l)) => l,
        (None, None) => seq![],
    }
}

/// How a flag is used: its long name (else its short one), with `<value>`
/// after it unless it is a switch.
pub open spec fn flag_usage_text(f: FlagV) -> Seq<char> {
    let name = match f.long {
        Some(l) => l,
        None => match f.short {
            Some(s) => s,
            None => seq![],
        },
    };
    if f.value_type is Boolean {
        name
    } else {
        name + " <value>"@
    }
}

/// An argument in a usage line: `<NAME>` when required, else `[NAME]`.
pub open spec fn arg_usage(a: ArgV) -> Seq<char> {
    if a.required {
        "<"@ + a.name + ">"@
    } else {
        "["@ + a.name + "]"@
    }
}

/// The arguments of a usage line, separated by spaces.
pub open spec fn args_usage(args: Seq<ArgV>) -> Seq<char> {
    join(args.map_values(|a: ArgV| arg_usage(a)), " "@)
}

/// A command's full name under `prefix`.
pub open spec fn full_name(prefix: Seq<char>, name: Seq<char>) -> Seq<char> {
    if prefix.len() == 0 {
        name
    } else {
        prefix + " "@ + name
    }
}

/// The usage part of a quick-reference line.
pub open spec fn quick_usage(tool: Seq<char>, c: CommandV, full: Seq<char>) -> Seq<char> {
    let args = args_usage(c.args);
    if args.len() == 0 {
        tool + " "@ + full
    } else {
        tool + " "@ + full + " "@ + args
    }
}

/// A quick-reference line: the usage, padded to column 45, then the
/// description as a comment.
pub open spec fn quick_entry(usage: Seq<char>, description: Seq<char>) -> Seq<char> {
    usage + spaces(pad_to_45(byte_len(usage))) + "# "@ + safe_desc(description, 50) + "\n"@
}

/// A command's quick-reference lines, its subcommands' after its own.
pub open spec fn quick_command(tool: Seq<char>, c: CommandV, prefix: Seq<char>) -> Seq<char>
    decreases c,
{
    let full = full_name(prefix, c.name);
    quick_entry(quick_usage(tool, c, full), c.description) + quick_subs(tool, c.subcommands, full)
}

/// The quick-reference lines of a list of subcommands.
pub open spec fn quick_subs(tool: Seq<char>, subs: Seq<CommandV>, full: Seq<char>) -> Seq<char>
    decreases subs,
{
    if subs.len() == 0 {
        seq![]
    } else {
        quick_subs(tool, subs.subrange(0, subs.len() - 1), full) + quick_command(
            tool,
            subs[subs.len() - 1],
            full,
        )
    }
}

/// The first command named `n`.
pub open spec fn find_named(cs: Seq<CommandV>, n: Seq<char>) -> Option<CommandV>
    decreases cs.len(),
{
    if cs.len() == 0 {
        None
    } else if cs[0].name == n {
        Some(cs[0])
    } else {
        find_named(cs.drop_first(), n)
    }
}

/// The quick-reference lines of the command a group names, if any.
pub open spec fn named_quick(t: ToolV, n: Seq<char>) -> Seq<char> {
    match find_named(t.commands, n) {
        Some(c) => quick_command(t.name, c, ""@),
        None => seq![],
    }
}

/// A group in the quick reference: its name as a comment, then its commands.
pub open spec fn group_block(t: ToolV, g: GroupV) -> Seq<char> {
    "# "@ + g.name + "\n"@ + concat(g.commands.map_values(|n: Seq<char>| named_quick(t, n)))
        + "\n"@
}

/// The commands of the quick reference, by group where there are groups.
pub open spec fn quick_commands(t: ToolV) -> Seq<char> {
    if t.groups.len() == 0 {
        concat(t.commands.map_values(|c: CommandV| quick_command(t.name, c, ""@)))
    } else {
        concat(t.groups.map_values(|g: GroupV| group_block(t, g)))
    }
}

/// A global option in the quick reference.
pub open spec fn global_line(tool: Seq<char>, f: FlagV) -> Seq<char> {
    let usage = flag_usage_text(f);
    tool + " "@ + usage + spaces(pad_to_45(byte_len(tool) + byte_len(usage) + 2)) + "# "@
        + safe_desc(f.description, 50) + "\n"@
}

/// The global options of the quick reference.
pub open spec fn quick_globals(t: ToolV) -> Seq<char> {
    if t.global_flags.len() == 0 {
        seq![]
    } else {
        "# Global options\n"@ + concat(t.global_flags.map_values(|f: FlagV| global_line(t.name, f)))
    }
}

/// The quick reference: a shell block of usage lines.
pub open spec fn quick_reference(t: ToolV) -> Seq<char> {
    QUICK_HEAD@ + quick_commands(t) + quick_globals(t) + "```\n\n"@
}

/// A row of a four-column table; the first cell in backticks.
pub open spec fn table_row(a: Seq<char>, b: Seq<char>, c: Seq<char>, d: Seq<char>) -> Seq<char> {
    "| `"@ + a + "` | "@ + b + " | "@ + c + " | "@ + d + " |\n"@
}

/// An argument's row.
pub open spec fn arg_row(a: ArgV) -> Seq<char> {
    table_row(
        escape_md(a.name),
        type_label(a.value_type),
        if a.required {
            "yes"@
        } else {
            "no"@
        },
        safe_desc(a.description, MAX_DESCRIPTION_LENGTH as nat),
    )
}

/// A flag's default, or `-`.
pub open spec fn default_text(f: FlagV) -> Seq<char> {
    match f.default {
        Some(d) => d,
        None => "-"@,
    }
}

/// A flag's row.
pub open spec fn flag_row(f: FlagV) -> Seq<char> {
    table_row(
        escape_md(flag_name_text(f)),
        type_label(f.value_type),
        escape_md(default_text(f)),
        safe_desc(f.description, MAX_DESCRIPTION_LENGTH as nat),
    )
}

/// A description paragraph, where there is a description.
pub open spec fn description_block(d: Seq<char>) -> Seq<char> {
    if d.len() > 0 {
        safe_desc(d, MAX_DESCRIPTION_LENGTH as nat) + "\n\n"@
    } else {
        seq![]
    }
}

/// The argument table, where there are arguments.
pub open spec fn args_block(args: Seq<ArgV>) -> Seq<char> {
    if args.len() > 0 {
        ARGS_HEAD@ + concat(args.map_values(|a: ArgV| arg_row(a))) + "\n"@
    } else {
        seq![]
    }
}

/// The option table, where there are options.
pub open spec fn flags_block(flags: Seq<FlagV>) -> Seq<char> {
    if flags.len() > 0 {
        OPTIONS_HEAD@ + concat(flags.map_values(|f: FlagV| flag_row(f))) + "\n"@
    } else {
        seq![]
    }
}

/// A command's section under a heading of `level` signs, its subcommands'
/// sections one level deeper after it.
pub open spec fn command_detail(tool: Seq<char>, c: CommandV, level: nat) -> Seq<char>
    decreases c,
{
    hashes(level) + " `"@ + tool + " "@ + c.name + "`\n\n"@ + description_block(c.description)
        + args_block(c.args) + flags_block(c.flags) + detail_subs(
        tool + " "@ + c.name,
        c.subcommands,
        level + 1,
    )
}

/// The sections of a list of subcommands.
pub open spec fn detail_subs(tool: Seq<char>, subs: Seq<CommandV>, level: nat) -> Seq<char>
    decreases subs,
{
    if subs.len() == 0 {
        seq![]
    } else {
        detail_subs(tool, subs.subrange(0, subs.len() - 1), level) + command_detail(
            tool,
            subs[subs.len() - 1],
            level,
        )
    }
}

/// The command reference, where there are commands.
pub open spec fn command_reference(t: ToolV) -> Seq<char> {
    if t.commands.len() == 0 {
        seq![]
    } else {
        "## Command Reference\n\n"@ + concat(
            t.commands.map_values(|c: CommandV| command_detail(t.name, c, 3)),
        )
    }
}

/// The global option table, where there are global options.
pub open spec fn global_options(t: ToolV) -> Seq<char> {
    if t.global_flags.len() == 0 {
        seq![]
    } else {
        GLOBAL_HEAD@ + concat(t.global_flags.map_values(|f: FlagV| flag_row(f))) + "\n"@
    }
}

/// The title and the tool's description.
pub open spec fn header(t: ToolV) -> Seq<char> {
    "# "@ + escape_md(t.name) + " for AI Agents\n\n"@ + description_block(t.description)
}

/// The version, or `unknown`.
pub open spec fn version_text(v: Option<Seq<char>>) -> Seq<char> {
    match v {
        Some(s) => s,
        None => "unknown"@,
    }
}

/// The closing line: framework and version.
pub open spec fn footer(t: ToolV) -> Seq<char> {
    "---\n**Framework**: "@ + framework_label(t.framework) + " | **Version**: "@ + version_text(
        t.version,
    ) + "\n"@
}

/// The whole guide.
pub open spec fn guide(t: ToolV) -> Seq<char> {
    header(t) + quick_reference(t) + command_reference(t) + global_options(t) + footer(t)
}

// ------------------------------------------------------------------- lemmas

/// Concatenating one part more.
pub proof fn lemma_concat_push(parts: Seq<Seq<char>>, x: Seq<char>)
    ensures
        concat(parts.push(x)) == concat(parts) + x,
{
    assert(parts.push(x).drop_last() =~= parts);
}

/// The guide opens with its title, `# <name> for AI Agents`, the name
/// escaped, and its quick reference comes right after the title and the
/// description.
pub proof fn lemma_guide_opens_with_title(t: ToolV)
    ensures
        ("# "@ + escape_md(t.name) + " for AI Agents\n\n"@).is_prefix_of(guide(t)),
        guide(t).subrange(
            header(t).len() as int,
            (header(t).len() + QUICK_HEAD@.len()) as int,
        ) == QUICK_HEAD@,
{
    let title = "# "@ + escape_md(t.name) + " for AI Agents\n\n"@;
    let g = guide(t);
    assert(header(t) == title + description_block(t.description));
    assert(g.subrange(0, title.len() as int) =~= title);
    assert(g.subrange(header(t).len() as int, (header(t).len() + QUICK_HEAD@.len()) as int) =~= QUICK_HEAD@);
}

/// The guide ends with the line naming framework and version, `unknown`
/// where there is no version.
pub proof fn lemma_guide_ends_with_footer(t: ToolV)
    ensures
        footer(t).is_suffix_of(guide(t)),
{
    let g = guide(t);
    let n = g.len() - footer(t).len();
    assert(g.subrange(n, g.len() as int) =~= footer(t));
}

/// A tool with commands gets a command reference, and one with global
/// options a table of them.
pub proof fn lemma_guide_sections(t: ToolV)
    ensures
        t.commands.len() > 0 ==> has_infix(guide(t), "## Command Reference\n\n"@),
        t.global_flags.len() > 0 ==> has_infix(guide(t), GLOBAL_HEAD@),
{
    let g = guide(t);
    let i = (header(t) + quick_reference(t)).len() as int;
    if t.commands.len() > 0 {
        let p = "## Command Reference\n\n"@;
        assert(g.subrange(i, i + p.len()) =~= p);
    }
    if t.global_flags.len() > 0 {
        let j = i + command_reference(t).len();
        assert(g.subrange(j, j + GLOBAL_HEAD@.len()) =~= GLOBAL_HEAD@);
    }
}

/// Text found in `b` is found in any text that holds `b`.
pub proof fn lemma_infix_trans(a: Seq<char>, b: Seq<char>, c: Seq<char>)
    requires
        has_infix(a, b),
        has_infix(b, c),
    ensures
        has_infix(a, c),
{
    let i = choose|i: int| 0 <= i && i + b.len() <= a.len() && #[trigger] a.subrange(i, i + b.len()) == b;
    let j = choose|j: int| 0 <= j && j + c.len() <= b.len() && #[trigger] b.subrange(j, j + c.len()) == c;
    assert(a.subrange(i + j, i + j + c.len()) =~= c) by {
        assert forall|k: int| 0 <= k < c.len() implies a.subrange(i + j, i + j + c.len())[k] == c[k] by {
            assert(a.subrange(i, i + b.len())[j + k] == b[j + k]);
            assert(b.subrange(j, j + c.len())[k] == c[k]);
        }
    }
}

/// A text holds each of its pieces.
pub proof fn lemma_infix_of_sum(a: Seq<char>, b: Seq<char>)
    ensures
        has_infix(a + b, a),
        has_infix(a + b, b),
{
    let z: int = 0;
    assert((a + b).subrange(z, z + a.len()) =~= a);
    assert((a + b).subrange(a.len() as int, (a.len() + b.len()) as int) =~= b);
}

/// The concatenation of parts holds each part.
pub proof fn lemma_infix_of_concat(parts: Seq<Seq<char>>, k: int)
    requires
        0 <= k < parts.len(),
    ensures
        has_infix(concat(parts), parts[k]),
    decreases parts.len(),
{
    let n = parts.len() - 1;
    lemma_infix_of_sum(concat(parts.drop_last()), parts.last());
    if k < n {
        lemma_infix_of_concat(parts.drop_last(), k);
        assert(parts.drop_last()[k] == parts[k]);
        lemma_infix_trans(concat(parts), concat(parts.drop_last()), parts[k]);
    }
}

/// The sections of a list of subcommands hold each one's section.
pub proof fn lemma_infix_of_detail_subs(tool: Seq<char>, subs: Seq<CommandV>, level: nat, i: int)
    requires
        0 <= i < subs.len(),
    ensures
        has_infix(detail_subs(tool, subs, level), command_detail(tool, subs[i], level)),
    decreases subs.len(),
{
    let n = subs.len() - 1;
    let init = subs.subrange(0, n);
    lemma_infix_of_sum(detail_subs(tool, init, level), command_detail(tool, subs[n], level));
    if i < n {
        lemma_infix_of_detail_subs(tool, init, level, i);
        assert(init[i] == subs[i]);
        lemma_infix_trans(
            detail_subs(tool, subs, level),
            detail_subs(tool, init, level),
            command_detail(tool, subs[i], level),
        );
    }
}

/// The guide holds the section of each command.
pub proof fn lemma_guide_has_each_command(t: ToolV, k: int)
    requires
        0 <= k < t.commands.len(),
    ensures
        has_infix(guide(t), command_detail(t.name, t.commands[k], 3)),
{
    let parts = t.commands.map_values(|c: CommandV| command_detail(t.name, c, 3));
    lemma_infix_of_concat(parts, k);
    let r = command_reference(t);
    lemma_infix_of_sum("## Command Reference\n\n"@, concat(parts));
    lemma_infix_trans(r, concat(parts), parts[k]);
    let g = guide(t);
    let a = header(t) + quick_reference(t);
    let b = global_options(t) + footer(t);
    assert(g =~= a + r + b);
    lemma_infix_of_sum(a + r, b);
    lemma_infix_of_sum(a, r);
    lemma_infix_trans(g, a + r, r);
    lemma_infix_trans(g, r, parts[k]);
}

/// A command's section holds the section of each of its subcommands, one
/// level deeper, and the row of each of its arguments and flags.
pub proof fn lemma_section_has_each_part(tool: Seq<char>, c: CommandV, level: nat)
    ensures
        forall|i: int|
            0 <= i < c.subcommands.len() ==> has_infix(
                command_detail(tool, c, level),
                #[trigger] command_detail(tool + " "@ + c.name, c.subcommands[i], level + 1),
            ),
        forall|i: int|
            0 <= i < c.args.len() ==> has_infix(
                command_detail(tool, c, level),
                #[trigger] arg_row(c.args[i]),
            ),
        forall|i: int|
            0 <= i < c.flags.len() ==> has_infix(
                command_detail(tool, c, level),
                #[trigger] flag_row(c.flags[i]),
            ),
{
    let head = hashes(level) + " `"@ + tool + " "@ + c.name + "`\n\n"@ + description_block(
        c.description,
    );
    let ab = args_block(c.args);
    let fb = flags_block(c.flags);
    let subs = detail_subs(tool + " "@ + c.name, c.subcommands, level + 1);
    let d = command_detail(tool, c, level);
    assert(d =~= head + ab + fb + subs);
    lemma_infix_of_sum(head + ab + fb, subs);
    lemma_infix_of_sum(head + ab, fb);
    lemma_infix_of_sum(head, ab);
    lemma_infix_trans(d, head + ab + fb, fb);
    lemma_infix_trans(d, head + ab + fb, head + ab);
    lemma_infix_trans(d, head + ab, ab);
    assert forall|i: int| 0 <= i < c.subcommands.len() implies has_infix(
        d,
        #[trigger] command_detail(tool + " "@ + c.name, c.subcommands[i], level + 1),
    ) by {
        lemma_infix_of_detail_subs(tool + " "@ + c.name, c.subcommands, level + 1, i);
        lemma_infix_trans(d, subs, command_detail(tool + " "@ + c.name, c.subcommands[i], level + 1));
    }
    assert forall|i: int| 0 <= i < c.args.len() implies has_infix(d, #[trigger] arg_row(c.args[i]))
    by {
        let rows = c.args.map_values(|a: ArgV| arg_row(a));
        lemma_infix_of_concat(rows, i);
        lemma_infix_of_sum(ARGS_HEAD@ + concat(rows), "\n"@);
        lemma_infix_of_sum(ARGS_HEAD@, concat(rows));
        lemma_infix_trans(ab, ARGS_HEAD@ + concat(rows), concat(rows));
        lemma_infix_trans(ab, concat(rows), rows[i]);
        lemma_infix_trans(d, ab, arg_row(c.args[i]));
    }
    assert forall|i: int| 0 <= i < c.flags.len() implies has_infix(d, #[trigger] flag_row(c.flags[i]))
    by {
        let rows = c.flags.map_values(|f: FlagV| flag_row(f));
        lemma_infix_of_concat(rows, i);
        lemma_infix_of_sum(OPTIONS_HEAD@ + concat(rows), "\n"@);
        lemma_infix_of_sum(OPTIONS_HEAD@, concat(rows));
        lemma_infix_trans(fb, OPTIONS_HEAD@ + concat(rows), concat(rows));
        lemma_infix_trans(fb, concat(rows), rows[i]);
        lemma_infix_trans(d, fb, flag_row(c.flags[i]));
    }
}

/// The guide holds the row of each global option.
pub proof fn lemma_guide_has_each_global_flag(t: ToolV, k: int)
    requires
        0 <= k < t.global_flags.len(),
    ensures
        has_infix(guide(t), flag_row(t.global_flags[k])),
{
    let rows = t.global_flags.map_values(|f: FlagV| flag_row(f));
    lemma_infix_of_concat(rows, k);
    let go = global_options(t);
    lemma_infix_of_sum(GLOBAL_HEAD@ + concat(rows), "\n"@);
    lemma_infix_of_sum(GLOBAL_HEAD@, concat(rows));
    lemma_infix_trans(go, GLOBAL_HEAD@ + concat(rows), concat(rows));
    lemma_infix_trans(go, concat(rows), rows[k]);
    let g = guide(t);
    let a = header(t) + quick_reference(t) + command_reference(t);
    assert(g =~= a + go + footer(t));
    lemma_infix_of_sum(a + go, footer(t));
    lemma_infix_of_sum(a, go);
    lemma_infix_trans(g, a + go, go);
    lemma_infix_trans(g, go, rows[k]);
}

/// Parts joined with a separator hold each part.
pub proof fn lemma_infix_of_join(parts: Seq<Seq<char>>, sep: Seq<char>, k: int)
    requires
        0 <= k < parts.len(),
    ensures
        has_infix(join(parts, sep), parts[k]),
    decreases parts.len(),
{
    if parts.len() == 1 {
        let z: int = 0;
        assert(join(parts, sep).subrange(z, z + parts[k].len()) =~= parts[k]);
    } else {
        let n = parts.len() - 1;
        let j = join(parts.drop_last(), sep);
        lemma_infix_of_sum(j + sep, parts.last());
        lemma_infix_of_sum(j, sep);
        if k < n {
            lemma_infix_of_join(parts.drop_last(), sep, k);
            assert(parts.drop_last()[k] == parts[k]);
            lemma_infix_trans(j + sep + parts.last(), j + sep, j);
            lemma_infix_trans(j + sep + parts.last(), j, parts[k]);
        }
    }
}

/// The usage text of a command's arguments shows each as `<NAME>` when it
/// is required and as `[NAME]` when it is not.
pub proof fn lemma_args_usage_brackets(args: Seq<ArgV>, k: int)
    requires
        0 <= k < args.len(),
    ensures
        has_infix(
            args_usage(args),
            if args[k].required {
                "<"@ + args[k].name + ">"@
            } else {
                "["@ + args[k].name + "]"@
            },
        ),
        args_usage(args).len() > 0,
{
    let parts = args.map_values(|x: ArgV| arg_usage(x));
    assert(parts[k] == arg_usage(args[k]));
    lemma_infix_of_join(parts, " "@, k);
    reveal_strlit("<");
    reveal_strlit("[");
    assert(arg_usage(args[k]).len() > 0);
}

/// A quick-reference line holds what its usage text holds.
pub proof fn lemma_quick_entry_holds(u: Seq<char>, d: Seq<char>, w: Seq<char>)
    requires
        has_infix(u, w),
    ensures
        has_infix(quick_entry(u, d), w),
{
    let rest = spaces(pad_to_45(byte_len(u))) + "# "@ + safe_desc(d, 50) + "\n"@;
    assert(quick_entry(u, d) =~= u + rest);
    lemma_infix_of_sum(u, rest);
    lemma_infix_trans(u + rest, u, w);
}

/// A command's usage text holds each argument's usage.
pub proof fn lemma_quick_usage_holds(tool: Seq<char>, c: CommandV, full: Seq<char>, k: int)
    requires
        0 <= k < c.args.len(),
    ensures
        has_infix(
            quick_usage(tool, c, full),
            if c.args[k].required {
                "<"@ + c.args[k].name + ">"@
            } else {
                "["@ + c.args[k].name + "]"@
            },
        ),
{
    lemma_args_usage_brackets(c.args, k);
    let args = args_usage(c.args);
    let head = tool + " "@ + full + " "@;
    assert(quick_usage(tool, c, full) == head + args);
    lemma_infix_of_sum(head, args);
    lemma_infix_trans(
        head + args,
        args,
        if c.args[k].required {
            "<"@ + c.args[k].name + ">"@
        } else {
            "["@ + c.args[k].name + "]"@
        },
    );
}

/// In the quick reference, each argument of a command appears after the
/// command as `<NAME>` when it is required and as `[NAME]` when it is not.
pub proof fn lemma_quick_line_brackets(tool: Seq<char>, c: CommandV, prefix: Seq<char>, k: int)
    requires
        0 <= k < c.args.len(),
    ensures
        has_infix(
            quick_command(tool, c, prefix),
            if c.args[k].required {
                "<"@ + c.args[k].name + ">"@
            } else {
                "["@ + c.args[k].name + "]"@
            },
        ),
{
    let want = if c.args[k].required {
        "<"@ + c.args[k].name + ">"@
    } else {
        "["@ + c.args[k].name + "]"@
    };
    let full = full_name(prefix, c.name);
    let u = quick_usage(tool, c, full);
    lemma_quick_usage_holds(tool, c, full, k);
    lemma_quick_entry_holds(u, c.description, want);
    let e = quick_entry(u, c.description);
    let sub = quick_subs(tool, c.subcommands, full);
    assert(quick_command(tool, c, prefix) == e + sub);
    lemma_infix_of_sum(e, sub);
    lemma_infix_trans(e + sub, e, want);
}

// ------------------------------------------------------------ the pieces

/// The name of a value type in a table.
fn format_value_type(vt: &ValueType) -> (r: &str)
    ensures
        r@ == type_label(vt@),
{
    match vt {
        ValueType::String => "string",
        ValueType::Bool => "bool",
        ValueType::Int => "int",
        ValueType::Float => "float",
        ValueType::Path => "path",
        ValueType::Enum(_) => "enum",
        ValueType::Custom(s) => s.as_str(),
    }
}

/// A flag's names, as in a table.
fn format_flag_name(flag: &Flag) -> (r: std::string::String)
    ensures
        r@ == flag_name_text(flag@),
{
    match (&flag.short, &flag.long) {
        (Some(s), Some(l)) => owned(s.as_str()).concat(", ").concat(l.as_str()),
        (Some(s), None) => owned(s.as_str()),
        (None, Some(l)) => owned(l.as_str()),
        (None, None) => std::string::String::new(),
    }
}

/// How a flag is used, as in the quick reference.
fn format_flag_usage(flag: &Flag) -> (r: std::string::String)
    ensures
        r@ == flag_usage_text(flag@),
{
    let name = match &flag.long {
        Some(l) => owned(l.as_str()),
        None => match &flag.short {
            Some(s) => owned(s.as_str()),
            None => std::string::String::new(),
        },
    };
    match flag.value_type {
        ValueType::Bool => name,
        _ => name.concat(" <value>"),
    }
}

/// The byte length of `s`, or `cap` where it is longer.
fn byte_len_capped(s: &str, cap: usize) -> (r: usize)
    requires
        cap <= 1000,
    ensures
        r == if byte_len(s@) < cap {
            byte_len(s@)
        } else {
            cap as nat
        },
{
    let c = str_chars(s);
    let mut total: usize = 0;
    let mut i: usize = 0;
    assert(c@.take(0) =~= seq![]);
    while i < c.len() && total < cap
        invariant
            cap <= 1000,
            i <= c@.len(),
            total <= cap + 4,
            total == byte_len(c@.take(i as int)),
        decreases c@.len() - i,
    {
        proof {
            lemma_byte_len_step(c@, i as int);
        }
        total = total + char_width(c[i]);
        i += 1;
    }
    proof {
        lemma_byte_len_prefix(c@, i as int);
        if i == c.len() {
            assert(c@.take(i as int) =~= c@);
        }
    }
    if total < cap {
        total
    } else {
        cap
    }
}

/// Appends `n` spaces.
fn push_spaces(out: &mut std::string::String, n: usize)
    ensures
        final(out)@ == old(out)@ + spaces(n as nat),
{
    let ghost start = out@;
    let mut k: usize = 0;
    assert(spaces(0) =~= seq![]);
    while k < n
        invariant
            k <= n,
            out@ == start + spaces(k as nat),
        decreases n - k,
    {
        out.append(" ");
        proof {
            reveal_strlit(" ");
            assert(spaces((k + 1) as nat) =~= spaces(k as nat) + " "@);
        }
        k += 1;
    }
}

/// Appends a description, escaped and cut to `max_len` bytes.
fn push_description(out: &mut std::string::String, desc: &str, max_len: usize)
    ensures
        final(out)@ == old(out)@ + safe_desc(desc@, max_len as nat),
{
    let d = safe_description(desc, max_len);
    out.append(d.as_str());
}

/// Appends a description paragraph, where there is a description.
fn push_description_block(out: &mut std::string::String, desc: &str)
    ensures
        final(out)@ == old(out)@ + description_block(desc@),
{
    if !desc.is_empty() {
        let ghost start = out@;
        push_description(out, desc, MAX_DESCRIPTION_LENGTH);
        out.append("\n\n");
        assert(out@ =~= start + description_block(desc@));
    } else {
        assert(old(out)@ + description_block(desc@) =~= old(out)@);
    }
}

/// Appends a four-column table row.
fn push_row(out: &mut std::string::String, a: &str, b: &str, c: &str, d: &str)
    ensures
        final(out)@ == old(out)@ + table_row(a@, b@, c@, d@),
{
    let ghost start = out@;
    out.append("| `");
    out.append(a);
    out.append("` | ");
    out.append(b);
    out.append(" | ");
    out.append(c);
    out.append(" | ");
    out.append(d);
    out.append(" |\n");
    assert(out@ =~= start + table_row(a@, b@, c@, d@));
}

/// Appends a flag's table row.
fn push_flag_row(out: &mut std::string::String, flag: &Flag)
    ensures
        final(out)@ == old(out)@ + flag_row(flag@),
{
    let name = escape_markdown(format_flag_name(flag).as_str());
    let default = match &flag.default {
        Some(d) => escape_markdown(d.as_str()),
        None => escape_markdown("-"),
    };
    let desc = safe_description(flag.description.as_str(), MAX_DESCRIPTION_LENGTH);
    push_row(out, name.as_str(), format_value_type(&flag.value_type), default.as_str(), desc.as_str());
}

/// Appends the rows of a list of flags.
fn push_flag_rows(out: &mut std::string::String, flags: &Vec<Flag>)
    ensures
        final(out)@ == old(out)@ + concat(flags@.map_values(|f: Flag| f@).map_values(|f: FlagV| flag_row(f))),
{
    let ghost start = out@;
    let ghost fs = flags@.map_values(|f: Flag| f@);
    let mut i: usize = 0;
    assert(fs.take(0).map_values(|f: FlagV| flag_row(f)) =~= seq![]);
    while i < flags.len()
        invariant
            fs == flags@.map_values(|f: Flag| f@),
            i <= flags@.len(),
            out@ == start + concat(fs.take(i as int).map_values(|f: FlagV| flag_row(f))),
        decreases flags@.len() - i,
    {
        push_flag_row(out, &flags[i]);
        proof {
            let rows = fs.take(i as int).map_values(|f: FlagV| flag_row(f));
            assert(fs.take(i + 1).map_values(|f: FlagV| flag_row(f)) =~= rows.push(flag_row(fs[i as int])));
            lemma_concat_push(rows, flag_row(fs[i as int]));
        }
        i += 1;
    }
    assert(fs.take(flags@.len() as int) =~= fs);
}

/// Appends the argument table, where there are arguments.
fn push_args_block(out: &mut std::string::String, args: &Vec<Arg>)
    ensures
        final(out)@ == old(out)@ + args_block(args@.map_values(|a: Arg| a@)),
{
    let ghost start = out@;
    let ghost xs = args@.map_values(|a: Arg| a@);
    if args.len() == 0 {
        assert(start + args_block(xs) =~= start);
        return;
    }
    out.append(ARGS_HEAD);
    let ghost amid = out@;
    let mut i: usize = 0;
    assert(xs.take(0).map_values(|a: ArgV| arg_row(a)) =~= seq![]);
    while i < args.len()
        invariant
            xs == args@.map_values(|a: Arg| a@),
            i <= args@.len(),
            out@ == amid + concat(xs.take(i as int).map_values(|a: ArgV| arg_row(a))),
        decreases args@.len() - i,
    {
        let a = &args[i];
        let name = escape_markdown(a.name.as_str());
        let desc = safe_description(a.description.as_str(), MAX_DESCRIPTION_LENGTH);
        let required = if a.required {
            "yes"
        } else {
            "no"
        };
        push_row(out, name.as_str(), format_value_type(&a.value_type), required, desc.as_str());
        proof {
            assert(xs[i as int] == a@);
            let parts = xs.take(i as int).map_values(|a: ArgV| arg_row(a));
            assert(xs.take(i + 1).map_values(|a: ArgV| arg_row(a)) =~= parts.push(arg_row(a@)));
            lemma_concat_push(parts, arg_row(a@));
        }
        i += 1;
    }
    assert(xs.take(args@.len() as int) =~= xs);
    out.append("\n");
    assert(out@ =~= start + args_block(xs));
}

/// Appends the option table, where there are options.
fn push_flags_block(out: &mut std::string::String, flags: &Vec<Flag>)
    ensures
        final(out)@ == old(out)@ + flags_block(flags@.map_values(|f: Flag| f@)),
{
    let ghost start = out@;
    if flags.len() == 0 {
        assert(start + flags_block(flags@.map_values(|f: Flag| f@)) =~= start);
        return;
    }
    out.append(OPTIONS_HEAD);
    push_flag_rows(out, flags);
    out.append("\n");
    assert(out@ =~= start + flags_block(flags@.map_values(|f: Flag| f@)));
}

// ------------------------------------------------------------ the sections

/// Writes the title and the tool's description.
fn write_header(out: &mut std::string::String, spec: &ToolSpec)
    ensures
        final(out)@ == old(out)@ + header(spec@),
{
    let ghost start = out@;
    out.append("# ");
    out.append(escape_markdown(spec.name.as_str()).as_str());
    out.append(" for AI Agents\n\n");
    push_description_block(out, spec.description.as_str());
    assert(out@ =~= start + header(spec@));
}

/// Writes a command's quick-reference lines, its subcommands' after them.
fn write_quick_command(out: &mut std::string::String, tool_name: &str, cmd: &Command, prefix: &str)
    ensures
        final(out)@ == old(out)@ + quick_command(tool_name@, cmd@, prefix@),
    decreases cmd,
{
    let ghost start = out@;
    let ghost c = cmd@;
    let full = if prefix.is_empty() {
        owned(cmd.name.as_str())
    } else {
        owned(prefix).concat(" ").concat(cmd.name.as_str())
    };
    assert(full@ == full_name(prefix@, c.name));
    let mut parts: Vec<Vec<char>> = Vec::new();
    let mut i: usize = 0;
    assert(c.args.take(0).map_values(|a: ArgV| arg_usage(a)) =~= views(parts@));
    while i < cmd.args.len()
        invariant
            c == cmd@,
            i <= cmd.args@.len(),
            views(parts@) == c.args.take(i as int).map_values(|a: ArgV| arg_usage(a)),
        decreases cmd.args@.len() - i,
    {
        let a = &cmd.args[i];
        let text = if a.required {
            owned("<").concat(a.name.as_str()).concat(">")
        } else {
            owned("[").concat(a.name.as_str()).concat("]")
        };
        let ghost before = views(parts@);
        parts.push(str_chars(text.as_str()));
        assert(c.args[i as int] == a@);
        assert(views(parts@) =~= before.push(arg_usage(a@)));
        assert(c.args.take(i + 1).map_values(|a: ArgV| arg_usage(a)) =~= before.push(arg_usage(a@)));
        i += 1;
    }
    assert(c.args.take(cmd.args@.len() as int) =~= c.args);
    let args_str = join_chars(&parts, " ");
    let usage = if args_str.len() == 0 {
        owned(tool_name).concat(" ").concat(full.as_str())
    } else {
        let a = crate::text::chars_to_string(&args_str);
        owned(tool_name).concat(" ").concat(full.as_str()).concat(" ").concat(a.as_str())
    };
    assert(usage@ == quick_usage(tool_name@, c, full@));
    let w = byte_len_capped(usage.as_str(), 45);
    out.append(usage.as_str());
    push_spaces(out, 45 - w);
    out.append("# ");
    push_description(out, cmd.description.as_str(), 50);
    out.append("\n");
    let ghost mid = out@;
    assert(mid =~= start + quick_entry(usage@, c.description));
    let mut k: usize = 0;
    assert(c.subcommands.subrange(0, 0) =~= seq![]);
    while k < cmd.subcommands.len()
        invariant
            c == cmd@,
            k <= cmd.subcommands@.len(),
            out@ == mid + quick_subs(tool_name@, c.subcommands.subrange(0, k as int), full@),
        decreases cmd.subcommands@.len() - k,
    {
        let sub = &cmd.subcommands[k];
        proof {
            assert(decreases_to!(cmd => cmd.subcommands));
            assert(decreases_to!(cmd.subcommands => cmd.subcommands@));
            assert(decreases_to!(cmd.subcommands@ => cmd.subcommands@[k as int]));
        }
        write_quick_command(out, tool_name, sub, full.as_str());
        proof {
            let s1 = c.subcommands.subrange(0, k + 1);
            assert(s1.subrange(0, k as int) =~= c.subcommands.subrange(0, k as int));
            assert(s1[k as int] == sub@);
        }
        k += 1;
    }
    assert(c.subcommands.subrange(0, cmd.subcommands@.len() as int) =~= c.subcommands);
}

/// The index of the first command named `n`, if any.
fn find_command(cmds: &Vec<Command>, n: &std::string::String) -> (r: Option<usize>)
    ensures
        match r {
            Some(k) => k < cmds@.len() && find_named(cmds@.map_values(|c: Command| c@), n@)
                == Some(cmds@[k as int]@),
            None => find_named(cmds@.map_values(|c: Command| c@), n@) is None,
        },
{
    let ghost cs = cmds@.map_values(|c: Command| c@);
    let mut i: usize = 0;
    assert(cs.skip(0) =~= cs);
    while i < cmds.len()
        invariant
            cs == cmds@.map_values(|c: Command| c@),
            i <= cmds@.len(),
            find_named(cs, n@) == find_named(cs.skip(i as int), n@),
        decreases cmds@.len() - i,
    {
        assert(cs.skip(i as int)[0] == cmds@[i as int]@);
        if cmds[i].name == *n {
            return Some(i);
        }
        assert(cs.skip(i as int).drop_first() =~= cs.skip(i + 1));
        i += 1;
    }
    assert(cs.skip(i as int).len() == 0);
    None
}

/// Writes a group of the quick reference.
fn write_group(out: &mut std::string::String, spec: &ToolSpec, k: usize)
    requires
        k < spec.groups@.len(),
    ensures
        final(out)@ == old(out)@ + group_block(spec@, spec@.groups[k as int]),
{
    let ghost start = out@;
    let ghost t = spec@;
    let group = &spec.groups[k];
    let ghost g = group@;
    assert(t.groups[k as int] == g);
    out.append("# ");
    out.append(group.name.as_str());
    out.append("\n");
    let ghost mid = out@;
    let mut j: usize = 0;
    assert(g.commands.take(0).map_values(|n: Seq<char>| named_quick(t, n)) =~= seq![]);
    while j < group.commands.len()
        invariant
            t == spec@,
            g == group@,
            j <= group.commands@.len(),
            out@ == mid + concat(g.commands.take(j as int).map_values(|n: Seq<char>| named_quick(t, n))),
        decreases group.commands@.len() - j,
    {
        let name = &group.commands[j];
        assert(g.commands[j as int] == name@);
        let ghost before = out@;
        match find_command(&spec.commands, name) {
            Some(i) => {
                write_quick_command(out, spec.name.as_str(), &spec.commands[i], "");
            },
            None => {},
        }
        assert(out@ == before + named_quick(t, name@));
        proof {
            let parts = g.commands.take(j as int).map_values(|n: Seq<char>| named_quick(t, n));
            assert(g.commands.take(j + 1).map_values(|n: Seq<char>| named_quick(t, n)) =~= parts.push(named_quick(t, name@)));
            lemma_concat_push(parts, named_quick(t, name@));
        }
        j += 1;
    }
    assert(g.commands.take(group.commands@.len() as int) =~= g.commands);
    out.append("\n");
    assert(out@ =~= start + group_block(t, g));
}

/// Writes the quick reference.
fn write_quick_reference(out: &mut std::string::String, spec: &ToolSpec)
    ensures
        final(out)@ == old(out)@ + quick_reference(spec@),
{
    let ghost start = out@;
    let ghost t = spec@;
    out.append(QUICK_HEAD);
    let ghost mid = out@;
    if spec.groups.len() == 0 {
        let mut k: usize = 0;
        assert(t.commands.take(0).map_values(|c: CommandV| quick_command(t.name, c, ""@)) =~= seq![]);
        while k < spec.commands.len()
            invariant
                t == spec@,
                k <= spec.commands@.len(),
                out@ == mid + concat(t.commands.take(k as int).map_values(|c: CommandV| quick_command(t.name, c, ""@))),
            decreases spec.commands@.len() - k,
        {
            write_quick_command(out, spec.name.as_str(), &spec.commands[k], "");
            proof {
                let parts = t.commands.take(k as int).map_values(|c: CommandV| quick_command(t.name, c, ""@));
                let x = quick_command(t.name, t.commands[k as int], ""@);
                assert(t.commands.take(k + 1).map_values(|c: CommandV| quick_command(t.name, c, ""@)) =~= parts.push(x));
                lemma_concat_push(parts, x);
            }
            k += 1;
        }
        assert(t.commands.take(spec.commands@.len() as int) =~= t.commands);
    } else {
        let mut k: usize = 0;
        assert(t.groups.take(0).map_values(|g: GroupV| group_block(t, g)) =~= seq![]);
        while k < spec.groups.len()
            invariant
                t == spec@,
                k <= spec.groups@.len(),
                out@ == mid + concat(t.groups.take(k as int).map_values(|g: GroupV| group_block(t, g))),
            decreases spec.groups@.len() - k,
        {
            write_group(out, spec, k);
            proof {
                let parts = t.groups.take(k as int).map_values(|g: GroupV| group_block(t, g));
                let x = group_block(t, t.groups[k as int]);
                assert(t.groups.take(k + 1).map_values(|g: GroupV| group_block(t, g)) =~= parts.push(x));
                lemma_concat_push(parts, x);
            }
            k += 1;
        }
        assert(t.groups.take(spec.groups@.len() as int) =~= t.groups);
    }
    assert(out@ == mid + quick_commands(t));
    let ghost after_cmds = out@;
    if spec.global_flags.len() > 0 {
        out.append("# Global options\n");
        let ghost gmid = out@;
        let mut k: usize = 0;
        assert(t.global_flags.take(0).map_values(|f: FlagV| global_line(t.name, f)) =~= seq![]);
        while k < spec.global_flags.len()
            invariant
                t == spec@,
                k <= spec.global_flags@.len(),
                out@ == gmid + concat(t.global_flags.take(k as int).map_values(|f: FlagV| global_line(t.name, f))),
            decreases spec.global_flags@.len() - k,
        {
            let flag = &spec.global_flags[k];
            let ghost before = out@;
            let usage = format_flag_usage(flag);
            let a = byte_len_capped(spec.name.as_str(), 45);
            let b = byte_len_capped(usage.as_str(), 45);
            let w = a + b + 2;
            let padding = if w >= 45 {
                0
            } else {
                45 - w
            };
            out.append(spec.name.as_str());
            out.append(" ");
            out.append(usage.as_str());
            push_spaces(out, padding);
            out.append("# ");
            push_description(out, flag.description.as_str(), 50);
            out.append("\n");
            proof {
                let f = t.global_flags[k as int];
                assert(f == flag@);
                assert(padding == pad_to_45(byte_len(t.name) + byte_len(flag_usage_text(f)) + 2));
                assert(out@ =~= before + global_line(t.name, f));
                let parts = t.global_flags.take(k as int).map_values(|f: FlagV| global_line(t.name, f));
                assert(t.global_flags.take(k + 1).map_values(|f: FlagV| global_line(t.name, f)) =~= parts.push(global_line(t.name, f)));
                lemma_concat_push(parts, global_line(t.name, f));
            }
            k += 1;
        }
        assert(t.global_flags.take(spec.global_flags@.len() as int) =~= t.global_flags);
    }
    assert(out@ =~= after_cmds + quick_globals(t));
    out.append("```\n\n");
    assert(out@ =~= start + quick_reference(t));
}

/// Writes a command's section, then its subcommands' one level deeper;
/// `heading` is the run of `#` signs for its level.
fn write_command_detail(
    out: &mut std::string::String,
    tool_name: &str,
    cmd: &Command,
    heading: &str,
    Ghost(level): Ghost<nat>,
)
    requires
        heading@ == hashes(level),
    ensures
        final(out)@ == old(out)@ + command_detail(tool_name@, cmd@, level),
    decreases cmd,
{
    let ghost start = out@;
    let ghost c = cmd@;
    out.append(heading);
    out.append(" `");
    out.append(tool_name);
    out.append(" ");
    out.append(cmd.name.as_str());
    out.append("`\n\n");
    push_description_block(out, cmd.description.as_str());
    push_args_block(out, &cmd.args);
    push_flags_block(out, &cmd.flags);
    let ghost mid = out@;
    let sub_tool = owned(tool_name).concat(" ").concat(cmd.name.as_str());
    let sub_heading = owned(heading).concat("#");
    proof {
        reveal_strlit("#");
        assert(sub_heading@ =~= hashes(level + 1));
    }
    let mut k: usize = 0;
    assert(c.subcommands.subrange(0, 0) =~= seq![]);
    while k < cmd.subcommands.len()
        invariant
            c == cmd@,
            sub_heading@ == hashes(level + 1),
            sub_tool@ == tool_name@ + " "@ + c.name,
            k <= cmd.subcommands@.len(),
            out@ == mid + detail_subs(sub_tool@, c.subcommands.subrange(0, k as int), level + 1),
        decreases cmd.subcommands@.len() - k,
    {
        let sub = &cmd.subcommands[k];
        proof {
            assert(decreases_to!(cmd => cmd.subcommands));
            assert(decreases_to!(cmd.subcommands => cmd.subcommands@));
            assert(decreases_to!(cmd.subcommands@ => cmd.subcommands@[k as int]));
        }
        write_command_detail(out, sub_tool.as_str(), sub, sub_heading.as_str(), Ghost(level + 1));
        proof {
            let s1 = c.subcommands.subrange(0, k + 1);
            assert(s1.subrange(0, k as int) =~= c.subcommands.subrange(0, k as int));
            assert(s1[k as int] == sub@);
        }
        k += 1;
    }
    assert(c.subcommands.subrange(0, cmd.subcommands@.len() as int) =~= c.subcommands);
    assert(out@ =~= start + command_detail(tool_name@, c, level));
}

/// Writes the command reference.
fn write_command_reference(out: &mut std::string::String, spec: &ToolSpec)
    ensures
        final(out)@ == old(out)@ + command_reference(spec@),
{
    let ghost t = spec@;
    if spec.commands.len() == 0 {
        assert(old(out)@ + command_reference(t) =~= old(out)@);
        return;
    }
    let ghost start = out@;
    out.append("## Command Reference\n\n");
    let ghost mid = out@;
    let heading = "###";
    proof {
        reveal_strlit("###");
        assert(heading@ =~= hashes(3));
    }
    let mut k: usize = 0;
    assert(t.commands.take(0).map_values(|c: CommandV| command_detail(t.name, c, 3)) =~= seq![]);
    while k < spec.commands.len()
        invariant
            t == spec@,
            heading@ == hashes(3),
            k <= spec.commands@.len(),
            out@ == mid + concat(t.commands.take(k as int).map_values(|c: CommandV| command_detail(t.name, c, 3))),
        decreases spec.commands@.len() - k,
    {
        write_command_detail(out, spec.name.as_str(), &spec.commands[k], heading, Ghost(3));
        proof {
            let parts = t.commands.take(k as int).map_values(|c: CommandV| command_detail(t.name, c, 3));
            let x = command_detail(t.name, t.commands[k as int], 3);
            assert(t.commands.take(k + 1).map_values(|c: CommandV| command_detail(t.name, c, 3)) =~= parts.push(x));
            lemma_concat_push(parts, x);
        }
        k += 1;
    }
    assert(t.commands.take(spec.commands@.len() as int) =~= t.commands);
    assert(out@ =~= start + command_reference(t));
}

/// Writes the global option table.
fn write_global_flags(out: &mut std::string::String, spec: &ToolSpec)
    ensures
        final(out)@ == old(out)@ + global_options(spec@),
{
    if spec.global_flags.len() == 0 {
        assert(old(out)@ + global_options(spec@) =~= old(out)@);
        return;
    }
    let ghost start = out@;
    out.append(GLOBAL_HEAD);
    push_flag_rows(out, &spec.global_flags);
    out.append("\n");
    assert(out@ =~= start + global_options(spec@));
}

/// Generates the markdown guide for AI agents from a parsed tool: a title
/// and description, a quick reference of usage lines, a section per
/// command, the global options, and a line naming framework and version.
pub fn generate_guide(spec: &ToolSpec) -> (r: Result<std::string::String, CliError>)
    ensures
        r matches Ok(s) && s@ == guide(spec@),
{
    let mut out = std::string::String::new();
    write_header(&mut out, spec);
    write_quick_reference(&mut out, spec);
    write_command_reference(&mut out, spec);
    write_global_flags(&mut out, spec);
    let ghost body = out@;
    out.append("---\n**Framework**: ");
    out.append(spec.framework.to_string().as_str());
    out.append(" | **Version**: ");
    match &spec.version {
        Some(v) => out.append(v.as_str()),
        None => out.append("unknown"),
    }
    out.append("\n");
    assert(out@ =~= body + footer(spec@));
    assert(out@ =~= guide(spec@));
    Ok(out)
}

} // verus!
