//! The shape of a guide does not depend on description text: two tools that
//! differ only in their descriptions (each empty in one exactly when it is
//! empty in the other) give guides with the same number of lines.
use vstd::prelude::*;

use crate::generator::{
    arg_row, arg_usage, args_block, command_detail, command_reference, concat, description_block,
    detail_subs, find_named, flag_row, flag_usage_text, flags_block, footer, full_name,
    global_line, global_options, group_block, guide, hashes, header, named_quick, quick_command,
    quick_commands, quick_entry, quick_globals, quick_reference, quick_subs, quick_usage, spaces,
    type_label,
};
use crate::ir::{ArgV, CommandV, FlagV, GroupV, ToolV};
use crate::security::{escape_md, lemma_escape_md_safe, lemma_safe_desc_md_safe, safe_desc};

verus! {

/// The number of line feeds in `s`.
pub open spec fn newlines(s: Seq<char>) -> nat
    decreases s.len(),
{
    if s.len() == 0 {
        0
    } else {
        newlines(s.drop_last()) + if s.last() == '\n' {
            1nat
        } else {
            0nat
        }
    }
}

/// Two descriptions alike in shape: each empty exactly when the other is.
pub open spec fn same_emptiness(a: Seq<char>, b: Seq<char>) -> bool {
    (a.len() == 0) == (b.len() == 0)
}

/// Two flags that differ at most in their description text.
pub open spec fn flags_alike(a: FlagV, b: FlagV) -> bool {
    &&& a.short == b.short
    &&& a.long == b.long
    &&& a.value_type == b.value_type
    &&& a.required == b.required
    &&& a.default == b.default
    &&& a.env_var == b.env_var
    &&& same_emptiness(a.description, b.description)
}

/// Two arguments that differ at most in their description text.
pub open spec fn args_alike(a: ArgV, b: ArgV) -> bool {
    &&& a.name == b.name
    &&& a.value_type == b.value_type
    &&& a.required == b.required
    &&& a.variadic == b.variadic
    &&& same_emptiness(a.description, b.description)
}

/// Two flag lists, position by position alike.
pub open spec fn flag_lists_alike(a: Seq<FlagV>, b: Seq<FlagV>) -> bool {
    a.len() == b.len() && forall|i: int| 0 <= i < a.len() ==> flags_alike(#[trigger] a[i], b[i])
}

/// Two argument lists, position by position alike.
pub open spec fn arg_lists_alike(a: Seq<ArgV>, b: Seq<ArgV>) -> bool {
    a.len() == b.len() && forall|i: int| 0 <= i < a.len() ==> args_alike(#[trigger] a[i], b[i])
}

/// Two commands that differ at most in description text, their own or that
/// of their flags, arguments and subcommands.
pub open spec fn commands_alike(a: CommandV, b: CommandV) -> bool
    decreases a,
{
    &&& a.name == b.name
    &&& a.aliases == b.aliases
    &&& a.examples == b.examples
    &&& same_emptiness(a.description, b.description)
    &&& flag_lists_alike(a.flags, b.flags)
    &&& arg_lists_alike(a.args, b.args)
    &&& command_lists_alike(a.subcommands, b.subcommands)
}

/// Two command lists, position by position alike.
pub open spec fn command_lists_alike(a: Seq<CommandV>, b: Seq<CommandV>) -> bool
    decreases a,
{
    if a.len() == 0 {
        b.len() == 0
    } else {
        &&& b.len() == a.len()
        &&& command_lists_alike(a.subrange(0, a.len() - 1), b.subrange(0, b.len() - 1))
        &&& commands_alike(a[a.len() - 1], b[b.len() - 1])
    }
}

/// Two tools that differ at most in description text.
pub open spec fn tools_alike(a: ToolV, b: ToolV) -> bool {
    &&& a.name == b.name
    &&& a.version == b.version
    &&& a.framework == b.framework
    &&& a.groups == b.groups
    &&& same_emptiness(a.description, b.description)
    &&& command_lists_alike(a.commands, b.commands)
    &&& flag_lists_alike(a.global_flags, b.global_flags)
}

// ------------------------------------------------------------------ counting

/// Line feeds add up over a concatenation.
pub proof fn lemma_newlines_add(a: Seq<char>, b: Seq<char>)
    ensures
        newlines(a + b) == newlines(a) + newlines(b),
    decreases b.len(),
{
    if b.len() == 0 {
        assert(a + b =~= a);
    } else {
        lemma_newlines_add(a, b.drop_last());
        assert((a + b).drop_last() =~= a + b.drop_last());
    }
}

/// A text without line feeds counts none.
pub proof fn lemma_newlines_none(s: Seq<char>)
    requires
        forall|i: int| 0 <= i < s.len() ==> s[i] != '\n',
    ensures
        newlines(s) == 0,
    decreases s.len(),
{
    if s.len() > 0 {
        lemma_newlines_none(s.drop_last());
    }
}

/// Escaped and cut descriptions hold no line feed.
pub proof fn lemma_safe_texts_flat(d: Seq<char>, n: nat)
    ensures
        newlines(safe_desc(d, n)) == 0,
        newlines(escape_md(d)) == 0,
{
    lemma_safe_desc_md_safe(d, n);
    lemma_escape_md_safe(d);
    let x = safe_desc(d, n);
    let y = escape_md(d);
    assert forall|i: int| 0 <= i < x.len() implies x[i] != '\n' by {
        assert(x[i] != '\n' && x[i] != '\r' && x[i] != '`');
    }
    assert forall|i: int| 0 <= i < y.len() implies y[i] != '\n' by {
        assert(y[i] != '\n' && y[i] != '\r' && y[i] != '`');
    }
    lemma_newlines_none(x);
    lemma_newlines_none(y);
}

/// Padding holds no line feed.
pub proof fn lemma_spaces_flat(n: nat)
    ensures
        newlines(spaces(n)) == 0,
        newlines(hashes(n)) == 0,
{
    lemma_newlines_none(spaces(n));
    lemma_newlines_none(hashes(n));
}

/// A quick-reference line counts the line feeds of its usage, and one more.
pub proof fn lemma_quick_entry_lines(usage: Seq<char>, d: Seq<char>)
    ensures
        newlines(quick_entry(usage, d)) == newlines(usage) + 1,
{
    let p = spaces(crate::generator::pad_to_45(crate::security::byte_len(usage)));
    lemma_spaces_flat(crate::generator::pad_to_45(crate::security::byte_len(usage)));
    lemma_safe_texts_flat(d, 50);
    reveal_strlit("# ");
    reveal_strlit("\n");
    lemma_newlines_none("# "@);
    lemma_newlines_add(usage, p);
    lemma_newlines_add(usage + p, "# "@);
    lemma_newlines_add(usage + p + "# "@, safe_desc(d, 50));
    lemma_newlines_add(usage + p + "# "@ + safe_desc(d, 50), "\n"@);
    assert(newlines("\n"@) == 1) by {
        reveal_strlit("\n");
        assert("\n"@.len() == 1);
        assert("\n"@.last() == '\n');
        assert("\n"@.drop_last() =~= Seq::<char>::empty());
        assert(newlines(Seq::<char>::empty()) == 0);
    }
}

/// Lists of parts with equal line counts, position by position, concatenate
/// to equal line counts.
pub proof fn lemma_concat_lines(a: Seq<Seq<char>>, b: Seq<Seq<char>>)
    requires
        a.len() == b.len(),
        forall|i: int| 0 <= i < a.len() ==> newlines(#[trigger] a[i]) == newlines(b[i]),
    ensures
        newlines(concat(a)) == newlines(concat(b)),
    decreases a.len(),
{
    if a.len() > 0 {
        lemma_concat_lines(a.drop_last(), b.drop_last());
        lemma_newlines_add(concat(a.drop_last()), a.last());
        lemma_newlines_add(concat(b.drop_last()), b.last());
    }
}

/// Sums of parts with equal line counts have equal line counts.
pub proof fn lemma_sum_lines(x1: Seq<char>, x2: Seq<char>, y1: Seq<char>, y2: Seq<char>)
    requires
        newlines(x1) == newlines(x2),
        newlines(y1) == newlines(y2),
    ensures
        newlines(x1 + y1) == newlines(x2 + y2),
{
    lemma_newlines_add(x1, y1);
    lemma_newlines_add(x2, y2);
}

/// Position-by-position alike command lists.
pub open spec fn pointwise_alike(a: Seq<CommandV>, b: Seq<CommandV>) -> bool {
    a.len() == b.len() && forall|i: int| 0 <= i < a.len() ==> commands_alike(#[trigger] a[i], b[i])
}

/// Alike command lists are alike position by position.
pub proof fn lemma_lists_pointwise(a: Seq<CommandV>, b: Seq<CommandV>)
    requires
        command_lists_alike(a, b),
    ensures
        pointwise_alike(a, b),
    decreases a.len(),
{
    if a.len() > 0 {
        let n = a.len() - 1;
        lemma_lists_pointwise(a.subrange(0, n), b.subrange(0, n));
        assert forall|i: int| 0 <= i < a.len() implies commands_alike(#[trigger] a[i], b[i]) by {
            if i < n {
                assert(a.subrange(0, n)[i] == a[i]);
                assert(b.subrange(0, n)[i] == b[i]);
            }
        }
    }
}

/// Alike lists find alike commands by name.
pub proof fn lemma_find_alike(a: Seq<CommandV>, b: Seq<CommandV>, n: Seq<char>)
    requires
        pointwise_alike(a, b),
    ensures
        match (find_named(a, n), find_named(b, n)) {
            (None, None) => true,
            (Some(x), Some(y)) => commands_alike(x, y),
            _ => false,
        },
    decreases a.len(),
{
    if a.len() > 0 {
        assert(commands_alike(a[0], b[0]));
        assert forall|i: int| 0 <= i < a.drop_first().len() implies commands_alike(
            #[trigger] a.drop_first()[i],
            b.drop_first()[i],
        ) by {
            assert(commands_alike(a[i + 1], b[i + 1]));
        }
        lemma_find_alike(a.drop_first(), b.drop_first(), n);
    }
}

/// The usage line of alike commands is the same.
pub proof fn lemma_usage_same(tool: Seq<char>, a: CommandV, b: CommandV, full: Seq<char>)
    requires
        commands_alike(a, b),
    ensures
        quick_usage(tool, a, full) == quick_usage(tool, b, full),
{
    assert(a.args.map_values(|x: ArgV| arg_usage(x)) =~= b.args.map_values(|x: ArgV| arg_usage(x)))
        by {
        assert forall|i: int| 0 <= i < a.args.len() implies arg_usage(a.args[i]) == arg_usage(
            b.args[i],
        ) by {
            assert(args_alike(a.args[i], b.args[i]));
        }
    }
}

/// Alike commands give quick-reference lines with equal line counts.
pub proof fn lemma_quick_alike(tool: Seq<char>, a: CommandV, b: CommandV, prefix: Seq<char>)
    requires
        commands_alike(a, b),
    ensures
        newlines(quick_command(tool, a, prefix)) == newlines(quick_command(tool, b, prefix)),
    decreases a,
{
    let full = full_name(prefix, a.name);
    lemma_usage_same(tool, a, b, full);
    let u = quick_usage(tool, a, full);
    lemma_quick_entry_lines(u, a.description);
    lemma_quick_entry_lines(u, b.description);
    lemma_quick_subs_alike(tool, a.subcommands, b.subcommands, full);
    lemma_sum_lines(
        quick_entry(u, a.description),
        quick_entry(u, b.description),
        quick_subs(tool, a.subcommands, full),
        quick_subs(tool, b.subcommands, full),
    );
}

/// Alike lists of subcommands give quick-reference lines with equal line
/// counts.
pub proof fn lemma_quick_subs_alike(
    tool: Seq<char>,
    a: Seq<CommandV>,
    b: Seq<CommandV>,
    full: Seq<char>,
)
    requires
        command_lists_alike(a, b),
    ensures
        newlines(quick_subs(tool, a, full)) == newlines(quick_subs(tool, b, full)),
    decreases a,
{
    if a.len() > 0 {
        let n = a.len() - 1;
        lemma_quick_subs_alike(tool, a.subrange(0, n), b.subrange(0, n), full);
        lemma_quick_alike(tool, a[n], b[n], full);
        lemma_sum_lines(
            quick_subs(tool, a.subrange(0, n), full),
            quick_subs(tool, b.subrange(0, n), full),
            quick_command(tool, a[n], full),
            quick_command(tool, b[n], full),
        );
    }
}

/// Table rows that differ only in their last cell, which holds no line
/// feed in either, have equal line counts.
pub proof fn lemma_row_alike(
    pre: Seq<char>,
    d1: Seq<char>,
    d2: Seq<char>,
    suf: Seq<char>,
)
    requires
        newlines(d1) == 0,
        newlines(d2) == 0,
    ensures
        newlines(pre + d1 + suf) == newlines(pre + d2 + suf),
{
    lemma_sum_lines(pre, pre, d1, d2);
    lemma_sum_lines(pre + d1, pre + d2, suf, suf);
}

/// The rows of alike flags have equal line counts.
pub proof fn lemma_flag_row_alike(a: FlagV, b: FlagV)
    requires
        flags_alike(a, b),
    ensures
        newlines(flag_row(a)) == newlines(flag_row(b)),
{
    lemma_safe_texts_flat(a.description, crate::security::MAX_DESCRIPTION_LENGTH as nat);
    lemma_safe_texts_flat(b.description, crate::security::MAX_DESCRIPTION_LENGTH as nat);
    let pre = "| `"@ + escape_md(crate::generator::flag_name_text(a)) + "` | "@ + type_label(
        a.value_type,
    ) + " | "@ + escape_md(crate::generator::default_text(a)) + " | "@;
    assert(crate::generator::flag_name_text(a) == crate::generator::flag_name_text(b));
    assert(crate::generator::default_text(a) == crate::generator::default_text(b));
    lemma_row_alike(
        pre,
        safe_desc(a.description, crate::security::MAX_DESCRIPTION_LENGTH as nat),
        safe_desc(b.description, crate::security::MAX_DESCRIPTION_LENGTH as nat),
        " |\n"@,
    );
}

/// The rows of alike arguments have equal line counts.
pub proof fn lemma_arg_row_alike(a: ArgV, b: ArgV)
    requires
        args_alike(a, b),
    ensures
        newlines(arg_row(a)) == newlines(arg_row(b)),
{
    lemma_safe_texts_flat(a.description, crate::security::MAX_DESCRIPTION_LENGTH as nat);
    lemma_safe_texts_flat(b.description, crate::security::MAX_DESCRIPTION_LENGTH as nat);
    let pre = "| `"@ + escape_md(a.name) + "` | "@ + type_label(a.value_type) + " | "@ + (if a.required {
        "yes"@
    } else {
        "no"@
    }) + " | "@;
    lemma_row_alike(
        pre,
        safe_desc(a.description, crate::security::MAX_DESCRIPTION_LENGTH as nat),
        safe_desc(b.description, crate::security::MAX_DESCRIPTION_LENGTH as nat),
        " |\n"@,
    );
}

/// Description paragraphs of the same emptiness have equal line counts.
pub proof fn lemma_description_block_alike(a: Seq<char>, b: Seq<char>)
    requires
        same_emptiness(a, b),
    ensures
        newlines(description_block(a)) == newlines(description_block(b)),
{
    if a.len() > 0 {
        lemma_safe_texts_flat(a, crate::security::MAX_DESCRIPTION_LENGTH as nat);
        lemma_safe_texts_flat(b, crate::security::MAX_DESCRIPTION_LENGTH as nat);
        lemma_sum_lines(
            safe_desc(a, crate::security::MAX_DESCRIPTION_LENGTH as nat),
            safe_desc(b, crate::security::MAX_DESCRIPTION_LENGTH as nat),
            "\n\n"@,
            "\n\n"@,
        );
    }
}

/// Alike flag lists give option tables with equal line counts.
pub proof fn lemma_flags_block_alike(a: Seq<FlagV>, b: Seq<FlagV>)
    requires
        flag_lists_alike(a, b),
    ensures
        newlines(flags_block(a)) == newlines(flags_block(b)),
        newlines(concat(a.map_values(|f: FlagV| flag_row(f)))) == newlines(
            concat(b.map_values(|f: FlagV| flag_row(f))),
        ),
{
    let ra = a.map_values(|f: FlagV| flag_row(f));
    let rb = b.map_values(|f: FlagV| flag_row(f));
    assert forall|i: int| 0 <= i < ra.len() implies newlines(#[trigger] ra[i]) == newlines(rb[i]) by {
        lemma_flag_row_alike(a[i], b[i]);
    }
    lemma_concat_lines(ra, rb);
    if a.len() > 0 {
        lemma_sum_lines(crate::generator::OPTIONS_HEAD@, crate::generator::OPTIONS_HEAD@, concat(ra), concat(rb));
        lemma_sum_lines(
            crate::generator::OPTIONS_HEAD@ + concat(ra),
            crate::generator::OPTIONS_HEAD@ + concat(rb),
            "\n"@,
            "\n"@,
        );
    }
}

/// Alike argument lists give argument tables with equal line counts.
pub proof fn lemma_args_block_alike(a: Seq<ArgV>, b: Seq<ArgV>)
    requires
        arg_lists_alike(a, b),
    ensures
        newlines(args_block(a)) == newlines(args_block(b)),
{
    let ra = a.map_values(|x: ArgV| arg_row(x));
    let rb = b.map_values(|x: ArgV| arg_row(x));
    assert forall|i: int| 0 <= i < ra.len() implies newlines(#[trigger] ra[i]) == newlines(rb[i]) by {
        lemma_arg_row_alike(a[i], b[i]);
    }
    lemma_concat_lines(ra, rb);
    if a.len() > 0 {
        lemma_sum_lines(crate::generator::ARGS_HEAD@, crate::generator::ARGS_HEAD@, concat(ra), concat(rb));
        lemma_sum_lines(
            crate::generator::ARGS_HEAD@ + concat(ra),
            crate::generator::ARGS_HEAD@ + concat(rb),
            "\n"@,
            "\n"@,
        );
    }
}

/// Alike commands give sections with equal line counts.
pub proof fn lemma_detail_alike(tool: Seq<char>, a: CommandV, b: CommandV, level: nat)
    requires
        commands_alike(a, b),
    ensures
        newlines(command_detail(tool, a, level)) == newlines(command_detail(tool, b, level)),
    decreases a,
{
    let head = hashes(level) + " `"@ + tool + " "@ + a.name + "`\n\n"@;
    lemma_description_block_alike(a.description, b.description);
    lemma_args_block_alike(a.args, b.args);
    lemma_flags_block_alike(a.flags, b.flags);
    lemma_detail_subs_alike(tool + " "@ + a.name, a.subcommands, b.subcommands, level + 1);
    lemma_sum_lines(head, head, description_block(a.description), description_block(b.description));
    let x1 = head + description_block(a.description);
    let x2 = head + description_block(b.description);
    lemma_sum_lines(x1, x2, args_block(a.args), args_block(b.args));
    lemma_sum_lines(x1 + args_block(a.args), x2 + args_block(b.args), flags_block(a.flags), flags_block(b.flags));
    lemma_sum_lines(
        x1 + args_block(a.args) + flags_block(a.flags),
        x2 + args_block(b.args) + flags_block(b.flags),
        detail_subs(tool + " "@ + a.name, a.subcommands, level + 1),
        detail_subs(tool + " "@ + a.name, b.subcommands, level + 1),
    );
}

/// Alike lists of subcommands give sections with equal line counts.
pub proof fn lemma_detail_subs_alike(
    tool: Seq<char>,
    a: Seq<CommandV>,
    b: Seq<CommandV>,
    level: nat,
)
    requires
        command_lists_alike(a, b),
    ensures
        newlines(detail_subs(tool, a, level)) == newlines(detail_subs(tool, b, level)),
    decreases a,
{
    if a.len() > 0 {
        let n = a.len() - 1;
        lemma_detail_subs_alike(tool, a.subrange(0, n), b.subrange(0, n), level);
        lemma_detail_alike(tool, a[n], b[n], level);
        lemma_sum_lines(
            detail_subs(tool, a.subrange(0, n), level),
            detail_subs(tool, b.subrange(0, n), level),
            command_detail(tool, a[n], level),
            command_detail(tool, b[n], level),
        );
    }
}

/// Alike tools give quick references with equal line counts.
pub proof fn lemma_quick_reference_alike(a: ToolV, b: ToolV)
    requires
        tools_alike(a, b),
    ensures
        newlines(quick_reference(a)) == newlines(quick_reference(b)),
{
    lemma_lists_pointwise(a.commands, b.commands);
    if a.groups.len() == 0 {
        let pa = a.commands.map_values(|c: CommandV| quick_command(a.name, c, ""@));
        let pb = b.commands.map_values(|c: CommandV| quick_command(b.name, c, ""@));
        assert forall|i: int| 0 <= i < pa.len() implies newlines(#[trigger] pa[i]) == newlines(
            pb[i],
        ) by {
            lemma_quick_alike(a.name, a.commands[i], b.commands[i], ""@);
        }
        lemma_concat_lines(pa, pb);
    } else {
        let pa = a.groups.map_values(|g: GroupV| group_block(a, g));
        let pb = b.groups.map_values(|g: GroupV| group_block(b, g));
        assert forall|i: int| 0 <= i < pa.len() implies newlines(#[trigger] pa[i]) == newlines(
            pb[i],
        ) by {
            let g = a.groups[i];
            let qa = g.commands.map_values(|n: Seq<char>| named_quick(a, n));
            let qb = g.commands.map_values(|n: Seq<char>| named_quick(b, n));
            assert forall|j: int| 0 <= j < qa.len() implies newlines(#[trigger] qa[j]) == newlines(
                qb[j],
            ) by {
                lemma_find_alike(a.commands, b.commands, g.commands[j]);
                match (find_named(a.commands, g.commands[j]), find_named(b.commands, g.commands[j])) {
                    (Some(x), Some(y)) => {
                        lemma_quick_alike(a.name, x, y, ""@);
                    },
                    _ => {},
                }
            }
            lemma_concat_lines(qa, qb);
            let h = "# "@ + g.name + "\n"@;
            lemma_sum_lines(h, h, concat(qa), concat(qb));
            lemma_sum_lines(h + concat(qa), h + concat(qb), "\n"@, "\n"@);
        }
        lemma_concat_lines(pa, pb);
    }
    let ga = a.global_flags.map_values(|f: FlagV| global_line(a.name, f));
    let gb = b.global_flags.map_values(|f: FlagV| global_line(b.name, f));
    assert forall|i: int| 0 <= i < ga.len() implies newlines(#[trigger] ga[i]) == newlines(gb[i])
        by {
        let fa = a.global_flags[i];
        let fb = b.global_flags[i];
        assert(flags_alike(fa, fb));
        assert(flag_usage_text(fa) == flag_usage_text(fb));
        lemma_safe_texts_flat(fa.description, 50);
        lemma_safe_texts_flat(fb.description, 50);
        let u = flag_usage_text(fa);
        let pre = a.name + " "@ + u + spaces(
            crate::generator::pad_to_45(
                crate::security::byte_len(a.name) + crate::security::byte_len(u) + 2,
            ),
        ) + "# "@;
        lemma_row_alike(pre, safe_desc(fa.description, 50), safe_desc(fb.description, 50), "\n"@);
    }
    lemma_concat_lines(ga, gb);
    if a.global_flags.len() > 0 {
        lemma_sum_lines("# Global options\n"@, "# Global options\n"@, concat(ga), concat(gb));
    }
    let q = crate::generator::QUICK_HEAD@;
    lemma_sum_lines(q, q, quick_commands(a), quick_commands(b));
    lemma_sum_lines(q + quick_commands(a), q + quick_commands(b), quick_globals(a), quick_globals(b));
    lemma_sum_lines(
        q + quick_commands(a) + quick_globals(a),
        q + quick_commands(b) + quick_globals(b),
        "```\n\n"@,
        "```\n\n"@,
    );
}

/// No description text, of the tool or of any command, subcommand, flag or
/// argument, can add or remove a line of the guide: tools that differ only
/// in such text, each description empty in one exactly when it is empty in
/// the other, give guides with the same number of lines.
pub proof fn lemma_descriptions_keep_line_count(a: ToolV, b: ToolV)
    requires
        tools_alike(a, b),
    ensures
        newlines(guide(a)) == newlines(guide(b)),
{
    let t = "# "@ + escape_md(a.name) + " for AI Agents\n\n"@;
    lemma_description_block_alike(a.description, b.description);
    lemma_sum_lines(t, t, description_block(a.description), description_block(b.description));
    lemma_quick_reference_alike(a, b);
    lemma_sum_lines(header(a), header(b), quick_reference(a), quick_reference(b));
    lemma_lists_pointwise(a.commands, b.commands);
    let da = a.commands.map_values(|c: CommandV| command_detail(a.name, c, 3));
    let db = b.commands.map_values(|c: CommandV| command_detail(b.name, c, 3));
    assert forall|i: int| 0 <= i < da.len() implies newlines(#[trigger] da[i]) == newlines(db[i])
        by {
        lemma_detail_alike(a.name, a.commands[i], b.commands[i], 3);
    }
    lemma_concat_lines(da, db);
    if a.commands.len() > 0 {
        let h = "## Command Reference\n\n"@;
        lemma_sum_lines(h, h, concat(da), concat(db));
    }
    let x1 = header(a) + quick_reference(a);
    let x2 = header(b) + quick_reference(b);
    lemma_sum_lines(x1, x2, command_reference(a), command_reference(b));
    lemma_flags_block_alike(a.global_flags, b.global_flags);
    if a.global_flags.len() > 0 {
        let ra = a.global_flags.map_values(|f: FlagV| flag_row(f));
        let rb = b.global_flags.map_values(|f: FlagV| flag_row(f));
        let g = crate::generator::GLOBAL_HEAD@;
        lemma_sum_lines(g, g, concat(ra), concat(rb));
        lemma_sum_lines(g + concat(ra), g + concat(rb), "\n"@, "\n"@);
    }
    lemma_sum_lines(
        x1 + command_reference(a),
        x2 + command_reference(b),
        global_options(a),
        global_options(b),
    );
    lemma_sum_lines(
        x1 + command_reference(a) + global_options(a),
        x2 + command_reference(b) + global_options(b),
        footer(a),
        footer(b),
    );
}

} // verus!
