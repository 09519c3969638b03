//! The parser for help output of Python's `click`.
use vstd::prelude::*;

use crate::common::{
    args_v, bare_command, capture_trimmed, command_names, ends_section, entry_names,
    first_group_trimmed, flags_v, groups_v, is_help, join_path, lemma_nests_from_children,
    lemma_nests_leaf, long_is, nests_within, opt_arg_v, opt_flag_v, sub_path, trimmed_capture,
    trimmed_group, EntryV,
};
use crate::ir::{
    strs_v, Arg, ArgV, Command, CommandGroup, Flag, FlagV, Framework, GroupV, ToolSpec, TypeV,
    ValueType,
};
use crate::parser::{CliError, Parser};
use crate::pattern::{captures, captures_all, get_group, group, regex_captures, regex_captures_all};
use crate::security::MAX_SUBCOMMAND_DEPTH;
use crate::text::{
    chars_to_string, contains, ends_ch, eq_str, first_is, has_infix, join, join_chars, last_is,
    lines, owned, space_join, split_lines, starts_ch, starts_with, str_chars, str_eq, trim,
    trim_chars, views,
};

verus! {

/// A command entry: a name, two spaces or more, a description.
pub const RE_COMMAND_ENTRY: &'static str = r"^\s*(\S+)\s{2,}(.+)$";

/// A flag entry: `-s, --long TYPE  Description`, with one of click's types.
pub const RE_CLICK_FLAG: &'static str = r"^\s*(?:(-\w)\s*,\s*)?(?:(--[\w-]+))(?:\s+(TEXT|INTEGER|INT|FLOAT|BOOL|PATH|FILENAME|UUID|CHOICE|FILE|DIRECTORY)\b)?\s{2,}(.+)$";

/// A `[default: ...]` note.
pub const RE_DEFAULT: &'static str = r"\[default:\s*([^\]]+)\]";

/// An `[env: ...]` or `[envvar: ...]` note.
pub const RE_ENV_VAR: &'static str = r"\[env(?:var)?:\s*([^\]]+)\]";

/// An argument on the usage line: an upper-case name, maybe in brackets.
pub const RE_CLICK_ARG: &'static str = r"\[?([A-Z][A-Z_]*)\]?";

/// The parser for `click` help output.
pub struct ClickParser;

// ---------------------------------------------------------------- detection

/// Help output that looks like `click`'s.
pub open spec fn click_detects(h: Seq<char>) -> bool {
    has_infix(h, "Show this message and exit."@) && has_infix(h, "Options:"@) && has_infix(
        h,
        "Usage:"@,
    )
}

/// Whether the help output looks like `click`'s.
pub fn click_detect(help_output: &str) -> (r: bool)
    ensures
        r == click_detects(help_output@),
{
    let h = str_chars(help_output);
    contains(&h, "Show this message and exit.") && contains(&h, "Options:") && contains(
        &h,
        "Usage:",
    )
}

// -------------------------------------------------------------- description

/// The description lines from line `i` on, `past_usage` telling whether a
/// `Usage:` line has been seen.
pub open spec fn click_desc_from(ls: Seq<Seq<char>>, i: int, past_usage: bool) -> Seq<Seq<char>>
    decreases ls.len() - i,
{
    if i < 0 || i >= ls.len() {
        seq![]
    } else {
        let t = trim(ls[i]);
        if "Usage:"@.is_prefix_of(t) {
            click_desc_from(ls, i + 1, true)
        } else if !past_usage {
            click_desc_from(ls, i + 1, past_usage)
        } else if "Options:"@.is_prefix_of(t) || "Commands:"@.is_prefix_of(t) {
            seq![]
        } else if t.len() > 0 {
            seq![t] + click_desc_from(ls, i + 1, past_usage)
        } else {
            click_desc_from(ls, i + 1, past_usage)
        }
    }
}

/// The description: the lines after `Usage:` up to `Options:` or
/// `Commands:`, trimmed and joined by spaces.
pub open spec fn click_description(h: Seq<char>) -> Seq<char> {
    join(click_desc_from(lines(h), 0, false), " "@)
}

/// The description that follows the usage line.
pub fn parse_description(help_output: &str) -> (r: std::string::String)
    ensures
        r@ == click_description(help_output@),
{
    let h = str_chars(help_output);
    let ls = split_lines(&h);
    let ghost vs = views(ls@);
    let mut parts: Vec<Vec<char>> = Vec::new();
    let mut past_usage = false;
    let mut i: usize = 0;
    while i < ls.len()
        invariant
            vs == views(ls@),
            vs == lines(help_output@),
            i <= ls@.len(),
            views(parts@) + click_desc_from(vs, i as int, past_usage) == click_desc_from(
                vs,
                0,
                false,
            ),
        ensures
            views(parts@) == click_desc_from(vs, 0, false),
        decreases ls@.len() - i,
    {
        let line = &ls[i];
        assert(vs[i as int] == line@);
        let t = trim_chars(line);
        if starts_with(&t, "Usage:") {
            past_usage = true;
        } else if !past_usage {
        } else if starts_with(&t, "Options:") || starts_with(&t, "Commands:") {
            assert(views(parts@) + seq![] =~= views(parts@));
            break;
        } else if t.len() > 0 {
            let ghost before = views(parts@);
            parts.push(t);
            assert(views(parts@) =~= before.push(trim(vs[i as int])));
            assert(before + click_desc_from(vs, i as int, past_usage) =~= views(parts@)
                + click_desc_from(vs, i + 1, past_usage));
        }
        i += 1;
        if i >= ls.len() {
            assert(views(parts@) + click_desc_from(vs, i as int, past_usage) =~= views(parts@));
        }
    }
    let joined = join_chars(&parts, " ");
    chars_to_string(&joined)
}

// -------------------------------------------------------------- value types

/// The value type one of click's type names stands for.
pub open spec fn click_value_type(hint: Seq<char>) -> TypeV {
    if hint == "TEXT"@ {
        TypeV::Text
    } else if hint == "INTEGER"@ || hint == "INT"@ {
        TypeV::Integer
    } else if hint == "FLOAT"@ {
        TypeV::Real
    } else if hint == "BOOL"@ {
        TypeV::Boolean
    } else if hint == "PATH"@ || hint == "FILENAME"@ || hint == "FILE"@ || hint == "DIRECTORY"@ {
        TypeV::FilePath
    } else {
        TypeV::Text
    }
}

/// The value type one of click's type names stands for.
pub fn infer_click_type(hint: &str) -> (r: ValueType)
    ensures
        r@ == click_value_type(hint@),
{
    let u = str_chars(hint);
    if eq_str(&u, "TEXT") {
        ValueType::String
    } else if eq_str(&u, "INTEGER") || eq_str(&u, "INT") {
        ValueType::Int
    } else if eq_str(&u, "FLOAT") {
        ValueType::Float
    } else if eq_str(&u, "BOOL") {
        ValueType::Bool
    } else if eq_str(&u, "PATH") || eq_str(&u, "FILENAME") || eq_str(&u, "FILE") || eq_str(
        &u,
        "DIRECTORY",
    ) {
        ValueType::Path
    } else {
        ValueType::String
    }
}

// -------------------------------------------------------------------- flags

/// The flag that a match of `RE_CLICK_FLAG` describes: groups 1 to 4 are the
/// short name, the long name, the type and the description; `[required]` in
/// the description makes it required.
pub open spec fn click_flag_from(caps: Seq<Option<Seq<char>>>) -> Option<FlagV> {
    match trimmed_group(caps, 4) {
        None => None,
        Some(description) => Some(
            FlagV {
                short: group(caps, 1),
                long: group(caps, 2),
                description,
                value_type: match group(caps, 3) {
                    Some(h) => click_value_type(h),
                    None => TypeV::Boolean,
                },
                required: has_infix(description, "[required]"@),
                default: first_group_trimmed(RE_DEFAULT@, description),
                env_var: first_group_trimmed(RE_ENV_VAR@, description),
            },
        ),
    }
}

/// The flag that a line describes, if it is a flag entry.
pub open spec fn click_flag(line: Seq<char>) -> Option<FlagV> {
    match regex_captures(RE_CLICK_FLAG@, line) {
        Some(c) => click_flag_from(c),
        None => None,
    }
}

/// The flag that a match of `RE_CLICK_FLAG` describes.
pub fn flag_from_captures(caps: &Vec<Option<std::string::String>>) -> (r: Option<Flag>)
    ensures
        opt_flag_v(r) == click_flag_from(caps.deep_view()),
{
    let description = match trimmed_capture(caps, 4) {
        Some(d) => d,
        None => return None,
    };
    let value_type = match get_group(caps, 3) {
        Some(h) => infer_click_type(h.as_str()),
        None => ValueType::Bool,
    };
    let default = capture_trimmed(RE_DEFAULT, description.as_str());
    let env_var = capture_trimmed(RE_ENV_VAR, description.as_str());
    let dc = str_chars(description.as_str());
    let required = contains(&dc, "[required]");
    Some(
        Flag {
            short: get_group(caps, 1),
            long: get_group(caps, 2),
            description,
            value_type,
            required,
            default,
            env_var,
        },
    )
}

/// The flag that a line describes, if it is a flag entry.
pub fn parse_click_flag(line: &str) -> (r: Option<Flag>)
    ensures
        opt_flag_v(r) == click_flag(line@),
{
    match captures(RE_CLICK_FLAG, line) {
        Some(c) => flag_from_captures(&c),
        None => None,
    }
}

/// The flags of the `Options:` section from line `i` on; `--help` left out.
pub open spec fn click_options_from(ls: Seq<Seq<char>>, i: int, inside: bool) -> Seq<FlagV>
    decreases ls.len() - i,
{
    if i < 0 || i >= ls.len() {
        seq![]
    } else {
        let t = trim(ls[i]);
        if t == "Options:"@ {
            click_options_from(ls, i + 1, true)
        } else if inside && ends_section(ls[i]) {
            seq![]
        } else if !inside || t.len() == 0 {
            click_options_from(ls, i + 1, inside)
        } else {
            match click_flag(t) {
                Some(f) => if is_help(f) {
                    click_options_from(ls, i + 1, inside)
                } else {
                    seq![f] + click_options_from(ls, i + 1, inside)
                },
                None => click_options_from(ls, i + 1, inside),
            }
        }
    }
}

/// The flags of the `Options:` section.
pub open spec fn click_options(h: Seq<char>) -> Seq<FlagV> {
    click_options_from(lines(h), 0, false)
}

/// The flags of the `Options:` section, `--help` left out.
pub fn parse_click_options(help_output: &str) -> (r: Vec<Flag>)
    ensures
        flags_v(r@) == click_options(help_output@),
        forall|k: int| 0 <= k < r@.len() ==> !is_help(#[trigger] r@[k]@),
{
    let h = str_chars(help_output);
    let ls = split_lines(&h);
    let ghost vs = views(ls@);
    let mut flags: Vec<Flag> = Vec::new();
    let mut inside = false;
    let mut i: usize = 0;
    while i < ls.len()
        invariant
            vs == views(ls@),
            vs == lines(help_output@),
            i <= ls@.len(),
            flags_v(flags@) + click_options_from(vs, i as int, inside) == click_options_from(
                vs,
                0,
                false,
            ),
            forall|k: int| 0 <= k < flags@.len() ==> !is_help(#[trigger] flags@[k]@),
        ensures
            flags_v(flags@) == click_options_from(vs, 0, false),
            forall|k: int| 0 <= k < flags@.len() ==> !is_help(#[trigger] flags@[k]@),
        decreases ls@.len() - i,
    {
        let line = &ls[i];
        assert(vs[i as int] == line@);
        let t = trim_chars(line);
        if eq_str(&t, "Options:") {
            inside = true;
        } else if inside && t.len() > 0 && !first_is(line, ' ') && !first_is(line, '\t') {
            assert(flags_v(flags@) + seq![] =~= flags_v(flags@));
            break;
        } else if !inside || t.len() == 0 {
        } else {
            let ts = chars_to_string(&t);
            match parse_click_flag(ts.as_str()) {
                Some(f) => {
                    if !long_is(&f, "--help") {
                        let ghost before = flags_v(flags@);
                        flags.push(f);
                        assert(flags_v(flags@) =~= before.push(f@));
                        assert(before + click_options_from(vs, i as int, inside) =~= flags_v(
                            flags@,
                        ) + click_options_from(vs, i + 1, inside));
                    }
                },
                None => {},
            }
        }
        i += 1;
        if i >= ls.len() {
            assert(flags_v(flags@) + click_options_from(vs, i as int, inside) =~= flags_v(
                flags@,
            ));
        }
    }
    flags
}

// ---------------------------------------------------------------- arguments

/// The first line that, trimmed, begins with `Usage:`, from line `i` on.
pub open spec fn usage_line_from(ls: Seq<Seq<char>>, i: int) -> Option<Seq<char>>
    decreases ls.len() - i,
{
    if i < 0 || i >= ls.len() {
        None
    } else if "Usage:"@.is_prefix_of(trim(ls[i])) {
        Some(trim(ls[i]))
    } else {
        usage_line_from(ls, i + 1)
    }
}

/// An upper-case name on the usage line that is not an argument.
pub open spec fn is_placeholder(n: Seq<char>) -> bool {
    n == "OPTIONS"@ || n == "COMMAND"@ || n == "ARGS"@
}

/// The argument that one match of `RE_CLICK_ARG` names: optional when in
/// brackets, variadic when the name ends in `S`.
pub open spec fn click_arg_from(caps: Seq<Option<Seq<char>>>) -> Option<ArgV> {
    match (group(caps, 1), group(caps, 0)) {
        (Some(name), Some(whole)) => if is_placeholder(name) {
            None
        } else {
            Some(
                ArgV {
                    name,
                    description: seq![],
                    value_type: TypeV::Text,
                    required: !starts_ch(whole, '['),
                    variadic: ends_ch(name, 'S'),
                },
            )
        },
        _ => None,
    }
}

/// The arguments that the matches from match `j` on name.
pub open spec fn click_args_of(ms: Seq<Seq<Option<Seq<char>>>>, j: int) -> Seq<ArgV>
    decreases ms.len() - j,
{
    if j < 0 || j >= ms.len() {
        seq![]
    } else {
        match click_arg_from(ms[j]) {
            Some(a) => seq![a] + click_args_of(ms, j + 1),
            None => click_args_of(ms, j + 1),
        }
    }
}

/// The arguments named on the first `Usage:` line, after the word `Usage:`.
pub open spec fn click_args(h: Seq<char>) -> Seq<ArgV> {
    match usage_line_from(lines(h), 0) {
        Some(t) => click_args_of(regex_captures_all(RE_CLICK_ARG@, t.skip(6)), 0),
        None => seq![],
    }
}

/// The argument that one match of `RE_CLICK_ARG` names.
pub fn arg_from_captures(caps: &Vec<Option<std::string::String>>) -> (r: Option<Arg>)
    ensures
        opt_arg_v(r) == click_arg_from(caps.deep_view()),
{
    let name = match get_group(caps, 1) {
        Some(n) => n,
        None => return None,
    };
    let whole = match get_group(caps, 0) {
        Some(w) => w,
        None => return None,
    };
    if str_eq(name.as_str(), "OPTIONS") || str_eq(name.as_str(), "COMMAND") || str_eq(
        name.as_str(),
        "ARGS",
    ) {
        return None;
    }
    let wc = str_chars(whole.as_str());
    let nc = str_chars(name.as_str());
    Some(
        Arg {
            name,
            description: std::string::String::new(),
            value_type: ValueType::String,
            required: !first_is(&wc, '['),
            variadic: last_is(&nc, 'S'),
        },
    )
}

/// The arguments named on the first `Usage:` line, after the word `Usage:`,
/// placeholders left out.
pub fn parse_click_args(help_output: &str) -> (r: Vec<Arg>)
    ensures
        args_v(r@) == click_args(help_output@),
{
    let h = str_chars(help_output);
    let ls = split_lines(&h);
    let ghost vs = views(ls@);
    let mut i: usize = 0;
    while i < ls.len()
        invariant
            vs == views(ls@),
            vs == lines(help_output@),
            i <= ls@.len(),
            usage_line_from(vs, i as int) == usage_line_from(vs, 0),
        decreases ls@.len() - i,
    {
        assert(vs[i as int] == ls@[i as int]@);
        let t = trim_chars(&ls[i]);
        if starts_with(&t, "Usage:") {
            proof {
                reveal_strlit("Usage:");
            }
            let rest = crate::text::slice_chars(&t, 6, t.len());
            assert(rest@ =~= t@.skip(6));
            let ts = chars_to_string(&rest);
            let ms = captures_all(RE_CLICK_ARG, ts.as_str());
            let ghost msv = ms.deep_view();
            let mut args: Vec<Arg> = Vec::new();
            let mut j: usize = 0;
            while j < ms.len()
                invariant
                    msv == ms.deep_view(),
                    j <= ms@.len(),
                    args_v(args@) + click_args_of(msv, j as int) == click_args_of(msv, 0),
                decreases ms@.len() - j,
            {
                assert(msv[j as int] == ms@[j as int].deep_view());
                match arg_from_captures(&ms[j]) {
                    Some(a) => {
                        let ghost before = args_v(args@);
                        args.push(a);
                        assert(args_v(args@) =~= before.push(a@));
                        assert(before + click_args_of(msv, j as int) =~= args_v(args@)
                            + click_args_of(msv, j + 1));
                    },
                    None => {},
                }
                j += 1;
            }
            assert(args_v(args@) + click_args_of(msv, j as int) =~= args_v(args@));
            return args;
        }
        i += 1;
    }
    Vec::new()
}


// ----------------------------------------------------------------- commands

/// The command entry that a match of `RE_COMMAND_ENTRY` describes.
pub open spec fn entry_from(caps: Seq<Option<Seq<char>>>) -> Option<EntryV> {
    match (group(caps, 1), trimmed_group(caps, 2)) {
        (Some(name), Some(description)) => Some(EntryV { name, description }),
        _ => None,
    }
}

/// The command entry that a line describes, if any.
pub open spec fn click_entry(line: Seq<char>) -> Option<EntryV> {
    match regex_captures(RE_COMMAND_ENTRY@, line) {
        Some(c) => entry_from(c),
        None => None,
    }
}

/// `r` is the bare command of entry `e`, or nothing where there is none.
pub open spec fn is_entry_command(r: Option<Command>, e: Option<EntryV>) -> bool {
    match (r, e) {
        (Some(c), Some(e)) => c.name@ == e.name && c.description@ == e.description
            && crate::common::is_bare(c),
        (None, None) => true,
        _ => false,
    }
}

/// The bare command that a match of `RE_COMMAND_ENTRY` describes.
pub fn command_from_captures(caps: &Vec<Option<std::string::String>>) -> (r: Option<Command>)
    ensures
        is_entry_command(r, entry_from(caps.deep_view())),
{
    let name = match get_group(caps, 1) {
        Some(n) => n,
        None => return None,
    };
    let description = match trimmed_capture(caps, 2) {
        Some(d) => d,
        None => return None,
    };
    Some(bare_command(name, description))
}

/// The bare command that a line describes, if it is a command entry.
pub fn parse_command_entry(line: &str) -> (r: Option<Command>)
    ensures
        is_entry_command(r, click_entry(line@)),
{
    match captures(RE_COMMAND_ENTRY, line) {
        Some(c) => command_from_captures(&c),
        None => None,
    }
}

/// The command entries of the `Commands:` section from line `i` on; flags
/// are not commands.
pub open spec fn click_entries_from(ls: Seq<Seq<char>>, i: int, inside: bool) -> Seq<EntryV>
    decreases ls.len() - i,
{
    if i < 0 || i >= ls.len() {
        seq![]
    } else {
        let t = trim(ls[i]);
        if t == "Commands:"@ {
            click_entries_from(ls, i + 1, true)
        } else if inside && ends_section(ls[i]) {
            seq![]
        } else if !inside || t.len() == 0 {
            click_entries_from(ls, i + 1, inside)
        } else {
            match click_entry(t) {
                Some(e) => if starts_ch(e.name, '-') {
                    click_entries_from(ls, i + 1, inside)
                } else {
                    seq![e] + click_entries_from(ls, i + 1, inside)
                },
                None => click_entries_from(ls, i + 1, inside),
            }
        }
    }
}

/// The command entries of the `Commands:` section.
pub open spec fn click_entries(h: Seq<char>) -> Seq<EntryV> {
    click_entries_from(lines(h), 0, false)
}

/// The one group `Commands` of all command names, or none.
pub open spec fn click_groups(h: Seq<char>) -> Seq<GroupV> {
    if click_entries(h).len() == 0 {
        seq![]
    } else {
        seq![GroupV { name: "Commands"@, commands: entry_names(click_entries(h)) }]
    }
}

/// `c` carries what the help output `o` of its subcommand says.
pub open spec fn click_fills(c: Command, o: Seq<char>) -> bool {
    &&& flags_v(c.flags@) == click_options(o)
    &&& args_v(c.args@) == click_args(o)
    &&& command_names(c.subcommands@) == entry_names(click_entries(o))
}

/// `c` is the command of entry `e` at `depth`, below the command at `path`
/// (empty for the tool itself): its name and description are the entry's.
/// At the depth limit it is empty. Below it, `sub_help` is called with the
/// command's path: it is empty where that call may give nothing, or carries
/// what a help output that the call may give says, each of its subcommands
/// being, in turn, the command of the matching entry of that output one
/// level deeper.
pub open spec fn click_command_ok<F: Fn(&str) -> Option<std::string::String>>(
    c: Command,
    e: EntryV,
    depth: int,
    sub_help: F,
    path: Seq<char>,
) -> bool
    decreases MAX_SUBCOMMAND_DEPTH - depth,
{
    let key = sub_path(path, e.name);
    &&& c.name@ == e.name
    &&& c.description@ == e.description
    &&& c.aliases@.len() == 0
    &&& c.examples@.len() == 0
    &&& if depth >= MAX_SUBCOMMAND_DEPTH {
        c.subcommands@.len() == 0 && c.flags@.len() == 0 && c.args@.len() == 0
    } else {
        ||| (c.subcommands@.len() == 0 && c.flags@.len() == 0 && c.args@.len() == 0 && exists|s: &str|
            s@ == key && #[trigger] sub_help.ensures((s,), None::<std::string::String>))
        ||| exists|s: &str, o: std::string::String|
            {
                &&& s@ == key
                &&& #[trigger] sub_help.ensures((s,), Some(o))
                &&& click_fills(c, o@)
                &&& c.subcommands@.len() == click_entries(o@).len()
                &&& forall|k: int|
                    0 <= k < c.subcommands@.len() ==> click_command_ok(
                        #[trigger] c.subcommands@[k],
                        click_entries(o@)[k],
                        depth + 1,
                        sub_help,
                        key,
                    )
            }
    }
    &&& nests_within(c@, MAX_SUBCOMMAND_DEPTH - depth)
}

/// The commands of a help output of the tool itself, with their
/// subcommands as `sub_help` gives them (see `parse_click_commands_under`).
pub fn parse_click_commands<F: Fn(&str) -> Option<std::string::String>>(
    help_output: &str,
    binary_name: &str,
    sub_help: &F,
    depth: usize,
) -> (r: (Vec<Command>, Vec<CommandGroup>))
    requires
        forall|s: &str| sub_help.requires((s,)),
    ensures
        groups_v(r.1@) == click_groups(help_output@),
        r.0@.len() == click_entries(help_output@).len(),
        forall|k: int|
            0 <= k < r.0@.len() ==> click_command_ok(
                #[trigger] r.0@[k],
                click_entries(help_output@)[k],
                depth as int,
                *sub_help,
                ""@,
            ),
{
    parse_click_commands_under(help_output, binary_name, "", sub_help, depth)
}

/// The commands of the `Commands:` section, in one group. Below the depth
/// limit, each command's own help, as `sub_help` gives it, fills in its
/// flags, arguments and subcommands.
/// `path` is the path below the tool of the command this help output
/// belongs to (empty for the tool itself); `sub_help` is asked for each
/// command's help by that command's own path.
pub fn parse_click_commands_under<F: Fn(&str) -> Option<std::string::String>>(
    help_output: &str,
    binary_name: &str,
    path: &str,
    sub_help: &F,
    depth: usize,
) -> (r: (Vec<Command>, Vec<CommandGroup>))
    requires
        forall|s: &str| sub_help.requires((s,)),
    ensures
        groups_v(r.1@) == click_groups(help_output@),
        r.0@.len() == click_entries(help_output@).len(),
        forall|k: int|
            0 <= k < r.0@.len() ==> click_command_ok(
                #[trigger] r.0@[k],
                click_entries(help_output@)[k],
                depth as int,
                *sub_help,
                path@,
            ),
    decreases MAX_SUBCOMMAND_DEPTH - depth,
{
    let h = str_chars(help_output);
    let ls = split_lines(&h);
    let ghost vs = views(ls@);
    let mut commands: Vec<Command> = Vec::new();
    let mut group_cmds: Vec<std::string::String> = Vec::new();
    let mut inside = false;
    let ghost mut entries: Seq<EntryV> = seq![];
    let mut i: usize = 0;
    while i < ls.len()
        invariant
            vs == views(ls@),
            vs == lines(help_output@),
            i <= ls@.len(),
            forall|s: &str| sub_help.requires((s,)),
            entries + click_entries_from(vs, i as int, inside) == click_entries_from(vs, 0, false),
            strs_v(group_cmds@) == entry_names(entries),
            commands@.len() == entries.len(),
            forall|k: int|
                0 <= k < commands@.len() ==> click_command_ok(
                    #[trigger] commands@[k],
                    entries[k],
                    depth as int,
                    *sub_help,
                    path@,
                ),
        ensures
            entries == click_entries_from(vs, 0, false),
            strs_v(group_cmds@) == entry_names(entries),
            commands@.len() == entries.len(),
            forall|k: int|
                0 <= k < commands@.len() ==> click_command_ok(
                    #[trigger] commands@[k],
                    entries[k],
                    depth as int,
                    *sub_help,
                    path@,
                ),
        decreases ls@.len() - i,
    {
        let line = &ls[i];
        assert(vs[i as int] == line@);
        let t = trim_chars(line);
        if eq_str(&t, "Commands:") {
            inside = true;
        } else if inside && t.len() > 0 && !first_is(line, ' ') && !first_is(line, '\t') {
            assert(entries + seq![] =~= entries);
            break;
        } else if !inside || t.len() == 0 {
        } else {
            let ts = chars_to_string(&t);
            match parse_command_entry(ts.as_str()) {
                Some(cmd) => {
                    let nc = str_chars(cmd.name.as_str());
                    if !first_is(&nc, '-') {
                        let ghost e = click_entry(t@)->0;
                        let ghost gbefore = strs_v(group_cmds@);
                        group_cmds.push(cmd.name.clone());
                        assert(strs_v(group_cmds@) =~= gbefore.push(e.name));
                        let mut full = cmd;
                        if depth < MAX_SUBCOMMAND_DEPTH {
                            let key = join_path(path, full.name.as_str());
                            let ks = key.as_str();
                            let reply = sub_help(ks);
                            assert(sub_help.ensures((ks,), reply));
                            match reply {
                                Some(out) => {
                                    let sub_key = space_join(binary_name, full.name.as_str());
                                    let (sub_cmds, _) = parse_click_commands_under(
                                        out.as_str(),
                                        sub_key.as_str(),
                                        key.as_str(),
                                        sub_help,
                                        depth + 1,
                                    );
                                    full.subcommands = sub_cmds;
                                    full.flags = parse_click_options(out.as_str());
                                    full.args = parse_click_args(out.as_str());
                                    assert(command_names(full.subcommands@) =~= entry_names(
                                        click_entries(out@),
                                    ));
                                    assert(click_fills(full, out@));
                                    proof {
                                        lemma_nests_from_children(
                                            full,
                                            MAX_SUBCOMMAND_DEPTH - depth,
                                        );
                                    }
                                },
                                None => {
                                    proof {
                                        lemma_nests_leaf(full, MAX_SUBCOMMAND_DEPTH - depth);
                                    }
                                },
                            }
                        } else {
                            proof {
                                lemma_nests_leaf(full, MAX_SUBCOMMAND_DEPTH - depth);
                            }
                        }
                        assert(click_command_ok(full, e, depth as int, *sub_help, path@));
                        let ghost cbefore = commands@;
                        let ghost ebefore = entries;
                        commands.push(full);
                        proof {
                            entries = entries.push(e);
                            assert(entry_names(entries) =~= entry_names(ebefore).push(e.name));
                            assert(ebefore + click_entries_from(vs, i as int, inside) =~= entries
                                + click_entries_from(vs, i + 1, inside));
                        }
                        assert forall|k: int| 0 <= k < commands@.len() implies click_command_ok(
                            #[trigger] commands@[k],
                            entries[k],
                            depth as int,
                            *sub_help,
                            path@,
                        ) by {
                            if k < commands@.len() - 1 {
                                assert(commands@[k] == cbefore[k]);
                            }
                        }
                    }
                },
                None => {},
            }
        }
        i += 1;
        if i >= ls.len() {
            assert(entries + click_entries_from(vs, i as int, inside) =~= entries);
        }
    }
    let groups: Vec<CommandGroup> = if group_cmds.len() == 0 {
        Vec::new()
    } else {
        let mut gs: Vec<CommandGroup> = Vec::new();
        gs.push(CommandGroup { name: owned("Commands"), commands: group_cmds });
        gs
    };
    assert(groups_v(groups@) =~= click_groups(help_output@));
    (commands, groups)
}

// ---------------------------------------------------------------- the parser

/// `t` is what the `click` parser makes of help output `h` for a tool named
/// `name`: no version.
pub open spec fn click_tool<F: Fn(&str) -> Option<std::string::String>>(
    t: ToolSpec,
    name: Seq<char>,
    h: Seq<char>,
    sub_help: F,
) -> bool {
    &&& t.name@ == name
    &&& t.version is None
    &&& t.description@ == click_description(h)
    &&& t.framework == Framework::Click
    &&& flags_v(t.global_flags@) == click_options(h)
    &&& groups_v(t.groups@) == click_groups(h)
    &&& t.commands@.len() == click_entries(h).len()
    &&& forall|k: int|
        0 <= k < t.commands@.len() ==> click_command_ok(
            #[trigger] t.commands@[k],
            click_entries(h)[k],
            0,
            sub_help,
            ""@,
        )
}

impl Parser for ClickParser {
    fn name(&self) -> (r: &'static str)
        ensures
            r@ == "click"@,
    {
        "click"
    }

    fn framework(&self) -> (r: Framework)
        ensures
            r == Framework::Click,
    {
        Framework::Click
    }

    fn detect(&self, help_output: &str) -> (r: bool)
        ensures
            r == click_detects(help_output@),
    {
        click_detect(help_output)
    }

    fn parse<F: Fn(&str) -> Option<std::string::String>>(
        &self,
        binary_name: &str,
        help_output: &str,
        sub_help: &F,
    ) -> (r: Result<ToolSpec, CliError>)
        ensures
            r matches Ok(t) && click_tool(t, binary_name@, help_output@, *sub_help),
    {
        let description = parse_description(help_output);
        let (commands, groups) = parse_click_commands(help_output, binary_name, sub_help, 0);
        let global_flags = parse_click_options(help_output);
        Ok(
            ToolSpec {
                name: owned(binary_name),
                version: None,
                description,
                framework: Framework::Click,
                commands,
                global_flags,
                groups,
            },
        )
    }
}

} // verus!
