//! The parser for help output of the Rust `clap` framework.
use vstd::prelude::*;

use crate::common::{
    args_v, bare_command, capture_trimmed, command_names, ends_section, entry_names,
    first_group_trimmed, flags_v, groups_v, is_help_or_version, join_path,
    lemma_nests_from_children, lemma_nests_leaf, long_is, nests_within, opt_arg_v, opt_flag_v,
    sub_path, trimmed_capture, trimmed_group, EntryV,
};
use crate::ir::{
    Arg, ArgV, Command, CommandGroup, Flag, FlagV, Framework, GroupV, ToolSpec, TypeV, ValueType,
};
use crate::pattern::{
    captures, find, get_group, group, is_match, regex_captures, regex_find, regex_is_match,
};
use crate::parser::{CliError, Parser};
use crate::security::MAX_SUBCOMMAND_DEPTH;
use crate::text::{
    chars_to_string, contains, ends_ch, eq_ignore_ascii_case, eq_ignore_case, eq_str, first_is,
    has_infix, join, join_chars, last_is, lines, owned, space_join, split_lines,
    starts_ch, starts_with, str_chars, str_eq, to_uppercase, trim, trim_chars, trim_end_char,
    trim_end_char_chars, upper, views,
};

verus! {

/// A version number on the first line.
pub const RE_VERSION: &'static str = r"\b(\d+\.\d+\.\d+(?:-\w+)?)\b";

/// A first line that carries a version number.
pub const RE_VERSION_LINE: &'static str = r"\b\d+\.\d+\.\d+";

/// A command entry: a name, two spaces or more, a description.
pub const RE_COMMAND_LINE: &'static str = r"^\s*(\S+)\s{2,}(.+)$";

/// A flag entry: `-s, --long <VALUE>  Description`.
pub const RE_FLAG: &'static str = r"^\s*(?:(-\w)\s*,\s*)?(?:(--[\w-]+))?(?:\s+<(\w+)>)?\s{2,}(.+)$";

/// A `[default: ...]` note.
pub const RE_DEFAULT: &'static str = r"\[default:\s*([^\]]+)\]";

/// An `[env: ...]` note.
pub const RE_ENV: &'static str = r"\[env:\s*([^\]]+)\]";

/// An argument entry: `<NAME>  Description` or `[NAME]  Description`.
pub const RE_ARG_LINE: &'static str = r"^\s*[<\[](\w+)[>\]]\s{2,}(.+)$";

/// The parser for `clap` help output.
pub struct ClapParser;

// ---------------------------------------------------------------- detection

/// Help output that looks like `clap`'s.
pub open spec fn clap_detects(h: Seq<char>) -> bool {
    let has_commands = has_infix(h, "Commands:"@) || has_infix(h, "Subcommands:"@);
    &&& has_infix(h, "Usage:"@)
    &&& has_infix(h, "Options:"@)
    &&& has_infix(h, "-h, --help"@)
    &&& (has_commands || !has_infix(h, "Available Commands:"@))
}

/// Whether the help output looks like `clap`'s.
pub fn clap_detect(help_output: &str) -> (r: bool)
    ensures
        r == clap_detects(help_output@),
{
    let h = str_chars(help_output);
    let has_usage = contains(&h, "Usage:");
    let has_commands = contains(&h, "Commands:") || contains(&h, "Subcommands:");
    let has_options = contains(&h, "Options:");
    let has_help_flag = contains(&h, "-h, --help");
    has_usage && has_options && has_help_flag && (has_commands || !contains(
        &h,
        "Available Commands:",
    ))
}

// ------------------------------------------------------------------ version

/// The first line of a text, empty for an empty text.
pub open spec fn first_line(h: Seq<char>) -> Seq<char> {
    if lines(h).len() > 0 {
        lines(h)[0]
    } else {
        seq![]
    }
}

/// The version: the first match of `RE_VERSION` on the first line.
pub open spec fn clap_version(h: Seq<char>) -> Option<Seq<char>> {
    regex_find(RE_VERSION@, first_line(h))
}

/// The version number on the first line of the help output.
pub fn parse_version(help_output: &str) -> (r: Option<std::string::String>)
    ensures
        r.deep_view() == clap_version(help_output@),
{
    let h = str_chars(help_output);
    let ls = split_lines(&h);
    let first = if ls.len() > 0 {
        chars_to_string(&ls[0])
    } else {
        std::string::String::new()
    };
    proof {
        if ls@.len() > 0 {
            assert(views(ls@)[0] == ls@[0]@);
        }
    }
    find(RE_VERSION, first.as_str())
}

// -------------------------------------------------------------- description

/// The trimmed non-empty lines from line `i` on, up to a `Usage:` line.
pub open spec fn clap_desc_from(ls: Seq<Seq<char>>, i: int) -> Seq<Seq<char>>
    decreases ls.len() - i,
{
    if i < 0 || i >= ls.len() {
        seq![]
    } else if "Usage:"@.is_prefix_of(ls[i]) || "usage:"@.is_prefix_of(ls[i]) {
        seq![]
    } else if trim(ls[i]).len() > 0 {
        seq![trim(ls[i])] + clap_desc_from(ls, i + 1)
    } else {
        clap_desc_from(ls, i + 1)
    }
}

/// The description: the lines before `Usage:`, trimmed and joined by
/// spaces, without a first line that carries a version.
pub open spec fn clap_description(h: Seq<char>) -> Seq<char> {
    let ls = lines(h);
    let start = if ls.len() > 0 && regex_is_match(RE_VERSION_LINE@, ls[0]) {
        1int
    } else {
        0int
    };
    join(clap_desc_from(ls, start), " "@)
}

/// The description at the top of the help output.
pub fn parse_description(help_output: &str) -> (r: std::string::String)
    ensures
        r@ == clap_description(help_output@),
{
    let h = str_chars(help_output);
    let ls = split_lines(&h);
    let ghost vs = views(ls@);
    let mut start: usize = 0;
    if ls.len() > 0 {
        let first = chars_to_string(&ls[0]);
        assert(vs[0] == ls@[0]@);
        if is_match(RE_VERSION_LINE, first.as_str()) {
            start = 1;
        }
    }
    let mut parts: Vec<Vec<char>> = Vec::new();
    let mut i = start;
    while i < ls.len()
        invariant
            vs == views(ls@),
            start <= i <= ls@.len(),
            views(parts@) + clap_desc_from(vs, i as int) == clap_desc_from(vs, start as int),
        ensures
            views(parts@) == clap_desc_from(vs, start as int),
        decreases ls@.len() - i,
    {
        let line = &ls[i];
        assert(vs[i as int] == line@);
        if starts_with(line, "Usage:") || starts_with(line, "usage:") {
            assert(views(parts@) + seq![] =~= views(parts@));
            break;
        }
        let t = trim_chars(line);
        if t.len() > 0 {
            let ghost before = views(parts@);
            parts.push(t);
            assert(views(parts@) =~= before.push(trim(vs[i as int])));
            assert(before + clap_desc_from(vs, i as int) =~= views(parts@) + clap_desc_from(
                vs,
                i + 1,
            ));
        }
        i += 1;
        if i >= ls.len() {
            assert(views(parts@) + clap_desc_from(vs, i as int) =~= views(parts@));
        }
    }
    let joined = join_chars(&parts, " ");
    chars_to_string(&joined)
}


// -------------------------------------------------------------- value types

/// The value type a `<VALUE>` hint names, for a name already in uppercase.
pub open spec fn clap_type_of_upper(u: Seq<char>) -> TypeV {
    if u == "PATH"@ || u == "FILE"@ || u == "DIR"@ || u == "DIRECTORY"@ {
        TypeV::FilePath
    } else if u == "NUM"@ || u == "NUMBER"@ || u == "COUNT"@ || u == "N"@ || u == "INT"@ || u
        == "INTEGER"@ {
        TypeV::Integer
    } else if u == "FLOAT"@ || u == "DECIMAL"@ {
        TypeV::Real
    } else if u == "BOOL"@ || u == "BOOLEAN"@ {
        TypeV::Boolean
    } else {
        TypeV::Text
    }
}

/// The value type a `<VALUE>` hint names, read in uppercase.
pub open spec fn clap_value_type(hint: Seq<char>) -> TypeV {
    clap_type_of_upper(upper(hint))
}

/// The value type a `<VALUE>` hint names.
pub fn infer_value_type(hint: &str) -> (r: ValueType)
    ensures
        r@ == clap_value_type(hint@),
{
    let us = to_uppercase(hint);
    value_type_from_upper(us.as_str())
}

/// The value type a `<VALUE>` hint names, given in uppercase.
pub fn value_type_from_upper(upper_name: &str) -> (r: ValueType)
    ensures
        r@ == clap_type_of_upper(upper_name@),
{
    let u = str_chars(upper_name);
    if eq_str(&u, "PATH") || eq_str(&u, "FILE") || eq_str(&u, "DIR") || eq_str(&u, "DIRECTORY") {
        ValueType::Path
    } else if eq_str(&u, "NUM") || eq_str(&u, "NUMBER") || eq_str(&u, "COUNT") || eq_str(&u, "N")
        || eq_str(&u, "INT") || eq_str(&u, "INTEGER") {
        ValueType::Int
    } else if eq_str(&u, "FLOAT") || eq_str(&u, "DECIMAL") {
        ValueType::Float
    } else if eq_str(&u, "BOOL") || eq_str(&u, "BOOLEAN") {
        ValueType::Bool
    } else {
        ValueType::String
    }
}

// -------------------------------------------------------------------- flags

/// The flag that a match of `RE_FLAG` describes: groups 1 to 4 are the short
/// name, the long name, the value hint and the description; there is no
/// flag without a name.
pub open spec fn clap_flag_from(caps: Seq<Option<Seq<char>>>) -> Option<FlagV> {
    match trimmed_group(caps, 4) {
        None => None,
        Some(description) => {
            let short = group(caps, 1);
            let long = group(caps, 2);
            let hint = group(caps, 3);
            if short is None && long is None {
                None
            } else {
                Some(
                    FlagV {
                        short,
                        long,
                        description,
                        value_type: match hint {
                            Some(h) => clap_value_type(h),
                            None => TypeV::Boolean,
                        },
                        required: hint is Some,
                        default: first_group_trimmed(RE_DEFAULT@, description),
                        env_var: first_group_trimmed(RE_ENV@, description),
                    },
                )
            }
        },
    }
}

/// The flag that a line describes, if it is a flag entry.
pub open spec fn clap_flag(line: Seq<char>) -> Option<FlagV> {
    match regex_captures(RE_FLAG@, line) {
        Some(c) => clap_flag_from(c),
        None => None,
    }
}

/// The flag that a match of `RE_FLAG` describes.
pub fn flag_from_captures(caps: &Vec<Option<std::string::String>>) -> (r: Option<Flag>)
    ensures
        opt_flag_v(r) == clap_flag_from(caps.deep_view()),
{
    let description = match trimmed_capture(caps, 4) {
        Some(d) => d,
        None => return None,
    };
    let short = get_group(caps, 1);
    let long = get_group(caps, 2);
    let hint = get_group(caps, 3);
    if short.is_none() && long.is_none() {
        return None;
    }
    let (value_type, required) = match &hint {
        Some(h) => (infer_value_type(h.as_str()), true),
        None => (ValueType::Bool, false),
    };
    let default = capture_trimmed(RE_DEFAULT, description.as_str());
    let env_var = capture_trimmed(RE_ENV, description.as_str());
    Some(Flag { short, long, description, value_type, required, default, env_var })
}

/// The flag that a line describes, if it is a flag entry.
pub fn parse_flag_line(line: &str) -> (r: Option<Flag>)
    ensures
        opt_flag_v(r) == clap_flag(line@),
{
    match captures(RE_FLAG, line) {
        Some(c) => flag_from_captures(&c),
        None => None,
    }
}

/// A section header line: `Options:` or `options:`.
pub open spec fn is_options_header(t: Seq<char>) -> bool {
    t == "Options:"@ || t == "options:"@
}

/// The flags of the `Options:` section from line `i` on, with `in_options`
/// telling whether that section has begun; `--help` and `--version` left out.
pub open spec fn clap_options_from(ls: Seq<Seq<char>>, i: int, in_options: bool) -> Seq<FlagV>
    decreases ls.len() - i,
{
    if i < 0 || i >= ls.len() {
        seq![]
    } else {
        let t = trim(ls[i]);
        if is_options_header(t) {
            clap_options_from(ls, i + 1, true)
        } else if in_options && ends_section(ls[i]) {
            seq![]
        } else if !in_options || t.len() == 0 {
            clap_options_from(ls, i + 1, in_options)
        } else {
            match clap_flag(t) {
                Some(f) => if is_help_or_version(f) {
                    clap_options_from(ls, i + 1, in_options)
                } else {
                    seq![f] + clap_options_from(ls, i + 1, in_options)
                },
                None => clap_options_from(ls, i + 1, in_options),
            }
        }
    }
}

/// The flags of the `Options:` section.
pub open spec fn clap_options(h: Seq<char>) -> Seq<FlagV> {
    clap_options_from(lines(h), 0, false)
}

/// The flags of the `Options:` section, `--help` and `--version` left out.
pub fn parse_options_section(help_output: &str) -> (r: Vec<Flag>)
    ensures
        flags_v(r@) == clap_options(help_output@),
        forall|k: int| 0 <= k < r@.len() ==> !is_help_or_version(#[trigger] r@[k]@),
{
    let h = str_chars(help_output);
    let ls = split_lines(&h);
    let ghost vs = views(ls@);
    let mut flags: Vec<Flag> = Vec::new();
    let mut in_options = false;
    let mut i: usize = 0;
    while i < ls.len()
        invariant
            vs == views(ls@),
            vs == lines(help_output@),
            i <= ls@.len(),
            flags_v(flags@) + clap_options_from(vs, i as int, in_options) == clap_options_from(
                vs,
                0,
                false,
            ),
            forall|k: int| 0 <= k < flags@.len() ==> !is_help_or_version(#[trigger] flags@[k]@),
        ensures
            flags_v(flags@) == clap_options_from(vs, 0, false),
            forall|k: int| 0 <= k < flags@.len() ==> !is_help_or_version(#[trigger] flags@[k]@),
        decreases ls@.len() - i,
    {
        let line = &ls[i];
        assert(vs[i as int] == line@);
        let t = trim_chars(line);
        if eq_str(&t, "Options:") || eq_str(&t, "options:") {
            in_options = true;
        } else if in_options && t.len() > 0 && !first_is(line, ' ') && !first_is(line, '\t') {
            assert(flags_v(flags@) + seq![] =~= flags_v(flags@));
            break;
        } else if !in_options || t.len() == 0 {
        } else {
            let ts = chars_to_string(&t);
            match parse_flag_line(ts.as_str()) {
                Some(f) => {
                    if !long_is(&f, "--help") && !long_is(&f, "--version") {
                        let ghost before = flags_v(flags@);
                        flags.push(f);
                        assert(flags_v(flags@) =~= before.push(f@));
                        assert(before + clap_options_from(vs, i as int, in_options) =~= flags_v(
                            flags@,
                        ) + clap_options_from(vs, i + 1, in_options));
                    }
                },
                None => {},
            }
        }
        i += 1;
        if i >= ls.len() {
            assert(flags_v(flags@) + clap_options_from(vs, i as int, in_options) =~= flags_v(
                flags@,
            ));
        }
    }
    flags
}

// ---------------------------------------------------------------- arguments

/// The argument that a match of `RE_ARG_LINE` on `line` describes: it is
/// required when its name stands in angle brackets, `<NAME>`, and optional
/// in square ones, `[NAME]`.
pub open spec fn clap_arg_from(caps: Seq<Option<Seq<char>>>, line: Seq<char>) -> Option<ArgV> {
    match (group(caps, 1), trimmed_group(caps, 2)) {
        (Some(name), Some(description)) => Some(
            ArgV {
                name,
                description,
                value_type: TypeV::Text,
                required: starts_ch(trim(line), '<'),
                variadic: has_infix(line, "..."@),
            },
        ),
        _ => None,
    }
}

/// The argument that a line describes, if it is an argument entry.
pub open spec fn clap_arg(line: Seq<char>) -> Option<ArgV> {
    match regex_captures(RE_ARG_LINE@, line) {
        Some(c) => clap_arg_from(c, line),
        None => None,
    }
}

/// The argument that a match of `RE_ARG_LINE` on `line` describes.
pub fn arg_from_captures(caps: &Vec<Option<std::string::String>>, line: &str) -> (r: Option<Arg>)
    ensures
        opt_arg_v(r) == clap_arg_from(caps.deep_view(), line@),
{
    let name = match get_group(caps, 1) {
        Some(n) => n,
        None => return None,
    };
    let description = match trimmed_capture(caps, 2) {
        Some(d) => d,
        None => return None,
    };
    let lc = str_chars(line);
    Some(
        Arg {
            name,
            description,
            value_type: ValueType::String,
            required: first_is(&trim_chars(&lc), '<'),
            variadic: contains(&lc, "..."),
        },
    )
}

/// The argument that a line describes, if it is an argument entry.
pub fn parse_arg_line(line: &str) -> (r: Option<Arg>)
    ensures
        opt_arg_v(r) == clap_arg(line@),
{
    match captures(RE_ARG_LINE, line) {
        Some(c) => arg_from_captures(&c, line),
        None => None,
    }
}

/// A section header line: `Arguments:` or `Args:`.
pub open spec fn is_args_header(t: Seq<char>) -> bool {
    t == "Arguments:"@ || t == "Args:"@
}

/// The arguments of the `Arguments:` section from line `i` on.
pub open spec fn clap_args_from(ls: Seq<Seq<char>>, i: int, in_args: bool) -> Seq<ArgV>
    decreases ls.len() - i,
{
    if i < 0 || i >= ls.len() {
        seq![]
    } else {
        let t = trim(ls[i]);
        if is_args_header(t) {
            clap_args_from(ls, i + 1, true)
        } else if in_args && ends_section(ls[i]) {
            seq![]
        } else if !in_args || t.len() == 0 {
            clap_args_from(ls, i + 1, in_args)
        } else {
            match clap_arg(t) {
                Some(a) => seq![a] + clap_args_from(ls, i + 1, in_args),
                None => clap_args_from(ls, i + 1, in_args),
            }
        }
    }
}

/// The arguments of the `Arguments:` section.
pub open spec fn clap_args(h: Seq<char>) -> Seq<ArgV> {
    clap_args_from(lines(h), 0, false)
}

/// The arguments of the `Arguments:` section.
pub fn parse_args_section(help_output: &str) -> (r: Vec<Arg>)
    ensures
        args_v(r@) == clap_args(help_output@),
{
    let h = str_chars(help_output);
    let ls = split_lines(&h);
    let ghost vs = views(ls@);
    let mut args: Vec<Arg> = Vec::new();
    let mut in_args = false;
    let mut i: usize = 0;
    while i < ls.len()
        invariant
            vs == views(ls@),
            vs == lines(help_output@),
            i <= ls@.len(),
            args_v(args@) + clap_args_from(vs, i as int, in_args) == clap_args_from(vs, 0, false),
        ensures
            args_v(args@) == clap_args_from(vs, 0, false),
        decreases ls@.len() - i,
    {
        let line = &ls[i];
        assert(vs[i as int] == line@);
        let t = trim_chars(line);
        if eq_str(&t, "Arguments:") || eq_str(&t, "Args:") {
            in_args = true;
        } else if in_args && t.len() > 0 && !first_is(line, ' ') && !first_is(line, '\t') {
            assert(args_v(args@) + seq![] =~= args_v(args@));
            break;
        } else if !in_args || t.len() == 0 {
        } else {
            let ts = chars_to_string(&t);
            match parse_arg_line(ts.as_str()) {
                Some(a) => {
                    let ghost before = args_v(args@);
                    args.push(a);
                    assert(args_v(args@) =~= before.push(a@));
                    assert(before + clap_args_from(vs, i as int, in_args) =~= args_v(args@)
                        + clap_args_from(vs, i + 1, in_args));
                },
                None => {},
            }
        }
        i += 1;
        if i >= ls.len() {
            assert(args_v(args@) + clap_args_from(vs, i as int, in_args) =~= args_v(args@));
        }
    }
    args
}


// ----------------------------------------------------------------- commands

/// The command entry that a match of `RE_COMMAND_LINE` describes.
pub open spec fn entry_from(caps: Seq<Option<Seq<char>>>) -> Option<EntryV> {
    match (group(caps, 1), trimmed_group(caps, 2)) {
        (Some(name), Some(description)) => Some(EntryV { name, description }),
        _ => None,
    }
}

/// The command entry that a line describes, if any.
pub open spec fn clap_entry(line: Seq<char>) -> Option<EntryV> {
    match regex_captures(RE_COMMAND_LINE@, line) {
        Some(c) => entry_from(c),
        None => None,
    }
}

/// `r` is the bare command of entry `e`, or nothing where there is none.
pub open spec fn is_entry_command(r: Option<Command>, e: Option<EntryV>) -> bool {
    match (r, e) {
        (Some(c), Some(e)) => c.name@ == e.name && c.description@ == e.description
            && crate::common::is_bare(c),
        (None, None) => true,
        _ => false,
    }
}

/// The bare command that a match of `RE_COMMAND_LINE` describes.
pub fn command_from_captures(caps: &Vec<Option<std::string::String>>) -> (r: Option<Command>)
    ensures
        is_entry_command(r, entry_from(caps.deep_view())),
{
    let name = match get_group(caps, 1) {
        Some(n) => n,
        None => return None,
    };
    let description = match trimmed_capture(caps, 2) {
        Some(d) => d,
        None => return None,
    };
    Some(bare_command(name, description))
}

/// The bare command that a line describes, if it is a command entry.
pub fn parse_command_line(line: &str) -> (r: Option<Command>)
    ensures
        is_entry_command(r, clap_entry(line@)),
{
    match captures(RE_COMMAND_LINE, line) {
        Some(c) => command_from_captures(&c),
        None => None,
    }
}

/// What the scan of a commands section has seen so far.
pub struct ClapScan {
    pub in_commands: bool,
    pub group_name: Seq<char>,
    pub group_cmds: Seq<Seq<char>>,
    pub groups: Seq<GroupV>,
    pub entries: Seq<EntryV>,
}

/// A line that heads a section: it ends with `:`.
pub open spec fn is_header(t: Seq<char>) -> bool {
    ends_ch(t, ':') && !starts_ch(t, '-') && !starts_ch(t, ' ')
}

/// A header that does not name a group of commands.
pub open spec fn is_other_header(t: Seq<char>) -> bool {
    eq_ignore_ascii_case(t, "options:"@) || eq_ignore_ascii_case(t, "usage:"@)
        || eq_ignore_ascii_case(t, "arguments:"@)
}

/// The scan with its open group of commands closed.
pub open spec fn close_group(st: ClapScan) -> ClapScan {
    if st.in_commands && st.group_cmds.len() > 0 {
        ClapScan {
            groups: st.groups.push(GroupV { name: st.group_name, commands: st.group_cmds }),
            group_cmds: seq![],
            ..st
        }
    } else {
        st
    }
}

/// One line of a commands section.
pub open spec fn clap_step(st: ClapScan, line: Seq<char>) -> ClapScan {
    let t = trim(line);
    if is_header(t) {
        let c = close_group(st);
        if t == "Commands:"@ || t == "Subcommands:"@ {
            ClapScan { in_commands: true, group_name: trim_end_char(t, ':'), ..c }
        } else if c.in_commands && !is_other_header(t) {
            ClapScan { group_name: trim_end_char(t, ':'), ..c }
        } else if c.in_commands {
            ClapScan { in_commands: false, ..c }
        } else {
            c
        }
    } else if !st.in_commands || t.len() == 0 {
        st
    } else {
        match clap_entry(t) {
            Some(e) => if e.name == "help"@ || starts_ch(e.name, '-') {
                st
            } else {
                ClapScan {
                    group_cmds: st.group_cmds.push(e.name),
                    entries: st.entries.push(e),
                    ..st
                }
            },
            None => st,
        }
    }
}

/// The scan of lines `i..` from state `st`.
pub open spec fn clap_scan(ls: Seq<Seq<char>>, i: int, st: ClapScan) -> ClapScan
    decreases ls.len() - i,
{
    if i < 0 || i >= ls.len() {
        st
    } else {
        clap_scan(ls, i + 1, clap_step(st, ls[i]))
    }
}

/// The state before the first line.
pub open spec fn clap_init() -> ClapScan {
    ClapScan {
        in_commands: false,
        group_name: "Commands"@,
        group_cmds: seq![],
        groups: seq![],
        entries: seq![],
    }
}

/// The scan of a whole help output.
pub open spec fn clap_section(h: Seq<char>) -> ClapScan {
    clap_scan(lines(h), 0, clap_init())
}

/// The command groups of a help output, the last open group closed.
pub open spec fn clap_groups(h: Seq<char>) -> Seq<GroupV> {
    let st = clap_section(h);
    if st.group_cmds.len() > 0 {
        st.groups.push(GroupV { name: st.group_name, commands: st.group_cmds })
    } else {
        st.groups
    }
}

/// The command entries of a help output, in order.
pub open spec fn clap_entries(h: Seq<char>) -> Seq<EntryV> {
    clap_section(h).entries
}

/// `c` carries what the help output `o` of its subcommand says.
pub open spec fn clap_fills(c: Command, o: Seq<char>) -> bool {
    &&& flags_v(c.flags@) == clap_options(o)
    &&& args_v(c.args@) == clap_args(o)
    &&& command_names(c.subcommands@) == entry_names(clap_entries(o))
}

/// `c` is the command of entry `e` at `depth`, below the command at `path`
/// (empty for the tool itself): its name and description are the entry's.
/// At the depth limit it is empty. Below it, `sub_help` is called with the
/// command's path: it is empty where that call may give nothing, or carries
/// what a help output that the call may give says, each of its subcommands
/// being, in turn, the command of the matching entry of that output one
/// level deeper.
pub open spec fn clap_command_ok<F: Fn(&str) -> Option<std::string::String>>(
    c: Command,
    e: EntryV,
    depth: int,
    sub_help: F,
    path: Seq<char>,
) -> bool
    decreases MAX_SUBCOMMAND_DEPTH - depth,
{
    let key = sub_path(path, e.name);
    &&& c.name@ == e.name
    &&& c.description@ == e.description
    &&& c.aliases@.len() == 0
    &&& c.examples@.len() == 0
    &&& if depth >= MAX_SUBCOMMAND_DEPTH {
        c.subcommands@.len() == 0 && c.flags@.len() == 0 && c.args@.len() == 0
    } else {
        ||| (c.subcommands@.len() == 0 && c.flags@.len() == 0 && c.args@.len() == 0 && exists|s: &str|
            s@ == key && #[trigger] sub_help.ensures((s,), None::<std::string::String>))
        ||| exists|s: &str, o: std::string::String|
            {
                &&& s@ == key
                &&& #[trigger] sub_help.ensures((s,), Some(o))
                &&& clap_fills(c, o@)
                &&& c.subcommands@.len() == clap_entries(o@).len()
                &&& forall|k: int|
                    0 <= k < c.subcommands@.len() ==> clap_command_ok(
                        #[trigger] c.subcommands@[k],
                        clap_entries(o@)[k],
                        depth + 1,
                        sub_help,
                        key,
                    )
            }
    }
    &&& nests_within(c@, MAX_SUBCOMMAND_DEPTH - depth)
}

/// The state of the exec scan, seen as a `ClapScan`.
pub open spec fn clap_state(
    in_commands: bool,
    group_name: Seq<char>,
    group_cmds: Seq<std::string::String>,
    groups: Seq<CommandGroup>,
    entries: Seq<EntryV>,
) -> ClapScan {
    ClapScan {
        in_commands,
        group_name,
        group_cmds: crate::ir::strs_v(group_cmds),
        groups: groups_v(groups),
        entries,
    }
}

/// The commands of a help output of the tool itself, with their
/// subcommands as `sub_help` gives them (see `parse_commands_section_under`).
pub fn parse_commands_section<F: Fn(&str) -> Option<std::string::String>>(
    help_output: &str,
    binary_name: &str,
    sub_help: &F,
    depth: usize,
) -> (r: (Vec<Command>, Vec<CommandGroup>))
    requires
        forall|s: &str| sub_help.requires((s,)),
    ensures
        groups_v(r.1@) == clap_groups(help_output@),
        r.0@.len() == clap_entries(help_output@).len(),
        forall|k: int|
            0 <= k < r.0@.len() ==> clap_command_ok(
                #[trigger] r.0@[k],
                clap_entries(help_output@)[k],
                depth as int,
                *sub_help,
                ""@,
            ),
{
    parse_commands_section_under(help_output, binary_name, "", sub_help, depth)
}

/// The commands of the command sections, grouped by section. Below the
/// depth limit, each command's own help, as `sub_help` gives it, fills in
/// its flags, arguments and subcommands.
/// `path` is the path below the tool of the command this help output
/// belongs to (empty for the tool itself); `sub_help` is asked for each
/// command's help by that command's own path.
pub fn parse_commands_section_under<F: Fn(&str) -> Option<std::string::String>>(
    help_output: &str,
    binary_name: &str,
    path: &str,
    sub_help: &F,
    depth: usize,
) -> (r: (Vec<Command>, Vec<CommandGroup>))
    requires
        forall|s: &str| sub_help.requires((s,)),
    ensures
        groups_v(r.1@) == clap_groups(help_output@),
        r.0@.len() == clap_entries(help_output@).len(),
        forall|k: int|
            0 <= k < r.0@.len() ==> clap_command_ok(
                #[trigger] r.0@[k],
                clap_entries(help_output@)[k],
                depth as int,
                *sub_help,
                path@,
            ),
    decreases MAX_SUBCOMMAND_DEPTH - depth,
{
    let h = str_chars(help_output);
    let ls = split_lines(&h);
    let ghost vs = views(ls@);
    let mut commands: Vec<Command> = Vec::new();
    let mut groups: Vec<CommandGroup> = Vec::new();
    let mut in_commands = false;
    let mut group_name: Vec<char> = str_chars("Commands");
    let mut group_cmds: Vec<std::string::String> = Vec::new();
    let ghost mut entries: Seq<EntryV> = seq![];
    let mut i: usize = 0;
    assert(crate::ir::strs_v(group_cmds@) =~= seq![]);
    assert(groups_v(groups@) =~= seq![]);
    assert(clap_state(in_commands, group_name@, group_cmds@, groups@, entries) == clap_init());
    while i < ls.len()
        invariant
            vs == views(ls@),
            vs == lines(help_output@),
            i <= ls@.len(),
            forall|s: &str| sub_help.requires((s,)),
            clap_scan(
                vs,
                i as int,
                clap_state(in_commands, group_name@, group_cmds@, groups@, entries),
            ) == clap_scan(vs, 0, clap_init()),
            commands@.len() == entries.len(),
            forall|k: int|
                0 <= k < commands@.len() ==> clap_command_ok(
                    #[trigger] commands@[k],
                    entries[k],
                    depth as int,
                    *sub_help,
                    path@,
                ),
        decreases ls@.len() - i,
    {
        let line = &ls[i];
        assert(vs[i as int] == line@);
        let ghost st = clap_state(in_commands, group_name@, group_cmds@, groups@, entries);
        let t = trim_chars(line);
        if last_is(&t, ':') && !first_is(&t, '-') && !first_is(&t, ' ') {
            if in_commands && group_cmds.len() > 0 {
                let ghost before = groups_v(groups@);
                let cmds = group_cmds;
                group_cmds = Vec::new();
                let g = CommandGroup { name: chars_to_string(&group_name), commands: cmds };
                groups.push(g);
                assert(groups_v(groups@) =~= before.push(g@));
                assert(crate::ir::strs_v(group_cmds@) =~= seq![]);
            }
            assert(clap_state(in_commands, group_name@, group_cmds@, groups@, entries)
                == close_group(st));
            if eq_str(&t, "Commands:") || eq_str(&t, "Subcommands:") {
                in_commands = true;
                group_name = trim_end_char_chars(&t, ':');
            } else if in_commands && !eq_ignore_case(&t, "options:") && !eq_ignore_case(
                &t,
                "usage:",
            ) && !eq_ignore_case(&t, "arguments:") {
                group_name = trim_end_char_chars(&t, ':');
            } else if in_commands {
                in_commands = false;
            }
        } else if !in_commands || t.len() == 0 {
        } else {
            let ts = chars_to_string(&t);
            match parse_command_line(ts.as_str()) {
                Some(cmd) => {
                    let nc = str_chars(cmd.name.as_str());
                    if !str_eq(cmd.name.as_str(), "help") && !first_is(&nc, '-') {
                        let ghost e = clap_entry(t@)->0;
                        let ghost gbefore = crate::ir::strs_v(group_cmds@);
                        group_cmds.push(cmd.name.clone());
                        assert(crate::ir::strs_v(group_cmds@) =~= gbefore.push(e.name));
                        let mut full = cmd;
                        if depth < MAX_SUBCOMMAND_DEPTH {
                            let key = join_path(path, full.name.as_str());
                            let ks = key.as_str();
                            let reply = sub_help(ks);
                            assert(sub_help.ensures((ks,), reply));
                            match reply {
                                Some(out) => {
                                    let sub_key = space_join(binary_name, full.name.as_str());
                                    let (sub_cmds, _) = parse_commands_section_under(
                                        out.as_str(),
                                        sub_key.as_str(),
                                        key.as_str(),
                                        sub_help,
                                        depth + 1,
                                    );
                                    full.subcommands = sub_cmds;
                                    full.flags = parse_options_section(out.as_str());
                                    full.args = parse_args_section(out.as_str());
                                    assert(command_names(full.subcommands@) =~= entry_names(
                                        clap_entries(out@),
                                    ));
                                    assert(clap_fills(full, out@));
                                    proof {
                                        lemma_nests_from_children(
                                            full,
                                            MAX_SUBCOMMAND_DEPTH - depth,
                                        );
                                    }
                                },
                                None => {
                                    proof {
                                        lemma_nests_leaf(full, MAX_SUBCOMMAND_DEPTH - depth);
                                    }
                                },
                            }
                        } else {
                            proof {
                                lemma_nests_leaf(full, MAX_SUBCOMMAND_DEPTH - depth);
                            }
                        }
                        assert(clap_command_ok(full, e, depth as int, *sub_help, path@));
                        let ghost cbefore = commands@;
                        commands.push(full);
                        proof {
                            entries = entries.push(e);
                        }
                        assert forall|k: int| 0 <= k < commands@.len() implies clap_command_ok(
                            #[trigger] commands@[k],
                            entries[k],
                            depth as int,
                            *sub_help,
                            path@,
                        ) by {
                            if k < commands@.len() - 1 {
                                assert(commands@[k] == cbefore[k]);
                            }
                        }
                    }
                },
                None => {},
            }
        }
        i += 1;
    }
    let ghost fin = clap_state(in_commands, group_name@, group_cmds@, groups@, entries);
    assert(fin == clap_section(help_output@));
    if group_cmds.len() > 0 {
        let ghost before = groups_v(groups@);
        let g = CommandGroup { name: chars_to_string(&group_name), commands: group_cmds };
        groups.push(g);
        assert(groups_v(groups@) =~= before.push(g@));
    }
    (commands, groups)
}


// ---------------------------------------------------------------- the parser

/// `t` is what the `clap` parser makes of help output `h` for a tool named
/// `name`.
pub open spec fn clap_tool<F: Fn(&str) -> Option<std::string::String>>(
    t: ToolSpec,
    name: Seq<char>,
    h: Seq<char>,
    sub_help: F,
) -> bool {
    &&& t.name@ == name
    &&& t.version.deep_view() == clap_version(h)
    &&& t.description@ == clap_description(h)
    &&& t.framework == Framework::Clap
    &&& flags_v(t.global_flags@) == clap_options(h)
    &&& groups_v(t.groups@) == clap_groups(h)
    &&& t.commands@.len() == clap_entries(h).len()
    &&& forall|k: int|
        0 <= k < t.commands@.len() ==> clap_command_ok(
            #[trigger] t.commands@[k],
            clap_entries(h)[k],
            0,
            sub_help,
            ""@,
        )
}

impl Parser for ClapParser {
    fn name(&self) -> (r: &'static str)
        ensures
            r@ == "clap"@,
    {
        "clap"
    }

    fn framework(&self) -> (r: Framework)
        ensures
            r == Framework::Clap,
    {
        Framework::Clap
    }

    fn detect(&self, help_output: &str) -> (r: bool)
        ensures
            r == clap_detects(help_output@),
    {
        clap_detect(help_output)
    }

    fn parse<F: Fn(&str) -> Option<std::string::String>>(
        &self,
        binary_name: &str,
        help_output: &str,
        sub_help: &F,
    ) -> (r: Result<ToolSpec, CliError>)
        ensures
            r matches Ok(t) && clap_tool(t, binary_name@, help_output@, *sub_help),
    {
        let description = parse_description(help_output);
        let (commands, groups) = parse_commands_section(help_output, binary_name, sub_help, 0);
        let global_flags = parse_options_section(help_output);
        Ok(
            ToolSpec {
                name: owned(binary_name),
                version: parse_version(help_output),
                description,
                framework: Framework::Clap,
                commands,
                global_flags,
                groups,
            },
        )
    }
}

} // verus!
