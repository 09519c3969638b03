//! The parser for help output of the Go `cobra` framework, both the
//! standard layout and the upper-case one of `gh`.
use vstd::prelude::*;

use crate::common::{
    bare_command, capture_trimmed, command_names, ends_section, entry_names, first_group_trimmed,
    flags_v, groups_v, is_help, join_path, lemma_nests_from_children, lemma_nests_leaf, long_is,
    nests_within, opt_flag_v, sub_path, trimmed_capture, trimmed_group, EntryV,
};
use crate::generator::{lemma_infix_of_sum, lemma_infix_trans};
use crate::ir::{
    strs_v, Arg, Command, CommandGroup, Flag, FlagV, Framework, GroupV, ToolSpec, TypeV, ValueType,
};
use crate::parser::{CliError, Parser};
use crate::pattern::{captures, get_group, group, regex_captures};
use crate::security::MAX_SUBCOMMAND_DEPTH;
use crate::text::{
    chars_to_string, contains, ends_with, eq_str, first_is, has_infix, join, join_chars, lines,
    owned, space_join, split_chars, split_lines, split_on, starts_ch, starts_with, str_chars,
    str_eq, to_uppercase, trim, trim_chars, trim_end_char, trim_end_char_chars, upper, views,
};

verus! {

/// A version number on the first line, with an optional `v`.
pub const RE_VERSION: &'static str = r"\b[vV]?(\d+\.\d+\.\d+(?:-\w+)?)\b";

/// A command entry: a name, two spaces or more, a description.
pub const RE_COMMAND: &'static str = r"^\s*(\S+)\s{2,}(.+)$";

/// A flag entry: `-s, --long type  Description`.
pub const RE_FLAG: &'static str = r"^\s*(?:(-\w)\s*,\s*)?(?:(--[\w-]+))(?:\s+(\w+))?\s{2,}(.+)$";

/// A `(default ...)` note.
pub const RE_DEFAULT: &'static str = r"\(default\s+(.+?)\)";

/// The parser for `cobra` help output.
pub struct CobraParser;

// ---------------------------------------------------------------- detection

/// Help output that looks like `cobra`'s.
pub open spec fn cobra_detects(h: Seq<char>) -> bool {
    let has_standard = has_infix(h, "Available Commands:"@) && has_infix(h, "Flags:"@);
    let has_uppercase = (has_infix(h, "CORE COMMANDS"@) || has_infix(h, "COMMANDS"@)) && (
    has_infix(h, "FLAGS"@) || has_infix(h, "USAGE"@));
    has_standard || has_uppercase
}

/// Whether the help output looks like `cobra`'s.
pub fn cobra_detect(help_output: &str) -> (r: bool)
    ensures
        r == cobra_detects(help_output@),
{
    let h = str_chars(help_output);
    let has_standard = contains(&h, "Available Commands:") && contains(&h, "Flags:");
    let has_uppercase = (contains(&h, "CORE COMMANDS") || contains(&h, "COMMANDS")) && (contains(
        &h,
        "FLAGS",
    ) || contains(&h, "USAGE"));
    has_standard || has_uppercase
}

// ------------------------------------------------------------------ version

/// The first line of a text, empty for an empty text.
pub open spec fn first_line(h: Seq<char>) -> Seq<char> {
    if lines(h).len() > 0 {
        lines(h)[0]
    } else {
        seq![]
    }
}

/// The version: group 1 of the first match of `RE_VERSION` on the first
/// line, without its `v`.
pub open spec fn cobra_version(h: Seq<char>) -> Option<Seq<char>> {
    match regex_captures(RE_VERSION@, first_line(h)) {
        Some(c) => group(c, 1),
        None => None,
    }
}

/// The version number on the first line of the help output.
pub fn parse_version(help_output: &str) -> (r: Option<std::string::String>)
    ensures
        r.deep_view() == cobra_version(help_output@),
{
    let h = str_chars(help_output);
    let ls = split_lines(&h);
    let first = if ls.len() > 0 {
        chars_to_string(&ls[0])
    } else {
        std::string::String::new()
    };
    proof {
        if ls@.len() > 0 {
            assert(views(ls@)[0] == ls@[0]@);
        }
    }
    match captures(RE_VERSION, first.as_str()) {
        Some(c) => get_group(&c, 1),
        None => None,
    }
}

// -------------------------------------------------------------- description

/// A line that ends the description.
pub open spec fn ends_description(t: Seq<char>) -> bool {
    "Usage:"@.is_prefix_of(t) || "Available Commands:"@.is_prefix_of(t) || "Flags:"@.is_prefix_of(
        t,
    )
}

/// The trimmed non-empty lines from line `i` on, up to the end of the
/// description.
pub open spec fn cobra_desc_from(ls: Seq<Seq<char>>, i: int) -> Seq<Seq<char>>
    decreases ls.len() - i,
{
    if i < 0 || i >= ls.len() {
        seq![]
    } else if ends_description(trim(ls[i])) {
        seq![]
    } else if trim(ls[i]).len() > 0 {
        seq![trim(ls[i])] + cobra_desc_from(ls, i + 1)
    } else {
        cobra_desc_from(ls, i + 1)
    }
}

/// The description: the lines before `Usage:`, `Available Commands:` or
/// `Flags:`, trimmed and joined by spaces.
pub open spec fn cobra_description(h: Seq<char>) -> Seq<char> {
    join(cobra_desc_from(lines(h), 0), " "@)
}

/// Joined parts end with the last part.
pub proof fn lemma_join_ends_with_last(parts: Seq<Seq<char>>, sep: Seq<char>)
    requires
        parts.len() > 0,
    ensures
        parts.last().is_suffix_of(join(parts, sep)),
{
    let j = join(parts, sep);
    let l = parts.last();
    if parts.len() == 1 {
        assert(j.subrange(j.len() - l.len(), j.len() as int) =~= l);
    } else {
        let a = join(parts.drop_last(), sep) + sep;
        assert(j == a + l);
        assert((a + l).subrange(a.len() as int, (a + l).len() as int) =~= l);
    }
}

/// Joined parts hold each two neighbouring parts with the separator between
/// them.
pub proof fn lemma_join_neighbours(parts: Seq<Seq<char>>, sep: Seq<char>, k: int)
    requires
        0 <= k,
        k + 1 < parts.len(),
    ensures
        has_infix(join(parts, sep), parts[k] + sep + parts[k + 1]),
    decreases parts.len(),
{
    let n = parts.len() - 1;
    let init = parts.drop_last();
    let j0 = join(init, sep);
    let j = join(parts, sep);
    assert(j == j0 + sep + parts.last());
    if k + 1 == n {
        lemma_join_ends_with_last(init, sep);
        assert(init.last() == parts[k]);
        let w = parts[k] + sep + parts[k + 1];
        let i = j0.len() - parts[k].len();
        assert(j.subrange(i, i + w.len()) =~= w) by {
            assert(j0.subrange(i, j0.len() as int) =~= parts[k]);
        }
    } else {
        lemma_join_neighbours(init, sep, k);
        assert(init[k] == parts[k] && init[k + 1] == parts[k + 1]);
        lemma_infix_of_sum(j0 + sep, parts.last());
        lemma_infix_of_sum(j0, sep);
        lemma_infix_trans(j, j0 + sep, j0);
        lemma_infix_trans(j, j0, parts[k] + sep + parts[k + 1]);
    }
}

/// The description is made of the description lines, each trimmed, with a
/// single space between each two: it is empty without such lines, the line
/// itself for one, the two lines with a space between for two, and in
/// general holds each two neighbouring lines with one space between them.
pub proof fn lemma_description_spacing(h: Seq<char>)
    ensures
        ({
            let parts = cobra_desc_from(lines(h), 0);
            let d = cobra_description(h);
            &&& parts.len() == 0 ==> d.len() == 0
            &&& parts.len() == 1 ==> d == parts[0]
            &&& parts.len() == 2 ==> d == parts[0] + " "@ + parts[1]
            &&& forall|k: int|
                0 <= k && k + 1 < parts.len() ==> has_infix(
                    d,
                    #[trigger] parts[k] + " "@ + parts[k + 1],
                )
        }),
{
    let parts = cobra_desc_from(lines(h), 0);
    if parts.len() == 2 {
        assert(parts.drop_last().len() == 1);
        assert(join(parts.drop_last(), " "@) == parts[0]);
    }
    assert forall|k: int| 0 <= k && k + 1 < parts.len() implies has_infix(
        cobra_description(h),
        #[trigger] parts[k] + " "@ + parts[k + 1],
    ) by {
        lemma_join_neighbours(parts, " "@, k);
    }
}

/// The description at the top of the help output.
pub fn parse_description(help_output: &str) -> (r: std::string::String)
    ensures
        r@ == cobra_description(help_output@),
{
    let h = str_chars(help_output);
    let ls = split_lines(&h);
    let ghost vs = views(ls@);
    let mut parts: Vec<Vec<char>> = Vec::new();
    let mut i: usize = 0;
    while i < ls.len()
        invariant
            vs == views(ls@),
            vs == lines(help_output@),
            i <= ls@.len(),
            views(parts@) + cobra_desc_from(vs, i as int) == cobra_desc_from(vs, 0),
        ensures
            views(parts@) == cobra_desc_from(vs, 0),
        decreases ls@.len() - i,
    {
        let line = &ls[i];
        assert(vs[i as int] == line@);
        let t = trim_chars(line);
        if starts_with(&t, "Usage:") || starts_with(&t, "Available Commands:") || starts_with(
            &t,
            "Flags:",
        ) {
            assert(views(parts@) + seq![] =~= views(parts@));
            break;
        }
        if t.len() > 0 {
            let ghost before = views(parts@);
            parts.push(t);
            assert(views(parts@) =~= before.push(trim(vs[i as int])));
            assert(before + cobra_desc_from(vs, i as int) =~= views(parts@) + cobra_desc_from(
                vs,
                i + 1,
            ));
        }
        i += 1;
        if i >= ls.len() {
            assert(views(parts@) + cobra_desc_from(vs, i as int) =~= views(parts@));
        }
    }
    let joined = join_chars(&parts, " ");
    chars_to_string(&joined)
}

// -------------------------------------------------------------- value types

/// The value type a `pflag` type name stands for.
pub open spec fn cobra_value_type(hint: Seq<char>) -> TypeV {
    if hint == "string"@ || hint == "stringArray"@ {
        TypeV::Text
    } else if hint == "int"@ || hint == "int32"@ || hint == "int64"@ || hint == "uint"@ {
        TypeV::Integer
    } else if hint == "float32"@ || hint == "float64"@ {
        TypeV::Real
    } else if hint == "bool"@ {
        TypeV::Boolean
    } else {
        TypeV::Text
    }
}

/// The value type a `pflag` type name stands for.
pub fn infer_cobra_type(hint: &str) -> (r: ValueType)
    ensures
        r@ == cobra_value_type(hint@),
{
    let u = str_chars(hint);
    if eq_str(&u, "string") || eq_str(&u, "stringArray") {
        ValueType::String
    } else if eq_str(&u, "int") || eq_str(&u, "int32") || eq_str(&u, "int64") || eq_str(&u, "uint") {
        ValueType::Int
    } else if eq_str(&u, "float32") || eq_str(&u, "float64") {
        ValueType::Float
    } else if eq_str(&u, "bool") {
        ValueType::Bool
    } else {
        ValueType::String
    }
}

// -------------------------------------------------------------------- flags

/// The flag that a match of `RE_FLAG` describes: groups 1 to 4 are the short
/// name, the long name, the type and the description.
pub open spec fn cobra_flag_from(caps: Seq<Option<Seq<char>>>) -> Option<FlagV> {
    match trimmed_group(caps, 4) {
        None => None,
        Some(description) => Some(
            FlagV {
                short: group(caps, 1),
                long: group(caps, 2),
                description,
                value_type: match group(caps, 3) {
                    Some(h) => cobra_value_type(h),
                    None => TypeV::Boolean,
                },
                required: false,
                default: first_group_trimmed(RE_DEFAULT@, description),
                env_var: None,
            },
        ),
    }
}

/// The flag that a line describes, if it is a flag entry.
pub open spec fn cobra_flag(line: Seq<char>) -> Option<FlagV> {
    match regex_captures(RE_FLAG@, line) {
        Some(c) => cobra_flag_from(c),
        None => None,
    }
}

/// The flag that a match of `RE_FLAG` describes.
pub fn flag_from_captures(caps: &Vec<Option<std::string::String>>) -> (r: Option<Flag>)
    ensures
        opt_flag_v(r) == cobra_flag_from(caps.deep_view()),
{
    let description = match trimmed_capture(caps, 4) {
        Some(d) => d,
        None => return None,
    };
    let value_type = match get_group(caps, 3) {
        Some(h) => infer_cobra_type(h.as_str()),
        None => ValueType::Bool,
    };
    let default = capture_trimmed(RE_DEFAULT, description.as_str());
    Some(
        Flag {
            short: get_group(caps, 1),
            long: get_group(caps, 2),
            description,
            value_type,
            required: false,
            default,
            env_var: None,
        },
    )
}

/// The flag that a line describes, if it is a flag entry.
pub fn parse_cobra_flag(line: &str) -> (r: Option<Flag>)
    ensures
        opt_flag_v(r) == cobra_flag(line@),
{
    match captures(RE_FLAG, line) {
        Some(c) => flag_from_captures(&c),
        None => None,
    }
}

/// The flags of the section headed by `header` from line `i` on; `--help`
/// left out.
pub open spec fn cobra_flags_from(ls: Seq<Seq<char>>, header: Seq<char>, i: int, inside: bool) -> Seq<
    FlagV,
>
    decreases ls.len() - i,
{
    if i < 0 || i >= ls.len() {
        seq![]
    } else {
        let t = trim(ls[i]);
        if t == header {
            cobra_flags_from(ls, header, i + 1, true)
        } else if inside && ends_section(ls[i]) {
            seq![]
        } else if !inside || t.len() == 0 {
            cobra_flags_from(ls, header, i + 1, inside)
        } else {
            match cobra_flag(t) {
                Some(f) => if is_help(f) {
                    cobra_flags_from(ls, header, i + 1, inside)
                } else {
                    seq![f] + cobra_flags_from(ls, header, i + 1, inside)
                },
                None => cobra_flags_from(ls, header, i + 1, inside),
            }
        }
    }
}

/// The flags of the section headed by `header`.
pub open spec fn cobra_flags(h: Seq<char>, header: Seq<char>) -> Seq<FlagV> {
    cobra_flags_from(lines(h), header, 0, false)
}

/// The flags of the section whose header line is `section_header`,
/// `--help` left out.
pub fn parse_flags_section(help_output: &str, section_header: &str) -> (r: Vec<Flag>)
    ensures
        flags_v(r@) == cobra_flags(help_output@, section_header@),
        forall|k: int| 0 <= k < r@.len() ==> !is_help(#[trigger] r@[k]@),
{
    let h = str_chars(help_output);
    let ls = split_lines(&h);
    let ghost vs = views(ls@);
    let ghost hd = section_header@;
    let mut flags: Vec<Flag> = Vec::new();
    let mut inside = false;
    let mut i: usize = 0;
    while i < ls.len()
        invariant
            vs == views(ls@),
            vs == lines(help_output@),
            hd == section_header@,
            i <= ls@.len(),
            flags_v(flags@) + cobra_flags_from(vs, hd, i as int, inside) == cobra_flags_from(
                vs,
                hd,
                0,
                false,
            ),
            forall|k: int| 0 <= k < flags@.len() ==> !is_help(#[trigger] flags@[k]@),
        ensures
            flags_v(flags@) == cobra_flags_from(vs, hd, 0, false),
            forall|k: int| 0 <= k < flags@.len() ==> !is_help(#[trigger] flags@[k]@),
        decreases ls@.len() - i,
    {
        let line = &ls[i];
        assert(vs[i as int] == line@);
        let t = trim_chars(line);
        if eq_str(&t, section_header) {
            inside = true;
        } else if inside && t.len() > 0 && !first_is(line, ' ') && !first_is(line, '\t') {
            assert(flags_v(flags@) + seq![] =~= flags_v(flags@));
            break;
        } else if !inside || t.len() == 0 {
        } else {
            let ts = chars_to_string(&t);
            match parse_cobra_flag(ts.as_str()) {
                Some(f) => {
                    if !long_is(&f, "--help") {
                        let ghost before = flags_v(flags@);
                        flags.push(f);
                        assert(flags_v(flags@) =~= before.push(f@));
                        assert(before + cobra_flags_from(vs, hd, i as int, inside) =~= flags_v(
                            flags@,
                        ) + cobra_flags_from(vs, hd, i + 1, inside));
                    }
                },
                None => {},
            }
        }
        i += 1;
        if i >= ls.len() {
            assert(flags_v(flags@) + cobra_flags_from(vs, hd, i as int, inside) =~= flags_v(
                flags@,
            ));
        }
    }
    flags
}

/// The arguments of a usage line: `cobra` has no standard form for them, so
/// there are none.
pub fn parse_args_from_usage(_help_output: &str) -> (r: Vec<Arg>)
    ensures
        r@.len() == 0,
{
    Vec::new()
}


// ----------------------------------------------------------------- commands

/// The command entry that a match of `RE_COMMAND` describes; the name loses
/// trailing colons.
pub open spec fn entry_from(caps: Seq<Option<Seq<char>>>) -> Option<EntryV> {
    match (group(caps, 1), trimmed_group(caps, 2)) {
        (Some(name), Some(description)) => Some(
            EntryV { name: trim_end_char(name, ':'), description },
        ),
        _ => None,
    }
}

/// The command entry that a line describes, if any.
pub open spec fn cobra_entry(line: Seq<char>) -> Option<EntryV> {
    match regex_captures(RE_COMMAND@, line) {
        Some(c) => entry_from(c),
        None => None,
    }
}

/// `r` is the bare command of entry `e`, or nothing where there is none.
pub open spec fn is_entry_command(r: Option<Command>, e: Option<EntryV>) -> bool {
    match (r, e) {
        (Some(c), Some(e)) => c.name@ == e.name && c.description@ == e.description
            && crate::common::is_bare(c),
        (None, None) => true,
        _ => false,
    }
}

/// The bare command that a match of `RE_COMMAND` describes.
pub fn command_from_captures(caps: &Vec<Option<std::string::String>>) -> (r: Option<Command>)
    ensures
        is_entry_command(r, entry_from(caps.deep_view())),
{
    let name = match get_group(caps, 1) {
        Some(n) => n,
        None => return None,
    };
    let description = match trimmed_capture(caps, 2) {
        Some(d) => d,
        None => return None,
    };
    let nc = str_chars(name.as_str());
    let bare = trim_end_char_chars(&nc, ':');
    Some(bare_command(chars_to_string(&bare), description))
}

/// The bare command that a line describes, if it is a command entry.
pub fn parse_command_entry(line: &str) -> (r: Option<Command>)
    ensures
        is_entry_command(r, cobra_entry(line@)),
{
    match captures(RE_COMMAND, line) {
        Some(c) => command_from_captures(&c),
        None => None,
    }
}

/// What the scan of the command sections has seen so far.
pub struct CobraScan {
    pub in_section: bool,
    pub group_name: Seq<char>,
    pub group_cmds: Seq<Seq<char>>,
    pub groups: Seq<GroupV>,
    pub entries: Seq<EntryV>,
}

/// A line that heads a command section: `... Commands:` or `... COMMANDS`.
pub open spec fn is_cmd_header(t: Seq<char>) -> bool {
    "Commands:"@.is_suffix_of(t) || "COMMANDS"@.is_suffix_of(upper(t))
}

/// A line that closes a command section: another, unindented header.
pub open spec fn closes_section(line: Seq<char>) -> bool {
    let t = trim(line);
    let u = upper(t);
    &&& t.len() > 0
    &&& !starts_ch(line, ' ')
    &&& !starts_ch(line, '\t')
    &&& !"COMMANDS"@.is_suffix_of(u)
    &&& (crate::text::ends_ch(t, ':') || "FLAG"@.is_prefix_of(u) || "USAGE"@.is_prefix_of(u)
        || "LEARN"@.is_prefix_of(u))
}

/// The scan with its open group closed, where it has commands.
pub open spec fn flush(st: CobraScan) -> CobraScan {
    if st.group_cmds.len() > 0 {
        CobraScan {
            groups: st.groups.push(GroupV { name: st.group_name, commands: st.group_cmds }),
            group_cmds: seq![],
            ..st
        }
    } else {
        st
    }
}

/// A command name that is not listed: `help`, `completion`, or a flag.
pub open spec fn is_skipped_name(n: Seq<char>) -> bool {
    n == "help"@ || n == "completion"@ || starts_ch(n, '-')
}

/// One line of the command sections.
pub open spec fn cobra_step(st: CobraScan, line: Seq<char>) -> CobraScan {
    let t = trim(line);
    if is_cmd_header(t) {
        let c = if st.in_section {
            flush(st)
        } else {
            st
        };
        CobraScan { in_section: true, group_name: trim(trim_end_char(t, ':')), ..c }
    } else if st.in_section && closes_section(line) {
        CobraScan { in_section: false, ..flush(st) }
    } else if !st.in_section || t.len() == 0 {
        st
    } else {
        match cobra_entry(t) {
            Some(e) => if is_skipped_name(e.name) {
                st
            } else {
                CobraScan {
                    group_cmds: st.group_cmds.push(e.name),
                    entries: st.entries.push(e),
                    ..st
                }
            },
            None => st,
        }
    }
}

/// The scan of lines `i..` from state `st`.
pub open spec fn cobra_scan(ls: Seq<Seq<char>>, i: int, st: CobraScan) -> CobraScan
    decreases ls.len() - i,
{
    if i < 0 || i >= ls.len() {
        st
    } else {
        cobra_scan(ls, i + 1, cobra_step(st, ls[i]))
    }
}

/// The state before the first line.
pub open spec fn cobra_init() -> CobraScan {
    CobraScan {
        in_section: false,
        group_name: "Commands"@,
        group_cmds: seq![],
        groups: seq![],
        entries: seq![],
    }
}

/// The scan of a whole help output, the last group closed.
pub open spec fn cobra_section(h: Seq<char>) -> CobraScan {
    flush(cobra_scan(lines(h), 0, cobra_init()))
}

/// The command groups of a help output.
pub open spec fn cobra_groups(h: Seq<char>) -> Seq<GroupV> {
    cobra_section(h).groups
}

/// The command entries of a help output, in order.
pub open spec fn cobra_entries(h: Seq<char>) -> Seq<EntryV> {
    cobra_section(h).entries
}

/// The first non-blank line, trimmed, after an `Aliases:` line, from line
/// `i` on; `seen` once that header has been passed.
pub open spec fn aliases_line(ls: Seq<Seq<char>>, i: int, seen: bool) -> Option<Seq<char>>
    decreases ls.len() - i,
{
    if i < 0 || i >= ls.len() {
        None
    } else {
        let t = trim(ls[i]);
        if seen && t.len() > 0 {
            Some(t)
        } else if t == "Aliases:"@ {
            aliases_line(ls, i + 1, true)
        } else {
            aliases_line(ls, i + 1, seen)
        }
    }
}

/// The comma-separated names from piece `j` on, each trimmed, with blank
/// ones and the command's own `name` left out.
pub open spec fn alias_names(parts: Seq<Seq<char>>, name: Seq<char>, j: int) -> Seq<Seq<char>>
    decreases parts.len() - j,
{
    if j < 0 || j >= parts.len() {
        seq![]
    } else {
        let n = trim(parts[j]);
        if n.len() > 0 && n != name {
            seq![n] + alias_names(parts, name, j + 1)
        } else {
            alias_names(parts, name, j + 1)
        }
    }
}

/// The aliases that a command's help output `o` lists under `Aliases:`: the
/// names on the line after it, other than the command's own `name`.
pub open spec fn cobra_aliases(o: Seq<char>, name: Seq<char>) -> Seq<Seq<char>> {
    match aliases_line(lines(o), 0, false) {
        Some(l) => alias_names(split_on(l, ','), name, 0),
        None => seq![],
    }
}

/// The aliases that a command's help output lists under `Aliases:`, the
/// command's own name left out.
pub fn parse_aliases(help_output: &str, name: &str) -> (r: Vec<std::string::String>)
    ensures
        strs_v(r@) == cobra_aliases(help_output@, name@),
{
    let h = str_chars(help_output);
    let ls = split_lines(&h);
    let ghost vs = views(ls@);
    let mut seen = false;
    let mut i: usize = 0;
    while i < ls.len()
        invariant
            vs == views(ls@),
            vs == lines(help_output@),
            i <= ls@.len(),
            aliases_line(vs, i as int, seen) == aliases_line(vs, 0, false),
        decreases ls@.len() - i,
    {
        assert(vs[i as int] == ls@[i as int]@);
        let t = trim_chars(&ls[i]);
        if seen && t.len() > 0 {
            let parts = split_chars(&t, ',');
            let ghost ps = views(parts@);
            let mut r: Vec<std::string::String> = Vec::new();
            let mut j: usize = 0;
            while j < parts.len()
                invariant
                    ps == views(parts@),
                    j <= parts@.len(),
                    strs_v(r@) + alias_names(ps, name@, j as int) == alias_names(ps, name@, 0),
                decreases parts@.len() - j,
            {
                assert(ps[j as int] == parts@[j as int]@);
                let n = trim_chars(&parts[j]);
                if n.len() > 0 && !eq_str(&n, name) {
                    let ghost before = strs_v(r@);
                    r.push(chars_to_string(&n));
                    assert(strs_v(r@) =~= before.push(n@));
                    assert(before + alias_names(ps, name@, j as int) =~= strs_v(r@) + alias_names(
                        ps,
                        name@,
                        j + 1,
                    ));
                }
                j += 1;
            }
            assert(strs_v(r@) + alias_names(ps, name@, j as int) =~= strs_v(r@));
            return r;
        }
        if eq_str(&t, "Aliases:") {
            seen = true;
        }
        i += 1;
    }
    Vec::new()
}

/// `c` carries what the help output `o` of its subcommand says.
pub open spec fn cobra_fills(c: Command, o: Seq<char>) -> bool {
    &&& strs_v(c.aliases@) == cobra_aliases(o, c.name@)
    &&& flags_v(c.flags@) == cobra_flags(o, "Flags:"@)
    &&& command_names(c.subcommands@) == entry_names(cobra_entries(o))
}

/// `c` is the command of entry `e` at `depth`, below the command at `path`
/// (empty for the tool itself): its name and description are the entry's.
/// At the depth limit it is empty. Below it, `sub_help` is called with the
/// command's path: it is empty where that call may give nothing, or carries
/// what a help output that the call may give says (its aliases, flags and
/// subcommands), each of its subcommands being, in turn, the command of the
/// matching entry of that output one level deeper.
pub open spec fn cobra_command_ok<F: Fn(&str) -> Option<std::string::String>>(
    c: Command,
    e: EntryV,
    depth: int,
    sub_help: F,
    path: Seq<char>,
) -> bool
    decreases MAX_SUBCOMMAND_DEPTH - depth,
{
    let key = sub_path(path, e.name);
    &&& c.name@ == e.name
    &&& c.description@ == e.description
    &&& c.examples@.len() == 0
    &&& c.args@.len() == 0
    &&& if depth >= MAX_SUBCOMMAND_DEPTH {
        c.subcommands@.len() == 0 && c.flags@.len() == 0 && c.aliases@.len() == 0
    } else {
        ||| (c.subcommands@.len() == 0 && c.flags@.len() == 0 && c.aliases@.len() == 0 && exists|
            s: &str,
        |
            s@ == key && #[trigger] sub_help.ensures((s,), None::<std::string::String>))
        ||| exists|s: &str, o: std::string::String|
            {
                &&& s@ == key
                &&& #[trigger] sub_help.ensures((s,), Some(o))
                &&& cobra_fills(c, o@)
                &&& c.subcommands@.len() == cobra_entries(o@).len()
                &&& forall|k: int|
                    0 <= k < c.subcommands@.len() ==> cobra_command_ok(
                        #[trigger] c.subcommands@[k],
                        cobra_entries(o@)[k],
                        depth + 1,
                        sub_help,
                        key,
                    )
            }
    }
    &&& nests_within(c@, MAX_SUBCOMMAND_DEPTH - depth)
}

/// The state of the exec scan, seen as a `CobraScan`.
pub open spec fn cobra_state(
    in_section: bool,
    group_name: Seq<char>,
    group_cmds: Seq<std::string::String>,
    groups: Seq<CommandGroup>,
    entries: Seq<EntryV>,
) -> CobraScan {
    CobraScan { in_section, group_name, group_cmds: strs_v(group_cmds), groups: groups_v(groups), entries }
}

/// Closes the open group where it has commands.
fn flush_group(
    groups: &mut Vec<CommandGroup>,
    group_name: &Vec<char>,
    group_cmds: &mut Vec<std::string::String>,
)
    ensures
        groups_v(final(groups)@) == flush(
            cobra_state(true, group_name@, old(group_cmds)@, old(groups)@, seq![]),
        ).groups,
        strs_v(final(group_cmds)@) == flush(
            cobra_state(true, group_name@, old(group_cmds)@, old(groups)@, seq![]),
        ).group_cmds,
{
    if group_cmds.len() > 0 {
        let ghost before = groups_v(groups@);
        let mut cmds: Vec<std::string::String> = Vec::new();
        std::mem::swap(&mut cmds, group_cmds);
        let g = CommandGroup { name: chars_to_string(group_name), commands: cmds };
        groups.push(g);
        assert(groups_v(groups@) =~= before.push(g@));
        assert(strs_v(group_cmds@) =~= seq![]);
    }
}

/// The commands of a help output of the tool itself, with their
/// subcommands as `sub_help` gives them (see `parse_available_commands_under`).
pub fn parse_available_commands<F: Fn(&str) -> Option<std::string::String>>(
    help_output: &str,
    binary_name: &str,
    sub_help: &F,
    depth: usize,
) -> (r: (Vec<Command>, Vec<CommandGroup>))
    requires
        forall|s: &str| sub_help.requires((s,)),
    ensures
        groups_v(r.1@) == cobra_groups(help_output@),
        r.0@.len() == cobra_entries(help_output@).len(),
        forall|k: int|
            0 <= k < r.0@.len() ==> cobra_command_ok(
                #[trigger] r.0@[k],
                cobra_entries(help_output@)[k],
                depth as int,
                *sub_help,
                ""@,
            ),
{
    parse_available_commands_under(help_output, binary_name, "", sub_help, depth)
}

/// The commands of the command sections, grouped by section; `help`,
/// `completion` and flags are not commands. Below the depth limit, each
/// command's own help, as `sub_help` gives it, fills in its flags and
/// subcommands.
/// `path` is the path below the tool of the command this help output
/// belongs to (empty for the tool itself); `sub_help` is asked for each
/// command's help by that command's own path.
pub fn parse_available_commands_under<F: Fn(&str) -> Option<std::string::String>>(
    help_output: &str,
    binary_name: &str,
    path: &str,
    sub_help: &F,
    depth: usize,
) -> (r: (Vec<Command>, Vec<CommandGroup>))
    requires
        forall|s: &str| sub_help.requires((s,)),
    ensures
        groups_v(r.1@) == cobra_groups(help_output@),
        r.0@.len() == cobra_entries(help_output@).len(),
        forall|k: int|
            0 <= k < r.0@.len() ==> cobra_command_ok(
                #[trigger] r.0@[k],
                cobra_entries(help_output@)[k],
                depth as int,
                *sub_help,
                path@,
            ),
    decreases MAX_SUBCOMMAND_DEPTH - depth,
{
    let h = str_chars(help_output);
    let ls = split_lines(&h);
    let ghost vs = views(ls@);
    let mut commands: Vec<Command> = Vec::new();
    let mut groups: Vec<CommandGroup> = Vec::new();
    let mut in_section = false;
    let mut group_name: Vec<char> = str_chars("Commands");
    let mut group_cmds: Vec<std::string::String> = Vec::new();
    let ghost mut entries: Seq<EntryV> = seq![];
    let mut i: usize = 0;
    assert(strs_v(group_cmds@) =~= seq![]);
    assert(groups_v(groups@) =~= seq![]);
    assert(cobra_state(in_section, group_name@, group_cmds@, groups@, entries) == cobra_init());
    while i < ls.len()
        invariant
            vs == views(ls@),
            vs == lines(help_output@),
            i <= ls@.len(),
            forall|s: &str| sub_help.requires((s,)),
            cobra_scan(
                vs,
                i as int,
                cobra_state(in_section, group_name@, group_cmds@, groups@, entries),
            ) == cobra_scan(vs, 0, cobra_init()),
            commands@.len() == entries.len(),
            forall|k: int|
                0 <= k < commands@.len() ==> cobra_command_ok(
                    #[trigger] commands@[k],
                    entries[k],
                    depth as int,
                    *sub_help,
                    path@,
                ),
        decreases ls@.len() - i,
    {
        let line = &ls[i];
        assert(vs[i as int] == line@);
        let ghost st = cobra_state(in_section, group_name@, group_cmds@, groups@, entries);
        let t = trim_chars(line);
        let ts = chars_to_string(&t);
        let us = to_uppercase(ts.as_str());
        let u = str_chars(us.as_str());
        if ends_with(&t, "Commands:") || ends_with(&u, "COMMANDS") {
            if in_section {
                flush_group(&mut groups, &group_name, &mut group_cmds);
            }
            in_section = true;
            let stripped = trim_end_char_chars(&t, ':');
            group_name = trim_chars(&stripped);
        } else if in_section && t.len() > 0 && !first_is(line, ' ') && !first_is(line, '\t')
            && !ends_with(&u, "COMMANDS") && (crate::text::last_is(&t, ':') || starts_with(
            &u,
            "FLAG",
        ) || starts_with(&u, "USAGE") || starts_with(&u, "LEARN")) {
            flush_group(&mut groups, &group_name, &mut group_cmds);
            in_section = false;
        } else if !in_section || t.len() == 0 {
        } else {
            match parse_command_entry(ts.as_str()) {
                Some(cmd) => {
                    let nc = str_chars(cmd.name.as_str());
                    if !str_eq(cmd.name.as_str(), "help") && !str_eq(
                        cmd.name.as_str(),
                        "completion",
                    ) && !first_is(&nc, '-') {
                        let ghost e = cobra_entry(t@)->0;
                        let ghost gbefore = strs_v(group_cmds@);
                        group_cmds.push(cmd.name.clone());
                        assert(strs_v(group_cmds@) =~= gbefore.push(e.name));
                        let mut full = cmd;
                        if depth < MAX_SUBCOMMAND_DEPTH {
                            let key = join_path(path, full.name.as_str());
                            let ks = key.as_str();
                            let reply = sub_help(ks);
                            assert(sub_help.ensures((ks,), reply));
                            match reply {
                                Some(out) => {
                                    let sub_key = space_join(binary_name, full.name.as_str());
                                    let (sub_cmds, _) = parse_available_commands_under(
                                        out.as_str(),
                                        sub_key.as_str(),
                                        key.as_str(),
                                        sub_help,
                                        depth + 1,
                                    );
                                    full.subcommands = sub_cmds;
                                    full.aliases = parse_aliases(out.as_str(), full.name.as_str());
                                    full.flags = parse_flags_section(out.as_str(), "Flags:");
                                    full.args = parse_args_from_usage(out.as_str());
                                    assert(command_names(full.subcommands@) =~= entry_names(
                                        cobra_entries(out@),
                                    ));
                                    assert(cobra_fills(full, out@));
                                    proof {
                                        lemma_nests_from_children(
                                            full,
                                            MAX_SUBCOMMAND_DEPTH - depth,
                                        );
                                    }
                                },
                                None => {
                                    proof {
                                        lemma_nests_leaf(full, MAX_SUBCOMMAND_DEPTH - depth);
                                    }
                                },
                            }
                        } else {
                            proof {
                                lemma_nests_leaf(full, MAX_SUBCOMMAND_DEPTH - depth);
                            }
                        }
                        assert(cobra_command_ok(full, e, depth as int, *sub_help, path@));
                        let ghost cbefore = commands@;
                        commands.push(full);
                        proof {
                            entries = entries.push(e);
                        }
                        assert forall|k: int| 0 <= k < commands@.len() implies cobra_command_ok(
                            #[trigger] commands@[k],
                            entries[k],
                            depth as int,
                            *sub_help,
                            path@,
                        ) by {
                            if k < commands@.len() - 1 {
                                assert(commands@[k] == cbefore[k]);
                            }
                        }
                    }
                },
                None => {},
            }
        }
        i += 1;
    }
    flush_group(&mut groups, &group_name, &mut group_cmds);
    (commands, groups)
}

// ---------------------------------------------------------------- the parser

/// The global flags: those of `Global Flags:`, then those of `Flags:`, or
/// of `FLAGS` where `Flags:` has none.
pub open spec fn cobra_global_flags(h: Seq<char>) -> Seq<FlagV> {
    let local = if cobra_flags(h, "Flags:"@).len() > 0 {
        cobra_flags(h, "Flags:"@)
    } else {
        cobra_flags(h, "FLAGS"@)
    };
    cobra_flags(h, "Global Flags:"@) + local
}

/// `t` is what the `cobra` parser makes of help output `h` for a tool named
/// `name`.
pub open spec fn cobra_tool<F: Fn(&str) -> Option<std::string::String>>(
    t: ToolSpec,
    name: Seq<char>,
    h: Seq<char>,
    sub_help: F,
) -> bool {
    &&& t.name@ == name
    &&& t.version.deep_view() == cobra_version(h)
    &&& t.description@ == cobra_description(h)
    &&& t.framework == Framework::Cobra
    &&& flags_v(t.global_flags@) == cobra_global_flags(h)
    &&& groups_v(t.groups@) == cobra_groups(h)
    &&& t.commands@.len() == cobra_entries(h).len()
    &&& forall|k: int|
        0 <= k < t.commands@.len() ==> cobra_command_ok(
            #[trigger] t.commands@[k],
            cobra_entries(h)[k],
            0,
            sub_help,
            ""@,
        )
}

impl Parser for CobraParser {
    fn name(&self) -> (r: &'static str)
        ensures
            r@ == "cobra"@,
    {
        "cobra"
    }

    fn framework(&self) -> (r: Framework)
        ensures
            r == Framework::Cobra,
    {
        Framework::Cobra
    }

    fn detect(&self, help_output: &str) -> (r: bool)
        ensures
            r == cobra_detects(help_output@),
    {
        cobra_detect(help_output)
    }

    fn parse<F: Fn(&str) -> Option<std::string::String>>(
        &self,
        binary_name: &str,
        help_output: &str,
        sub_help: &F,
    ) -> (r: Result<ToolSpec, CliError>)
        ensures
            r matches Ok(t) && cobra_tool(t, binary_name@, help_output@, *sub_help),
    {
        let description = parse_description(help_output);
        let (commands, groups) = parse_available_commands(help_output, binary_name, sub_help, 0);
        let mut global_flags = parse_flags_section(help_output, "Flags:");
        if global_flags.len() == 0 {
            global_flags = parse_flags_section(help_output, "FLAGS");
        }
        let mut all_flags = parse_flags_section(help_output, "Global Flags:");
        let ghost a = flags_v(all_flags@);
        let ghost b = flags_v(global_flags@);
        all_flags.append(&mut global_flags);
        assert(flags_v(all_flags@) =~= a + b);
        Ok(
            ToolSpec {
                name: owned(binary_name),
                version: parse_version(help_output),
                description,
                framework: Framework::Cobra,
                commands,
                global_flags: all_flags,
                groups,
            },
        )
    }
}

} // verus!
