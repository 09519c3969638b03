//! The parser for help output of Python's `argparse`.
use vstd::prelude::*;

use crate::common::{
    args_v, bare_command, capture_trimmed, command_names, contains_text, drop_help_and_version,
    drop_help_version, ends_section, first_group_trimmed, flags_v, groups_v, is_help_or_version,
    join_path, lemma_nests_from_children, lemma_nests_leaf, nests_within, opt_arg_v, opt_flag_v,
    sub_path, trimmed_capture, trimmed_group,
};
use crate::ir::{
    strs_v, Arg, ArgV, Command, CommandGroup, Flag, FlagV, Framework, GroupV, ToolSpec, TypeV,
    ValueType,
};
use crate::parser::{CliError, Parser};
use crate::pattern::{
    captures, find, get_group, group, is_match, regex_captures, regex_find, regex_is_match,
};
use crate::security::MAX_SUBCOMMAND_DEPTH;
use crate::text::{
    chars_to_string, contains, ends_with, eq_str, first_is, has_infix, join, join_chars, lines,
    owned, space_join, split_chars, split_lines, split_on, starts_ch, starts_with, str_chars,
    to_uppercase, trim, trim_chars, upper, views,
};

verus! {

/// A version number.
pub const RE_VERSION: &'static str = r"\b(\d+\.\d+\.\d+(?:[.-]\w+)?)\b";

/// The header of the optional-arguments section.
pub const RE_SECTION: &'static str = r"^(optional arguments|options):";

/// A flag entry: `-s, --long METAVAR  Description`.
pub const RE_ARGPARSE_FLAG: &'static str =
    r"^(?:(-\w)\s*(?:,\s*)?)?(?:(--[\w-]+))?\s*(?:(\w+(?:\s+\w+)*?))?\s{2,}(.+)$";

/// A `(default: ...)` note.
pub const RE_DEFAULT: &'static str = r"\(default:\s*(.+?)\)";

/// A `{a,b,c}` list of choices.
pub const RE_CHOICES: &'static str = r"\{([^}]+)\}";

/// A positional argument entry: a name, two spaces or more, a description.
pub const RE_POSITIONAL_ENTRY: &'static str = r"^\s*(\w+)\s{2,}(.+)$";

/// A `{cmd1,cmd2}` list of subcommands.
pub const RE_SUBPARSER: &'static str = r"\{([^}]+)\}";

/// A subcommand entry: a name, two spaces or more, a description.
pub const RE_SUBCOMMAND_ENTRY: &'static str = r"^\s*(\w[\w-]*)\s{2,}(.+)$";

/// The parser for `argparse` help output.
pub struct ArgparseParser;

// ---------------------------------------------------------------- detection

/// Help output that looks like `argparse`'s.
pub open spec fn argparse_detects(h: Seq<char>) -> bool {
    has_infix(h, "usage:"@) && (has_infix(h, "positional arguments:"@) || has_infix(
        h,
        "optional arguments:"@,
    ) || has_infix(h, "options:"@))
}

/// Whether the help output looks like `argparse`'s.
pub fn argparse_detect(help_output: &str) -> (r: bool)
    ensures
        r == argparse_detects(help_output@),
{
    let h = str_chars(help_output);
    let has_usage = contains(&h, "usage:");
    let has_positional = contains(&h, "positional arguments:");
    let has_optional = contains(&h, "optional arguments:") || contains(&h, "options:");
    has_usage && (has_positional || has_optional)
}

// ------------------------------------------------------------------ version

/// The first version number found on lines `i..5`.
pub open spec fn argparse_version_from(ls: Seq<Seq<char>>, i: int) -> Option<Seq<char>>
    decreases 5 - i,
{
    if i < 0 || i >= 5 || i >= ls.len() {
        None
    } else {
        match regex_find(RE_VERSION@, ls[i]) {
            Some(m) => Some(m),
            None => argparse_version_from(ls, i + 1),
        }
    }
}

/// The version: the first match of `RE_VERSION` on the first five lines.
pub open spec fn argparse_version(h: Seq<char>) -> Option<Seq<char>> {
    argparse_version_from(lines(h), 0)
}

/// The version number on the first five lines of the help output.
pub fn parse_version(help_output: &str) -> (r: Option<std::string::String>)
    ensures
        r.deep_view() == argparse_version(help_output@),
{
    let h = str_chars(help_output);
    let ls = split_lines(&h);
    let ghost vs = views(ls@);
    let mut i: usize = 0;
    while i < 5 && i < ls.len()
        invariant
            vs == views(ls@),
            vs == lines(help_output@),
            i <= 5,
            argparse_version_from(vs, i as int) == argparse_version_from(vs, 0),
        decreases 5 - i,
    {
        assert(vs[i as int] == ls@[i as int]@);
        let l = chars_to_string(&ls[i]);
        match find(RE_VERSION, l.as_str()) {
            Some(m) => {
                return Some(m);
            },
            None => {},
        }
        i += 1;
    }
    None
}

// -------------------------------------------------------------- description

/// A line that ends the description.
pub open spec fn is_section_start(t: Seq<char>) -> bool {
    "positional arguments:"@.is_prefix_of(t) || "optional arguments:"@.is_prefix_of(t)
        || "options:"@.is_prefix_of(t) || "subcommands:"@.is_prefix_of(t)
}

/// The description lines gathered from line `i` on, `past_usage` telling
/// whether a `usage:` line has been seen and `parts` the lines so far.
pub open spec fn argparse_desc_scan(
    ls: Seq<Seq<char>>,
    i: int,
    past_usage: bool,
    parts: Seq<Seq<char>>,
) -> Seq<Seq<char>>
    decreases ls.len() - i,
{
    if i < 0 || i >= ls.len() {
        parts
    } else {
        let t = trim(ls[i]);
        if "usage:"@.is_prefix_of(t) {
            argparse_desc_scan(ls, i + 1, true, parts)
        } else if !past_usage {
            argparse_desc_scan(ls, i + 1, past_usage, parts)
        } else if starts_ch(ls[i], ' ') && parts.len() == 0 {
            argparse_desc_scan(ls, i + 1, past_usage, parts)
        } else if is_section_start(t) {
            parts
        } else if t.len() > 0 {
            argparse_desc_scan(ls, i + 1, past_usage, parts.push(t))
        } else {
            argparse_desc_scan(ls, i + 1, past_usage, parts)
        }
    }
}

/// The description: the lines after `usage:` (its indented continuation
/// left out) up to the first section, trimmed and joined by spaces.
pub open spec fn argparse_description(h: Seq<char>) -> Seq<char> {
    join(argparse_desc_scan(lines(h), 0, false, seq![]), " "@)
}

/// The description that follows the usage line.
pub fn parse_description(help_output: &str) -> (r: std::string::String)
    ensures
        r@ == argparse_description(help_output@),
{
    let h = str_chars(help_output);
    let ls = split_lines(&h);
    let ghost vs = views(ls@);
    let mut parts: Vec<Vec<char>> = Vec::new();
    let mut past_usage = false;
    let mut i: usize = 0;
    assert(views(parts@) =~= seq![]);
    while i < ls.len()
        invariant
            vs == views(ls@),
            vs == lines(help_output@),
            i <= ls@.len(),
            argparse_desc_scan(vs, i as int, past_usage, views(parts@)) == argparse_desc_scan(
                vs,
                0,
                false,
                seq![],
            ),
        ensures
            views(parts@) == argparse_desc_scan(vs, 0, false, seq![]),
        decreases ls@.len() - i,
    {
        let line = &ls[i];
        assert(vs[i as int] == line@);
        let t = trim_chars(line);
        if starts_with(&t, "usage:") {
            past_usage = true;
        } else if !past_usage {
        } else if first_is(line, ' ') && parts.len() == 0 {
        } else if starts_with(&t, "positional arguments:") || starts_with(
            &t,
            "optional arguments:",
        ) || starts_with(&t, "options:") || starts_with(&t, "subcommands:") {
            break;
        } else if t.len() > 0 {
            let ghost before = views(parts@);
            parts.push(t);
            assert(views(parts@) =~= before.push(trim(vs[i as int])));
        }
        i += 1;
    }
    let joined = join_chars(&parts, " ");
    chars_to_string(&joined)
}

// -------------------------------------------------------------- value types

/// The value type a metavar names, for a name already in uppercase.
pub open spec fn argparse_type_of_upper(u: Seq<char>) -> TypeV {
    if u == "FILE"@ || u == "PATH"@ || u == "DIR"@ || u == "DIRECTORY"@ || u == "FILENAME"@ {
        TypeV::FilePath
    } else if u == "N"@ || u == "NUM"@ || u == "COUNT"@ || u == "INT"@ || u == "INTEGER"@ {
        TypeV::Integer
    } else if u == "FLOAT"@ {
        TypeV::Real
    } else {
        TypeV::Text
    }
}

/// The value type a metavar names, read in uppercase.
pub open spec fn argparse_value_type(metavar: Seq<char>) -> TypeV {
    argparse_type_of_upper(upper(metavar))
}

/// The value type a metavar names.
pub fn infer_argparse_type(metavar: &str) -> (r: ValueType)
    ensures
        r@ == argparse_value_type(metavar@),
{
    let us = to_uppercase(metavar);
    argparse_type_from_upper(us.as_str())
}

/// The value type a metavar names, given in uppercase.
pub fn argparse_type_from_upper(upper_name: &str) -> (r: ValueType)
    ensures
        r@ == argparse_type_of_upper(upper_name@),
{
    let u = str_chars(upper_name);
    if eq_str(&u, "FILE") || eq_str(&u, "PATH") || eq_str(&u, "DIR") || eq_str(&u, "DIRECTORY")
        || eq_str(&u, "FILENAME") {
        ValueType::Path
    } else if eq_str(&u, "N") || eq_str(&u, "NUM") || eq_str(&u, "COUNT") || eq_str(&u, "INT")
        || eq_str(&u, "INTEGER") {
        ValueType::Int
    } else if eq_str(&u, "FLOAT") {
        ValueType::Float
    } else {
        ValueType::String
    }
}

// -------------------------------------------------------------------- flags

/// The choices `{a,b,c}` in a description names, each trimmed.
pub open spec fn argparse_choices(description: Seq<char>) -> Option<Seq<Seq<char>>> {
    match regex_captures(RE_CHOICES@, description) {
        Some(c) => match group(c, 1) {
            Some(g) => Some(split_on(g, ',').map_values(|p: Seq<char>| trim(p))),
            None => None,
        },
        None => None,
    }
}

/// The flag that a match of `RE_ARGPARSE_FLAG` describes: groups 1 to 4 are
/// the short name, the long name, the metavar and the description.
pub open spec fn argparse_flag_from(caps: Seq<Option<Seq<char>>>) -> Option<FlagV> {
    match trimmed_group(caps, 4) {
        None => None,
        Some(description) => {
            let short = group(caps, 1);
            let long = group(caps, 2);
            let metavar = group(caps, 3);
            if short is None && long is None {
                None
            } else {
                Some(
                    FlagV {
                        short,
                        long,
                        description,
                        value_type: match argparse_choices(description) {
                            Some(cs) => TypeV::Choice(cs),
                            None => match metavar {
                                Some(m) => argparse_value_type(m),
                                None => TypeV::Boolean,
                            },
                        },
                        required: false,
                        default: first_group_trimmed(RE_DEFAULT@, description),
                        env_var: None,
                    },
                )
            }
        },
    }
}

/// The flag that an entry's text describes, if any.
pub open spec fn argparse_flag(line: Seq<char>) -> Option<FlagV> {
    match regex_captures(RE_ARGPARSE_FLAG@, line) {
        Some(c) => argparse_flag_from(c),
        None => None,
    }
}

/// The choices `{a,b,c}` in a description names, each trimmed.
pub fn parse_choices(description: &str) -> (r: Option<Vec<std::string::String>>)
    ensures
        r.deep_view() == argparse_choices(description@),
{
    let caps = match captures(RE_CHOICES, description) {
        Some(c) => c,
        None => return None,
    };
    let g = match get_group(&caps, 1) {
        Some(g) => g,
        None => return None,
    };
    let gc = str_chars(g.as_str());
    let pieces = split_chars(&gc, ',');
    let ghost target = split_on(g@, ',').map_values(|p: Seq<char>| trim(p));
    let mut out: Vec<std::string::String> = Vec::new();
    let mut k: usize = 0;
    while k < pieces.len()
        invariant
            k <= pieces@.len(),
            views(pieces@) == split_on(g@, ','),
            target == split_on(g@, ',').map_values(|p: Seq<char>| trim(p)),
            out.deep_view() == target.take(k as int),
        decreases pieces@.len() - k,
    {
        let t = trim_chars(&pieces[k]);
        let ghost before = out.deep_view();
        let ts = chars_to_string(&t);
        out.push(ts);
        assert(views(pieces@)[k as int] == pieces@[k as int]@);
        assert(out.deep_view() =~= before.push(ts@));
        assert(target.take(k + 1) =~= target.take(k as int).push(target[k as int]));
        assert(out.deep_view() =~= target.take(k + 1));
        k += 1;
    }
    assert(target.take(pieces@.len() as int) =~= target);
    Some(out)
}

/// The flag that a match of `RE_ARGPARSE_FLAG` describes.
pub fn flag_from_captures(caps: &Vec<Option<std::string::String>>) -> (r: Option<Flag>)
    ensures
        opt_flag_v(r) == argparse_flag_from(caps.deep_view()),
{
    let description = match trimmed_capture(caps, 4) {
        Some(d) => d,
        None => return None,
    };
    let short = get_group(caps, 1);
    let long = get_group(caps, 2);
    let metavar = get_group(caps, 3);
    if short.is_none() && long.is_none() {
        return None;
    }
    let value_type = match parse_choices(description.as_str()) {
        Some(cs) => {
            assert(strs_v(cs@) =~= cs.deep_view());
            ValueType::Enum(cs)
        },
        None => match &metavar {
            Some(m) => infer_argparse_type(m.as_str()),
            None => ValueType::Bool,
        },
    };
    let default = capture_trimmed(RE_DEFAULT, description.as_str());
    Some(
        Flag {
            short,
            long,
            description,
            value_type,
            required: false,
            default,
            env_var: None,
        },
    )
}

/// The flag that an entry's text describes, if any.
pub fn parse_argparse_flag(line: &str) -> (r: Option<Flag>)
    ensures
        opt_flag_v(r) == argparse_flag(line@),
{
    match captures(RE_ARGPARSE_FLAG, line) {
        Some(c) => flag_from_captures(&c),
        None => None,
    }
}

/// What the scan of the optional-arguments section has seen so far: whether
/// the section has begun, the text of the entry being read, and the flags.
pub struct OptScan {
    pub in_section: bool,
    pub cur: Seq<char>,
    pub flags: Seq<FlagV>,
}

/// The flags, with the entry being read added where it parses.
pub open spec fn with_cur(flags: Seq<FlagV>, cur: Seq<char>) -> Seq<FlagV> {
    if cur.len() > 0 {
        match argparse_flag(cur) {
            Some(f) => flags.push(f),
            None => flags,
        }
    } else {
        flags
    }
}

/// A line that closes the optional-arguments section.
pub open spec fn opt_stops(st: OptScan, line: Seq<char>) -> bool {
    !regex_is_match(RE_SECTION@, trim(line)) && st.in_section && trim(line).len() > 0
        && !starts_ch(line, ' ') && !starts_ch(line, '\t')
}

/// One line of the optional-arguments section that does not close it.
pub open spec fn opt_step(st: OptScan, line: Seq<char>) -> OptScan {
    let t = trim(line);
    if regex_is_match(RE_SECTION@, t) {
        OptScan { in_section: true, ..st }
    } else if !st.in_section || t.len() == 0 {
        st
    } else if starts_ch(t, '-') {
        OptScan { cur: t, flags: with_cur(st.flags, st.cur), ..st }
    } else {
        OptScan { cur: st.cur + " "@ + t, ..st }
    }
}

/// The scan of lines `i..`, up to the line that closes the section.
pub open spec fn opt_scan(ls: Seq<Seq<char>>, i: int, st: OptScan) -> OptScan
    decreases ls.len() - i,
{
    if i < 0 || i >= ls.len() {
        st
    } else if opt_stops(st, ls[i]) {
        st
    } else {
        opt_scan(ls, i + 1, opt_step(st, ls[i]))
    }
}

/// The flags of the optional-arguments section: every entry, the last one
/// included, then `--help` and `--version` left out.
pub open spec fn argparse_optional(h: Seq<char>) -> Seq<FlagV> {
    let st = opt_scan(lines(h), 0, OptScan { in_section: false, cur: seq![], flags: seq![] });
    drop_help_version(with_cur(st.flags, st.cur))
}

/// Adds the flag that `cur` describes, where there is one.
fn push_cur(flags: &mut Vec<Flag>, cur: &Vec<char>)
    ensures
        flags_v(final(flags)@) == with_cur(flags_v(old(flags)@), cur@),
{
    if cur.len() > 0 {
        let text = chars_to_string(cur);
        match parse_argparse_flag(text.as_str()) {
            Some(f) => {
                let ghost before = flags_v(flags@);
                flags.push(f);
                assert(flags_v(flags@) =~= before.push(f@));
            },
            None => {},
        }
    }
}

/// The flags of the optional-arguments section, `--help` and `--version`
/// left out.
pub fn parse_optional_args(help_output: &str) -> (r: Vec<Flag>)
    ensures
        flags_v(r@) == argparse_optional(help_output@),
        forall|k: int| 0 <= k < r@.len() ==> !is_help_or_version(#[trigger] r@[k]@),
{
    let h = str_chars(help_output);
    let ls = split_lines(&h);
    let ghost vs = views(ls@);
    let ghost init = OptScan { in_section: false, cur: seq![], flags: seq![] };
    let mut flags: Vec<Flag> = Vec::new();
    let mut in_section = false;
    let mut cur: Vec<char> = Vec::new();
    let mut i: usize = 0;
    assert(flags_v(flags@) =~= seq![]);
    while i < ls.len()
        invariant_except_break
            opt_scan(
                vs,
                i as int,
                OptScan { in_section, cur: cur@, flags: flags_v(flags@) },
            ) == opt_scan(vs, 0, init),
        invariant
            vs == views(ls@),
            vs == lines(help_output@),
            i <= ls@.len(),
        ensures
            (OptScan { in_section, cur: cur@, flags: flags_v(flags@) }) == opt_scan(vs, 0, init),
        decreases ls@.len() - i,
    {
        let line = &ls[i];
        assert(vs[i as int] == line@);
        let t = trim_chars(line);
        let ts = chars_to_string(&t);
        if is_match(RE_SECTION, ts.as_str()) {
            in_section = true;
        } else if in_section && t.len() > 0 && !first_is(line, ' ') && !first_is(line, '\t') {
            break;
        } else if !in_section || t.len() == 0 {
        } else if first_is(&t, '-') {
            push_cur(&mut flags, &cur);
            cur = t;
        } else {
            let ghost before = cur@;
            cur.push(' ');
            proof {
                reveal_strlit(" ");
                assert(cur@ =~= before + " "@ + t@.take(0));
            }
            let mut k: usize = 0;
            while k < t.len()
                invariant
                    k <= t@.len(),
                    cur@ == before + " "@ + t@.take(k as int),
                decreases t@.len() - k,
            {
                cur.push(t[k]);
                k += 1;
                assert(cur@ =~= before + " "@ + t@.take(k as int));
            }
            assert(t@.take(t@.len() as int) =~= t@);
        }
        i += 1;
    }
    push_cur(&mut flags, &cur);
    drop_help_and_version(flags)
}

// ---------------------------------------------------------------- arguments

/// The argument that a match of `RE_POSITIONAL_ENTRY` describes.
pub open spec fn positional_from(caps: Seq<Option<Seq<char>>>) -> Option<ArgV> {
    match (group(caps, 1), trimmed_group(caps, 2)) {
        (Some(name), Some(description)) => Some(
            ArgV { name, description, value_type: TypeV::Text, required: true, variadic: false },
        ),
        _ => None,
    }
}

/// The argument that a line describes, if it is a positional entry.
pub open spec fn positional_entry(line: Seq<char>) -> Option<ArgV> {
    match regex_captures(RE_POSITIONAL_ENTRY@, line) {
        Some(c) => positional_from(c),
        None => None,
    }
}

/// The argument that a match of `RE_POSITIONAL_ENTRY` describes.
pub fn positional_from_captures(caps: &Vec<Option<std::string::String>>) -> (r: Option<Arg>)
    ensures
        opt_arg_v(r) == positional_from(caps.deep_view()),
{
    let name = match get_group(caps, 1) {
        Some(n) => n,
        None => return None,
    };
    let description = match trimmed_capture(caps, 2) {
        Some(d) => d,
        None => return None,
    };
    Some(Arg { name, description, value_type: ValueType::String, required: true, variadic: false })
}

/// The argument that a line describes, if it is a positional entry.
pub fn parse_positional_entry(line: &str) -> (r: Option<Arg>)
    ensures
        opt_arg_v(r) == positional_entry(line@),
{
    match captures(RE_POSITIONAL_ENTRY, line) {
        Some(c) => positional_from_captures(&c),
        None => None,
    }
}

/// The positional arguments from line `i` on; `{...}` entries left out.
pub open spec fn positional_from_line(ls: Seq<Seq<char>>, i: int, inside: bool) -> Seq<ArgV>
    decreases ls.len() - i,
{
    if i < 0 || i >= ls.len() {
        seq![]
    } else {
        let t = trim(ls[i]);
        if t == "positional arguments:"@ {
            positional_from_line(ls, i + 1, true)
        } else if inside && ends_section(ls[i]) {
            seq![]
        } else if !inside || t.len() == 0 || starts_ch(t, '{') {
            positional_from_line(ls, i + 1, inside)
        } else {
            match positional_entry(t) {
                Some(a) => seq![a] + positional_from_line(ls, i + 1, inside),
                None => positional_from_line(ls, i + 1, inside),
            }
        }
    }
}

/// The positional arguments of the help output.
pub open spec fn argparse_positional(h: Seq<char>) -> Seq<ArgV> {
    positional_from_line(lines(h), 0, false)
}

/// Every argument that a positional entry describes is required and takes
/// a single value.
pub proof fn lemma_positional_entry_required(caps: Seq<Option<Seq<char>>>)
    ensures
        positional_from(caps) matches Some(a) ==> a.required && !a.variadic,
{
}

/// Every argument read from the `positional arguments:` section, from line
/// `i` on, is required and takes a single value.
pub proof fn lemma_positional_from_line_required(ls: Seq<Seq<char>>, i: int, inside: bool)
    ensures
        forall|k: int|
            0 <= k < positional_from_line(ls, i, inside).len() ==> (#[trigger] positional_from_line(
                ls,
                i,
                inside,
            )[k]).required && !positional_from_line(ls, i, inside)[k].variadic,
    decreases ls.len() - i,
{
    if 0 <= i < ls.len() {
        let t = trim(ls[i]);
        lemma_positional_from_line_required(ls, i + 1, true);
        lemma_positional_from_line_required(ls, i + 1, inside);
        if positional_entry(t) is Some {
            lemma_positional_entry_required(regex_captures(RE_POSITIONAL_ENTRY@, t)->0);
            let rest = positional_from_line(ls, i + 1, inside);
            let a = positional_entry(t)->0;
            assert forall|k: int| 0 <= k < (seq![a] + rest).len() implies (seq![a] + rest)[k].required
                && !(seq![a] + rest)[k].variadic by {
                if k > 0 {
                    assert((seq![a] + rest)[k] == rest[k - 1]);
                }
            }
        }
    }
}

/// Every argument that `parse_positional_args` reads from the `positional
/// arguments:` section is required and takes a single value.
pub proof fn lemma_positional_args_required(h: Seq<char>)
    ensures
        forall|k: int|
            0 <= k < argparse_positional(h).len() ==> (#[trigger] argparse_positional(h)[k]).required
                && !argparse_positional(h)[k].variadic,
{
    lemma_positional_from_line_required(lines(h), 0, false);
}

/// The arguments of the `positional arguments:` section, subcommand lists
/// left out.
pub fn parse_positional_args(help_output: &str) -> (r: Vec<Arg>)
    ensures
        args_v(r@) == argparse_positional(help_output@),
{
    let h = str_chars(help_output);
    let ls = split_lines(&h);
    let ghost vs = views(ls@);
    let mut args: Vec<Arg> = Vec::new();
    let mut inside = false;
    let mut i: usize = 0;
    while i < ls.len()
        invariant
            vs == views(ls@),
            vs == lines(help_output@),
            i <= ls@.len(),
            args_v(args@) + positional_from_line(vs, i as int, inside) == positional_from_line(
                vs,
                0,
                false,
            ),
        ensures
            args_v(args@) == positional_from_line(vs, 0, false),
        decreases ls@.len() - i,
    {
        let line = &ls[i];
        assert(vs[i as int] == line@);
        let t = trim_chars(line);
        if eq_str(&t, "positional arguments:") {
            inside = true;
        } else if inside && t.len() > 0 && !first_is(line, ' ') && !first_is(line, '\t') {
            assert(args_v(args@) + seq![] =~= args_v(args@));
            break;
        } else if !inside || t.len() == 0 || first_is(&t, '{') {
        } else {
            let ts = chars_to_string(&t);
            match parse_positional_entry(ts.as_str()) {
                Some(a) => {
                    let ghost before = args_v(args@);
                    args.push(a);
                    assert(args_v(args@) =~= before.push(a@));
                    assert(before + positional_from_line(vs, i as int, inside) =~= args_v(args@)
                        + positional_from_line(vs, i + 1, inside));
                },
                None => {},
            }
        }
        i += 1;
        if i >= ls.len() {
            assert(args_v(args@) + positional_from_line(vs, i as int, inside) =~= args_v(args@));
        }
    }
    args
}


// -------------------------------------------------------------- subcommands

/// A subcommand found in the help output: listed with a description in a
/// subcommands section, or named in a `{a,b}` list (`inline`).
pub struct SubEntry {
    pub name: Seq<char>,
    pub description: Seq<char>,
    pub inline: bool,
}

/// What the scan for subcommands has seen so far.
pub struct SubScan {
    pub in_sub: bool,
    pub names: Seq<Seq<char>>,
    pub entries: Seq<SubEntry>,
}

/// The subcommand entry that a match of `RE_SUBCOMMAND_ENTRY` describes.
pub open spec fn sub_entry_from(caps: Seq<Option<Seq<char>>>) -> Option<SubEntry> {
    match (group(caps, 1), trimmed_group(caps, 2)) {
        (Some(name), Some(description)) => Some(SubEntry { name, description, inline: false }),
        _ => None,
    }
}

/// The subcommand entry that a line describes, if any.
pub open spec fn sub_entry(line: Seq<char>) -> Option<SubEntry> {
    match regex_captures(RE_SUBCOMMAND_ENTRY@, line) {
        Some(c) => sub_entry_from(c),
        None => None,
    }
}

/// `r` is the bare command of subcommand entry `e`, or nothing where there is
/// none.
pub open spec fn is_sub_command(r: Option<Command>, e: Option<SubEntry>) -> bool {
    match (r, e) {
        (Some(c), Some(e)) => c.name@ == e.name && c.description@ == e.description
            && crate::common::is_bare(c),
        (None, None) => true,
        _ => false,
    }
}

/// The bare command that a match of `RE_SUBCOMMAND_ENTRY` describes.
pub fn subcommand_from_captures(caps: &Vec<Option<std::string::String>>) -> (r: Option<Command>)
    ensures
        is_sub_command(r, sub_entry_from(caps.deep_view())),
{
    let name = match get_group(caps, 1) {
        Some(n) => n,
        None => return None,
    };
    let description = match trimmed_capture(caps, 2) {
        Some(d) => d,
        None => return None,
    };
    Some(bare_command(name, description))
}

/// The bare command that a line describes, if it is a subcommand entry.
pub fn parse_subcommand_entry(line: &str) -> (r: Option<Command>)
    ensures
        is_sub_command(r, sub_entry(line@)),
{
    match captures(RE_SUBCOMMAND_ENTRY, line) {
        Some(c) => subcommand_from_captures(&c),
        None => None,
    }
}

/// A line that begins a subcommands section.
pub open spec fn is_sub_header(t: Seq<char>) -> bool {
    t == "subcommands:"@ || "sub-commands:"@.is_suffix_of(t)
}

/// The pieces of a `{a,b}` list on a line, if it holds one.
pub open spec fn inline_list(t: Seq<char>) -> Option<Seq<Seq<char>>> {
    match regex_captures(RE_SUBPARSER@, t) {
        Some(c) => match group(c, 1) {
            Some(g) => Some(split_on(g, ',')),
            None => None,
        },
        None => None,
    }
}

/// The names of a `{a,b}` list from piece `j` on added: each trimmed, empty
/// ones and ones already seen left out.
pub open spec fn add_inline(st: SubScan, parts: Seq<Seq<char>>, j: int) -> SubScan
    decreases parts.len() - j,
{
    if j < 0 || j >= parts.len() {
        st
    } else {
        let n = trim(parts[j]);
        if n.len() == 0 || st.names.contains(n) {
            add_inline(st, parts, j + 1)
        } else {
            add_inline(
                SubScan {
                    names: st.names.push(n),
                    entries: st.entries.push(SubEntry { name: n, description: seq![], inline: true }),
                    ..st
                },
                parts,
                j + 1,
            )
        }
    }
}

/// A line that closes a subcommands section.
pub open spec fn sub_stops(st: SubScan, line: Seq<char>) -> bool {
    !is_sub_header(trim(line)) && st.in_sub && ends_section(line)
}

/// One line of the scan for subcommands that does not close a section.
pub open spec fn sub_step(st: SubScan, line: Seq<char>) -> SubScan {
    let t = trim(line);
    if is_sub_header(t) {
        SubScan { in_sub: true, ..st }
    } else if st.in_sub && t.len() > 0 && !starts_ch(t, '{') {
        match sub_entry(t) {
            Some(e) => SubScan {
                names: st.names.push(e.name),
                entries: st.entries.push(e),
                ..st
            },
            None => st,
        }
    } else {
        match inline_list(t) {
            Some(parts) => add_inline(st, parts, 0),
            None => st,
        }
    }
}

/// The scan for subcommands over lines `i..`.
pub open spec fn sub_scan(ls: Seq<Seq<char>>, i: int, st: SubScan) -> SubScan
    decreases ls.len() - i,
{
    if i < 0 || i >= ls.len() {
        st
    } else if sub_stops(st, ls[i]) {
        st
    } else {
        sub_scan(ls, i + 1, sub_step(st, ls[i]))
    }
}

/// The scan for subcommands of a whole help output.
pub open spec fn argparse_subs(h: Seq<char>) -> SubScan {
    sub_scan(lines(h), 0, SubScan { in_sub: false, names: seq![], entries: seq![] })
}

/// The one group `Commands` of all subcommand names, or none.
pub open spec fn argparse_groups(h: Seq<char>) -> Seq<GroupV> {
    let names = argparse_subs(h).names;
    if names.len() == 0 {
        seq![]
    } else {
        seq![GroupV { name: "Commands"@, commands: names }]
    }
}

/// The names of the subcommand entries of a help output.
pub open spec fn argparse_sub_names(h: Seq<char>) -> Seq<Seq<char>> {
    argparse_subs(h).entries.map_values(|e: SubEntry| e.name)
}

/// A listed subcommand carries the flags and arguments of help output `o`.
pub open spec fn listed_fills(c: Command, o: Seq<char>) -> bool {
    flags_v(c.flags@) == argparse_optional(o) && args_v(c.args@) == argparse_positional(o)
}

/// A subcommand of a `{a,b}` list carries the description, flags, arguments
/// and subcommands of help output `o`.
pub open spec fn inline_fills(c: Command, o: Seq<char>) -> bool {
    &&& c.description@ == argparse_description(o)
    &&& listed_fills(c, o)
    &&& command_names(c.subcommands@) == argparse_sub_names(o)
}

/// `c` is the command of subcommand entry `e` at `depth`, below the command
/// at `path` (empty for the tool itself). At the depth limit it carries only
/// what the entry says. Below it, `sub_help` is called with the command's
/// path: the command carries only what the entry says where that call may
/// give nothing, or also what a help output that the call may give says
/// (for a listed entry its flags and arguments, for an entry of a `{a,b}`
/// list also its description and subcommands, each of those being, in
/// turn, the command of the matching entry of that output one level
/// deeper).
pub open spec fn sub_command_ok<F: Fn(&str) -> Option<std::string::String>>(
    c: Command,
    e: SubEntry,
    depth: int,
    sub_help: F,
    path: Seq<char>,
) -> bool
    decreases MAX_SUBCOMMAND_DEPTH - depth,
{
    let key = sub_path(path, e.name);
    &&& c.name@ == e.name
    &&& c.aliases@.len() == 0
    &&& c.examples@.len() == 0
    &&& if e.inline {
        let bare = c.description@ == Seq::<char>::empty() && c.subcommands@.len() == 0
            && c.flags@.len() == 0 && c.args@.len() == 0;
        if depth >= MAX_SUBCOMMAND_DEPTH {
            bare
        } else {
            ||| (bare && exists|s: &str|
                s@ == key && #[trigger] sub_help.ensures((s,), None::<std::string::String>))
            ||| exists|s: &str, o: std::string::String|
                {
                    &&& s@ == key
                    &&& #[trigger] sub_help.ensures((s,), Some(o))
                    &&& inline_fills(c, o@)
                    &&& c.subcommands@.len() == argparse_subs(o@).entries.len()
                    &&& forall|k: int|
                        0 <= k < c.subcommands@.len() ==> sub_command_ok(
                            #[trigger] c.subcommands@[k],
                            argparse_subs(o@).entries[k],
                            depth + 1,
                            sub_help,
                            key,
                        )
                }
        }
    } else {
        &&& c.description@ == e.description
        &&& c.subcommands@.len() == 0
        &&& if depth >= MAX_SUBCOMMAND_DEPTH {
            c.flags@.len() == 0 && c.args@.len() == 0
        } else {
            ||| (c.flags@.len() == 0 && c.args@.len() == 0 && exists|s: &str|
                s@ == key && #[trigger] sub_help.ensures((s,), None::<std::string::String>))
            ||| exists|s: &str, o: std::string::String|
                s@ == key && #[trigger] sub_help.ensures((s,), Some(o)) && listed_fills(c, o@)
        }
    }
    &&& nests_within(c@, MAX_SUBCOMMAND_DEPTH - depth)
}

/// The subcommands of a help output of the tool itself, with their own
/// subcommands as `sub_help` gives them (see `parse_subparsers_under`).
pub fn parse_subparsers<F: Fn(&str) -> Option<std::string::String>>(
    help_output: &str,
    binary_name: &str,
    sub_help: &F,
    depth: usize,
) -> (r: (Vec<Command>, Vec<CommandGroup>))
    requires
        forall|s: &str| sub_help.requires((s,)),
    ensures
        groups_v(r.1@) == argparse_groups(help_output@),
        r.0@.len() == argparse_subs(help_output@).entries.len(),
        forall|k: int|
            0 <= k < r.0@.len() ==> sub_command_ok(
                #[trigger] r.0@[k],
                argparse_subs(help_output@).entries[k],
                depth as int,
                *sub_help,
                ""@,
            ),
{
    parse_subparsers_under(help_output, binary_name, "", sub_help, depth)
}

/// The subcommands of a subcommands section, and of `{a,b}` lists, with the
/// one group of their names. Below the depth limit, each subcommand's own
/// help, as `sub_help` gives it, fills in its flags and arguments, and for a
/// subcommand of a list also its description and subcommands.
/// `path` is the path below the tool of the command this help output
/// belongs to (empty for the tool itself); `sub_help` is asked for each
/// command's help by that command's own path.
pub fn parse_subparsers_under<F: Fn(&str) -> Option<std::string::String>>(
    help_output: &str,
    binary_name: &str,
    path: &str,
    sub_help: &F,
    depth: usize,
) -> (r: (Vec<Command>, Vec<CommandGroup>))
    requires
        forall|s: &str| sub_help.requires((s,)),
    ensures
        groups_v(r.1@) == argparse_groups(help_output@),
        r.0@.len() == argparse_subs(help_output@).entries.len(),
        forall|k: int|
            0 <= k < r.0@.len() ==> sub_command_ok(
                #[trigger] r.0@[k],
                argparse_subs(help_output@).entries[k],
                depth as int,
                *sub_help,
                path@,
            ),
    decreases MAX_SUBCOMMAND_DEPTH - depth,
{
    let h = str_chars(help_output);
    let ls = split_lines(&h);
    let ghost vs = views(ls@);
    let ghost init = SubScan { in_sub: false, names: seq![], entries: seq![] };
    let mut commands: Vec<Command> = Vec::new();
    let mut group_cmds: Vec<std::string::String> = Vec::new();
    let mut in_sub = false;
    let ghost mut entries: Seq<SubEntry> = seq![];
    let mut i: usize = 0;
    assert(strs_v(group_cmds@) =~= seq![]);
    while i < ls.len()
        invariant
            vs == views(ls@),
            vs == lines(help_output@),
            i <= ls@.len(),
            forall|s: &str| sub_help.requires((s,)),
            sub_scan(vs, i as int, SubScan { in_sub, names: strs_v(group_cmds@), entries })
                == sub_scan(vs, 0, init),
            commands@.len() == entries.len(),
            forall|k: int|
                0 <= k < commands@.len() ==> sub_command_ok(
                    #[trigger] commands@[k],
                    entries[k],
                    depth as int,
                    *sub_help,
                    path@,
                ),
        ensures
            (SubScan { in_sub, names: strs_v(group_cmds@), entries }) == sub_scan(vs, 0, init),
            commands@.len() == entries.len(),
            forall|k: int|
                0 <= k < commands@.len() ==> sub_command_ok(
                    #[trigger] commands@[k],
                    entries[k],
                    depth as int,
                    *sub_help,
                    path@,
                ),
        decreases ls@.len() - i,
    {
        let line = &ls[i];
        assert(vs[i as int] == line@);
        let t = trim_chars(line);
        let ts = chars_to_string(&t);
        if eq_str(&t, "subcommands:") || ends_with(&t, "sub-commands:") {
            in_sub = true;
        } else if in_sub && t.len() > 0 && !first_is(line, ' ') && !first_is(line, '\t') {
            break;
        } else if in_sub && t.len() > 0 && !first_is(&t, '{') {
            match parse_subcommand_entry(ts.as_str()) {
                Some(cmd) => {
                    let ghost e = sub_entry(t@)->0;
                    let ghost gbefore = strs_v(group_cmds@);
                    group_cmds.push(cmd.name.clone());
                    assert(strs_v(group_cmds@) =~= gbefore.push(e.name));
                    let mut full = cmd;
                    if depth < MAX_SUBCOMMAND_DEPTH {
                        let key = join_path(path, full.name.as_str());
                        let ks = key.as_str();
                        let reply = sub_help(ks);
                        assert(sub_help.ensures((ks,), reply));
                        match reply {
                            Some(out) => {
                                full.flags = parse_optional_args(out.as_str());
                                full.args = parse_positional_args(out.as_str());
                                assert(listed_fills(full, out@));
                            },
                            None => {},
                        }
                    }
                    proof {
                        lemma_nests_leaf(full, MAX_SUBCOMMAND_DEPTH - depth);
                    }
                    assert(sub_command_ok(full, e, depth as int, *sub_help, path@));
                    let ghost cbefore = commands@;
                    commands.push(full);
                    proof {
                        entries = entries.push(e);
                    }
                    assert forall|k: int| 0 <= k < commands@.len() implies sub_command_ok(
                        #[trigger] commands@[k],
                        entries[k],
                        depth as int,
                        *sub_help,
                        path@,
                    ) by {
                        if k < commands@.len() - 1 {
                            assert(commands@[k] == cbefore[k]);
                        }
                    }
                },
                None => {},
            }
        } else {
            match captures(RE_SUBPARSER, ts.as_str()) {
                Some(caps) => match get_group(&caps, 1) {
                    Some(g) => {
                        let gc = str_chars(g.as_str());
                        let parts = split_chars(&gc, ',');
                        let ghost ps = views(parts@);
                        let ghost st0 = SubScan { in_sub, names: strs_v(group_cmds@), entries };
                        assert(inline_list(t@) == Some(ps));
                        let mut j: usize = 0;
                        while j < parts.len()
                            invariant
                                ps == views(parts@),
                                j <= parts@.len(),
                                forall|s: &str| sub_help.requires((s,)),
                                add_inline(
                                    SubScan { in_sub, names: strs_v(group_cmds@), entries },
                                    ps,
                                    j as int,
                                ) == add_inline(st0, ps, 0),
                                commands@.len() == entries.len(),
                                forall|k: int|
                                    0 <= k < commands@.len() ==> sub_command_ok(
                                        #[trigger] commands@[k],
                                        entries[k],
                                        depth as int,
                                        *sub_help,
                                        path@,
                                    ),
                            decreases parts@.len() - j,
                        {
                            let n = trim_chars(&parts[j]);
                            assert(ps[j as int] == parts@[j as int]@);
                            if n.len() > 0 && !contains_text(&group_cmds, &n) {
                                let name = chars_to_string(&n);
                                let ghost e = SubEntry {
                                    name: n@,
                                    description: seq![],
                                    inline: true,
                                };
                                let ghost gbefore = strs_v(group_cmds@);
                                group_cmds.push(chars_to_string(&n));
                                assert(strs_v(group_cmds@) =~= gbefore.push(n@));
                                let mut cmd = bare_command(name, std::string::String::new());
                                if depth < MAX_SUBCOMMAND_DEPTH {
                                    let key = join_path(path, cmd.name.as_str());
                                    let ks = key.as_str();
                                    let reply = sub_help(ks);
                                    assert(sub_help.ensures((ks,), reply));
                                    match reply {
                                        Some(out) => {
                                            cmd.description = parse_description(out.as_str());
                                            cmd.flags = parse_optional_args(out.as_str());
                                            cmd.args = parse_positional_args(out.as_str());
                                            let sub_name = space_join(
                                                binary_name,
                                                cmd.name.as_str(),
                                            );
                                            let (sub_cmds, _) = parse_subparsers_under(
                                                out.as_str(),
                                                sub_name.as_str(),
                                                key.as_str(),
                                                sub_help,
                                                depth + 1,
                                            );
                                            cmd.subcommands = sub_cmds;
                                            assert(command_names(cmd.subcommands@)
                                                =~= argparse_sub_names(out@));
                                            assert(inline_fills(cmd, out@));
                                            proof {
                                                lemma_nests_from_children(
                                                    cmd,
                                                    MAX_SUBCOMMAND_DEPTH - depth,
                                                );
                                            }
                                        },
                                        None => {
                                            proof {
                                                lemma_nests_leaf(
                                                    cmd,
                                                    MAX_SUBCOMMAND_DEPTH - depth,
                                                );
                                            }
                                        },
                                    }
                                } else {
                                    proof {
                                        lemma_nests_leaf(cmd, MAX_SUBCOMMAND_DEPTH - depth);
                                    }
                                }
                                assert(sub_command_ok(cmd, e, depth as int, *sub_help, path@));
                                let ghost cbefore = commands@;
                                commands.push(cmd);
                                proof {
                                    entries = entries.push(e);
                                }
                                assert forall|k: int|
                                    0 <= k < commands@.len() implies sub_command_ok(
                                    #[trigger] commands@[k],
                                    entries[k],
                                    depth as int,
                                    *sub_help,
                                    path@,
                                ) by {
                                    if k < commands@.len() - 1 {
                                        assert(commands@[k] == cbefore[k]);
                                    }
                                }
                            }
                            j += 1;
                        }
                    },
                    None => {},
                },
                None => {},
            }
        }
        i += 1;
    }
    let groups: Vec<CommandGroup> = if group_cmds.len() == 0 {
        Vec::new()
    } else {
        let mut gs: Vec<CommandGroup> = Vec::new();
        gs.push(CommandGroup { name: owned("Commands"), commands: group_cmds });
        gs
    };
    assert(groups_v(groups@) =~= argparse_groups(help_output@));
    (commands, groups)
}


// ---------------------------------------------------------------- the parser

/// `t` is what the `argparse` parser makes of help output `h` for a tool
/// named `name`: without subcommands, positional arguments go to one command
/// named after the tool.
pub open spec fn argparse_tool<F: Fn(&str) -> Option<std::string::String>>(
    t: ToolSpec,
    name: Seq<char>,
    h: Seq<char>,
    sub_help: F,
) -> bool {
    let entries = argparse_subs(h).entries;
    &&& t.name@ == name
    &&& t.version.deep_view() == argparse_version(h)
    &&& t.description@ == argparse_description(h)
    &&& t.framework == Framework::Argparse
    &&& flags_v(t.global_flags@) == argparse_optional(h)
    &&& groups_v(t.groups@) == argparse_groups(h)
    &&& if entries.len() == 0 && argparse_positional(h).len() > 0 {
        &&& t.commands@.len() == 1
        &&& t.commands@[0].name@ == name
        &&& t.commands@[0].description@ == argparse_description(h)
        &&& args_v(t.commands@[0].args@) == argparse_positional(h)
        &&& t.commands@[0].aliases@.len() == 0
        &&& t.commands@[0].subcommands@.len() == 0
        &&& t.commands@[0].flags@.len() == 0
        &&& t.commands@[0].examples@.len() == 0
    } else {
        &&& t.commands@.len() == entries.len()
        &&& forall|k: int|
            0 <= k < t.commands@.len() ==> sub_command_ok(#[trigger] t.commands@[k], entries[k], 0, sub_help, ""@)
    }
}

impl Parser for ArgparseParser {
    fn name(&self) -> (r: &'static str)
        ensures
            r@ == "argparse"@,
    {
        "argparse"
    }

    fn framework(&self) -> (r: Framework)
        ensures
            r == Framework::Argparse,
    {
        Framework::Argparse
    }

    fn detect(&self, help_output: &str) -> (r: bool)
        ensures
            r == argparse_detects(help_output@),
    {
        argparse_detect(help_output)
    }

    fn parse<F: Fn(&str) -> Option<std::string::String>>(
        &self,
        binary_name: &str,
        help_output: &str,
        sub_help: &F,
    ) -> (r: Result<ToolSpec, CliError>)
        ensures
            r matches Ok(t) && argparse_tool(t, binary_name@, help_output@, *sub_help),
    {
        let description = parse_description(help_output);
        let global_flags = parse_optional_args(help_output);
        let positional = parse_positional_args(help_output);
        let (commands, groups) = parse_subparsers(help_output, binary_name, sub_help, 0);
        let mut all_commands = commands;
        if positional.len() > 0 && all_commands.len() == 0 {
            let mut root = bare_command(owned(binary_name), description.clone());
            root.args = positional;
            all_commands.push(root);
        }
        Ok(
            ToolSpec {
                name: owned(binary_name),
                version: parse_version(help_output),
                description,
                framework: Framework::Argparse,
                commands: all_commands,
                global_flags,
                groups,
            },
        )
    }
}

} // verus!
