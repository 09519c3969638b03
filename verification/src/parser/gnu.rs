//! The fallback parser, for GNU-style help output.
use vstd::prelude::*;

use crate::common::{
    args_v, bare_command, drop_help_and_version, drop_help_version, flags_v, is_help_or_version,
    opt_arg_v, opt_flag_v, trimmed_group,
};
use crate::ir::{Arg, ArgV, Command, Flag, FlagV, Framework, ToolSpec, TypeV, ValueType};
use crate::parser::{CliError, Parser};
use crate::pattern::{
    captures, captures_all, find, get_group, group, regex_captures, regex_captures_all, regex_find,
};
use crate::text::{
    chars_to_string, contains, eq_str, first_is, has_infix, join, join_chars, lines, owned,
    split_lines, starts_ch, starts_with, str_chars, to_uppercase, trim, trim_chars, upper, views,
};

verus! {

/// A version number.
pub const RE_VERSION: &'static str = r"\b(\d+\.\d+(?:\.\d+)?(?:-\w+)?)\b";

/// An option entry: `-s, --long[=ARG]  Description`.
pub const RE_GNU_FLAG: &'static str =
    r"^(?:(-\w)(?:\s*,\s*)?)?(?:(--[\w-]+))?(?:\[?=(\w+)\]?)?\s{2,}(.+)$";

/// An argument on the usage line: `[NAME]`, maybe followed by `...`.
pub const RE_USAGE_ARG: &'static str = r"\[([A-Z][A-Z_]*)\](?:\.\.\.)?";

/// The parser for GNU-style help output.
pub struct GnuParser;

// ---------------------------------------------------------------- detection

/// Help output that looks GNU-style: a usage line and long options.
pub open spec fn gnu_detects(h: Seq<char>) -> bool {
    (has_infix(h, "Usage:"@) || has_infix(h, "usage:"@)) && has_infix(h, "--"@)
}

/// Whether the help output looks GNU-style.
pub fn gnu_detect(help_output: &str) -> (r: bool)
    ensures
        r == gnu_detects(help_output@),
{
    let h = str_chars(help_output);
    (contains(&h, "Usage:") || contains(&h, "usage:")) && contains(&h, "--")
}

// ------------------------------------------------------------------ version

/// The first version number found on lines `i..3`.
pub open spec fn gnu_version_from(ls: Seq<Seq<char>>, i: int) -> Option<Seq<char>>
    decreases 3 - i,
{
    if i < 0 || i >= 3 || i >= ls.len() {
        None
    } else {
        match regex_find(RE_VERSION@, ls[i]) {
            Some(m) => Some(m),
            None => gnu_version_from(ls, i + 1),
        }
    }
}

/// The version: the first match of `RE_VERSION` on the first three lines.
pub open spec fn gnu_version(h: Seq<char>) -> Option<Seq<char>> {
    gnu_version_from(lines(h), 0)
}

/// The version number on the first three lines of the help output.
pub fn parse_version(help_output: &str) -> (r: Option<std::string::String>)
    ensures
        r.deep_view() == gnu_version(help_output@),
{
    let h = str_chars(help_output);
    let ls = split_lines(&h);
    let ghost vs = views(ls@);
    let mut i: usize = 0;
    while i < 3 && i < ls.len()
        invariant
            vs == views(ls@),
            vs == lines(help_output@),
            i <= 3,
            gnu_version_from(vs, i as int) == gnu_version_from(vs, 0),
        decreases 3 - i,
    {
        assert(vs[i as int] == ls@[i as int]@);
        let l = chars_to_string(&ls[i]);
        match find(RE_VERSION, l.as_str()) {
            Some(m) => {
                return Some(m);
            },
            None => {},
        }
        i += 1;
    }
    None
}

// -------------------------------------------------------------- description

/// A usage line.
pub open spec fn is_usage(t: Seq<char>) -> bool {
    "Usage:"@.is_prefix_of(t) || "usage:"@.is_prefix_of(t)
}

/// The description lines gathered from line `i` on: after the usage lines
/// (`or:` lines count as usage), up to an option or a blank line after text.
pub open spec fn gnu_desc_scan(
    ls: Seq<Seq<char>>,
    i: int,
    past_usage: bool,
    parts: Seq<Seq<char>>,
) -> Seq<Seq<char>>
    decreases ls.len() - i,
{
    if i < 0 || i >= ls.len() {
        parts
    } else {
        let t = trim(ls[i]);
        if is_usage(t) {
            gnu_desc_scan(ls, i + 1, true, parts)
        } else if past_usage && "or:"@.is_prefix_of(t) {
            gnu_desc_scan(ls, i + 1, past_usage, parts)
        } else if !past_usage {
            gnu_desc_scan(ls, i + 1, past_usage, parts)
        } else if starts_ch(t, '-') || (t.len() == 0 && parts.len() > 0) {
            parts
        } else if t.len() > 0 {
            gnu_desc_scan(ls, i + 1, past_usage, parts.push(t))
        } else {
            gnu_desc_scan(ls, i + 1, past_usage, parts)
        }
    }
}

/// The first non-blank line, trimmed, before the first usage line, from
/// line `i` on.
pub open spec fn line_before_usage(ls: Seq<Seq<char>>, i: int) -> Option<Seq<char>>
    decreases ls.len() - i,
{
    if i < 0 || i >= ls.len() {
        None
    } else if is_usage(trim(ls[i])) {
        None
    } else if trim(ls[i]).len() > 0 {
        Some(trim(ls[i]))
    } else {
        line_before_usage(ls, i + 1)
    }
}

/// The description: the lines after the usage lines joined by spaces, or,
/// where there are none, the first line before them.
pub open spec fn gnu_description(h: Seq<char>) -> Seq<char> {
    let ls = lines(h);
    let parts = gnu_desc_scan(ls, 0, false, seq![]);
    if parts.len() == 0 && line_before_usage(ls, 0) is Some {
        line_before_usage(ls, 0)->0
    } else {
        join(parts, " "@)
    }
}

/// The description of the tool.
pub fn parse_description(help_output: &str) -> (r: std::string::String)
    ensures
        r@ == gnu_description(help_output@),
{
    let h = str_chars(help_output);
    let ls = split_lines(&h);
    let ghost vs = views(ls@);
    let mut parts: Vec<Vec<char>> = Vec::new();
    let mut past_usage = false;
    let mut i: usize = 0;
    assert(views(parts@) =~= seq![]);
    while i < ls.len()
        invariant
            vs == views(ls@),
            vs == lines(help_output@),
            i <= ls@.len(),
            gnu_desc_scan(vs, i as int, past_usage, views(parts@)) == gnu_desc_scan(
                vs,
                0,
                false,
                seq![],
            ),
        ensures
            views(parts@) == gnu_desc_scan(vs, 0, false, seq![]),
        decreases ls@.len() - i,
    {
        let line = &ls[i];
        assert(vs[i as int] == line@);
        let t = trim_chars(line);
        if starts_with(&t, "Usage:") || starts_with(&t, "usage:") {
            past_usage = true;
        } else if past_usage && starts_with(&t, "or:") {
        } else if !past_usage {
        } else if first_is(&t, '-') || (t.len() == 0 && parts.len() > 0) {
            break;
        } else if t.len() > 0 {
            let ghost before = views(parts@);
            parts.push(t);
            assert(views(parts@) =~= before.push(trim(vs[i as int])));
        }
        i += 1;
    }
    if parts.len() == 0 {
        let mut j: usize = 0;
        while j < ls.len()
            invariant
                vs == views(ls@),
                vs == lines(help_output@),
                views(parts@) == gnu_desc_scan(vs, 0, false, seq![]),
                parts@.len() == 0,
                j <= ls@.len(),
                line_before_usage(vs, j as int) == line_before_usage(vs, 0),
            ensures
                line_before_usage(vs, 0) is None,
            decreases ls@.len() - j,
        {
            assert(vs[j as int] == ls@[j as int]@);
            let t = trim_chars(&ls[j]);
            if starts_with(&t, "Usage:") || starts_with(&t, "usage:") {
                break;
            }
            if t.len() > 0 {
                return chars_to_string(&t);
            }
            j += 1;
        }
    }
    let joined = join_chars(&parts, " ");
    chars_to_string(&joined)
}

// -------------------------------------------------------------- value types

/// The value type an option argument's name stands for, for a name already in uppercase.
pub open spec fn gnu_type_of_upper(u: Seq<char>) -> TypeV {
    if u == "FILE"@ || u == "PATH"@ || u == "DIR"@ || u == "DIRECTORY"@ {
        TypeV::FilePath
    } else if u == "NUM"@ || u == "N"@ || u == "NUMBER"@ || u == "COUNT"@ || u == "SIZE"@ || u
        == "BYTES"@ || u == "WIDTH"@ || u == "COLS"@ {
        TypeV::Integer
    } else {
        TypeV::Text
    }
}

/// The value type an option argument's name stands for, read in uppercase.
pub open spec fn gnu_value_type(name: Seq<char>) -> TypeV {
    gnu_type_of_upper(upper(name))
}

/// The value type an option argument's name stands for.
pub fn infer_gnu_type(name: &str) -> (r: ValueType)
    ensures
        r@ == gnu_value_type(name@),
{
    let us = to_uppercase(name);
    gnu_type_from_upper(us.as_str())
}

/// The value type an option argument's name stands for, given in uppercase.
pub fn gnu_type_from_upper(upper_name: &str) -> (r: ValueType)
    ensures
        r@ == gnu_type_of_upper(upper_name@),
{
    let u = str_chars(upper_name);
    if eq_str(&u, "FILE") || eq_str(&u, "PATH") || eq_str(&u, "DIR") || eq_str(&u, "DIRECTORY") {
        ValueType::Path
    } else if eq_str(&u, "NUM") || eq_str(&u, "N") || eq_str(&u, "NUMBER") || eq_str(&u, "COUNT")
        || eq_str(&u, "SIZE") || eq_str(&u, "BYTES") || eq_str(&u, "WIDTH") || eq_str(
        &u,
        "COLS",
    ) {
        ValueType::Int
    } else {
        ValueType::String
    }
}

/// The value type a usage-line argument's name stands for.
pub open spec fn gnu_arg_type(name: Seq<char>) -> TypeV {
    if name == "FILE"@ || name == "FILES"@ || name == "SOURCE"@ || name == "DEST"@ || name
        == "DIRECTORY"@ {
        TypeV::FilePath
    } else {
        TypeV::Text
    }
}

/// The value type a usage-line argument's name stands for.
pub fn infer_gnu_arg_type(name: &str) -> (r: ValueType)
    ensures
        r@ == gnu_arg_type(name@),
{
    let u = str_chars(name);
    if eq_str(&u, "FILE") || eq_str(&u, "FILES") || eq_str(&u, "SOURCE") || eq_str(&u, "DEST")
        || eq_str(&u, "DIRECTORY") {
        ValueType::Path
    } else {
        ValueType::String
    }
}

// ------------------------------------------------------------------ options

/// The option that a match of `RE_GNU_FLAG` on `line` describes: groups 1
/// to 4 are the short name, the long name, the argument and the
/// description; an argument in `[=...]` is optional.
pub open spec fn gnu_flag_from(caps: Seq<Option<Seq<char>>>, line: Seq<char>) -> Option<FlagV> {
    match trimmed_group(caps, 4) {
        None => None,
        Some(description) => {
            let short = group(caps, 1);
            let long = group(caps, 2);
            let arg = group(caps, 3);
            if short is None && long is None {
                None
            } else {
                Some(
                    FlagV {
                        short,
                        long,
                        description,
                        value_type: match arg {
                            Some(a) => gnu_value_type(a),
                            None => TypeV::Boolean,
                        },
                        required: arg is Some && !has_infix(line, "[="@),
                        default: None,
                        env_var: None,
                    },
                )
            }
        },
    }
}

/// The option that an entry's text describes, if any.
pub open spec fn gnu_flag(line: Seq<char>) -> Option<FlagV> {
    match regex_captures(RE_GNU_FLAG@, line) {
        Some(c) => gnu_flag_from(c, line),
        None => None,
    }
}

/// The option that a match of `RE_GNU_FLAG` on `line` describes.
pub fn flag_from_captures(caps: &Vec<Option<std::string::String>>, line: &str) -> (r: Option<
    Flag,
>)
    ensures
        opt_flag_v(r) == gnu_flag_from(caps.deep_view(), line@),
{
    let description = match crate::common::trimmed_capture(caps, 4) {
        Some(d) => d,
        None => return None,
    };
    let short = get_group(caps, 1);
    let long = get_group(caps, 2);
    let arg = get_group(caps, 3);
    if short.is_none() && long.is_none() {
        return None;
    }
    let value_type = match &arg {
        Some(a) => infer_gnu_type(a.as_str()),
        None => ValueType::Bool,
    };
    let lc = str_chars(line);
    let required = arg.is_some() && !contains(&lc, "[=");
    Some(Flag { short, long, description, value_type, required, default: None, env_var: None })
}

/// The option that an entry's text describes, if any.
pub fn parse_gnu_flag(line: &str) -> (r: Option<Flag>)
    ensures
        opt_flag_v(r) == gnu_flag(line@),
{
    match captures(RE_GNU_FLAG, line) {
        Some(c) => flag_from_captures(&c, line),
        None => None,
    }
}

/// The options with the entry being read added where it parses.
pub open spec fn gnu_with_cur(flags: Seq<FlagV>, cur: Seq<char>) -> Seq<FlagV> {
    if cur.len() > 0 {
        match gnu_flag(cur) {
            Some(f) => flags.push(f),
            None => flags,
        }
    } else {
        flags
    }
}

/// The scan of lines `i..` for options: an indented line that begins with
/// `-` starts an entry, other indented text continues it, anything else
/// ends it. Gives the options and the entry being read.
pub open spec fn gnu_scan(ls: Seq<Seq<char>>, i: int, cur: Seq<char>, flags: Seq<FlagV>) -> (
    Seq<char>,
    Seq<FlagV>,
)
    decreases ls.len() - i,
{
    if i < 0 || i >= ls.len() {
        (cur, flags)
    } else {
        let t = trim(ls[i]);
        if starts_ch(t, '-') && starts_ch(ls[i], ' ') {
            gnu_scan(ls, i + 1, t, gnu_with_cur(flags, cur))
        } else if cur.len() > 0 && t.len() > 0 && starts_ch(ls[i], ' ') && !starts_ch(t, '-') {
            gnu_scan(ls, i + 1, cur + " "@ + t, flags)
        } else if cur.len() > 0 {
            gnu_scan(ls, i + 1, seq![], gnu_with_cur(flags, cur))
        } else {
            gnu_scan(ls, i + 1, cur, flags)
        }
    }
}

/// The options of the help output, `--help` and `--version` left out.
pub open spec fn gnu_options(h: Seq<char>) -> Seq<FlagV> {
    let (cur, flags) = gnu_scan(lines(h), 0, seq![], seq![]);
    drop_help_version(gnu_with_cur(flags, cur))
}

/// A line that starts an option entry: indented, its text beginning with `-`.
pub open spec fn gnu_entry_start(l: Seq<char>) -> bool {
    starts_ch(trim(l), '-') && starts_ch(l, ' ')
}

/// A line that goes on with the entry above it: indented, not blank, its
/// text not beginning with `-`.
pub open spec fn gnu_continuation(l: Seq<char>) -> bool {
    trim(l).len() > 0 && starts_ch(l, ' ') && !starts_ch(trim(l), '-')
}

/// The text of the entry that starts at line `i` and goes on over the `m`
/// lines after it: each line trimmed, one space between each two.
pub open spec fn entry_text(ls: Seq<Seq<char>>, i: int, m: nat) -> Seq<char>
    decreases m,
{
    if m == 0 {
        trim(ls[i])
    } else {
        entry_text(ls, i, (m - 1) as nat) + " "@ + trim(ls[i + m])
    }
}

/// Some state of the scan reaches line `i` from the start.
proof fn lemma_gnu_reach(ls: Seq<Seq<char>>, i: int) -> (st: (Seq<char>, Seq<FlagV>))
    requires
        0 <= i <= ls.len(),
    ensures
        gnu_scan(ls, 0, seq![], seq![]) == gnu_scan(ls, i, st.0, st.1),
    decreases i,
{
    if i == 0 {
        (seq![], seq![])
    } else {
        let p = lemma_gnu_reach(ls, i - 1);
        let (cur, flags) = p;
        let t = trim(ls[i - 1]);
        if starts_ch(t, '-') && starts_ch(ls[i - 1], ' ') {
            (t, gnu_with_cur(flags, cur))
        } else if cur.len() > 0 && t.len() > 0 && starts_ch(ls[i - 1], ' ') && !starts_ch(t, '-') {
            (cur + " "@ + t, flags)
        } else if cur.len() > 0 {
            (seq![], gnu_with_cur(flags, cur))
        } else {
            (cur, flags)
        }
    }
}

/// The options read so far are kept, in order, at the start of the final
/// options.
proof fn lemma_gnu_scan_extends(ls: Seq<Seq<char>>, i: int, cur: Seq<char>, flags: Seq<FlagV>)
    ensures
        flags.is_prefix_of(
            gnu_with_cur(gnu_scan(ls, i, cur, flags).1, gnu_scan(ls, i, cur, flags).0),
        ),
    decreases ls.len() - i,
{
    if i < 0 || i >= ls.len() {
        assert(flags.is_prefix_of(gnu_with_cur(flags, cur))) by {
            assert(gnu_with_cur(flags, cur).subrange(0, flags.len() as int) =~= flags);
        }
    } else {
        let t = trim(ls[i]);
        let w = gnu_with_cur(flags, cur);
        assert(flags.is_prefix_of(w)) by {
            assert(w.subrange(0, flags.len() as int) =~= flags);
        }
        lemma_gnu_scan_extends(ls, i + 1, t, w);
        lemma_gnu_scan_extends(ls, i + 1, cur + " "@ + t, flags);
        lemma_gnu_scan_extends(ls, i + 1, seq![], w);
        lemma_gnu_scan_extends(ls, i + 1, cur, flags);
        let r = gnu_scan(ls, i, cur, flags);
        let fin = gnu_with_cur(r.1, r.0);
        if starts_ch(t, '-') && starts_ch(ls[i], ' ') || (!(cur.len() > 0 && t.len() > 0
            && starts_ch(ls[i], ' ') && !starts_ch(t, '-')) && cur.len() > 0) {
            assert(fin.subrange(0, flags.len() as int) =~= w.subrange(0, flags.len() as int)) by {
                assert(fin.subrange(0, w.len() as int) == w);
                assert forall|k: int| 0 <= k < flags.len() implies fin[k] == w[k] by {
                    assert(fin.subrange(0, w.len() as int)[k] == fin[k]);
                }
            }
        }
    }
}

/// The continuation lines of an entry are read into its text.
proof fn lemma_gnu_continue(ls: Seq<Seq<char>>, i: int, q: nat, flags: Seq<FlagV>)
    requires
        0 <= i,
        i + q < ls.len(),
        gnu_entry_start(ls[i]),
        forall|j: int| i < j <= i + q ==> gnu_continuation(#[trigger] ls[j]),
    ensures
        entry_text(ls, i, q).len() > 0,
        gnu_scan(ls, i + 1, trim(ls[i]), flags) == gnu_scan(ls, i + q + 1, entry_text(ls, i, q), flags),
    decreases q,
{
    if q > 0 {
        lemma_gnu_continue(ls, i, (q - 1) as nat, flags);
        assert(gnu_continuation(ls[i + q]));
    }
}

/// The joined options keep every option that is not `--help` or
/// `--version`.
proof fn lemma_drop_keeps(fs: Seq<FlagV>, f: FlagV)
    requires
        fs.contains(f),
        !is_help_or_version(f),
    ensures
        drop_help_version(fs).contains(f),
    decreases fs.len(),
{
    if fs.last() == f {
        assert(drop_help_version(fs).last() == f);
    } else {
        let k = choose|k: int| 0 <= k < fs.len() && fs[k] == f;
        assert(fs.drop_last()[k] == f);
        lemma_drop_keeps(fs.drop_last(), f);
        if !is_help_or_version(fs.last()) {
            let d = drop_help_version(fs.drop_last());
            let j = choose|j: int| 0 <= j < d.len() && d[j] == f;
            assert(d.push(fs.last())[j] == f);
        }
    }
}

/// An option entry and its continuation lines make one option: the entry's
/// first line and each indented line after it that does not begin with `-`
/// are read, trimmed and joined by single spaces, into the text that the
/// option is parsed from, and that option is among the options of the help
/// output (unless it is `--help` or `--version`).
pub proof fn lemma_gnu_continuation_lines(h: Seq<char>, i: int, m: nat)
    requires
        0 <= i,
        i + m < lines(h).len(),
        gnu_entry_start(lines(h)[i]),
        forall|j: int| i < j <= i + m ==> gnu_continuation(#[trigger] lines(h)[j]),
        i + m + 1 == lines(h).len() || !gnu_continuation(lines(h)[i + m + 1]),
        gnu_flag(entry_text(lines(h), i, m)) is Some,
        !is_help_or_version(gnu_flag(entry_text(lines(h), i, m))->0),
    ensures
        gnu_options(h).contains(gnu_flag(entry_text(lines(h), i, m))->0),
{
    let ls = lines(h);
    let text = entry_text(ls, i, m);
    let f = gnu_flag(text)->0;
    let st0 = lemma_gnu_reach(ls, i);
    let f1 = gnu_with_cur(st0.1, st0.0);
    assert(gnu_scan(ls, i, st0.0, st0.1) == gnu_scan(ls, i + 1, trim(ls[i]), f1));
    lemma_gnu_continue(ls, i, m, f1);
    let j = i + m + 1;
    let f2 = f1.push(f);
    assert(gnu_with_cur(f1, text) == f2);
    let r = gnu_scan(ls, 0, seq![], seq![]);
    let fin = gnu_with_cur(r.1, r.0);
    if j == ls.len() {
        assert(r == (text, f1));
        assert(fin == f2);
    } else {
        let t = trim(ls[j]);
        if gnu_entry_start(ls[j]) {
            assert(r == gnu_scan(ls, j + 1, t, f2));
            lemma_gnu_scan_extends(ls, j + 1, t, f2);
        } else {
            assert(r == gnu_scan(ls, j + 1, seq![], f2));
            lemma_gnu_scan_extends(ls, j + 1, seq![], f2);
        }
        assert(fin.subrange(0, f2.len() as int) == f2);
        assert(fin[f1.len() as int] == f2.subrange(0, f2.len() as int)[f1.len() as int]);
    }
    assert(fin[f1.len() as int] == f);
    lemma_drop_keeps(fin, f);
}

/// Adds the option that `cur` describes, where there is one.
fn push_cur(flags: &mut Vec<Flag>, cur: &Vec<char>)
    ensures
        flags_v(final(flags)@) == gnu_with_cur(flags_v(old(flags)@), cur@),
{
    if cur.len() > 0 {
        let text = chars_to_string(cur);
        match parse_gnu_flag(text.as_str()) {
            Some(f) => {
                let ghost before = flags_v(flags@);
                flags.push(f);
                assert(flags_v(flags@) =~= before.push(f@));
            },
            None => {},
        }
    }
}

/// The options of the help output, `--help` and `--version` left out; an
/// entry may go on over indented lines.
pub fn parse_gnu_options(help_output: &str) -> (r: Vec<Flag>)
    ensures
        flags_v(r@) == gnu_options(help_output@),
        forall|k: int| 0 <= k < r@.len() ==> !is_help_or_version(#[trigger] r@[k]@),
{
    let h = str_chars(help_output);
    let ls = split_lines(&h);
    let ghost vs = views(ls@);
    let mut flags: Vec<Flag> = Vec::new();
    let mut cur: Vec<char> = Vec::new();
    let mut i: usize = 0;
    assert(flags_v(flags@) =~= seq![]);
    while i < ls.len()
        invariant
            vs == views(ls@),
            vs == lines(help_output@),
            i <= ls@.len(),
            gnu_scan(vs, i as int, cur@, flags_v(flags@)) == gnu_scan(vs, 0, seq![], seq![]),
        decreases ls@.len() - i,
    {
        let line = &ls[i];
        assert(vs[i as int] == line@);
        let t = trim_chars(line);
        if first_is(&t, '-') && first_is(line, ' ') {
            push_cur(&mut flags, &cur);
            cur = t;
        } else if cur.len() > 0 && t.len() > 0 && first_is(line, ' ') && !first_is(&t, '-') {
            let ghost before = cur@;
            cur.push(' ');
            proof {
                reveal_strlit(" ");
                assert(cur@ =~= before + " "@ + t@.take(0));
            }
            let mut k: usize = 0;
            while k < t.len()
                invariant
                    k <= t@.len(),
                    cur@ == before + " "@ + t@.take(k as int),
                decreases t@.len() - k,
            {
                cur.push(t[k]);
                k += 1;
                assert(cur@ =~= before + " "@ + t@.take(k as int));
            }
            assert(t@.take(t@.len() as int) =~= t@);
        } else if cur.len() > 0 {
            push_cur(&mut flags, &cur);
            cur = Vec::new();
        }
        i += 1;
    }
    push_cur(&mut flags, &cur);
    drop_help_and_version(flags)
}

// ---------------------------------------------------------------- arguments

/// The first usage line, trimmed, from line `i` on.
pub open spec fn usage_line_from(ls: Seq<Seq<char>>, i: int) -> Option<Seq<char>>
    decreases ls.len() - i,
{
    if i < 0 || i >= ls.len() {
        None
    } else if is_usage(trim(ls[i])) {
        Some(trim(ls[i]))
    } else {
        usage_line_from(ls, i + 1)
    }
}

/// The argument that one match of `RE_USAGE_ARG` names; `[OPTION]` and
/// `[OPTIONS]` are not arguments.
pub open spec fn usage_arg_from(caps: Seq<Option<Seq<char>>>) -> Option<ArgV> {
    match (group(caps, 1), group(caps, 0)) {
        (Some(name), Some(whole)) => if name == "OPTION"@ || name == "OPTIONS"@ || name.len()
            == 0 {
            None
        } else {
            Some(
                ArgV {
                    name,
                    description: seq![],
                    value_type: gnu_arg_type(name),
                    required: false,
                    variadic: has_infix(whole, "..."@),
                },
            )
        },
        _ => None,
    }
}

/// The arguments that the matches from match `j` on name.
pub open spec fn usage_args_of(ms: Seq<Seq<Option<Seq<char>>>>, j: int) -> Seq<ArgV>
    decreases ms.len() - j,
{
    if j < 0 || j >= ms.len() {
        seq![]
    } else {
        match usage_arg_from(ms[j]) {
            Some(a) => seq![a] + usage_args_of(ms, j + 1),
            None => usage_args_of(ms, j + 1),
        }
    }
}

/// The arguments named in brackets on the first usage line.
pub open spec fn gnu_usage_args(h: Seq<char>) -> Seq<ArgV> {
    match usage_line_from(lines(h), 0) {
        Some(t) => usage_args_of(regex_captures_all(RE_USAGE_ARG@, t), 0),
        None => seq![],
    }
}

/// The argument that one match of `RE_USAGE_ARG` names.
pub fn usage_arg_from_captures(caps: &Vec<Option<std::string::String>>) -> (r: Option<Arg>)
    ensures
        opt_arg_v(r) == usage_arg_from(caps.deep_view()),
{
    let name = match get_group(caps, 1) {
        Some(n) => n,
        None => return None,
    };
    let whole = match get_group(caps, 0) {
        Some(w) => w,
        None => return None,
    };
    let nc = str_chars(name.as_str());
    if eq_str(&nc, "OPTION") || eq_str(&nc, "OPTIONS") || nc.len() == 0 {
        return None;
    }
    let wc = str_chars(whole.as_str());
    let value_type = infer_gnu_arg_type(name.as_str());
    Some(
        Arg {
            name,
            description: std::string::String::new(),
            value_type,
            required: false,
            variadic: contains(&wc, "..."),
        },
    )
}

/// The arguments named in brackets on the first usage line.
pub fn parse_usage_args(help_output: &str) -> (r: Vec<Arg>)
    ensures
        args_v(r@) == gnu_usage_args(help_output@),
{
    let h = str_chars(help_output);
    let ls = split_lines(&h);
    let ghost vs = views(ls@);
    let mut i: usize = 0;
    while i < ls.len()
        invariant
            vs == views(ls@),
            vs == lines(help_output@),
            i <= ls@.len(),
            usage_line_from(vs, i as int) == usage_line_from(vs, 0),
        decreases ls@.len() - i,
    {
        assert(vs[i as int] == ls@[i as int]@);
        let t = trim_chars(&ls[i]);
        if starts_with(&t, "Usage:") || starts_with(&t, "usage:") {
            let ts = chars_to_string(&t);
            let ms = captures_all(RE_USAGE_ARG, ts.as_str());
            let ghost msv = ms.deep_view();
            let mut args: Vec<Arg> = Vec::new();
            let mut j: usize = 0;
            while j < ms.len()
                invariant
                    msv == ms.deep_view(),
                    j <= ms@.len(),
                    args_v(args@) + usage_args_of(msv, j as int) == usage_args_of(msv, 0),
                decreases ms@.len() - j,
            {
                assert(msv[j as int] == ms@[j as int].deep_view());
                match usage_arg_from_captures(&ms[j]) {
                    Some(a) => {
                        let ghost before = args_v(args@);
                        args.push(a);
                        assert(args_v(args@) =~= before.push(a@));
                        assert(before + usage_args_of(msv, j as int) =~= args_v(args@)
                            + usage_args_of(msv, j + 1));
                    },
                    None => {},
                }
                j += 1;
            }
            assert(args_v(args@) + usage_args_of(msv, j as int) =~= args_v(args@));
            return args;
        }
        i += 1;
    }
    Vec::new()
}

// ---------------------------------------------------------------- the parser

/// `t` is what the GNU parser makes of help output `h` for a tool named
/// `name`: the usage arguments, where there are some, go to one command
/// named after the tool.
pub open spec fn gnu_tool(t: ToolSpec, name: Seq<char>, h: Seq<char>) -> bool {
    &&& t.name@ == name
    &&& t.version.deep_view() == gnu_version(h)
    &&& t.description@ == gnu_description(h)
    &&& t.framework == Framework::GnuStyle
    &&& flags_v(t.global_flags@) == gnu_options(h)
    &&& t.groups@.len() == 0
    &&& if gnu_usage_args(h).len() == 0 {
        t.commands@.len() == 0
    } else {
        &&& t.commands@.len() == 1
        &&& t.commands@[0].name@ == name
        &&& t.commands@[0].description@ == gnu_description(h)
        &&& args_v(t.commands@[0].args@) == gnu_usage_args(h)
        &&& t.commands@[0].aliases@.len() == 0
        &&& t.commands@[0].subcommands@.len() == 0
        &&& t.commands@[0].flags@.len() == 0
        &&& t.commands@[0].examples@.len() == 0
    }
}

impl Parser for GnuParser {
    fn name(&self) -> (r: &'static str)
        ensures
            r@ == "gnu"@,
    {
        "gnu"
    }

    fn framework(&self) -> (r: Framework)
        ensures
            r == Framework::GnuStyle,
    {
        Framework::GnuStyle
    }

    fn detect(&self, help_output: &str) -> (r: bool)
        ensures
            r == gnu_detects(help_output@),
    {
        gnu_detect(help_output)
    }

    fn parse<F: Fn(&str) -> Option<std::string::String>>(
        &self,
        binary_name: &str,
        help_output: &str,
        _sub_help: &F,
    ) -> (r: Result<ToolSpec, CliError>)
        ensures
            r matches Ok(t) && gnu_tool(t, binary_name@, help_output@),
    {
        let description = parse_description(help_output);
        let global_flags = parse_gnu_options(help_output);
        let args = parse_usage_args(help_output);
        let mut commands: Vec<Command> = Vec::new();
        if args.len() > 0 {
            let mut root = bare_command(owned(binary_name), description.clone());
            root.args = args;
            commands.push(root);
        }
        Ok(
            ToolSpec {
                name: owned(binary_name),
                version: parse_version(help_output),
                description,
                framework: Framework::GnuStyle,
                commands,
                global_flags,
                groups: Vec::new(),
            },
        )
    }
}

} // verus!
