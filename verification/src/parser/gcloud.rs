//! The parser for the help output of `gcloud`, with its upper-case
//! sections and five-space indented entries.
use vstd::prelude::*;

use crate::common::{
    bare_command, drop_help_and_version, drop_help_version, flags_v, groups_v, is_help_or_version,
    join_path, lemma_nests_from_children, lemma_nests_leaf, nests_within, sub_path,
};
use crate::security::MAX_SUBCOMMAND_DEPTH;
use crate::ir::{
    strs_v, Command, CommandGroup, Flag, FlagV, Framework, GroupV, ToolSpec, TypeV, ValueType,
};
use crate::parser::{CliError, Parser};
use crate::pattern::{captures, get_group, group, regex_captures};
use crate::text::{
    chars_to_string, contains, eq_str, first_is, has_infix, join, join_chars, lines, owned,
    space_join, split_lines, starts_ch, starts_with, str_chars, trim, trim_chars, views,
};

verus! {

/// A flag line: five spaces, `--name`, maybe `=VALUE`.
pub const RE_GCLOUD_FLAG: &'static str = r"^\s{5}(--[\w-]+)(?:=([\w\[\],._]+))?\s*$";

/// A flag line with a short name: five spaces, `-q, --quiet`.
pub const RE_GCLOUD_SHORT: &'static str = r"^\s{5}(-\w),\s+(--[\w-]+)";

/// A command or group line: five spaces and one word.
pub const RE_GCLOUD_ENTRY: &'static str = r"^\s{5}([\w][\w-]*)\s*$";

/// The parser for `gcloud` help output.
pub struct GcloudParser;

// ---------------------------------------------------------------- detection

/// Help output that looks like `gcloud`'s.
pub open spec fn gcloud_detects(h: Seq<char>) -> bool {
    has_infix(h, "NAME"@) && has_infix(h, "SYNOPSIS"@) && (has_infix(h, "GLOBAL FLAGS"@)
        || has_infix(h, "GCLOUD WIDE FLAGS"@))
}

/// Whether the help output looks like `gcloud`'s.
pub fn gcloud_detect(help_output: &str) -> (r: bool)
    ensures
        r == gcloud_detects(help_output@),
{
    let h = str_chars(help_output);
    contains(&h, "NAME") && contains(&h, "SYNOPSIS") && (contains(&h, "GLOBAL FLAGS") || contains(
        &h,
        "GCLOUD WIDE FLAGS",
    ))
}

// -------------------------------------------------------------- description

/// The trimmed non-empty lines of the `DESCRIPTION` section from line `i`
/// on.
pub open spec fn gcloud_desc_from(ls: Seq<Seq<char>>, i: int, inside: bool) -> Seq<Seq<char>>
    decreases ls.len() - i,
{
    if i < 0 || i >= ls.len() {
        seq![]
    } else {
        let t = trim(ls[i]);
        if t == "DESCRIPTION"@ {
            gcloud_desc_from(ls, i + 1, true)
        } else if inside && t.len() > 0 && !starts_ch(ls[i], ' ') {
            seq![]
        } else if inside && t.len() > 0 {
            seq![t] + gcloud_desc_from(ls, i + 1, inside)
        } else {
            gcloud_desc_from(ls, i + 1, inside)
        }
    }
}

/// The description: the `DESCRIPTION` section, trimmed and joined by spaces.
pub open spec fn gcloud_description(h: Seq<char>) -> Seq<char> {
    join(gcloud_desc_from(lines(h), 0, false), " "@)
}

/// The text of the `DESCRIPTION` section.
pub fn parse_gcloud_description(help_output: &str) -> (r: std::string::String)
    ensures
        r@ == gcloud_description(help_output@),
{
    let h = str_chars(help_output);
    let ls = split_lines(&h);
    let ghost vs = views(ls@);
    let mut parts: Vec<Vec<char>> = Vec::new();
    let mut inside = false;
    let mut i: usize = 0;
    while i < ls.len()
        invariant
            vs == views(ls@),
            vs == lines(help_output@),
            i <= ls@.len(),
            views(parts@) + gcloud_desc_from(vs, i as int, inside) == gcloud_desc_from(vs, 0, false),
        ensures
            views(parts@) == gcloud_desc_from(vs, 0, false),
        decreases ls@.len() - i,
    {
        let line = &ls[i];
        assert(vs[i as int] == line@);
        let t = trim_chars(line);
        if eq_str(&t, "DESCRIPTION") {
            inside = true;
        } else if inside && t.len() > 0 && !first_is(line, ' ') {
            assert(views(parts@) + seq![] =~= views(parts@));
            break;
        } else if inside && t.len() > 0 {
            let ghost before = views(parts@);
            parts.push(t);
            assert(views(parts@) =~= before.push(trim(vs[i as int])));
            assert(before + gcloud_desc_from(vs, i as int, inside) =~= views(parts@)
                + gcloud_desc_from(vs, i + 1, inside));
        }
        i += 1;
        if i >= ls.len() {
            assert(views(parts@) + gcloud_desc_from(vs, i as int, inside) =~= views(parts@));
        }
    }
    let joined = join_chars(&parts, " ");
    chars_to_string(&joined)
}

// -------------------------------------------------------------------- flags

/// The flag `long`, with an optional short name and value, described by
/// `desc`: a value makes it a string flag, none a boolean one.
pub open spec fn gcloud_flag(
    short: Option<Seq<char>>,
    long: Seq<char>,
    value: Option<Seq<char>>,
    desc: Seq<char>,
) -> FlagV {
    FlagV {
        short,
        long: Some(long),
        description: desc,
        value_type: if value is Some {
            TypeV::Text
        } else {
            TypeV::Boolean
        },
        required: false,
        default: None,
        env_var: None,
    }
}

/// A flag written with `=VALUE` takes a text value; only a flag written
/// without one is a switch. Either way it keeps its names and description
/// and is optional.
pub proof fn lemma_gcloud_flag_value_type(
    short: Option<Seq<char>>,
    long: Seq<char>,
    value: Option<Seq<char>>,
    desc: Seq<char>,
)
    ensures
        (gcloud_flag(short, long, value, desc).value_type is Boolean) <==> value is None,
        value is Some ==> gcloud_flag(short, long, value, desc).value_type == TypeV::Text,
        gcloud_flag(short, long, value, desc).long == Some(long),
        gcloud_flag(short, long, value, desc).short == short,
        gcloud_flag(short, long, value, desc).description == desc,
        !gcloud_flag(short, long, value, desc).required,
{
}

/// Builds the flag `long`, with an optional short name and value, described
/// by `desc`.
pub fn build_flag(short: Option<&str>, long: &str, value_hint: Option<&str>, desc: &str) -> (r:
    Flag)
    ensures
        r@ == gcloud_flag(
            match short {
                Some(s) => Some(s@),
                None => None,
            },
            long@,
            match value_hint {
                Some(v) => Some(v@),
                None => None,
            },
            desc@,
        ),
{
    let value_type = if value_hint.is_some() {
        ValueType::String
    } else {
        ValueType::Bool
    };
    Flag {
        short: match short {
            Some(s) => Some(owned(s)),
            None => None,
        },
        long: Some(owned(long)),
        description: owned(desc),
        value_type,
        required: false,
        default: None,
        env_var: None,
    }
}

/// The flag being read: its long name, its value, and its short name (empty
/// where there is none).
pub struct Pending {
    pub long: Seq<char>,
    pub value: Option<Seq<char>>,
    pub short: Seq<char>,
}

/// What the scan of a flags section has seen so far.
pub struct FlagScan {
    pub in_section: bool,
    pub current: Option<Pending>,
    pub desc: Seq<char>,
    pub flags: Seq<FlagV>,
}

/// The pending flag added, its short name kept where it has one.
pub open spec fn flush(st: FlagScan) -> FlagScan {
    match st.current {
        Some(p) => FlagScan {
            current: None,
            desc: seq![],
            flags: st.flags.push(
                gcloud_flag(
                    if p.short.len() == 0 {
                        None
                    } else {
                        Some(p.short)
                    },
                    p.long,
                    p.value,
                    st.desc,
                ),
            ),
            ..st
        },
        None => st,
    }
}

/// The long and short names on a `-q, --quiet` line.
pub open spec fn short_line(line: Seq<char>) -> Option<(Seq<char>, Seq<char>)> {
    match regex_captures(RE_GCLOUD_SHORT@, line) {
        Some(c) => match (group(c, 2), group(c, 1)) {
            (Some(l), Some(s)) => Some((l, s)),
            _ => None,
        },
        None => None,
    }
}

/// The long name and value on a `--flag=VALUE` line.
pub open spec fn flag_line(line: Seq<char>) -> Option<(Seq<char>, Option<Seq<char>>)> {
    match regex_captures(RE_GCLOUD_FLAG@, line) {
        Some(c) => match group(c, 1) {
            Some(l) => Some((l, group(c, 2))),
            None => None,
        },
        None => None,
    }
}

/// A description line: indented by eight spaces or more.
pub open spec fn is_desc_line(line: Seq<char>) -> bool {
    "        "@.is_prefix_of(line)
}

/// The description with one more line added.
pub open spec fn add_desc(desc: Seq<char>, t: Seq<char>) -> Seq<char> {
    if desc.len() > 0 {
        desc + " "@ + t
    } else {
        t
    }
}

/// A line that closes the flags section headed by `section`.
pub open spec fn flags_stop(st: FlagScan, section: Seq<char>, line: Seq<char>) -> bool {
    let t = trim(line);
    t != section && st.in_section && t.len() > 0 && !starts_ch(line, ' ')
}

/// One line of the flags section headed by `section` that does not close it.
pub open spec fn flags_step(st: FlagScan, section: Seq<char>, line: Seq<char>) -> FlagScan {
    let t = trim(line);
    if t == section {
        FlagScan { in_section: true, ..st }
    } else if !st.in_section {
        st
    } else if short_line(line) is Some {
        let (l, s) = short_line(line)->0;
        FlagScan { current: Some(Pending { long: l, value: None, short: s }), ..flush(st) }
    } else if flag_line(line) is Some {
        let (l, v) = flag_line(line)->0;
        FlagScan { current: Some(Pending { long: l, value: v, short: seq![] }), ..flush(st) }
    } else if is_desc_line(line) && st.current is Some {
        FlagScan { desc: add_desc(st.desc, t), ..st }
    } else {
        st
    }
}

/// The scan of lines `i..` of the flags section headed by `section`.
pub open spec fn flags_scan(ls: Seq<Seq<char>>, section: Seq<char>, i: int, st: FlagScan) -> FlagScan
    decreases ls.len() - i,
{
    if i < 0 || i >= ls.len() {
        st
    } else if flags_stop(st, section, ls[i]) {
        flush(st)
    } else {
        flags_scan(ls, section, i + 1, flags_step(st, section, ls[i]))
    }
}

/// The flags of the section headed by `section`, `--help` and `--version`
/// left out.
pub open spec fn gcloud_flags(h: Seq<char>, section: Seq<char>) -> Seq<FlagV> {
    let st = flags_scan(
        lines(h),
        section,
        0,
        FlagScan { in_section: false, current: None, desc: seq![], flags: seq![] },
    );
    drop_help_version(flush(st).flags)
}

/// The exec scan's pending flag, seen as a `Pending`.
pub open spec fn pending_v(
    current: Option<(std::string::String, Option<std::string::String>, std::string::String)>,
) -> Option<Pending> {
    match current {
        Some((l, v, s)) => Some(Pending { long: l@, value: v.deep_view(), short: s@ }),
        None => None,
    }
}

/// Adds the pending flag, with its short name where it has one.
fn flush_pending(
    flags: &mut Vec<Flag>,
    current: &mut Option<(std::string::String, Option<std::string::String>, std::string::String)>,
    desc: &mut Vec<char>,
)
    ensures
        ({
            let st = FlagScan {
                in_section: true,
                current: pending_v(*old(current)),
                desc: old(desc)@,
                flags: flags_v(old(flags)@),
            };
            let after = flush(st);
            &&& flags_v(final(flags)@) == after.flags
            &&& pending_v(*final(current)) == after.current
            &&& final(desc)@ == after.desc
        }),
{
    let taken = current.take();
    match taken {
        Some((long, value, short)) => {
            let ds = chars_to_string(desc);
            let sc = str_chars(short.as_str());
            let v: Option<&str> = match &value {
                Some(x) => Some(x.as_str()),
                None => None,
            };
            let f = if sc.len() > 0 {
                build_flag(Some(short.as_str()), long.as_str(), v, ds.as_str())
            } else {
                build_flag(None, long.as_str(), v, ds.as_str())
            };
            let ghost before = flags_v(flags@);
            flags.push(f);
            assert(flags_v(flags@) =~= before.push(f@));
            *desc = Vec::new();
        },
        None => {},
    }
}


/// The flags of the section headed by `section`, `--help` and `--version`
/// left out. A flag is read from its `--name[=VALUE]` or `-s, --name` line
/// and the eight-space indented lines after it.
pub fn parse_gcloud_flags(help_output: &str, section: &str) -> (r: Vec<Flag>)
    ensures
        flags_v(r@) == gcloud_flags(help_output@, section@),
        forall|k: int| 0 <= k < r@.len() ==> !is_help_or_version(#[trigger] r@[k]@),
{
    let h = str_chars(help_output);
    let ls = split_lines(&h);
    let ghost vs = views(ls@);
    let ghost sec = section@;
    let ghost init = FlagScan { in_section: false, current: None, desc: seq![], flags: seq![] };
    let mut flags: Vec<Flag> = Vec::new();
    let mut in_section = false;
    let mut current: Option<
        (std::string::String, Option<std::string::String>, std::string::String),
    > = None;
    let mut desc: Vec<char> = Vec::new();
    let mut i: usize = 0;
    assert(flags_v(flags@) =~= seq![]);
    while i < ls.len()
        invariant_except_break
            flags_scan(
                vs,
                sec,
                i as int,
                FlagScan {
                    in_section,
                    current: pending_v(current),
                    desc: desc@,
                    flags: flags_v(flags@),
                },
            ) == flags_scan(vs, sec, 0, init),
        invariant
            vs == views(ls@),
            vs == lines(help_output@),
            sec == section@,
            i <= ls@.len(),
        ensures
            (FlagScan {
                in_section,
                current: pending_v(current),
                desc: desc@,
                flags: flags_v(flags@),
            }) == flags_scan(vs, sec, 0, init),
        decreases ls@.len() - i,
    {
        let line = &ls[i];
        assert(vs[i as int] == line@);
        let t = trim_chars(line);
        let ls_str = chars_to_string(line);
        if eq_str(&t, section) {
            in_section = true;
        } else if in_section && t.len() > 0 && !first_is(line, ' ') {
            flush_pending(&mut flags, &mut current, &mut desc);
            break;
        } else if !in_section {
        } else {
            let short_caps = match captures(RE_GCLOUD_SHORT, ls_str.as_str()) {
                Some(c) => match (get_group(&c, 2), get_group(&c, 1)) {
                    (Some(l), Some(sh)) => Some((l, sh)),
                    _ => None,
                },
                None => None,
            };
            match short_caps {
                Some((l, sh)) => {
                    flush_pending(&mut flags, &mut current, &mut desc);
                    current = Some((l, None, sh));
                },
                None => {
                    let flag_caps = match captures(RE_GCLOUD_FLAG, ls_str.as_str()) {
                        Some(c) => match get_group(&c, 1) {
                            Some(l) => Some((l, get_group(&c, 2))),
                            None => None,
                        },
                        None => None,
                    };
                    match flag_caps {
                        Some((l, v)) => {
                            flush_pending(&mut flags, &mut current, &mut desc);
                            current = Some((l, v, std::string::String::new()));
                        },
                        None => {
                            if starts_with(line, "        ") && current.is_some() {
                                if desc.len() > 0 {
                                    let ghost before = desc@;
                                    desc.push(' ');
                                    proof {
                                        reveal_strlit(" ");
                                        assert(desc@ =~= before + " "@);
                                    }
                                }
                                let ghost mid = desc@;
                                let mut k: usize = 0;
                                while k < t.len()
                                    invariant
                                        k <= t@.len(),
                                        desc@ == mid + t@.take(k as int),
                                    decreases t@.len() - k,
                                {
                                    desc.push(t[k]);
                                    k += 1;
                                    assert(desc@ =~= mid + t@.take(k as int));
                                }
                                assert(t@.take(t@.len() as int) =~= t@);
                            }
                        },
                    }
                },
            }
        }
        i += 1;
    }
    flush_pending(&mut flags, &mut current, &mut desc);
    drop_help_and_version(flags)
}

// ----------------------------------------------------------------- commands

/// A command being read: its name, and its description so far.
pub struct SecScan {
    pub in_section: bool,
    pub current: Option<Seq<char>>,
    pub desc: Seq<char>,
    pub names: Seq<Seq<char>>,
    pub descs: Seq<Seq<char>>,
}

/// The pending command added.
pub open spec fn sec_flush(st: SecScan) -> SecScan {
    match st.current {
        Some(n) => SecScan {
            current: None,
            desc: seq![],
            names: st.names.push(n),
            descs: st.descs.push(st.desc),
            ..st
        },
        None => st,
    }
}

/// The name on a five-space indented one-word line.
pub open spec fn entry_line(line: Seq<char>) -> Option<Seq<char>> {
    match regex_captures(RE_GCLOUD_ENTRY@, line) {
        Some(c) => group(c, 1),
        None => None,
    }
}

/// A line that closes the section headed by `section`.
pub open spec fn sec_stop(st: SecScan, section: Seq<char>, line: Seq<char>) -> bool {
    let t = trim(line);
    t != section && st.in_section && t.len() > 0 && !starts_ch(line, ' ')
}

/// One line of the section headed by `section` that does not close it.
pub open spec fn sec_step(st: SecScan, section: Seq<char>, line: Seq<char>) -> SecScan {
    let t = trim(line);
    if t == section {
        SecScan { in_section: true, ..st }
    } else if !st.in_section || has_infix(t, "is one of the following"@) {
        st
    } else if entry_line(line) is Some {
        SecScan { current: entry_line(line), ..sec_flush(st) }
    } else if is_desc_line(line) && st.current is Some {
        SecScan { desc: add_desc(st.desc, t), ..st }
    } else {
        st
    }
}

/// The scan of lines `i..` of the section headed by `section`.
pub open spec fn sec_scan(ls: Seq<Seq<char>>, section: Seq<char>, i: int, st: SecScan) -> SecScan
    decreases ls.len() - i,
{
    if i < 0 || i >= ls.len() {
        st
    } else if sec_stop(st, section, ls[i]) {
        sec_flush(st)
    } else {
        sec_scan(ls, section, i + 1, sec_step(st, section, ls[i]))
    }
}

/// The names and descriptions of the entries of the section headed by
/// `section`.
pub open spec fn gcloud_section(h: Seq<char>, section: Seq<char>) -> SecScan {
    sec_flush(
        sec_scan(
            lines(h),
            section,
            0,
            SecScan { in_section: false, current: None, desc: seq![], names: seq![], descs: seq![] },
        ),
    )
}

/// `c` carries the flags that the help output `o` of its command lists under
/// `FLAGS`.
pub open spec fn gcloud_fills(c: Command, o: Seq<char>) -> bool {
    flags_v(c.flags@) == gcloud_flags(o, "FLAGS"@)
}

/// `c` is the command named `n` and described by `d` at `depth`, below the
/// command at `path` (empty for the tool itself). At the depth limit it has
/// only its name and description. Below it, `sub_help` is called with the
/// command's path: it has only its name and description where that call may
/// give nothing, or also the flags and the entries of a help output that
/// the call may give, each entry being, in turn, such a command one level
/// deeper.
pub open spec fn gcloud_command_ok<F: Fn(&str) -> Option<std::string::String>>(
    c: Command,
    n: Seq<char>,
    d: Seq<char>,
    depth: int,
    sub_help: F,
    path: Seq<char>,
) -> bool
    decreases MAX_SUBCOMMAND_DEPTH - depth,
{
    let key = sub_path(path, n);
    &&& c.name@ == n
    &&& c.description@ == d
    &&& c.aliases@.len() == 0
    &&& c.args@.len() == 0
    &&& c.examples@.len() == 0
    &&& if depth >= MAX_SUBCOMMAND_DEPTH {
        c.subcommands@.len() == 0 && c.flags@.len() == 0
    } else {
        ||| (c.subcommands@.len() == 0 && c.flags@.len() == 0 && exists|s: &str|
            s@ == key && #[trigger] sub_help.ensures((s,), None::<std::string::String>))
        ||| exists|s: &str, o: std::string::String|
            {
                &&& s@ == key
                &&& #[trigger] sub_help.ensures((s,), Some(o))
                &&& gcloud_fills(c, o@)
                &&& c.subcommands@.len() == gcloud_names(o@).len()
                &&& forall|k: int|
                    0 <= k < c.subcommands@.len() ==> gcloud_command_ok(
                        #[trigger] c.subcommands@[k],
                        gcloud_names(o@)[k],
                        gcloud_descs(o@)[k],
                        depth + 1,
                        sub_help,
                        key,
                    )
            }
    }
    &&& nests_within(c@, MAX_SUBCOMMAND_DEPTH - depth)
}

/// The command of a `gcloud` entry at `depth`, below the command at `path`:
/// its name and description, and, below the depth limit, the flags and
/// entries of its own help, as `sub_help` gives it for the command's path.
pub fn make_cmd<F: Fn(&str) -> Option<std::string::String>>(
    name: &str,
    desc: &str,
    binary_name: &str,
    path: &str,
    sub_help: &F,
    depth: usize,
) -> (r: Command)
    requires
        forall|s: &str| sub_help.requires((s,)),
    ensures
        gcloud_command_ok(r, name@, desc@, depth as int, *sub_help, path@),
    decreases MAX_SUBCOMMAND_DEPTH - depth, 0nat,
{
    let mut cmd = bare_command(owned(name), owned(desc));
    if depth < MAX_SUBCOMMAND_DEPTH {
        let key = join_path(path, name);
        let ks = key.as_str();
        let reply = sub_help(ks);
        assert(sub_help.ensures((ks,), reply));
        match reply {
            Some(out) => {
                let sub_key = space_join(binary_name, name);
                let (subs, _) = parse_gcloud_commands_under(
                    out.as_str(),
                    sub_key.as_str(),
                    key.as_str(),
                    sub_help,
                    depth + 1,
                );
                cmd.subcommands = subs;
                cmd.flags = parse_gcloud_flags(out.as_str(), "FLAGS");
                assert(gcloud_fills(cmd, out@));
                proof {
                    lemma_nests_from_children(cmd, MAX_SUBCOMMAND_DEPTH - depth);
                }
            },
            None => {
                proof {
                    lemma_nests_leaf(cmd, MAX_SUBCOMMAND_DEPTH - depth);
                }
            },
        }
    } else {
        proof {
            lemma_nests_leaf(cmd, MAX_SUBCOMMAND_DEPTH - depth);
        }
    }
    cmd
}

/// Adds the pending command.
fn flush_entry<F: Fn(&str) -> Option<std::string::String>>(
    commands: &mut Vec<Command>,
    names: &mut Vec<std::string::String>,
    current: &mut Option<std::string::String>,
    desc: &mut Vec<char>,
    binary_name: &str,
    path: &str,
    sub_help: &F,
    depth: usize,
)
    requires
        old(commands)@.len() == old(names)@.len(),
        forall|s: &str| sub_help.requires((s,)),
    ensures
        ({
            let st = SecScan {
                in_section: true,
                current: old(current).deep_view(),
                desc: old(desc)@,
                names: strs_v(old(names)@),
                descs: seq![],
            };
            let after = sec_flush(st);
            &&& strs_v(final(names)@) == after.names
            &&& final(current).deep_view() == after.current
            &&& final(desc)@ == after.desc
        }),
        final(commands)@.len() == final(names)@.len(),
        forall|k: int|
            0 <= k < old(commands)@.len() ==> #[trigger] final(commands)@[k] == old(commands)@[k],
        *old(current) is Some ==> gcloud_command_ok(
            final(commands)@[old(commands)@.len() as int],
            (*old(current))->0@,
            old(desc)@,
            depth as int,
            *sub_help,
            path@,
        ),
    decreases MAX_SUBCOMMAND_DEPTH - depth, 1nat,
{
    let taken = current.take();
    match taken {
        Some(name) => {
            let ghost before = strs_v(names@);
            names.push(name.clone());
            assert(strs_v(names@) =~= before.push(name@));
            let ds = chars_to_string(desc);
            commands.push(make_cmd(name.as_str(), ds.as_str(), binary_name, path, sub_help, depth));
            *desc = Vec::new();
        },
        None => {},
    }
}


/// The commands of the section headed by `section`, with their names in
/// order.
pub fn parse_gcloud_section<F: Fn(&str) -> Option<std::string::String>>(
    help_output: &str,
    section: &str,
    binary_name: &str,
    path: &str,
    sub_help: &F,
    depth: usize,
) -> (r: (Vec<Command>, Vec<std::string::String>))
    requires
        forall|s: &str| sub_help.requires((s,)),
    ensures
        strs_v(r.1@) == gcloud_section(help_output@, section@).names,
        gcloud_section(help_output@, section@).descs.len() == r.1@.len(),
        r.0@.len() == r.1@.len(),
        forall|k: int|
            0 <= k < r.0@.len() ==> gcloud_command_ok(
                #[trigger] r.0@[k],
                gcloud_section(help_output@, section@).names[k],
                gcloud_section(help_output@, section@).descs[k],
                depth as int,
                *sub_help,
                path@,
            ),
    decreases MAX_SUBCOMMAND_DEPTH - depth, 2nat,
{
    let h = str_chars(help_output);
    let ls = split_lines(&h);
    let ghost vs = views(ls@);
    let ghost sec = section@;
    let ghost init = SecScan {
        in_section: false,
        current: None,
        desc: seq![],
        names: seq![],
        descs: seq![],
    };
    let mut commands: Vec<Command> = Vec::new();
    let mut names: Vec<std::string::String> = Vec::new();
    let mut in_section = false;
    let mut current: Option<std::string::String> = None;
    let mut desc: Vec<char> = Vec::new();
    let ghost mut descs: Seq<Seq<char>> = seq![];
    let mut i: usize = 0;
    assert(strs_v(names@) =~= seq![]);
    while i < ls.len()
        invariant_except_break
            sec_scan(
                vs,
                sec,
                i as int,
                SecScan {
                    in_section,
                    current: current.deep_view(),
                    desc: desc@,
                    names: strs_v(names@),
                    descs,
                },
            ) == sec_scan(vs, sec, 0, init),
        invariant
            vs == views(ls@),
            vs == lines(help_output@),
            sec == section@,
            i <= ls@.len(),
            commands@.len() == names@.len(),
            descs.len() == names@.len(),
            forall|k: int|
                0 <= k < commands@.len() ==> gcloud_command_ok(
                    #[trigger] commands@[k],
                    names@[k]@,
                    descs[k],
                    depth as int,
                    *sub_help,
                    path@,
                ),
            forall|s: &str| sub_help.requires((s,)),
        ensures
            sec_flush(
                SecScan {
                    in_section,
                    current: current.deep_view(),
                    desc: desc@,
                    names: strs_v(names@),
                    descs,
                },
            ) == sec_flush(sec_scan(vs, sec, 0, init)),
        decreases ls@.len() - i,
    {
        let line = &ls[i];
        assert(vs[i as int] == line@);
        let t = trim_chars(line);
        let ls_str = chars_to_string(line);
        let ghost st = SecScan {
            in_section,
            current: current.deep_view(),
            desc: desc@,
            names: strs_v(names@),
            descs,
        };
        if eq_str(&t, section) {
            in_section = true;
        } else if in_section && t.len() > 0 && !first_is(line, ' ') {
            let ghost cb = commands@;
    let ghost nb = names@;
            let ghost was = current.deep_view();
            let ghost d0 = desc@;
            flush_entry(
        &mut commands,
        &mut names,
        &mut current,
        &mut desc,
        binary_name,
        path,
        sub_help,
        depth,
    );
            proof {
                if was is Some {
                    descs = descs.push(d0);
                }
                assert(strs_v(names@).len() == names@.len());
                assert(was is None ==> commands@.len() == cb.len());
                assert forall|k: int| 0 <= k < commands@.len() implies gcloud_command_ok(
                    #[trigger] commands@[k],
                    names@[k]@,
                    descs[k],
                    depth as int,
                    *sub_help,
                    path@,
                ) by {
                    if k < cb.len() {
                        assert(commands@[k] == cb[k]);
                assert(strs_v(names@)[k] == names@[k]@);
                assert(strs_v(nb)[k] == nb[k]@);
                    } else {
                        assert(strs_v(names@)[k] == names@[k]@);
                        assert(k == cb.len());
                        assert(gcloud_command_ok(commands@[cb.len() as int], was->0, d0, depth as int, *sub_help, path@));
                    }
                }
                assert(sec_flush(st).descs == descs);
            }
            break;
        } else if !in_section || contains(&t, "is one of the following") {
        } else {
            let entry = match captures(RE_GCLOUD_ENTRY, ls_str.as_str()) {
                Some(c) => get_group(&c, 1),
                None => None,
            };
            match entry {
                Some(n) => {
                    let ghost cb = commands@;
    let ghost nb = names@;
                    let ghost was = current.deep_view();
                    let ghost d0 = desc@;
                    flush_entry(
                        &mut commands,
                        &mut names,
                        &mut current,
                        &mut desc,
                        binary_name,
                        path,
                        sub_help,
                        depth,
                    );
                    proof {
                        if was is Some {
                            descs = descs.push(d0);
                        }
                        assert(strs_v(names@).len() == names@.len());
                        assert(was is None ==> commands@.len() == cb.len());
                        assert forall|k: int| 0 <= k < commands@.len() implies gcloud_command_ok(
                            #[trigger] commands@[k],
                            names@[k]@,
                            descs[k],
                            depth as int,
                            *sub_help,
                            path@,
                        ) by {
                            if k < cb.len() {
                                assert(commands@[k] == cb[k]);
                assert(strs_v(names@)[k] == names@[k]@);
                assert(strs_v(nb)[k] == nb[k]@);
                            } else {
                                assert(strs_v(names@)[k] == names@[k]@);
                                assert(k == cb.len());
                                assert(gcloud_command_ok(commands@[cb.len() as int], was->0, d0, depth as int, *sub_help, path@));
                            }
                        }
                    }
                    current = Some(n);
                },
                None => {
                    if starts_with(line, "        ") && current.is_some() {
                        if desc.len() > 0 {
                            let ghost before = desc@;
                            desc.push(' ');
                            proof {
                                reveal_strlit(" ");
                                assert(desc@ =~= before + " "@);
                            }
                        }
                        let ghost mid = desc@;
                        let mut k: usize = 0;
                        while k < t.len()
                            invariant
                                k <= t@.len(),
                                desc@ == mid + t@.take(k as int),
                            decreases t@.len() - k,
                        {
                            desc.push(t[k]);
                            k += 1;
                            assert(desc@ =~= mid + t@.take(k as int));
                        }
                        assert(t@.take(t@.len() as int) =~= t@);
                    }
                },
            }
        }
        i += 1;
    }
    let ghost cb = commands@;
    let ghost nb = names@;
    let ghost was = current.deep_view();
    let ghost d0 = desc@;
    flush_entry(
        &mut commands,
        &mut names,
        &mut current,
        &mut desc,
        binary_name,
        path,
        sub_help,
        depth,
    );
    proof {
        if was is Some {
            descs = descs.push(d0);
        }
        assert(strs_v(names@).len() == names@.len());
        assert(was is None ==> commands@.len() == cb.len());
        assert forall|k: int| 0 <= k < commands@.len() implies gcloud_command_ok(
            #[trigger] commands@[k],
            names@[k]@,
            descs[k],
            depth as int,
            *sub_help,
            path@,
        ) by {
            if k < cb.len() {
                assert(commands@[k] == cb[k]);
                assert(strs_v(names@)[k] == names@[k]@);
                assert(strs_v(nb)[k] == nb[k]@);
            } else {
                assert(strs_v(names@)[k] == names@[k]@);
                assert(k == cb.len());
                assert(gcloud_command_ok(commands@[cb.len() as int], was->0, d0, depth as int, *sub_help, path@));
            }
        }
    }
    (commands, names)
}


/// The group of a section, where the section has entries.
pub open spec fn section_group(h: Seq<char>, section: Seq<char>) -> Seq<GroupV> {
    let names = gcloud_section(h, section).names;
    if names.len() > 0 {
        seq![GroupV { name: section, commands: names }]
    } else {
        seq![]
    }
}

/// The groups: `GROUPS` then `COMMANDS`, each where it has entries.
pub open spec fn gcloud_groups(h: Seq<char>) -> Seq<GroupV> {
    section_group(h, "GROUPS"@) + section_group(h, "COMMANDS"@)
}

/// The entry names of `GROUPS` then `COMMANDS`.
pub open spec fn gcloud_names(h: Seq<char>) -> Seq<Seq<char>> {
    gcloud_section(h, "GROUPS"@).names + gcloud_section(h, "COMMANDS"@).names
}

/// The entry descriptions of `GROUPS` then `COMMANDS`.
pub open spec fn gcloud_descs(h: Seq<char>) -> Seq<Seq<char>> {
    gcloud_section(h, "GROUPS"@).descs + gcloud_section(h, "COMMANDS"@).descs
}

/// The entries of `GROUPS` and `COMMANDS` of a help output of the tool
/// itself, with one group per section that has entries (see
/// `parse_gcloud_commands_under`).
pub fn parse_gcloud_commands<F: Fn(&str) -> Option<std::string::String>>(
    help_output: &str,
    binary_name: &str,
    sub_help: &F,
) -> (r: (Vec<Command>, Vec<CommandGroup>))
    requires
        forall|s: &str| sub_help.requires((s,)),
    ensures
        groups_v(r.1@) == gcloud_groups(help_output@),
        r.0@.len() == gcloud_names(help_output@).len(),
        forall|k: int|
            0 <= k < r.0@.len() ==> gcloud_command_ok(
                #[trigger] r.0@[k],
                gcloud_names(help_output@)[k],
                gcloud_descs(help_output@)[k],
                0,
                *sub_help,
                ""@,
            ),
{
    parse_gcloud_commands_under(help_output, binary_name, "", sub_help, 0)
}

/// The entries of `GROUPS` and `COMMANDS` of a help output of the command
/// at `path`, with one group per section that has entries; below the depth
/// limit each entry's own help, as `sub_help` gives it for the entry's
/// path, fills in its flags and subcommands.
pub fn parse_gcloud_commands_under<F: Fn(&str) -> Option<std::string::String>>(
    help_output: &str,
    binary_name: &str,
    path: &str,
    sub_help: &F,
    depth: usize,
) -> (r: (Vec<Command>, Vec<CommandGroup>))
    requires
        forall|s: &str| sub_help.requires((s,)),
    ensures
        groups_v(r.1@) == gcloud_groups(help_output@),
        r.0@.len() == gcloud_names(help_output@).len(),
        forall|k: int|
            0 <= k < r.0@.len() ==> gcloud_command_ok(
                #[trigger] r.0@[k],
                gcloud_names(help_output@)[k],
                gcloud_descs(help_output@)[k],
                depth as int,
                *sub_help,
                path@,
            ),
    decreases MAX_SUBCOMMAND_DEPTH - depth, 3nat,
{
    let mut commands: Vec<Command> = Vec::new();
    let mut groups: Vec<CommandGroup> = Vec::new();
    let (mut cmds_a, names_a) = parse_gcloud_section(
        help_output,
        "GROUPS",
        binary_name,
        path,
        sub_help,
        depth,
    );
    let ghost ca = cmds_a@;
    if names_a.len() > 0 {
        groups.push(CommandGroup { name: owned("GROUPS"), commands: names_a });
    }
    commands.append(&mut cmds_a);
    let (mut cmds_b, names_b) = parse_gcloud_section(
        help_output,
        "COMMANDS",
        binary_name,
        path,
        sub_help,
        depth,
    );
    let ghost cbv = cmds_b@;
    let ghost ga = groups_v(groups@);
    if names_b.len() > 0 {
        groups.push(CommandGroup { name: owned("COMMANDS"), commands: names_b });
    }
    commands.append(&mut cmds_b);
    proof {
        let h = help_output@;
        assert(ga =~= section_group(h, "GROUPS"@));
        assert(groups_v(groups@) =~= gcloud_groups(h));
        assert(commands@ =~= ca + cbv);
        assert forall|k: int| 0 <= k < commands@.len() implies gcloud_command_ok(
            #[trigger] commands@[k],
            gcloud_names(h)[k],
            gcloud_descs(h)[k],
            depth as int,
            *sub_help,
            path@,
        ) by {
            if k >= ca.len() {
                assert(commands@[k] == cbv[k - ca.len()]);
            } else {
                assert(commands@[k] == ca[k]);
            }
        }
    }
    (commands, groups)
}

// ---------------------------------------------------------------- the parser

/// `t` is what the `gcloud` parser makes of help output `h` for a tool named
/// `name`: no version, framework `Unknown`.
pub open spec fn gcloud_tool<F: Fn(&str) -> Option<std::string::String>>(
    t: ToolSpec,
    name: Seq<char>,
    h: Seq<char>,
    sub_help: F,
) -> bool {
    &&& t.name@ == name
    &&& t.version is None
    &&& t.description@ == gcloud_description(h)
    &&& t.framework == Framework::Unknown
    &&& flags_v(t.global_flags@) == gcloud_flags(h, "GLOBAL FLAGS"@)
    &&& groups_v(t.groups@) == gcloud_groups(h)
    &&& t.commands@.len() == gcloud_names(h).len()
    &&& forall|k: int|
        0 <= k < t.commands@.len() ==> gcloud_command_ok(
            #[trigger] t.commands@[k],
            gcloud_names(h)[k],
            gcloud_descs(h)[k],
            0,
            sub_help,
            ""@,
        )
}

impl Parser for GcloudParser {
    fn name(&self) -> (r: &'static str)
        ensures
            r@ == "gcloud"@,
    {
        "gcloud"
    }

    fn framework(&self) -> (r: Framework)
        ensures
            r == Framework::Unknown,
    {
        Framework::Unknown
    }

    fn detect(&self, help_output: &str) -> (r: bool)
        ensures
            r == gcloud_detects(help_output@),
    {
        gcloud_detect(help_output)
    }

    fn parse<F: Fn(&str) -> Option<std::string::String>>(
        &self,
        binary_name: &str,
        help_output: &str,
        sub_help: &F,
    ) -> (r: Result<ToolSpec, CliError>)
        ensures
            r matches Ok(t) && gcloud_tool(t, binary_name@, help_output@, *sub_help),
    {
        let description = parse_gcloud_description(help_output);
        let global_flags = parse_gcloud_flags(help_output, "GLOBAL FLAGS");
        let (commands, groups) = parse_gcloud_commands(help_output, binary_name, sub_help);
        Ok(
            ToolSpec {
                name: owned(binary_name),
                version: None,
                description,
                framework: Framework::Unknown,
                commands,
                global_flags,
                groups,
            },
        )
    }
}

} // verus!
