//! Pieces shared by the framework parsers: views of sequences of IR values,
//! and small constructors with exact contracts.
use vstd::prelude::*;

use crate::ir::{Arg, ArgV, Command, CommandGroup, CommandV, Flag, FlagV, GroupV};
use crate::pattern::{captures, get_group, group, regex_captures};
use crate::text::{str_eq, trim, trim_string};

verus! {

/// The views of a sequence of flags.
pub open spec fn flags_v(v: Seq<Flag>) -> Seq<FlagV> {
    v.map_values(|f: Flag| f@)
}

/// The views of a sequence of arguments.
pub open spec fn args_v(v: Seq<Arg>) -> Seq<ArgV> {
    v.map_values(|a: Arg| a@)
}

/// The views of a sequence of command groups.
pub open spec fn groups_v(v: Seq<CommandGroup>) -> Seq<GroupV> {
    v.map_values(|g: CommandGroup| g@)
}

/// The names of a sequence of commands.
pub open spec fn command_names(v: Seq<Command>) -> Seq<Seq<char>> {
    v.map_values(|c: Command| c.name@)
}

/// The view of an optional flag.
pub open spec fn opt_flag_v(o: Option<Flag>) -> Option<FlagV> {
    match o {
        Some(f) => Some(f@),
        None => None,
    }
}

/// The view of an optional argument.
pub open spec fn opt_arg_v(o: Option<Arg>) -> Option<ArgV> {
    match o {
        Some(a) => Some(a@),
        None => None,
    }
}

/// A line that ends a section: not blank, and not indented.
pub open spec fn ends_section(line: Seq<char>) -> bool {
    crate::text::trim(line).len() > 0 && !crate::text::starts_ch(line, ' ')
        && !crate::text::starts_ch(line, '\t')
}

/// A flag named `--help` or `--version`.
pub open spec fn is_help_or_version(f: FlagV) -> bool {
    f.long == Some("--help"@) || f.long == Some("--version"@)
}

/// A flag named `--help`.
pub open spec fn is_help(f: FlagV) -> bool {
    f.long == Some("--help"@)
}

/// A command line entry: a name and its one-line description.
pub struct EntryV {
    pub name: Seq<char>,
    pub description: Seq<char>,
}

/// The names of a sequence of entries.
pub open spec fn entry_names(v: Seq<EntryV>) -> Seq<Seq<char>> {
    v.map_values(|e: EntryV| e.name)
}

/// Group 1 of the first match of `pattern` in `text`, trimmed.
pub open spec fn first_group_trimmed(pattern: Seq<char>, text: Seq<char>) -> Option<Seq<char>> {
    match regex_captures(pattern, text) {
        Some(c) => trimmed_group(c, 1),
        None => None,
    }
}

/// Group `i` of a match, trimmed.
pub open spec fn trimmed_group(caps: Seq<Option<Seq<char>>>, i: int) -> Option<Seq<char>> {
    match group(caps, i) {
        Some(g) => Some(trim(g)),
        None => None,
    }
}

/// Group `i` of the captures, trimmed.
pub fn trimmed_capture(caps: &Vec<Option<std::string::String>>, i: usize) -> (r: Option<
    std::string::String,
>)
    ensures
        r.deep_view() == trimmed_group(caps.deep_view(), i as int),
{
    match get_group(caps, i) {
        Some(g) => Some(trim_string(g.as_str())),
        None => None,
    }
}

/// Group 1 of the first match of `pattern` in `text`, trimmed.
pub fn capture_trimmed(pattern: &str, text: &str) -> (r: Option<std::string::String>)
    ensures
        r.deep_view() == first_group_trimmed(pattern@, text@),
{
    match captures(pattern, text) {
        Some(c) => trimmed_capture(&c, 1),
        None => None,
    }
}

/// Whether the flag's long name is `name`.
pub fn long_is(f: &Flag, name: &str) -> (r: bool)
    ensures
        r == (f@.long == Some(name@)),
{
    match &f.long {
        Some(l) => str_eq(l.as_str(), name),
        None => false,
    }
}

/// A command with a name and a description, and nothing else yet.
pub fn bare_command(name: std::string::String, description: std::string::String) -> (r: Command)
    ensures
        r.name@ == name@,
        r.description@ == description@,
        r.aliases@.len() == 0,
        r.subcommands@.len() == 0,
        r.flags@.len() == 0,
        r.args@.len() == 0,
        r.examples@.len() == 0,
{
    Command {
        name,
        description,
        aliases: Vec::new(),
        subcommands: Vec::new(),
        flags: Vec::new(),
        args: Vec::new(),
        examples: Vec::new(),
    }
}

/// A command has only a name and a description.
pub open spec fn is_bare(c: Command) -> bool {
    &&& c.aliases@.len() == 0
    &&& c.subcommands@.len() == 0
    &&& c.flags@.len() == 0
    &&& c.args@.len() == 0
    &&& c.examples@.len() == 0
}


/// Whether one of the strings holds the text `n`.
pub fn contains_text(v: &Vec<std::string::String>, n: &Vec<char>) -> (r: bool)
    ensures
        r == crate::ir::strs_v(v@).contains(n@),
{
    let mut i: usize = 0;
    while i < v.len()
        invariant
            i <= v@.len(),
            forall|j: int| 0 <= j < i ==> v@[j]@ != n@,
        decreases v@.len() - i,
    {
        let vc = crate::text::str_chars(v[i].as_str());
        if vc.len() == n.len() {
            let ns = crate::text::chars_to_string(n);
            if crate::text::eq_str(&vc, ns.as_str()) {
                assert(crate::ir::strs_v(v@)[i as int] == n@);
                return true;
            }
        }
        i += 1;
    }
    assert forall|j: int| 0 <= j < crate::ir::strs_v(v@).len() implies crate::ir::strs_v(v@)[j]
        != n@ by {
        assert(v@[j]@ != n@);
    }
    false
}

/// The flags without those named `--help` or `--version`.
pub open spec fn drop_help_version(fs: Seq<FlagV>) -> Seq<FlagV>
    decreases fs.len(),
{
    if fs.len() == 0 {
        seq![]
    } else if is_help_or_version(fs.last()) {
        drop_help_version(fs.drop_last())
    } else {
        drop_help_version(fs.drop_last()).push(fs.last())
    }
}

/// The flags without those named `--help` or `--version`.
pub fn drop_help_and_version(flags: Vec<Flag>) -> (r: Vec<Flag>)
    ensures
        flags_v(r@) == drop_help_version(flags_v(flags@)),
        forall|k: int| 0 <= k < r@.len() ==> !is_help_or_version(#[trigger] r@[k]@),
{
    let ghost orig = flags@;
    let mut out: Vec<Flag> = Vec::new();
    for f in it: flags
        invariant
            it.seq() == orig,
            flags_v(out@) == drop_help_version(flags_v(orig.take(it.index() as int))),
            forall|k: int| 0 <= k < out@.len() ==> !is_help_or_version(#[trigger] out@[k]@),
    {
        let ghost i = it.index();
        let ghost before = flags_v(out@);
        assert(flags_v(orig.take(i + 1)).drop_last() =~= flags_v(orig.take(i as int)));
        assert(flags_v(orig.take(i + 1)).last() == f@);
        if !long_is(&f, "--help") && !long_is(&f, "--version") {
            out.push(f);
            assert(flags_v(out@) =~= before.push(f@));
        }
    }
    assert(orig.take(orig.len() as int) =~= orig);
    out
}


/// Subcommands of `c` nest at most `levels` deep: with no levels left, `c`
/// has no subcommands.
pub open spec fn nests_within(c: CommandV, levels: int) -> bool
    decreases levels,
{
    if levels <= 0 {
        c.subcommands.len() == 0
    } else {
        forall|i: int|
            0 <= i < c.subcommands.len() ==> nests_within(#[trigger] c.subcommands[i], levels - 1)
    }
}

/// A command without subcommands nests within any number of levels.
pub proof fn lemma_nests_leaf(c: Command, levels: int)
    requires
        c.subcommands@.len() == 0,
    ensures
        nests_within(c@, levels),
{
}

/// A command nests within `levels` when its subcommands nest within one
/// level fewer.
pub proof fn lemma_nests_from_children(c: Command, levels: int)
    requires
        levels > 0,
        forall|i: int|
            0 <= i < c.subcommands@.len() ==> nests_within(
                #[trigger] c.subcommands@[i]@,
                levels - 1,
            ),
    ensures
        nests_within(c@, levels),
{
    assert forall|i: int| 0 <= i < c@.subcommands.len() implies nests_within(
        #[trigger] c@.subcommands[i],
        levels - 1,
    ) by {
        assert(c@.subcommands[i] == c.subcommands@[i]@);
    }
}

/// The path of command `name` below the tool, under the path `prefix` of
/// its parent (empty at the top): the names joined by spaces.
pub open spec fn sub_path(prefix: Seq<char>, name: Seq<char>) -> Seq<char> {
    if prefix.len() == 0 {
        name
    } else {
        prefix + " "@ + name
    }
}

/// The path of command `name` below the tool, under the path `prefix`.
pub fn join_path(prefix: &str, name: &str) -> (r: std::string::String)
    ensures
        r@ == sub_path(prefix@, name@),
{
    if prefix.is_empty() {
        crate::text::owned(name)
    } else {
        crate::text::space_join(prefix, name)
    }
}

} // verus!
