//! The decisions around running a tool for its help: which arguments to
//! try, which output stream to keep, and which output to accept. The
//! process itself is run by the caller.
use vstd::prelude::*;

use crate::pattern::{regex_replace_all, replace_all};
use crate::ir::{opt_v, ToolSpec, ToolV};
use crate::text::{is_whitespace, is_ws, owned, str_chars, trim, trim_string};

verus! {

/// An ANSI escape sequence (colour codes and the like).
pub const RE_ANSI: &'static str = r"\x1b\[[0-9;]*[a-zA-Z]";

/// The timeout for one run of the tool, in seconds.
pub const TIMEOUT_SECS: u64 = 10;

/// The most output, in bytes, accepted from one stream of one run (10 MB).
pub const MAX_OUTPUT_BYTES: usize = 10485760;

/// `s` with its ANSI escape sequences removed.
pub open spec fn ansi_stripped(s: Seq<char>) -> Seq<char> {
    regex_replace_all(RE_ANSI@, s, ""@)
}

/// Strips ANSI escape codes from a string.
pub fn strip_ansi(s: &str) -> (r: std::string::String)
    ensures
        r@ == ansi_stripped(s@),
{
    replace_all(RE_ANSI, s, "")
}

/// Whether both streams of a run are within the size limit.
pub fn within_size_limit(stdout_len: usize, stderr_len: usize) -> (r: bool)
    ensures
        r == (stdout_len <= MAX_OUTPUT_BYTES && stderr_len <= MAX_OUTPUT_BYTES),
{
    stdout_len <= MAX_OUTPUT_BYTES && stderr_len <= MAX_OUTPUT_BYTES
}

/// The stream a run's help is read from: standard error where standard
/// output is blank and it is not, else standard output.
pub open spec fn help_stream(stdout: Seq<char>, stderr: Seq<char>) -> Seq<char> {
    if trim(stdout).len() == 0 && trim(stderr).len() > 0 {
        stderr
    } else {
        stdout
    }
}

/// The help text of one run: the stream that carries it, without ANSI
/// escape codes (many tools print help to standard error).
pub fn choose_output(stdout: &str, stderr: &str) -> (r: std::string::String)
    ensures
        r@ == ansi_stripped(help_stream(stdout@, stderr@)),
{
    let out_t = trim_string(stdout);
    let err_t = trim_string(stderr);
    if out_t.as_str().is_empty() && !err_t.as_str().is_empty() {
        strip_ansi(stderr)
    } else {
        strip_ansi(stdout)
    }
}

/// Whether a run's output counts as help: it is not blank.
pub fn is_usable(output: &str) -> (r: bool)
    ensures
        r == (trim(output@).len() > 0),
{
    let t = trim_string(output);
    !t.as_str().is_empty()
}

/// The arguments tried, in order, for a tool's top-level help.
pub open spec fn help_arg_sets() -> Seq<Seq<Seq<char>>> {
    seq![seq!["--help"@], seq!["-h"@], seq!["help"@]]
}

/// The arguments tried, in order, for a tool's top-level help: `--help`,
/// `-h`, then `help`.
pub fn help_attempts() -> (r: Vec<Vec<std::string::String>>)
    ensures
        r.deep_view() == help_arg_sets(),
{
    let r = vec![vec![owned("--help")], vec![owned("-h")], vec![owned("help")]];
    assert(r.deep_view() =~= help_arg_sets()) by {
        assert(r.deep_view()[0] =~= seq!["--help"@]);
        assert(r.deep_view()[1] =~= seq!["-h"@]);
        assert(r.deep_view()[2] =~= seq!["help"@]);
    }
    r
}

/// What to do next while looking for a tool's help.
#[derive(Debug, PartialEq, Eq)]
pub enum HelpStep {
    /// Run the tool with the argument set at this position.
    Run(usize),
    /// This output is the help.
    Found(std::string::String),
    /// No argument set gave help.
    NotFound,
}

/// Decides the next step of the search for help, when the argument sets
/// before position `next` of `count` have been tried and the last run gave
/// `last` (`None` where it failed, or before the first run): the sets are
/// tried in order, and the first output that is not blank is the help.
pub fn next_help_step(count: usize, next: usize, last: Option<std::string::String>) -> (r: HelpStep)
    ensures
        match last {
            Some(o) if trim(o@).len() > 0 => r == HelpStep::Found(o),
            _ => if next < count {
                r == HelpStep::Run(next)
            } else {
                r == HelpStep::NotFound
            },
        },
{
    match last {
        Some(o) => {
            if is_usable(o.as_str()) {
                return HelpStep::Found(o);
            }
        },
        None => {},
    }
    if next < count {
        HelpStep::Run(next)
    } else {
        HelpStep::NotFound
    }
}

/// The words of `s` from here on, when `cur` is the word read so far:
/// the runs of non-whitespace characters (`str::split_whitespace`).
pub open spec fn words_from(s: Seq<char>, cur: Seq<char>) -> Seq<Seq<char>>
    decreases s.len(),
{
    if s.len() == 0 {
        if cur.len() > 0 {
            seq![cur]
        } else {
            seq![]
        }
    } else if is_ws(s[0]) {
        (if cur.len() > 0 {
            seq![cur]
        } else {
            seq![]
        }) + words_from(s.drop_first(), seq![])
    } else {
        words_from(s.drop_first(), cur.push(s[0]))
    }
}

/// The words of `s`.
pub open spec fn words(s: Seq<char>) -> Seq<Seq<char>> {
    words_from(s, seq![])
}

/// The words of `s`, split at whitespace.
pub fn split_words(s: &str) -> (r: Vec<std::string::String>)
    ensures
        r.deep_view() == words(s@),
{
    let c = str_chars(s);
    let mut r: Vec<std::string::String> = Vec::new();
    let mut cur: Vec<char> = Vec::new();
    let mut i: usize = 0;
    assert(c@.skip(0) =~= c@);
    assert(r.deep_view() + words_from(c@, cur@) =~= words(s@));
    while i < c.len()
        invariant
            c@ == s@,
            i <= c@.len(),
            r.deep_view() + words_from(c@.skip(i as int), cur@) == words(s@),
        decreases c@.len() - i,
    {
        let ghost rest = c@.skip(i as int);
        let ghost cur_before = cur@;
        let ghost before = r.deep_view();
        assert(rest.drop_first() =~= c@.skip(i + 1));
        assert(rest[0] == c@[i as int]);
        if is_whitespace(c[i]) {
            if cur.len() > 0 {
                let w = crate::text::chars_to_string(&cur);
                r.push(w);
                assert(r.deep_view() =~= before.push(cur_before));
            }
            cur = Vec::new();
            assert(r.deep_view() + words_from(c@.skip(i + 1), cur@) =~= before + words_from(
                rest,
                cur_before,
            ));
        } else {
            cur.push(c[i]);
        }
        i += 1;
    }
    assert(c@.skip(i as int) =~= seq![]);
    if cur.len() > 0 {
        let ghost before = r.deep_view();
        let w = crate::text::chars_to_string(&cur);
        r.push(w);
        assert(r.deep_view() =~= before.push(cur@));
    } else {
        assert(r.deep_view() + words_from(seq![], cur@) =~= r.deep_view());
    }
    r
}

/// The arguments tried, in order, for a subcommand's help: the
/// subcommand's words then `--help`, and `help` then the words.
pub open spec fn subcommand_arg_sets(subcommand: Seq<char>) -> Seq<Seq<Seq<char>>> {
    seq![words(subcommand).push("--help"@), seq!["help"@] + words(subcommand)]
}

/// The arguments tried, in order, for a subcommand's help.
pub fn subcommand_help_attempts(subcommand: &str) -> (r: Vec<Vec<std::string::String>>)
    ensures
        r.deep_view() == subcommand_arg_sets(subcommand@),
{
    let parts = split_words(subcommand);
    let ghost ws = parts.deep_view();
    let mut first: Vec<std::string::String> = Vec::new();
    let mut second: Vec<std::string::String> = vec![owned("help")];
    let mut i: usize = 0;
    assert(second.deep_view() =~= seq!["help"@] + ws.take(0));
    while i < parts.len()
        invariant
            ws == parts.deep_view(),
            i <= parts@.len(),
            first.deep_view() == ws.take(i as int),
            second.deep_view() == seq!["help"@] + ws.take(i as int),
        decreases parts@.len() - i,
    {
        let ghost f0 = first.deep_view();
        let ghost s0 = second.deep_view();
        first.push(owned(parts[i].as_str()));
        second.push(owned(parts[i].as_str()));
        assert(ws[i as int] == parts@[i as int]@);
        assert(first.deep_view() =~= ws.take(i + 1));
        assert(second.deep_view() =~= s0.push(ws[i as int]));
        assert(ws.take(i + 1) =~= ws.take(i as int).push(ws[i as int]));
        assert(second.deep_view() =~= seq!["help"@] + ws.take(i + 1));
        i += 1;
    }
    assert(ws.take(parts@.len() as int) =~= ws);
    let ghost f1 = first.deep_view();
    first.push(owned("--help"));
    assert(first.deep_view() =~= f1.push("--help"@));
    let r = vec![first, second];
    assert(r.deep_view() =~= subcommand_arg_sets(subcommand@));
    r
}

/// The version a run of `--version` gives: its output trimmed, where not
/// blank.
pub fn version_from_output(output: &str) -> (r: Option<std::string::String>)
    ensures
        match r {
            Some(v) => trim(output@).len() > 0 && v@ == trim(output@),
            None => trim(output@).len() == 0,
        },
{
    let t = trim_string(output);
    if t.as_str().is_empty() {
        None
    } else {
        Some(t)
    }
}

/// Whether one more subcommand's help may be fetched, `count` having been
/// asked for before: never with recursion off, and never past
/// `MAX_TOTAL_COMMANDS` in all.
pub fn may_fetch_sub_help(no_recurse: bool, count: usize) -> (r: bool)
    ensures
        r == (!no_recurse && count < crate::security::MAX_TOTAL_COMMANDS),
{
    !no_recurse && count < crate::security::MAX_TOTAL_COMMANDS
}

/// `spec` with the version from `--version` output filled in where the
/// parser found none.
pub open spec fn with_version(spec: ToolV, detected: Option<Seq<char>>) -> ToolV {
    if spec.version is None {
        ToolV { version: detected, ..spec }
    } else {
        spec
    }
}

/// Fills in the version from the tool's `--version` output where the parser
/// found none; a version the parser found is kept.
pub fn supplement_version(spec: ToolSpec, detected: Option<std::string::String>) -> (r: ToolSpec)
    ensures
        r@ == with_version(spec@, opt_v(detected)),
{
    let mut spec = spec;
    if spec.version.is_none() {
        spec.version = detected;
    }
    spec
}

} // verus!
