//! The framework parsers, the trait they share, and the registry that picks
//! one for a help output.
pub mod argparse;
pub mod clap_parser;
pub mod click;
pub mod cobra;
pub mod gcloud;
pub mod gnu;
pub mod runner;

use vstd::prelude::*;

use crate::common::{lemma_nests_leaf, nests_within};
use crate::ir::{framework_label, Framework, ToolSpec};
use crate::security::MAX_SUBCOMMAND_DEPTH;
use crate::parser::argparse::{argparse_detects, argparse_tool, ArgparseParser};
use crate::parser::clap_parser::{clap_detects, clap_tool, ClapParser};
use crate::parser::click::{click_detects, click_tool, ClickParser};
use crate::parser::cobra::{cobra_detects, cobra_tool, CobraParser};
use crate::parser::gcloud::{gcloud_detects, gcloud_tool, GcloudParser};
use crate::parser::gnu::{gnu_detects, gnu_tool, GnuParser};
use crate::text::{eq_str, lower, owned, str_chars, to_lowercase};
use vstd::string::StringExecFns;

verus! {

/// Why a parse could not be made.
#[derive(Debug, Clone, PartialEq, Eq)]
pub enum CliError {
    /// No parser handles the framework.
    NoParserForFramework(Framework),
    /// The registry holds no parser at all.
    NoParsers,
    /// A framework name that is not one of clap, cobra, click, argparse, gnu.
    UnknownFramework(std::string::String),
}

/// The message a user sees for an error.
pub open spec fn error_message(e: CliError) -> Seq<char> {
    match e {
        CliError::NoParserForFramework(f) => "No parser registered for framework: "@
            + framework_label(f),
        CliError::NoParsers => "No parsers registered"@,
        CliError::UnknownFramework(name) => "Unknown framework: "@ + name@
            + ". Supported: clap, cobra, click, argparse, gnu"@,
    }
}

impl CliError {
    /// The message a user sees for this error.
    pub fn message(&self) -> (r: std::string::String)
        ensures
            r@ == error_message(*self),
    {
        match self {
            CliError::NoParserForFramework(f) => owned("No parser registered for framework: ")
                .concat(f.to_string().as_str()),
            CliError::NoParsers => owned("No parsers registered"),
            CliError::UnknownFramework(name) => owned("Unknown framework: ").concat(
                name.as_str(),
            ).concat(". Supported: clap, cobra, click, argparse, gnu"),
        }
    }
}

/// Trait that each CLI framework parser implements.
pub trait Parser {
    /// Human-readable name of this parser.
    fn name(&self) -> &'static str;

    /// The framework this parser handles.
    fn framework(&self) -> Framework;

    /// Returns true if the help output appears to come from this framework.
    fn detect(&self, help_output: &str) -> bool;

    /// Parse the help output into a `ToolSpec`; `sub_help` gives the help
    /// output of a subcommand, where it can.
    fn parse<F: Fn(&str) -> Option<std::string::String>>(
        &self,
        binary_name: &str,
        help_output: &str,
        sub_help: &F,
    ) -> (r: Result<ToolSpec, CliError>)
        requires
            forall|s: &str| sub_help.requires((s,)),
    ;
}

/// One of the built-in parsers.
#[derive(Debug, Clone, Copy, PartialEq, Eq, Structural)]
pub enum ParserKind {
    Clap,
    Gcloud,
    Cobra,
    Click,
    Argparse,
    Gnu,
}

/// The name a parser goes by.
pub open spec fn kind_name(k: ParserKind) -> Seq<char> {
    match k {
        ParserKind::Clap => "clap"@,
        ParserKind::Gcloud => "gcloud"@,
        ParserKind::Cobra => "cobra"@,
        ParserKind::Click => "click"@,
        ParserKind::Argparse => "argparse"@,
        ParserKind::Gnu => "gnu"@,
    }
}

/// The framework a parser handles (`gcloud` reports `Unknown`).
pub open spec fn kind_framework(k: ParserKind) -> Framework {
    match k {
        ParserKind::Clap => Framework::Clap,
        ParserKind::Gcloud => Framework::Unknown,
        ParserKind::Cobra => Framework::Cobra,
        ParserKind::Click => Framework::Click,
        ParserKind::Argparse => Framework::Argparse,
        ParserKind::Gnu => Framework::GnuStyle,
    }
}

/// Whether a parser takes help output `h` for its framework's.
pub open spec fn kind_detects(k: ParserKind, h: Seq<char>) -> bool {
    match k {
        ParserKind::Clap => clap_detects(h),
        ParserKind::Gcloud => gcloud_detects(h),
        ParserKind::Cobra => cobra_detects(h),
        ParserKind::Click => click_detects(h),
        ParserKind::Argparse => argparse_detects(h),
        ParserKind::Gnu => gnu_detects(h),
    }
}

/// `t` is what parser `k` makes of help output `h` for a tool named `name`.
pub open spec fn kind_parsed<F: Fn(&str) -> Option<std::string::String>>(
    k: ParserKind,
    t: ToolSpec,
    name: Seq<char>,
    h: Seq<char>,
    sub_help: F,
) -> bool {
    match k {
        ParserKind::Clap => clap_tool(t, name, h, sub_help),
        ParserKind::Gcloud => gcloud_tool(t, name, h, sub_help),
        ParserKind::Cobra => cobra_tool(t, name, h, sub_help),
        ParserKind::Click => click_tool(t, name, h, sub_help),
        ParserKind::Argparse => argparse_tool(t, name, h, sub_help),
        ParserKind::Gnu => gnu_tool(t, name, h),
    }
}

impl Parser for ParserKind {
    fn name(&self) -> (r: &'static str)
        ensures
            r@ == kind_name(*self),
    {
        match self {
            ParserKind::Clap => ClapParser.name(),
            ParserKind::Gcloud => GcloudParser.name(),
            ParserKind::Cobra => CobraParser.name(),
            ParserKind::Click => ClickParser.name(),
            ParserKind::Argparse => ArgparseParser.name(),
            ParserKind::Gnu => GnuParser.name(),
        }
    }

    fn framework(&self) -> (r: Framework)
        ensures
            r == kind_framework(*self),
    {
        match self {
            ParserKind::Clap => ClapParser.framework(),
            ParserKind::Gcloud => GcloudParser.framework(),
            ParserKind::Cobra => CobraParser.framework(),
            ParserKind::Click => ClickParser.framework(),
            ParserKind::Argparse => ArgparseParser.framework(),
            ParserKind::Gnu => GnuParser.framework(),
        }
    }

    fn detect(&self, help_output: &str) -> (r: bool)
        ensures
            r == kind_detects(*self, help_output@),
    {
        match self {
            ParserKind::Clap => ClapParser.detect(help_output),
            ParserKind::Gcloud => GcloudParser.detect(help_output),
            ParserKind::Cobra => CobraParser.detect(help_output),
            ParserKind::Click => ClickParser.detect(help_output),
            ParserKind::Argparse => ArgparseParser.detect(help_output),
            ParserKind::Gnu => GnuParser.detect(help_output),
        }
    }

    fn parse<F: Fn(&str) -> Option<std::string::String>>(
        &self,
        binary_name: &str,
        help_output: &str,
        sub_help: &F,
    ) -> (r: Result<ToolSpec, CliError>)
        ensures
            r matches Ok(t) && kind_parsed(*self, t, binary_name@, help_output@, *sub_help),
    {
        match self {
            ParserKind::Clap => ClapParser.parse(binary_name, help_output, sub_help),
            ParserKind::Gcloud => GcloudParser.parse(binary_name, help_output, sub_help),
            ParserKind::Cobra => CobraParser.parse(binary_name, help_output, sub_help),
            ParserKind::Click => ClickParser.parse(binary_name, help_output, sub_help),
            ParserKind::Argparse => ArgparseParser.parse(binary_name, help_output, sub_help),
            ParserKind::Gnu => GnuParser.parse(binary_name, help_output, sub_help),
        }
    }
}

/// The built-in parsers, in the order auto-detection tries them: gcloud,
/// Cobra, Clap, Click, Argparse, and GNU style, the most generic, last.
pub open spec fn builtin_parsers() -> Seq<ParserKind> {
    seq![
        ParserKind::Gcloud,
        ParserKind::Cobra,
        ParserKind::Clap,
        ParserKind::Click,
        ParserKind::Argparse,
        ParserKind::Gnu,
    ]
}

/// Registry of the available parsers, used for auto-detection.
pub struct ParserRegistry {
    parsers: Vec<ParserKind>,
}

impl View for ParserRegistry {
    type V = Seq<ParserKind>;

    closed spec fn view(&self) -> Seq<ParserKind> {
        self.parsers@
    }
}

/// The first parser, from position `i` on, that detects its framework in `h`.
pub open spec fn first_detecting(ps: Seq<ParserKind>, h: Seq<char>, i: int) -> Option<ParserKind>
    decreases ps.len() - i,
{
    if i < 0 || i >= ps.len() {
        None
    } else if kind_detects(ps[i], h) {
        Some(ps[i])
    } else {
        first_detecting(ps, h, i + 1)
    }
}

/// The parser auto-detection picks: the first that detects its framework,
/// else the last one (the most generic); none for an empty registry.
pub open spec fn chosen_parser(ps: Seq<ParserKind>, h: Seq<char>) -> Option<ParserKind> {
    match first_detecting(ps, h, 0) {
        Some(k) => Some(k),
        None => if ps.len() == 0 {
            None
        } else {
            Some(ps.last())
        },
    }
}

/// The first parser, from position `i` on, for framework `f`.
pub open spec fn first_for_framework(ps: Seq<ParserKind>, f: Framework, i: int) -> Option<
    ParserKind,
>
    decreases ps.len() - i,
{
    if i < 0 || i >= ps.len() {
        None
    } else if kind_framework(ps[i]) == f {
        Some(ps[i])
    } else {
        first_for_framework(ps, f, i + 1)
    }
}

impl ParserRegistry {
    /// Create a registry with all built-in parsers.
    pub fn new() -> (r: Self)
        ensures
            r@ == builtin_parsers(),
    {
        let parsers = vec![
            ParserKind::Gcloud,
            ParserKind::Cobra,
            ParserKind::Clap,
            ParserKind::Click,
            ParserKind::Argparse,
            ParserKind::Gnu,
        ];
        let r = ParserRegistry { parsers };
        assert(r@ =~= builtin_parsers());
        r
    }

    /// The parser auto-detection picks for the help output: the first that
    /// detects its framework, else the last, most generic one.
    pub fn detected_parser(&self, help_output: &str) -> (r: Option<ParserKind>)
        ensures
            r == chosen_parser(self@, help_output@),
    {
        let mut i: usize = 0;
        while i < self.parsers.len()
            invariant
                i <= self@.len(),
                self@ == self.parsers@,
                first_detecting(self@, help_output@, i as int) == first_detecting(
                    self@,
                    help_output@,
                    0,
                ),
            decreases self@.len() - i,
        {
            let k = self.parsers[i];
            if k.detect(help_output) {
                return Some(k);
            }
            i += 1;
        }
        if self.parsers.len() == 0 {
            None
        } else {
            Some(self.parsers[self.parsers.len() - 1])
        }
    }

    /// Auto-detect the framework from the help output and parse with the
    /// parser picked; GNU style, the last, is the fallback.
    pub fn detect_and_parse<F: Fn(&str) -> Option<std::string::String>>(
        &self,
        binary_name: &str,
        help_output: &str,
        sub_help: &F,
    ) -> (r: Result<ToolSpec, CliError>)
        requires
            forall|s: &str| sub_help.requires((s,)),
        ensures
            match chosen_parser(self@, help_output@) {
                Some(k) => r matches Ok(t) && kind_parsed(k, t, binary_name@, help_output@, *sub_help),
                None => r matches Err(CliError::NoParsers),
            },
    {
        match self.detected_parser(help_output) {
            Some(k) => k.parse(binary_name, help_output, sub_help),
            None => Err(CliError::NoParsers),
        }
    }

    /// Parse with the first parser for the given framework.
    pub fn parse_with_framework<F: Fn(&str) -> Option<std::string::String>>(
        &self,
        framework: &Framework,
        binary_name: &str,
        help_output: &str,
        sub_help: &F,
    ) -> (r: Result<ToolSpec, CliError>)
        requires
            forall|s: &str| sub_help.requires((s,)),
        ensures
            match first_for_framework(self@, *framework, 0) {
                Some(k) => r matches Ok(t) && kind_parsed(k, t, binary_name@, help_output@, *sub_help),
                None => r matches Err(e) && e == CliError::NoParserForFramework(*framework),
            },
    {
        let mut i: usize = 0;
        while i < self.parsers.len()
            invariant
                i <= self@.len(),
                self@ == self.parsers@,
                forall|s: &str| sub_help.requires((s,)),
                first_for_framework(self@, *framework, i as int) == first_for_framework(
                    self@,
                    *framework,
                    0,
                ),
            decreases self@.len() - i,
        {
            let k = self.parsers[i];
            if k.framework() == *framework {
                return k.parse(binary_name, help_output, sub_help);
            }
            i += 1;
        }
        Err(CliError::NoParserForFramework(*framework))
    }
}

impl Default for ParserRegistry {
    fn default() -> (r: Self)
        ensures
            r@ == builtin_parsers(),
    {
        Self::new()
    }
}

/// The framework a lowercased name stands for.
pub open spec fn framework_of(name: Seq<char>) -> Option<Framework> {
    if name == "clap"@ {
        Some(Framework::Clap)
    } else if name == "cobra"@ {
        Some(Framework::Cobra)
    } else if name == "click"@ {
        Some(Framework::Click)
    } else if name == "argparse"@ {
        Some(Framework::Argparse)
    } else if name == "gnu"@ {
        Some(Framework::GnuStyle)
    } else {
        None
    }
}

/// The framework an already lowercased name stands for; any other name is
/// an `UnknownFramework` error that carries it.
pub fn framework_from_lowercase(lowered: &str) -> (r: Result<Framework, CliError>)
    ensures
        match framework_of(lowered@) {
            Some(f) => r == Ok::<Framework, CliError>(f),
            None => r matches Err(CliError::UnknownFramework(s)) && s@ == lowered@,
        },
{
    let c = str_chars(lowered);
    if eq_str(&c, "clap") {
        Ok(Framework::Clap)
    } else if eq_str(&c, "cobra") {
        Ok(Framework::Cobra)
    } else if eq_str(&c, "click") {
        Ok(Framework::Click)
    } else if eq_str(&c, "argparse") {
        Ok(Framework::Argparse)
    } else if eq_str(&c, "gnu") {
        Ok(Framework::GnuStyle)
    } else {
        Err(CliError::UnknownFramework(crate::text::owned(lowered)))
    }
}

/// The framework a user-given name stands for, in any case: clap, cobra,
/// click, argparse or gnu.
pub fn parse_framework(name: &str) -> (r: Result<Framework, CliError>)
    ensures
        match framework_of(lower(name@)) {
            Some(f) => r == Ok::<Framework, CliError>(f),
            None => r matches Err(CliError::UnknownFramework(s)) && s@ == lower(name@),
        },
{
    let l = to_lowercase(name);
    framework_from_lowercase(l.as_str())
}

// -------------------------------------------------------------------- laws

/// A tool a parser makes carries that parser's framework.
pub proof fn lemma_parsed_framework<F: Fn(&str) -> Option<std::string::String>>(
    k: ParserKind,
    t: ToolSpec,
    name: Seq<char>,
    h: Seq<char>,
    sub_help: F,
)
    requires
        kind_parsed(k, t, name, h, sub_help),
    ensures
        t.framework == kind_framework(k),
{
}

/// The parser found for a framework handles that framework.
pub proof fn lemma_first_for_framework(ps: Seq<ParserKind>, f: Framework, i: int)
    ensures
        first_for_framework(ps, f, i) matches Some(k) ==> kind_framework(k) == f,
    decreases ps.len() - i,
{
    if 0 <= i < ps.len() && kind_framework(ps[i]) != f {
        lemma_first_for_framework(ps, f, i + 1);
    }
}

/// Parsing with a named framework gives a tool of that framework, in any
/// registry that has a parser for it.
pub proof fn lemma_parse_with_framework_keeps_framework<F: Fn(&str) -> Option<std::string::String>>(
    ps: Seq<ParserKind>,
    f: Framework,
    t: ToolSpec,
    name: Seq<char>,
    h: Seq<char>,
    sub_help: F,
)
    requires
        first_for_framework(ps, f, 0) matches Some(k) && kind_parsed(k, t, name, h, sub_help),
    ensures
        t.framework == f,
{
    lemma_first_for_framework(ps, f, 0);
}

/// The built-in registry has a parser for every framework, so parsing with
/// a named framework never fails there.
pub proof fn lemma_builtin_covers_frameworks(f: Framework)
    ensures
        first_for_framework(builtin_parsers(), f, 0) is Some,
{
    let ps = builtin_parsers();
    reveal_with_fuel(first_for_framework, 7);
}

/// Auto-detection on the built-in registry always picks a parser, so it
/// never fails for want of one.
pub proof fn lemma_builtin_always_picks(h: Seq<char>)
    ensures
        chosen_parser(builtin_parsers(), h) is Some,
{
}

/// The parser auto-detection picks either detects its framework in the help
/// output, or is the last parser and none detects.
pub proof fn lemma_chosen_detects_or_falls_back(ps: Seq<ParserKind>, h: Seq<char>)
    ensures
        chosen_parser(ps, h) matches Some(k) ==> kind_detects(k, h) || (k == ps.last() && forall|
            j: int,
        | 0 <= j < ps.len() ==> !kind_detects(#[trigger] ps[j], h)),
{
    lemma_first_detecting(ps, h, 0);
}

/// What `first_detecting` finds detects; where it finds nothing, no parser
/// from `i` on detects.
pub proof fn lemma_first_detecting(ps: Seq<ParserKind>, h: Seq<char>, i: int)
    requires
        0 <= i,
    ensures
        first_detecting(ps, h, i) matches Some(k) ==> kind_detects(k, h),
        first_detecting(ps, h, i) is None ==> forall|j: int|
            i <= j < ps.len() ==> !kind_detects(#[trigger] ps[j], h),
    decreases ps.len() - i,
{
    if i < ps.len() && !kind_detects(ps[i], h) {
        lemma_first_detecting(ps, h, i + 1);
    }
}

/// On the built-in registry, GNU style is used exactly when none of the
/// framework-specific parsers detects its framework.
pub proof fn lemma_builtin_gnu_fallback(h: Seq<char>)
    ensures
        chosen_parser(builtin_parsers(), h) == Some(ParserKind::Gnu) <==> (!gcloud_detects(h)
            && !cobra_detects(h) && !clap_detects(h) && !click_detects(h) && !argparse_detects(h)),
{
    reveal_with_fuel(first_detecting, 7);
}

/// A framework name read back from a framework is that framework's label:
/// the names `parse_framework` accepts are the labels frameworks print as.
pub proof fn lemma_framework_name_round_trip(name: Seq<char>)
    ensures
        framework_of(name) matches Some(f) ==> framework_label(f) == name,
        framework_of(framework_label(Framework::Clap)) == Some(Framework::Clap),
        framework_of(framework_label(Framework::Cobra)) == Some(Framework::Cobra),
        framework_of(framework_label(Framework::Click)) == Some(Framework::Click),
        framework_of(framework_label(Framework::Argparse)) == Some(Framework::Argparse),
        framework_of(framework_label(Framework::GnuStyle)) == Some(Framework::GnuStyle),
{
    reveal_strlit("clap");
    reveal_strlit("cobra");
    reveal_strlit("click");
    reveal_strlit("argparse");
    reveal_strlit("gnu");
    assert("cobra"@[1] != "clap"@[1]);
    assert("click"@[2] != "clap"@[2]);
    assert("click"@[1] != "cobra"@[1]);
    assert("gnu"@.len() != "clap"@.len() && "gnu"@.len() != "cobra"@.len() && "gnu"@.len()
        != "click"@.len() && "gnu"@.len() != "argparse"@.len());
}

/// Subcommands nest at most `MAX_SUBCOMMAND_DEPTH` levels below a tool's
/// commands, whichever parser made the tool.
pub proof fn lemma_parsed_commands_nest_within_limit<F: Fn(&str) -> Option<std::string::String>>(
    k: ParserKind,
    t: ToolSpec,
    name: Seq<char>,
    h: Seq<char>,
    sub_help: F,
)
    requires
        kind_parsed(k, t, name, h, sub_help),
    ensures
        forall|i: int|
            0 <= i < t.commands@.len() ==> nests_within(
                #[trigger] t.commands@[i]@,
                MAX_SUBCOMMAND_DEPTH as int,
            ),
{
    assert forall|i: int| 0 <= i < t.commands@.len() implies nests_within(
        #[trigger] t.commands@[i]@,
        MAX_SUBCOMMAND_DEPTH as int,
    ) by {
        let c = t.commands@[i];
        match k {
            ParserKind::Clap => {},
            ParserKind::Cobra => {},
            ParserKind::Click => {},
            ParserKind::Argparse => {
                if t.commands@.len() == 1 && c.subcommands@.len() == 0 {
                    lemma_nests_leaf(c, MAX_SUBCOMMAND_DEPTH as int);
                }
            },
            ParserKind::Gcloud => {},
            ParserKind::Gnu => {
                lemma_nests_leaf(c, MAX_SUBCOMMAND_DEPTH as int);
            },
        }
    }
}

} // verus!
