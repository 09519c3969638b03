//! The intermediate representation of a command-line tool, as read from its
//! help output, and its mathematical views.
use vstd::prelude::*;

use crate::text::owned;

verus! {

/// The value type of a flag or argument.
#[derive(Debug, PartialEq, Eq)]
pub enum ValueType {
    String,
    Bool,
    Int,
    Float,
    Path,
    Enum(Vec<std::string::String>),
    Custom(std::string::String),
}

/// Which CLI framework generated the help output.
#[derive(Debug, Clone, Copy, PartialEq, Eq, Structural)]
pub enum Framework {
    Clap,
    Cobra,
    Click,
    Argparse,
    GnuStyle,
    Unknown,
}

/// A CLI flag/option (e.g. `--verbose`, `-o FILE`).
#[derive(Debug)]
pub struct Flag {
    pub short: Option<std::string::String>,
    pub long: Option<std::string::String>,
    pub description: std::string::String,
    pub value_type: ValueType,
    pub required: bool,
    pub default: Option<std::string::String>,
    pub env_var: Option<std::string::String>,
}

/// A positional argument.
#[derive(Debug)]
pub struct Arg {
    pub name: std::string::String,
    pub description: std::string::String,
    pub value_type: ValueType,
    pub required: bool,
    pub variadic: bool,
}

/// A group of related commands.
#[derive(Debug)]
pub struct CommandGroup {
    pub name: std::string::String,
    pub commands: Vec<std::string::String>,
}

/// A CLI command or subcommand.
#[derive(Debug)]
pub struct Command {
    pub name: std::string::String,
    pub description: std::string::String,
    pub aliases: Vec<std::string::String>,
    pub subcommands: Vec<Command>,
    pub flags: Vec<Flag>,
    pub args: Vec<Arg>,
    pub examples: Vec<std::string::String>,
}

/// The complete specification of a CLI tool, as parsed from its help output.
#[derive(Debug)]
pub struct ToolSpec {
    pub name: std::string::String,
    pub version: Option<std::string::String>,
    pub description: std::string::String,
    pub framework: Framework,
    pub commands: Vec<Command>,
    pub global_flags: Vec<Flag>,
    pub groups: Vec<CommandGroup>,
}

/// The view of a value type.
pub enum TypeV {
    Text,
    Boolean,
    Integer,
    Real,
    FilePath,
    Choice(Seq<Seq<char>>),
    Named(Seq<char>),
}

/// The view of a flag.
pub struct FlagV {
    pub short: Option<Seq<char>>,
    pub long: Option<Seq<char>>,
    pub description: Seq<char>,
    pub value_type: TypeV,
    pub required: bool,
    pub default: Option<Seq<char>>,
    pub env_var: Option<Seq<char>>,
}

/// The view of a positional argument.
pub struct ArgV {
    pub name: Seq<char>,
    pub description: Seq<char>,
    pub value_type: TypeV,
    pub required: bool,
    pub variadic: bool,
}

/// The view of a command group.
pub struct GroupV {
    pub name: Seq<char>,
    pub commands: Seq<Seq<char>>,
}

/// The view of a command, subcommands included.
pub struct CommandV {
    pub name: Seq<char>,
    pub description: Seq<char>,
    pub aliases: Seq<Seq<char>>,
    pub subcommands: Seq<CommandV>,
    pub flags: Seq<FlagV>,
    pub args: Seq<ArgV>,
    pub examples: Seq<Seq<char>>,
}

/// The view of a whole tool.
pub struct ToolV {
    pub name: Seq<char>,
    pub version: Option<Seq<char>>,
    pub description: Seq<char>,
    pub framework: Framework,
    pub commands: Seq<CommandV>,
    pub global_flags: Seq<FlagV>,
    pub groups: Seq<GroupV>,
}

/// The views of a sequence of strings.
pub open spec fn strs_v(v: Seq<std::string::String>) -> Seq<Seq<char>> {
    v.map_values(|s: std::string::String| s@)
}

/// The view of an optional string.
pub open spec fn opt_v(o: Option<std::string::String>) -> Option<Seq<char>> {
    match o {
        Some(s) => Some(s@),
        None => None,
    }
}

impl View for ValueType {
    type V = TypeV;

    open spec fn view(&self) -> TypeV {
        match self {
            ValueType::String => TypeV::Text,
            ValueType::Bool => TypeV::Boolean,
            ValueType::Int => TypeV::Integer,
            ValueType::Float => TypeV::Real,
            ValueType::Path => TypeV::FilePath,
            ValueType::Enum(v) => TypeV::Choice(strs_v(v@)),
            ValueType::Custom(s) => TypeV::Named(s@),
        }
    }
}

impl View for Flag {
    type V = FlagV;

    open spec fn view(&self) -> FlagV {
        FlagV {
            short: opt_v(self.short),
            long: opt_v(self.long),
            description: self.description@,
            value_type: self.value_type@,
            required: self.required,
            default: opt_v(self.default),
            env_var: opt_v(self.env_var),
        }
    }
}

impl View for Arg {
    type V = ArgV;

    open spec fn view(&self) -> ArgV {
        ArgV {
            name: self.name@,
            description: self.description@,
            value_type: self.value_type@,
            required: self.required,
            variadic: self.variadic,
        }
    }
}

impl View for CommandGroup {
    type V = GroupV;

    open spec fn view(&self) -> GroupV {
        GroupV { name: self.name@, commands: strs_v(self.commands@) }
    }
}

/// The view of a command, subcommands included.
pub open spec fn command_v(c: Command) -> CommandV
    decreases c,
{
    CommandV {
        name: c.name@,
        description: c.description@,
        aliases: strs_v(c.aliases@),
        subcommands: Seq::new(
            c.subcommands@.len(),
            |i: int|
                if 0 <= i < c.subcommands@.len() {
                    proof {
                        assert(decreases_to!(c.subcommands => c.subcommands@));
                        assert(decreases_to!(c.subcommands@ => c.subcommands@[i]));
                    }
                    command_v(c.subcommands@[i])
                } else {
                    CommandV {
                        name: seq![],
                        description: seq![],
                        aliases: seq![],
                        subcommands: seq![],
                        flags: seq![],
                        args: seq![],
                        examples: seq![],
                    }
                },
        ),
        flags: c.flags@.map_values(|f: Flag| f@),
        args: c.args@.map_values(|a: Arg| a@),
        examples: strs_v(c.examples@),
    }
}

impl View for Command {
    type V = CommandV;

    open spec fn view(&self) -> CommandV {
        command_v(*self)
    }
}

/// The name a framework goes by in output: `clap`, `cobra`, `click`,
/// `argparse`, `gnu` or `unknown`.
pub open spec fn framework_label(f: Framework) -> Seq<char> {
    match f {
        Framework::Clap => "clap"@,
        Framework::Cobra => "cobra"@,
        Framework::Click => "click"@,
        Framework::Argparse => "argparse"@,
        Framework::GnuStyle => "gnu"@,
        Framework::Unknown => "unknown"@,
    }
}

impl Framework {
    /// The name the framework goes by in output.
    pub fn to_string(&self) -> (r: std::string::String)
        ensures
            r@ == framework_label(*self),
    {
        match self {
            Framework::Clap => owned("clap"),
            Framework::Cobra => owned("cobra"),
            Framework::Click => owned("click"),
            Framework::Argparse => owned("argparse"),
            Framework::GnuStyle => owned("gnu"),
            Framework::Unknown => owned("unknown"),
        }
    }
}

impl View for ToolSpec {
    type V = ToolV;

    open spec fn view(&self) -> ToolV {
        ToolV {
            name: self.name@,
            version: opt_v(self.version),
            description: self.description@,
            framework: self.framework,
            commands: self.commands@.map_values(|c: Command| c@),
            global_flags: self.global_flags@.map_values(|f: Flag| f@),
            groups: self.groups@.map_values(|g: CommandGroup| g@),
        }
    }
}

/// A copy of each string.
fn clone_strings(v: &Vec<std::string::String>) -> (r: Vec<std::string::String>)
    ensures
        strs_v(r@) == strs_v(v@),
{
    let mut r: Vec<std::string::String> = Vec::new();
    let mut i: usize = 0;
    while i < v.len()
        invariant
            i <= v@.len(),
            strs_v(r@) == strs_v(v@).take(i as int),
        decreases v@.len() - i,
    {
        let c = v[i].clone();
        let ghost before = r@;
        r.push(c);
        assert(r@ == before.push(c));
        assert(strs_v(r@) =~= strs_v(before).push(v@[i as int]@));
        assert(strs_v(v@).take(i + 1) =~= strs_v(v@).take(i as int).push(v@[i as int]@));
        i += 1;
    }
    assert(strs_v(v@).take(v@.len() as int) =~= strs_v(v@));
    r
}

/// A copy of an optional string.
fn clone_opt(o: &Option<std::string::String>) -> (r: Option<std::string::String>)
    ensures
        opt_v(r) == opt_v(*o),
{
    match o {
        Some(s) => Some(s.clone()),
        None => None,
    }
}

impl Clone for ValueType {
    fn clone(&self) -> (r: Self)
        ensures
            r@ == self@,
    {
        match self {
            ValueType::String => ValueType::String,
            ValueType::Bool => ValueType::Bool,
            ValueType::Int => ValueType::Int,
            ValueType::Float => ValueType::Float,
            ValueType::Path => ValueType::Path,
            ValueType::Enum(v) => ValueType::Enum(clone_strings(v)),
            ValueType::Custom(s) => ValueType::Custom(s.clone()),
        }
    }
}

impl Clone for Flag {
    fn clone(&self) -> (r: Self)
        ensures
            r@ == self@,
    {
        Flag {
            short: clone_opt(&self.short),
            long: clone_opt(&self.long),
            description: self.description.clone(),
            value_type: self.value_type.clone(),
            required: self.required,
            default: clone_opt(&self.default),
            env_var: clone_opt(&self.env_var),
        }
    }
}

impl Clone for Arg {
    fn clone(&self) -> (r: Self)
        ensures
            r@ == self@,
    {
        Arg {
            name: self.name.clone(),
            description: self.description.clone(),
            value_type: self.value_type.clone(),
            required: self.required,
            variadic: self.variadic,
        }
    }
}

impl Clone for CommandGroup {
    fn clone(&self) -> (r: Self)
        ensures
            r@ == self@,
    {
        CommandGroup { name: self.name.clone(), commands: clone_strings(&self.commands) }
    }
}

/// A copy of each flag.
fn clone_flags(v: &Vec<Flag>) -> (r: Vec<Flag>)
    ensures
        r@.map_values(|f: Flag| f@) == v@.map_values(|f: Flag| f@),
{
    let mut r: Vec<Flag> = Vec::new();
    let mut i: usize = 0;
    while i < v.len()
        invariant
            i <= v@.len(),
            r@.map_values(|f: Flag| f@) == v@.map_values(|f: Flag| f@).take(i as int),
        decreases v@.len() - i,
    {
        let c = v[i].clone();
        let ghost before = r@;
        r.push(c);
        assert(r@ == before.push(c));
        assert(r@.map_values(|f: Flag| f@) =~= before.map_values(|f: Flag| f@).push(v@[i as int]@));
        assert(v@.map_values(|f: Flag| f@).take(i + 1) =~= v@.map_values(|f: Flag| f@).take(i as int).push(v@[i as int]@));
        i += 1;
    }
    assert(v@.map_values(|f: Flag| f@).take(v@.len() as int) =~= v@.map_values(|f: Flag| f@));
    r
}

/// A copy of each argument.
fn clone_args(v: &Vec<Arg>) -> (r: Vec<Arg>)
    ensures
        r@.map_values(|a: Arg| a@) == v@.map_values(|a: Arg| a@),
{
    let mut r: Vec<Arg> = Vec::new();
    let mut i: usize = 0;
    while i < v.len()
        invariant
            i <= v@.len(),
            r@.map_values(|a: Arg| a@) == v@.map_values(|a: Arg| a@).take(i as int),
        decreases v@.len() - i,
    {
        let c = v[i].clone();
        let ghost before = r@;
        r.push(c);
        assert(r@ == before.push(c));
        assert(r@.map_values(|a: Arg| a@) =~= before.map_values(|a: Arg| a@).push(v@[i as int]@));
        assert(v@.map_values(|a: Arg| a@).take(i + 1) =~= v@.map_values(|a: Arg| a@).take(i as int).push(v@[i as int]@));
        i += 1;
    }
    assert(v@.map_values(|a: Arg| a@).take(v@.len() as int) =~= v@.map_values(|a: Arg| a@));
    r
}

/// A copy of each group.
fn clone_groups(v: &Vec<CommandGroup>) -> (r: Vec<CommandGroup>)
    ensures
        r@.map_values(|g: CommandGroup| g@) == v@.map_values(|g: CommandGroup| g@),
{
    let mut r: Vec<CommandGroup> = Vec::new();
    let mut i: usize = 0;
    while i < v.len()
        invariant
            i <= v@.len(),
            r@.map_values(|g: CommandGroup| g@) == v@.map_values(|g: CommandGroup| g@).take(
                i as int,
            ),
        decreases v@.len() - i,
    {
        let c = v[i].clone();
        let ghost before = r@;
        r.push(c);
        assert(r@ == before.push(c));
        assert(r@.map_values(|g: CommandGroup| g@) =~= before.map_values(|g: CommandGroup| g@).push(
            v@[i as int]@,
        ));
        assert(v@.map_values(|g: CommandGroup| g@).take(i + 1) =~= v@.map_values(
            |g: CommandGroup| g@,
        ).take(i as int).push(v@[i as int]@));
        i += 1;
    }
    assert(v@.map_values(|g: CommandGroup| g@).take(v@.len() as int) =~= v@.map_values(
        |g: CommandGroup| g@,
    ));
    r
}

impl Clone for Command {
    fn clone(&self) -> (r: Self)
        ensures
            r@ == self@,
        decreases self,
    {
        let mut subcommands: Vec<Command> = Vec::new();
        let mut i: usize = 0;
        while i < self.subcommands.len()
            invariant
                i <= self.subcommands@.len(),
                subcommands@.len() == i,
                forall|k: int| 0 <= k < i ==> #[trigger] subcommands@[k]@ == self.subcommands@[k]@,
            decreases self.subcommands@.len() - i,
        {
            proof {
                assert(decreases_to!(self => self.subcommands));
                assert(decreases_to!(self.subcommands => self.subcommands@));
                assert(decreases_to!(self.subcommands@ => self.subcommands@[i as int]));
            }
            let c = self.subcommands[i].clone();
            let ghost before = subcommands@;
            subcommands.push(c);
            assert(subcommands@ == before.push(c));
            i += 1;
        }
        let r = Command {
            name: self.name.clone(),
            description: self.description.clone(),
            aliases: clone_strings(&self.aliases),
            subcommands,
            flags: clone_flags(&self.flags),
            args: clone_args(&self.args),
            examples: clone_strings(&self.examples),
        };
        assert forall|k: int| 0 <= k < r@.subcommands.len() implies #[trigger] r@.subcommands[k]
            == self@.subcommands[k] by {
            assert(r.subcommands@[k]@ == self.subcommands@[k]@);
        }
        assert(r@.subcommands =~= self@.subcommands);
        r
    }
}

impl Clone for ToolSpec {
    fn clone(&self) -> (r: Self)
        ensures
            r@ == self@,
    {
        let mut commands: Vec<Command> = Vec::new();
        let mut i: usize = 0;
        while i < self.commands.len()
            invariant
                i <= self.commands@.len(),
                commands@.map_values(|c: Command| c@) == self.commands@.map_values(
                    |c: Command| c@,
                ).take(i as int),
            decreases self.commands@.len() - i,
        {
            let c = self.commands[i].clone();
            let ghost before = commands@;
            commands.push(c);
            assert(commands@ == before.push(c));
            assert(commands@.map_values(|c: Command| c@) =~= before.map_values(|c: Command| c@).push(
                self.commands@[i as int]@,
            ));
            assert(self.commands@.map_values(|c: Command| c@).take(i + 1) =~= self.commands@.map_values(
                |c: Command| c@,
            ).take(i as int).push(self.commands@[i as int]@));
            i += 1;
        }
        assert(self.commands@.map_values(|c: Command| c@).take(self.commands@.len() as int)
            =~= self.commands@.map_values(|c: Command| c@));
        ToolSpec {
            name: self.name.clone(),
            version: clone_opt(&self.version),
            description: self.description.clone(),
            framework: self.framework,
            commands,
            global_flags: clone_flags(&self.global_flags),
            groups: clone_groups(&self.groups),
        }
    }
}

} // verus!
