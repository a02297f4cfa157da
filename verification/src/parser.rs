//! From a line of text to the commands of a pipeline.

pub mod laws;
pub mod quoting;
pub mod splitting;

use crate::parser::quoting::{chunk_quoted_string, chunked, QuotingError};
use crate::parser::splitting::{
    classified_all, split, split_commands, SplitFailure, SplittingError,
};
use vstd::prelude::*;

verus! {

/// A channel of a process, by its number: 1 is the output, 2 the error output.
#[derive(Debug, Clone, Copy, PartialEq, Eq, Hash, Structural)]
pub struct Descriptor(pub u8);

impl Descriptor {
    /// The standard output.
    pub fn stdout() -> (descriptor: Descriptor)
        ensures
            descriptor == Descriptor(1),
    {
        Descriptor(1)
    }

    /// The standard error output.
    pub fn stderr() -> (descriptor: Descriptor)
        ensures
            descriptor == Descriptor(2),
    {
        Descriptor(2)
    }
}

/// Where a redirection sends what is written.
#[derive(Debug, PartialEq, Eq)]
pub enum RedirectTo {
    /// To wherever another descriptor goes.
    Descriptor(Descriptor),
    /// Into the file of this name.
    File(String),
}

/// What a redirection's destination is to the contracts.
pub enum Target {
    Descriptor(Descriptor),
    File(Seq<char>),
}

impl View for RedirectTo {
    type V = Target;

    open spec fn view(&self) -> Target {
        match self {
            RedirectTo::Descriptor(descriptor) => Target::Descriptor(*descriptor),
            RedirectTo::File(name) => Target::File(name@),
        }
    }
}

impl DeepView for RedirectTo {
    type V = Target;

    open spec fn deep_view(&self) -> Target {
        self@
    }
}

impl Clone for RedirectTo {
    fn clone(&self) -> (copy: RedirectTo)
        ensures
            copy@ == self@,
    {
        match self {
            RedirectTo::Descriptor(descriptor) => RedirectTo::Descriptor(*descriptor),
            RedirectTo::File(name) => RedirectTo::File(name.clone()),
        }
    }
}

/// One redirection of a command. The order of a command's redirections
/// matters: a later one overrides an earlier one for the same descriptor.
#[derive(Debug, PartialEq, Eq)]
pub struct Redirect {
    from: Descriptor,
    to: RedirectTo,
    append: bool,
}

/// What a redirection is to the contracts.
pub struct Redirection {
    /// The descriptor that is redirected.
    pub source: Descriptor,
    /// Where it goes.
    pub target: Target,
    /// Whether a file is added to, not overwritten.
    pub append: bool,
}

impl View for Redirect {
    type V = Redirection;

    closed spec fn view(&self) -> Redirection {
        Redirection { source: self.from, target: self.to@, append: self.append }
    }
}

impl DeepView for Redirect {
    type V = Redirection;

    open spec fn deep_view(&self) -> Redirection {
        self@
    }
}

impl Redirect {
    /// The redirection of `from` to `to`.
    pub fn new(from: Descriptor, to: RedirectTo, append: bool) -> (redirect: Redirect)
        ensures
            redirect@ == (Redirection { source: from, target: to@, append }),
    {
        Redirect { from, to, append }
    }

    /// The descriptor that is redirected.
    pub fn from(&self) -> (descriptor: Descriptor)
        ensures
            descriptor == self@.source,
    {
        self.from
    }

    /// Where it goes.
    pub fn to(&self) -> (target: RedirectTo)
        ensures
            target@ == self@.target,
    {
        self.to.clone()
    }

    /// Whether a file is added to, not overwritten.
    pub fn append(&self) -> (append: bool)
        ensures
            append == self@.append,
    {
        self.append
    }
}

/// One stage of a pipeline: a program with its arguments and its
/// redirections, each in the order in which the line gives them.
#[derive(Debug, PartialEq, Eq)]
pub struct Command {
    program: String,
    arguments: Vec<String>,
    redirects: Vec<Redirect>,
}

/// What a command is to the contracts.
pub struct Stage {
    pub program: Seq<char>,
    pub arguments: Seq<Seq<char>>,
    pub redirects: Seq<Redirection>,
}

impl View for Command {
    type V = Stage;

    closed spec fn view(&self) -> Stage {
        Stage {
            program: self.program@,
            arguments: self.arguments.deep_view(),
            redirects: self.redirects.deep_view(),
        }
    }
}

impl DeepView for Command {
    type V = Stage;

    open spec fn deep_view(&self) -> Stage {
        self@
    }
}

impl Command {
    /// The command that runs `program` with `arguments` under `redirects`.
    pub fn new(program: String, arguments: Vec<String>, redirects: Vec<Redirect>) -> (command:
        Command)
        ensures
            command@ == (Stage {
                program: program@,
                arguments: arguments.deep_view(),
                redirects: redirects.deep_view(),
            }),
    {
        Command { program, arguments, redirects }
    }

    /// The name of the program.
    pub fn program(&self) -> (program: &str)
        ensures
            program@ == self@.program,
    {
        self.program.as_str()
    }

    /// The arguments, in order.
    pub fn arguments(&self) -> (arguments: &[String])
        ensures
            arguments.deep_view() == self@.arguments,
    {
        self.arguments.as_slice()
    }

    /// The redirections, in order.
    pub fn redirects(&self) -> (redirects: &[Redirect])
        ensures
            redirects.deep_view() == self@.redirects,
    {
        self.redirects.as_slice()
    }
}

/// Whether every command names its program.
pub open spec fn programs_are_named(stages: Seq<Stage>) -> bool {
    forall|i: int| 0 <= i < stages.len() ==> (#[trigger] stages[i]).program.len() > 0
}

/// Why a line is no pipeline.
#[derive(Debug, PartialEq, Eq)]
pub enum ParsingError {
    /// The line could not be cut into chunks.
    Quoting(QuotingError),
    /// The chunks could not be grouped into commands.
    CommandSplittingError(SplittingError),
}

/// What a parsing error is to the contracts.
pub enum ParseFailure {
    Quoting(QuotingError),
    CommandSplittingError(SplitFailure),
}

impl View for ParsingError {
    type V = ParseFailure;

    open spec fn view(&self) -> ParseFailure {
        match self {
            ParsingError::Quoting(error) => ParseFailure::Quoting(*error),
            ParsingError::CommandSplittingError(error) => ParseFailure::CommandSplittingError(
                error@,
            ),
        }
    }
}

/// The pipeline that a line spells: its chunks, grouped into commands.
pub open spec fn parsed(input: Seq<char>) -> Result<Seq<Stage>, ParseFailure> {
    match chunked(input) {
        Ok(chunks) => match split(classified_all(chunks)) {
            Ok(stages) => Ok(stages),
            Err(failure) => Err(ParseFailure::CommandSplittingError(failure)),
        },
        Err(error) => Err(ParseFailure::Quoting(error)),
    }
}

/// What the result of parsing is to the contracts.
pub open spec fn parse_view(result: Result<Vec<Command>, ParsingError>) -> Result<
    Seq<Stage>,
    ParseFailure,
> {
    match result {
        Ok(commands) => Ok(commands.deep_view()),
        Err(error) => Err(error@),
    }
}

/// Parses a line into the commands of a pipeline. A line without a word
/// gives no command, and every command names its program.
pub fn parse_input(input: &str) -> (result: Result<Vec<Command>, ParsingError>)
    ensures
        parse_view(result) == parsed(input@),
        result matches Ok(commands) ==> programs_are_named(commands.deep_view()),
{
    let chunks = match chunk_quoted_string(input) {
        Ok(chunks) => chunks,
        Err(error) => {
            return Err(ParsingError::Quoting(error));
        },
    };
    match split_commands(chunks) {
        Ok(commands) => Ok(commands),
        Err(error) => Err(ParsingError::CommandSplittingError(error)),
    }
}

} // verus!
