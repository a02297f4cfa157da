//! The commands that the shell runs itself, by name.

use crate::text::{join, joined, parse_decimal, parsed_decimal, same_text, spec_trim, trim};
use vstd::string::StringExecFns;
use vstd::prelude::*;

verus! {

/// A command that the shell runs itself.
#[derive(Debug, Clone, Copy, PartialEq, Eq, Structural)]
pub enum BuiltInCommand {
    ChangeDirectory,
    Echo,
    Exit,
    PrintWorkingDirectory,
    Type,
}

/// Why a built-in command cannot run.
#[derive(Debug, PartialEq, Eq)]
pub enum BuiltInCommandError {
    /// No built-in command has this name.
    BuiltInCommandNotFound(String),
    /// The command takes at least `min` arguments and was given `found`.
    NotEnoughArguments { found: usize, min: usize },
    /// The command takes at most `max` arguments and was given `found`.
    TooManyArguments { found: usize, max: usize },
    /// The argument of `exit`, given here, is no number that an exit code
    /// can be.
    InvalidExitCode(String),
}

/// What such an error is to the contracts.
pub enum BuiltInFailure {
    BuiltInCommandNotFound(Seq<char>),
    NotEnoughArguments { found: usize, min: usize },
    TooManyArguments { found: usize, max: usize },
    InvalidExitCode(Seq<char>),
}

impl View for BuiltInCommandError {
    type V = BuiltInFailure;

    open spec fn view(&self) -> BuiltInFailure {
        match self {
            BuiltInCommandError::BuiltInCommandNotFound(name) => {
                BuiltInFailure::BuiltInCommandNotFound(name@)
            },
            BuiltInCommandError::NotEnoughArguments { found, min } => {
                BuiltInFailure::NotEnoughArguments { found: *found, min: *min }
            },
            BuiltInCommandError::TooManyArguments { found, max } => {
                BuiltInFailure::TooManyArguments { found: *found, max: *max }
            },
            BuiltInCommandError::InvalidExitCode(argument) => BuiltInFailure::InvalidExitCode(
                argument@,
            ),
        }
    }
}

impl BuiltInCommand {
    /// The name by which a line calls the command.
    pub open spec fn spec_name(self) -> Seq<char> {
        match self {
            BuiltInCommand::ChangeDirectory => "cd"@,
            BuiltInCommand::Echo => "echo"@,
            BuiltInCommand::Exit => "exit"@,
            BuiltInCommand::PrintWorkingDirectory => "pwd"@,
            BuiltInCommand::Type => "type"@,
        }
    }

    /// The name by which a line calls the command.
    pub fn name(self) -> (name: &'static str)
        ensures
            name@ == self.spec_name(),
    {
        match self {
            BuiltInCommand::ChangeDirectory => "cd",
            BuiltInCommand::Echo => "echo",
            BuiltInCommand::Exit => "exit",
            BuiltInCommand::PrintWorkingDirectory => "pwd",
            BuiltInCommand::Type => "type",
        }
    }

    /// The built-in commands, in the order in which they are declared.
    pub open spec fn spec_all() -> Seq<BuiltInCommand> {
        seq![
            BuiltInCommand::ChangeDirectory,
            BuiltInCommand::Echo,
            BuiltInCommand::Exit,
            BuiltInCommand::PrintWorkingDirectory,
            BuiltInCommand::Type,
        ]
    }

    /// The built-in commands, in the order in which they are declared.
    pub fn all() -> (all: [BuiltInCommand; 5])
        ensures
            all@ == BuiltInCommand::spec_all(),
    {
        let all = [
            BuiltInCommand::ChangeDirectory,
            BuiltInCommand::Echo,
            BuiltInCommand::Exit,
            BuiltInCommand::PrintWorkingDirectory,
            BuiltInCommand::Type,
        ];
        all
    }
}

/// The built-in command of the given name, if there is one.
pub open spec fn builtin_named(name: Seq<char>) -> Option<BuiltInCommand> {
    if name == BuiltInCommand::ChangeDirectory.spec_name() {
        Some(BuiltInCommand::ChangeDirectory)
    } else if name == BuiltInCommand::Echo.spec_name() {
        Some(BuiltInCommand::Echo)
    } else if name == BuiltInCommand::Exit.spec_name() {
        Some(BuiltInCommand::Exit)
    } else if name == BuiltInCommand::PrintWorkingDirectory.spec_name() {
        Some(BuiltInCommand::PrintWorkingDirectory)
    } else if name == BuiltInCommand::Type.spec_name() {
        Some(BuiltInCommand::Type)
    } else {
        None
    }
}

/// No two built-in commands share a name, so a command is the one that its
/// name names.
pub proof fn lemma_names_are_distinct(builtin: BuiltInCommand)
    ensures
        builtin_named(builtin.spec_name()) == Some(builtin),
{
    reveal_strlit("cd");
    reveal_strlit("echo");
    reveal_strlit("exit");
    reveal_strlit("pwd");
    reveal_strlit("type");
    assert("cd"@.len() == 2 && "pwd"@.len() == 3);
    assert("echo"@[1] == 'c' && "exit"@[1] == 'x' && "type"@[1] == 'y');
}

/// Finds the built-in command that `command` names.
pub fn try_into_builtin(command: &str) -> (result: Result<BuiltInCommand, BuiltInCommandError>)
    ensures
        match result {
            Ok(builtin) => builtin_named(command@) == Some(builtin),
            Err(error) => builtin_named(command@) is None && error@
                == BuiltInFailure::BuiltInCommandNotFound(command@),
        },
{
    if same_text(command, "cd") {
        Ok(BuiltInCommand::ChangeDirectory)
    } else if same_text(command, "echo") {
        Ok(BuiltInCommand::Echo)
    } else if same_text(command, "exit") {
        Ok(BuiltInCommand::Exit)
    } else if same_text(command, "pwd") {
        Ok(BuiltInCommand::PrintWorkingDirectory)
    } else if same_text(command, "type") {
        Ok(BuiltInCommand::Type)
    } else {
        Err(BuiltInCommandError::BuiltInCommandNotFound(command.to_owned()))
    }
}

/// What `get_single_argument` makes of the arguments: the one argument
/// without the white space around it, or the error that says how many
/// there are.
pub open spec fn single_argument(args: Seq<Seq<char>>) -> Result<Seq<char>, BuiltInFailure> {
    if args.len() == 0 {
        Err(BuiltInFailure::NotEnoughArguments { found: 0, min: 1 })
    } else if args.len() > 1 {
        Err(BuiltInFailure::TooManyArguments { found: args.len() as usize, max: 1 })
    } else {
        Ok(spec_trim(args[0]))
    }
}

/// The argument of a command that takes exactly one, without the white
/// space around it.
pub fn get_single_argument(args: &[String]) -> (result: Result<String, BuiltInCommandError>)
    ensures
        match result {
            Ok(argument) => single_argument(args.deep_view()) == Ok::<Seq<char>, BuiltInFailure>(
                argument@,
            ),
            Err(error) => single_argument(args.deep_view()) == Err::<Seq<char>, BuiltInFailure>(
                error@,
            ),
        },
{
    if args.len() == 0 {
        Err(BuiltInCommandError::NotEnoughArguments { found: 0, min: 1 })
    } else if 1 < args.len() {
        Err(BuiltInCommandError::TooManyArguments { found: args.len(), max: 1 })
    } else {
        Ok(trim(args[0].as_str()))
    }
}

/// The exit code that `text` writes: a number from -2147483648 to
/// 2147483647 in decimal digits, with `-` or `+` before them or without a
/// sign.
pub open spec fn parsed_exit_code(text: Seq<char>) -> Option<i32> {
    let signed = text.len() > 0 && (text[0] == '-' || text[0] == '+');
    let negative = signed && text[0] == '-';
    let digits = if signed {
        text.skip(1)
    } else {
        text
    };
    match parsed_decimal(digits, 0x8000_0000) {
        Some(magnitude) => if negative {
            Some((-magnitude) as i32)
        } else if magnitude <= 0x7fff_ffff {
            Some(magnitude as i32)
        } else {
            None
        },
        None => None,
    }
}

/// Reads an exit code.
pub fn parse_exit_code(text: &str) -> (code: Option<i32>)
    ensures
        code == parsed_exit_code(text@),
{
    let length = text.unicode_len();
    let signed = length > 0 && (text.get_char(0) == '-' || text.get_char(0) == '+');
    let negative = signed && text.get_char(0) == '-';
    let digits = if signed {
        text.substring_char(1, length)
    } else {
        text
    };
    match parse_decimal(digits, 0x8000_0000) {
        Some(magnitude) => if negative {
            Some((-(magnitude as i64)) as i32)
        } else if magnitude <= 0x7fff_ffff {
            Some(magnitude as i32)
        } else {
            None
        },
        None => None,
    }
}

/// Where `cd` goes.
#[derive(Debug, PartialEq, Eq)]
pub enum Directory {
    /// To the home directory of the user.
    Home,
    /// To the directory of this path.
    Path(String),
}

/// What a built-in command asks to be done.
#[derive(Debug, PartialEq, Eq)]
pub enum BuiltInAction {
    /// Change the working directory.
    ChangeDirectory(Directory),
    /// Write a line to the output.
    Print(String),
    /// End the shell with this exit code.
    Exit(i32),
    /// Write the working directory to the output.
    PrintWorkingDirectory,
    /// Tell what `name` is: this built-in command, or else whatever the
    /// search path holds under that name.
    Describe { name: String, builtin: Option<BuiltInCommand> },
}

/// What an action is to the contracts.
pub enum Action {
    ChangeDirectoryHome,
    ChangeDirectory(Seq<char>),
    Print(Seq<char>),
    Exit(i32),
    PrintWorkingDirectory,
    Describe { name: Seq<char>, builtin: Option<BuiltInCommand> },
}

impl View for BuiltInAction {
    type V = Action;

    open spec fn view(&self) -> Action {
        match self {
            BuiltInAction::ChangeDirectory(Directory::Home) => Action::ChangeDirectoryHome,
            BuiltInAction::ChangeDirectory(Directory::Path(path)) => Action::ChangeDirectory(
                path@,
            ),
            BuiltInAction::Print(line) => Action::Print(line@),
            BuiltInAction::Exit(code) => Action::Exit(*code),
            BuiltInAction::PrintWorkingDirectory => Action::PrintWorkingDirectory,
            BuiltInAction::Describe { name, builtin } => Action::Describe {
                name: name@,
                builtin: *builtin,
            },
        }
    }
}

/// What a built-in command asks to be done with the given arguments.
///
/// `cd` takes one argument, the directory, where `~` stands for the home
/// directory. `echo` writes its arguments with a space between each two.
/// `exit` takes one argument, the exit code. `pwd` takes none. `type`
/// takes one, the name to tell about.
pub open spec fn planned(builtin: BuiltInCommand, args: Seq<Seq<char>>) -> Result<
    Action,
    BuiltInFailure,
> {
    match builtin {
        BuiltInCommand::ChangeDirectory => match single_argument(args) {
            Ok(directory) => if directory == seq!['~'] {
                Ok(Action::ChangeDirectoryHome)
            } else {
                Ok(Action::ChangeDirectory(directory))
            },
            Err(failure) => Err(failure),
        },
        BuiltInCommand::Echo => Ok(Action::Print(joined(args, seq![' ']))),
        BuiltInCommand::Exit => match single_argument(args) {
            Ok(argument) => match parsed_exit_code(argument) {
                Some(code) => Ok(Action::Exit(code)),
                None => Err(BuiltInFailure::InvalidExitCode(argument)),
            },
            Err(failure) => Err(failure),
        },
        BuiltInCommand::PrintWorkingDirectory => if args.len() > 0 {
            Err(BuiltInFailure::TooManyArguments { found: args.len() as usize, max: 0 })
        } else {
            Ok(Action::PrintWorkingDirectory)
        },
        BuiltInCommand::Type => match single_argument(args) {
            Ok(name) => Ok(Action::Describe { name, builtin: builtin_named(name) }),
            Err(failure) => Err(failure),
        },
    }
}

impl BuiltInCommand {
    /// Tells what the command asks to be done with the given arguments, or
    /// what is wrong with them.
    pub fn plan(self, args: &[String]) -> (result: Result<BuiltInAction, BuiltInCommandError>)
        ensures
            match result {
                Ok(action) => planned(self, args.deep_view()) == Ok::<Action, BuiltInFailure>(
                    action@,
                ),
                Err(error) => planned(self, args.deep_view()) == Err::<Action, BuiltInFailure>(
                    error@,
                ),
            },
    {
        match self {
            BuiltInCommand::ChangeDirectory => {
                let directory = match get_single_argument(args) {
                    Ok(directory) => directory,
                    Err(error) => {
                        return Err(error);
                    },
                };
                proof {
                    reveal_strlit("~");
                    assert("~"@ =~= seq!['~']);
                }
                if same_text(directory.as_str(), "~") {
                    Ok(BuiltInAction::ChangeDirectory(Directory::Home))
                } else {
                    Ok(BuiltInAction::ChangeDirectory(Directory::Path(directory)))
                }
            },
            BuiltInCommand::Echo => {
                proof {
                    reveal_strlit(" ");
                    assert(" "@ =~= seq![' ']);
                }
                Ok(BuiltInAction::Print(join(args, " ")))
            },
            BuiltInCommand::Exit => {
                let argument = match get_single_argument(args) {
                    Ok(argument) => argument,
                    Err(error) => {
                        return Err(error);
                    },
                };
                match parse_exit_code(argument.as_str()) {
                    Some(code) => Ok(BuiltInAction::Exit(code)),
                    None => Err(BuiltInCommandError::InvalidExitCode(argument)),
                }
            },
            BuiltInCommand::PrintWorkingDirectory => {
                if args.len() > 0 {
                    Err(BuiltInCommandError::TooManyArguments { found: args.len(), max: 0 })
                } else {
                    Ok(BuiltInAction::PrintWorkingDirectory)
                }
            },
            BuiltInCommand::Type => {
                let name = match get_single_argument(args) {
                    Ok(name) => name,
                    Err(error) => {
                        return Err(error);
                    },
                };
                let builtin = match try_into_builtin(name.as_str()) {
                    Ok(builtin) => Some(builtin),
                    Err(_) => None,
                };
                Ok(BuiltInAction::Describe { name, builtin })
            },
        }
    }
}

} // verus!
