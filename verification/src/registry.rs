//! The command registry: which built-in a command name denotes. Running
//! the chosen built-in is the caller's part; deciding which one runs, and
//! when a name is unknown, is decided here.

use vstd::prelude::*;
use crate::error::ShellError;
use crate::parser::Command;
use crate::strutil::str_eq;

verus! {

/// The built-in commands the shell knows.
#[derive(Debug, Clone, Copy, PartialEq, Eq, Structural)]
pub enum Builtin {
    Echo,
    Exit,
    Help,
    Pwd,
    Cd,
    Ls,
    Cat,
    Mkdir,
    Cp,
    Mv,
    Rm,
}

/// The built-in a command name denotes, if any.
pub open spec fn builtin_of(name: Seq<char>) -> Option<Builtin> {
    if name == "echo"@ {
        Option::Some(Builtin::Echo)
    } else if name == "exit"@ {
        Option::Some(Builtin::Exit)
    } else if name == "help"@ {
        Option::Some(Builtin::Help)
    } else if name == "pwd"@ {
        Option::Some(Builtin::Pwd)
    } else if name == "cd"@ {
        Option::Some(Builtin::Cd)
    } else if name == "ls"@ {
        Option::Some(Builtin::Ls)
    } else if name == "cat"@ {
        Option::Some(Builtin::Cat)
    } else if name == "mkdir"@ {
        Option::Some(Builtin::Mkdir)
    } else if name == "cp"@ {
        Option::Some(Builtin::Cp)
    } else if name == "mv"@ {
        Option::Some(Builtin::Mv)
    } else if name == "rm"@ {
        Option::Some(Builtin::Rm)
    } else {
        Option::None
    }
}

/// The name-to-built-in mapping of the shell.
pub struct CommandRegistry;

impl CommandRegistry {
    /// A registry of the full built-in command set.
    pub fn new() -> (r: Self) {
        CommandRegistry
    }

    /// The built-in a parsed command calls, or the command-not-found
    /// error carrying the unknown name.
    pub fn lookup(&self, command: &Command) -> (r: Result<Builtin, ShellError>)
        ensures
            ({
                match builtin_of(command.name@) {
                    Option::Some(b) => r == Ok::<Builtin, ShellError>(b),
                    Option::None => r matches Err(ShellError::CommandNotFound(m)) && m@
                        == command.name@,
                }
            }),
    {
        let n = command.name.as_str();
        if str_eq(n, "echo") {
            Ok(Builtin::Echo)
        } else if str_eq(n, "exit") {
            Ok(Builtin::Exit)
        } else if str_eq(n, "help") {
            Ok(Builtin::Help)
        } else if str_eq(n, "pwd") {
            Ok(Builtin::Pwd)
        } else if str_eq(n, "cd") {
            Ok(Builtin::Cd)
        } else if str_eq(n, "ls") {
            Ok(Builtin::Ls)
        } else if str_eq(n, "cat") {
            Ok(Builtin::Cat)
        } else if str_eq(n, "mkdir") {
            Ok(Builtin::Mkdir)
        } else if str_eq(n, "cp") {
            Ok(Builtin::Cp)
        } else if str_eq(n, "mv") {
            Ok(Builtin::Mv)
        } else if str_eq(n, "rm") {
            Ok(Builtin::Rm)
        } else {
            Err(ShellError::CommandNotFound(command.name.clone()))
        }
    }
}

} // verus!
