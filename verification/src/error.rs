//! The error taxonomy of the shell, and the text each error prints.

use vstd::prelude::*;
use vstd::string::StringExecFns;
use crate::strutil::string_from_chars;

verus! {

/// Everything that can go wrong while parsing or running a command line.
///
/// `IncompleteInput` is not a true failure: it carries the character whose
/// closing counterpart is still missing (a quote, or a dangling backslash),
/// and tells the caller to append another line of input and parse again.
#[derive(Debug, Clone, PartialEq)]
pub enum ShellError {
    IoError(String),
    ParseError(String),
    CommandNotFound(String),
    ExecutionError(String),
    FileSystemError(String),
    IncompleteInput(char),
    InvalidOption(String),
}

/// The shapes of operating-system failure the commands tell apart when
/// they word their error reports. The caller maps the platform's error
/// kind onto these; anything else is `Other`, reported with the
/// platform's own text.
#[derive(Debug, Clone, Copy, PartialEq, Eq, Structural)]
pub enum OsErrorKind {
    NotFound,
    PermissionDenied,
    NotADirectory,
    AlreadyExists,
    InvalidInput,
    CrossesDevices,
    Other,
}

/// The text that `message` returns for each error.
pub open spec fn error_message(e: ShellError) -> Seq<char> {
    match e {
        ShellError::IoError(m) => "I/O error: "@ + m@,
        ShellError::ParseError(m) => "Parse error: "@ + m@,
        ShellError::CommandNotFound(c) => "Command '"@ + c@ + "' not found"@,
        ShellError::ExecutionError(m) => "Execution error: "@ + m@,
        ShellError::FileSystemError(m) => "File system error: "@ + m@,
        ShellError::IncompleteInput(c) => "Incomplete input: unclosed quote '"@ + seq![c]
            + "'"@,
        ShellError::InvalidOption(m) => "Invalid option: "@ + m@,
    }
}

impl ShellError {
    /// The human-readable line printed for this error.
    pub fn message(&self) -> (r: String)
        ensures
            r@ == error_message(*self),
    {
        match self {
            ShellError::IoError(m) => {
                let mut s = String::new();
                s.append("I/O error: ");
                s.append(m.as_str());
                s
            },
            ShellError::ParseError(m) => {
                let mut s = String::new();
                s.append("Parse error: ");
                s.append(m.as_str());
                s
            },
            ShellError::CommandNotFound(c) => {
                let mut s = String::new();
                s.append("Command '");
                s.append(c.as_str());
                s.append("' not found");
                s
            },
            ShellError::ExecutionError(m) => {
                let mut s = String::new();
                s.append("Execution error: ");
                s.append(m.as_str());
                s
            },
            ShellError::FileSystemError(m) => {
                let mut s = String::new();
                s.append("File system error: ");
                s.append(m.as_str());
                s
            },
            ShellError::IncompleteInput(c) => {
                let mut s = String::new();
                s.append("Incomplete input: unclosed quote '");
                let v: Vec<char> = vec![*c];
                let cs = string_from_chars(&v);
                s.append(cs.as_str());
                s.append("'");
                s
            },
            ShellError::InvalidOption(m) => {
                let mut s = String::new();
                s.append("Invalid option: ");
                s.append(m.as_str());
                s
            },
        }
    }
}

} // verus!
