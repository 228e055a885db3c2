//! The interactive session's decisions: the prompt text with the home
//! directory collapsed to `~`, and whether a buffered input still needs
//! another line before it can run. Reading lines and running commands is
//! the surrounding process's part.

use vstd::prelude::*;
use vstd::string::StrSliceExecFns;
use vstd::string::StringExecFns;
use crate::parser::{parse_outcome, CommandParser, LexOutcome};
use crate::registry::CommandRegistry;
use crate::strutil::{is_prefix_of, str_has_prefix};
use crate::error::ShellError;

verus! {

/// One interactive session: its registry, its parser, and the last
/// working directory it managed to observe (shown when the current one
/// cannot be read).
pub struct Shell {
    pub command_registry: CommandRegistry,
    pub parser: CommandParser,
    pub last_dir: String,
}

/// The prompt text for a working directory: a leading home-directory
/// prefix collapses to `~`, and ` $ ` follows.
pub open spec fn prompt_spec(cwd: Seq<char>, home: Seq<char>) -> Seq<char> {
    (if is_prefix_of(home, cwd) {
        "~"@ + cwd.skip(home.len() as int)
    } else {
        cwd
    }) + " $ "@
}

impl Shell {
    /// A session whose parser knows no home directory.
    pub fn new() -> (r: Self)
        ensures
            r.parser.home_view() is None,
            r.last_dir@ == Seq::<char>::empty(),
    {
        Shell {
            command_registry: CommandRegistry::new(),
            parser: CommandParser::new(),
            last_dir: String::new(),
        }
    }

    /// A session whose parser expands `~` to the given home directory.
    pub fn with_home(home: Option<String>) -> (r: Self)
        ensures
            r.parser.home_view() == crate::parser::opt_view(home),
            r.last_dir@ == Seq::<char>::empty(),
    {
        Shell {
            command_registry: CommandRegistry::new(),
            parser: CommandParser::with_home(home),
            last_dir: String::new(),
        }
    }

    /// The prompt text for the given working directory and home value.
    pub fn prompt_string(&self, cwd: &str, home: &str) -> (r: String)
        ensures
            r@ == prompt_spec(cwd@, home@),
    {
        let mut r = String::new();
        if str_has_prefix(cwd, home) {
            r.append("~");
            let n = cwd.unicode_len();
            let hn = home.unicode_len();
            let rest = cwd.substring_char(hn, n);
            r.append(rest);
        } else {
            r.append(cwd);
        }
        r.append(" $ ");
        proof {
            assert(r@ =~= prompt_spec(cwd@, home@));
        }
        r
    }

    /// Whether the buffered input ended inside a quote (or on a dangling
    /// backslash within quotes), so that the session should show its
    /// continuation prompt and append another line instead of running or
    /// rejecting what it has.
    pub fn needs_more_input(&self, buffered: &str) -> (r: bool)
        ensures
            r == (parse_outcome(buffered@, self.parser.home_view()) is Incomplete),
    {
        match self.parser.parse(buffered) {
            Err(ShellError::IncompleteInput(_)) => true,
            _ => false,
        }
    }
}

} // verus!
