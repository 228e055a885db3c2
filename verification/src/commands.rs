//! The built-in command set, as verified decision logic: each command's
//! argument scanning, target resolution and error wording live here. The
//! caller performs the file system calls a plan asks for, classifies what
//! it finds as a `PathClass`, and hands failures back as an `OsErrorKind`
//! to have the report worded.

use vstd::prelude::*;
use vstd::string::StrSliceExecFns;
use vstd::string::StringExecFns;
use crate::error::{OsErrorKind, ShellError};
use crate::listing::PathClass;
use crate::parser::join_words;
use crate::strutil::{chars_of_str, concat3, concat4, concat5, str_eq, string_from_chars};

verus! {

/// Prints its arguments, space-joined.
pub struct EchoCommand;

/// Ends the shell.
pub struct ExitCommand;

/// Prints usage text.
pub struct HelpCommand;

/// Prints the working directory.
pub struct PwdCommand;

/// Changes the working directory.
pub struct CdCommand;

/// Concatenates files to standard output.
pub struct CatCommand;

/// Creates directories.
pub struct MkdirCommand;

/// Copies files and directories.
pub struct CpCommand;

/// Moves or renames files and directories.
pub struct MvCommand;

/// Removes files and directories.
pub struct RmCommand;

/// Whether a `-`-led argument still counts as an option (turned off for
/// the rest of the line once `--` is seen).
pub struct CommandOptions {
    pub is_option: bool,
}

/// Whether an argument looks like an option: non-empty and led by `-`.
pub open spec fn dash_led(a: Seq<char>) -> bool {
    a.len() > 0 && a[0] == '-'
}

fn starts_with_dash(a: &str) -> (r: bool)
    ensures
        r == dash_led(a@),
{
    let n = a.unicode_len();
    n > 0 && a.get_char(0) == '-'
}

impl EchoCommand {
    /// The line `echo` prints: its arguments joined with single spaces
    /// (empty, printed as a blank line, when there are none).
    pub fn render(&self, args: &Vec<String>) -> (r: String)
        ensures
            r@ == join_words(args.deep_view()),
    {
        let ghost dv = args.deep_view();
        let mut r = String::new();
        let mut i: usize = 0;
        proof {
            assert(dv.subrange(0, 0) =~= Seq::<Seq<char>>::empty());
        }
        while i < args.len()
            invariant
                i <= args@.len(),
                dv == args.deep_view(),
                dv.len() == args@.len(),
                forall|m: int| 0 <= m < args@.len() ==> dv[m] == #[trigger] args@[m]@,
                r@ == join_words(dv.subrange(0, i as int)),
            decreases args@.len() - i,
        {
            if i > 0 {
                r.append(" ");
            }
            r.append(args[i].as_str());
            i = i + 1;
            proof {
                lemma_join_words_push(dv.subrange(0, i - 1), dv[i - 1]);
                assert(dv.subrange(0, i - 1).push(dv[i - 1]) =~= dv.subrange(0, i as int));
                if i == 1 {
                    assert(r@ =~= join_words(dv.subrange(0, 1)));
                } else {
                    assert(r@ =~= join_words(dv.subrange(0, i - 1)) + " "@ + dv[i - 1]);
                    assert(" "@ =~= seq![' ']) by {
                        reveal_strlit(" ");
                    }
                    assert(r@ =~= join_words(dv.subrange(0, i as int)));
                }
            }
        }
        proof {
            assert(dv.subrange(0, dv.len() as int) =~= dv);
        }
        r
    }

    /// The usage line of `echo`.
    pub fn help(&self) -> (r: &'static str)
        ensures
            r@ == "echo [text] - Display a line of text"@,
    {
        "echo [text] - Display a line of text"
    }
}

/// Joining one more word: a join of several words grows by a space and
/// the word; a join of none is the word itself.
pub proof fn lemma_join_words_push(ws: Seq<Seq<char>>, w: Seq<char>)
    ensures
        join_words(ws.push(w)) == if ws.len() == 0 {
            w
        } else {
            join_words(ws) + seq![' '] + w
        },
    decreases ws.len(),
{
    let e = ws.push(w);
    if ws.len() == 0 {
        assert(e.len() == 1);
        assert(e[0] == w);
    } else {
        assert(e.len() >= 2);
        assert(e[0] == ws[0]);
        assert(e.skip(1) =~= ws.skip(1).push(w));
        lemma_join_words_push(ws.skip(1), w);
        if ws.len() == 1 {
            assert(ws.skip(1).len() == 0);
            assert(join_words(e) == e[0] + seq![' '] + join_words(e.skip(1)));
            assert(join_words(ws) == ws[0]);
        } else {
            assert(join_words(e) == e[0] + seq![' '] + join_words(e.skip(1)));
            assert(join_words(ws) == ws[0] + seq![' '] + join_words(ws.skip(1)));
            assert(ws[0] + seq![' '] + (join_words(ws.skip(1)) + seq![' '] + w) =~= (ws[0]
                + seq![' '] + join_words(ws.skip(1))) + seq![' '] + w);
        }
    }
}

impl ExitCommand {
    /// The usage line of `exit`.
    pub fn help(&self) -> (r: &'static str)
        ensures
            r@ == "exit - Exit the shell"@,
    {
        "exit - Exit the shell"
    }
}

/// The text `help` prints when given no command name, or several.
pub open spec fn help_overview() -> Seq<char> {
    "Usage: help [command]\nOnly one command is allowed\nAvailable commands:\necho, exit, help, pwd, cd, ls, cat, mkdir, cp, mv, rm"@
}

/// The text `help` prints for a given argument list.
pub open spec fn help_text(args: Seq<Seq<char>>) -> Seq<char> {
    if args.len() != 1 {
        help_overview()
    } else {
        let c = args[0];
        if c == "echo"@ {
            "echo [text] - Display a line of text"@
        } else if c == "exit"@ {
            "exit - Exit the shell"@
        } else if c == "help"@ {
            "help - Display help information"@
        } else if c == "pwd"@ {
            "Usage: pwd - Print working directory"@
        } else if c == "cd"@ {
            "Usage: cd [directory] - Change directory to the specified directory"@
        } else if c == "ls"@ {
            "Usage: ls [-a] [-l] [-F] [directory...] - List directory contents"@
        } else if c == "cat"@ {
            "Usage: cat [file...] - Concatenate and display files (reads from stdin if no files provided)"@
        } else if c == "mkdir"@ {
            "Usage: mkdir [-p] [directory...] - Create directories"@
        } else if c == "cp"@ {
            "Usage: cp source... destination - Copy files and directories"@
        } else if c == "mv"@ {
            "Usage: mv source... destination - Move (rename) files or directories"@
        } else if c == "rm"@ {
            "Usage: rm [-r] [file...] - Remove files or directories"@
        } else {
            "Unknown command: "@ + c
        }
    }
}

impl HelpCommand {
    /// The text `help` prints: an overview unless exactly one command is
    /// named, that command's usage line when it is known, and an unknown
    /// marker otherwise.
    pub fn render(&self, args: &Vec<String>) -> (r: String)
        ensures
            r@ == help_text(args.deep_view()),
    {
        if args.len() != 1 {
            let r = String::from_str(
                "Usage: help [command]\nOnly one command is allowed\nAvailable commands:\necho, exit, help, pwd, cd, ls, cat, mkdir, cp, mv, rm",
            );
            proof {
                assert(args.deep_view().len() == args@.len());
            }
            r
        } else {
            let c = args[0].as_str();
            proof {
                assert(args.deep_view()[0] == args@[0]@);
            }
            if str_eq(c, "echo") {
                String::from_str("echo [text] - Display a line of text")
            } else if str_eq(c, "exit") {
                String::from_str("exit - Exit the shell")
            } else if str_eq(c, "help") {
                String::from_str("help - Display help information")
            } else if str_eq(c, "pwd") {
                String::from_str("Usage: pwd - Print working directory")
            } else if str_eq(c, "cd") {
                String::from_str(
                    "Usage: cd [directory] - Change directory to the specified directory",
                )
            } else if str_eq(c, "ls") {
                String::from_str("Usage: ls [-a] [-l] [-F] [directory...] - List directory contents")
            } else if str_eq(c, "cat") {
                String::from_str(
                    "Usage: cat [file...] - Concatenate and display files (reads from stdin if no files provided)",
                )
            } else if str_eq(c, "mkdir") {
                String::from_str("Usage: mkdir [-p] [directory...] - Create directories")
            } else if str_eq(c, "cp") {
                String::from_str("Usage: cp source... destination - Copy files and directories")
            } else if str_eq(c, "mv") {
                String::from_str(
                    "Usage: mv source... destination - Move (rename) files or directories",
                )
            } else if str_eq(c, "rm") {
                String::from_str("Usage: rm [-r] [file...] - Remove files or directories")
            } else {
                let r = concat3("Unknown command: ", c, "");
                proof {
                    reveal_strlit("");
                    assert(r@ =~= "Unknown command: "@ + args.deep_view()[0]);
                }
                r
            }
        }
    }

    /// The usage line of `help`.
    pub fn help(&self) -> (r: &'static str)
        ensures
            r@ == "help - Display help information"@,
    {
        "help - Display help information"
    }
}

/// Why `pwd` rejects its argument list: an option it does not know, or
/// an operand, which it takes none of.
pub enum PwdScanErr {
    Opt(Seq<char>),
    Operand(Seq<char>),
}

/// Scanning the arguments of `pwd` from position `k`: `--` ends option
/// scanning; any other `-`-led argument while options are live is an
/// invalid option; any remaining argument is an operand, and `pwd` takes
/// none.
pub open spec fn pwd_scan(args: Seq<Seq<char>>, k: int, is_option: bool) -> Result<(), PwdScanErr>
    decreases args.len() - k,
{
    if k < 0 || k >= args.len() {
        Result::Ok(())
    } else {
        let a = args[k];
        if a == "--"@ {
            pwd_scan(args, k + 1, false)
        } else if dash_led(a) && is_option {
            Result::Err(PwdScanErr::Opt(a))
        } else {
            Result::Err(PwdScanErr::Operand(a))
        }
    }
}

impl PwdCommand {
    /// Check the arguments of `pwd`: it takes no options and no operands.
    /// The first option-looking argument (before any `--`) is rejected as
    /// an invalid option; any other argument is rejected as an operand.
    pub fn validate_args(&self, args: &Vec<String>) -> (r: Result<(), ShellError>)
        ensures
            ({
                match pwd_scan(args.deep_view(), 0, true) {
                    Result::Ok(_) => r is Ok,
                    Result::Err(PwdScanErr::Opt(a)) => r matches Err(
                        ShellError::InvalidOption(m),
                    ) && m@ == a,
                    Result::Err(PwdScanErr::Operand(_)) => r matches Err(
                        ShellError::ExecutionError(m),
                    ) && m@ == "pwd: too many arguments"@,
                }
            }),
    {
        let ghost dv = args.deep_view();
        let mut is_option = true;
        let mut k: usize = 0;
        while k < args.len()
            invariant
                k <= args@.len(),
                dv == args.deep_view(),
                dv.len() == args@.len(),
                forall|m: int| 0 <= m < args@.len() ==> dv[m] == #[trigger] args@[m]@,
                pwd_scan(dv, k as int, is_option) == pwd_scan(dv, 0, true),
            decreases args@.len() - k,
        {
            if str_eq(args[k].as_str(), "--") {
                is_option = false;
            } else if starts_with_dash(args[k].as_str()) && is_option {
                return Err(ShellError::InvalidOption(args[k].clone()));
            } else {
                return Err(ShellError::ExecutionError(String::from_str(
                    "pwd: too many arguments",
                )));
            }
            k = k + 1;
        }
        Ok(())
    }

    /// The usage line of `pwd`.
    pub fn help(&self) -> (r: &'static str)
        ensures
            r@ == "Usage: pwd - Print working directory"@,
    {
        "Usage: pwd - Print working directory"
    }
}

/// Scanning the arguments of `cd` from position `k`: `--` ends option
/// scanning, a `-`-led argument other than a lone `-` is rejected while
/// options are live, and the first argument otherwise seen while the
/// target is still empty becomes the target.
pub open spec fn cd_scan(args: Seq<Seq<char>>, k: int, is_option: bool, target: Seq<char>) -> Result<
    Seq<char>,
    Seq<char>,
>
    decreases args.len() - k,
{
    if k < 0 || k >= args.len() {
        Result::Ok(target)
    } else {
        let a = args[k];
        if a == "--"@ {
            cd_scan(args, k + 1, false, target)
        } else if dash_led(a) && is_option && a != "-"@ {
            Result::Err(a)
        } else {
            cd_scan(
                args,
                k + 1,
                is_option,
                if target.len() == 0 {
                    a
                } else {
                    target
                },
            )
        }
    }
}

/// What the target of `cd` resolves to: the directory to enter, paired
/// with whether it is echoed first (only `cd -` echoes), or the error
/// message when a needed environment value is missing.
pub open spec fn cd_resolve(
    target: Seq<char>,
    home: Option<Seq<char>>,
    oldpwd: Option<Seq<char>>,
) -> Result<(Seq<char>, bool), Seq<char>> {
    if target.len() == 0 {
        match home {
            Option::Some(h) => Result::Ok((h, false)),
            Option::None => Result::Err("cd: HOME environment variable not set"@),
        }
    } else if target.len() >= 2 && target[0] == '~' && target[1] == '/' {
        match home {
            Option::Some(h) => Result::Ok((h + seq!['/'] + target.skip(2), false)),
            Option::None => Result::Err("cd: HOME environment variable not set"@),
        }
    } else if target == "-"@ {
        match oldpwd {
            Option::Some(o) => Result::Ok((o, true)),
            Option::None => Result::Err("cd: OLDPWD not set"@),
        }
    } else {
        Result::Ok((target, false))
    }
}

/// The report `cd` gives when entering the resolved directory fails.
pub open spec fn cd_error_message(target: Seq<char>, kind: OsErrorKind, detail: Seq<char>) -> Seq<
    char,
> {
    match kind {
        OsErrorKind::NotFound => "cd: "@ + target + ": No such file or directory"@,
        OsErrorKind::PermissionDenied => "cd: "@ + target + ": Permission denied"@,
        OsErrorKind::NotADirectory => "cd: "@ + target + ": Not a directory"@,
        _ => "cd: "@ + target + ": "@ + detail,
    }
}

impl CdCommand {
    /// Scan the arguments of `cd` for its one target.
    pub fn scan_target(&self, args: &Vec<String>) -> (r: Result<String, ShellError>)
        ensures
            ({
                match cd_scan(args.deep_view(), 0, true, Seq::empty()) {
                    Result::Ok(t) => r matches Ok(s) && s@ == t,
                    Result::Err(a) => r matches Err(ShellError::InvalidOption(m)) && m@ == a,
                }
            }),
    {
        let ghost dv = args.deep_view();
        let mut is_option = true;
        let mut target = String::new();
        let mut k: usize = 0;
        while k < args.len()
            invariant
                k <= args@.len(),
                dv == args.deep_view(),
                dv.len() == args@.len(),
                forall|m: int| 0 <= m < args@.len() ==> dv[m] == #[trigger] args@[m]@,
                cd_scan(dv, k as int, is_option, target@) == cd_scan(dv, 0, true, Seq::empty()),
            decreases args@.len() - k,
        {
            if str_eq(args[k].as_str(), "--") {
                is_option = false;
            } else if starts_with_dash(args[k].as_str()) && is_option && !str_eq(
                args[k].as_str(),
                "-",
            ) {
                return Err(ShellError::InvalidOption(args[k].clone()));
            } else {
                if target.as_str().unicode_len() == 0 {
                    target = args[k].clone();
                }
            }
            k = k + 1;
        }
        Ok(target)
    }

    /// Resolve the scanned target against the environment: an empty
    /// target means the home directory, a `~/` prefix is expanded, and
    /// `-` means the previous directory, which is echoed. The result says
    /// which directory to enter and whether to echo it; a missing
    /// environment value is the exact error `cd` reports.
    pub fn resolve_target_directory(
        &self,
        target: &str,
        home: &Option<String>,
        oldpwd: &Option<String>,
    ) -> (r: Result<(String, bool), ShellError>)
        ensures
            ({
                let hv = crate::parser::opt_view(*home);
                let ov = crate::parser::opt_view(*oldpwd);
                match cd_resolve(target@, hv, ov) {
                    Result::Ok((d, announce)) => r matches Ok((s, a)) && s@ == d && a == announce,
                    Result::Err(m) => r matches Err(ShellError::FileSystemError(s)) && s@ == m,
                }
            }),
    {
        let n = target.unicode_len();
        if n == 0 {
            match home {
                Option::Some(h) => Ok((h.clone(), false)),
                Option::None => Err(ShellError::FileSystemError(String::from_str(
                    "cd: HOME environment variable not set",
                ))),
            }
        } else if n >= 2 && target.get_char(0) == '~' && target.get_char(1) == '/' {
            match home {
                Option::Some(h) => {
                    let rest = target.substring_char(2, n);
                    let d = concat3(h.as_str(), "/", rest);
                    proof {
                        reveal_strlit("/");
                        assert(d@ =~= h@ + seq!['/'] + target@.skip(2));
                    }
                    Ok((d, false))
                },
                Option::None => Err(ShellError::FileSystemError(String::from_str(
                    "cd: HOME environment variable not set",
                ))),
            }
        } else if str_eq(target, "-") {
            match oldpwd {
                Option::Some(o) => Ok((o.clone(), true)),
                Option::None => Err(ShellError::FileSystemError(String::from_str(
                    "cd: OLDPWD not set",
                ))),
            }
        } else {
            Ok((String::from_str(target), false))
        }
    }

    /// Word the report for a failed directory change.
    pub fn cd_error(&self, target: &str, kind: OsErrorKind, detail: &str) -> (r: ShellError)
        ensures
            r matches ShellError::FileSystemError(m) && m@ == cd_error_message(
                target@,
                kind,
                detail@,
            ),
    {
        let m = match kind {
            OsErrorKind::NotFound => concat3("cd: ", target, ": No such file or directory"),
            OsErrorKind::PermissionDenied => concat3("cd: ", target, ": Permission denied"),
            OsErrorKind::NotADirectory => concat3("cd: ", target, ": Not a directory"),
            _ => concat4("cd: ", target, ": ", detail),
        };
        ShellError::FileSystemError(m)
    }

    /// The usage line of `cd`.
    pub fn help(&self) -> (r: &'static str)
        ensures
            r@ == "Usage: cd [directory] - Change directory to the specified directory"@,
    {
        "Usage: cd [directory] - Change directory to the specified directory"
    }
}

/// One thing `cat` reads: standard input, or a named file.
#[derive(Debug)]
pub enum CatItem {
    Stdin,
    File(String),
}

/// A `cat` item reduced to its text: `None` for standard input.
pub open spec fn cat_item_view(it: CatItem) -> Option<Seq<char>> {
    match it {
        CatItem::Stdin => Option::None,
        CatItem::File(s) => Option::Some(s@),
    }
}

/// A whole `cat` reading list, reduced.
pub open spec fn cat_items_view(v: Seq<CatItem>) -> Seq<Option<Seq<char>>> {
    v.map_values(|it: CatItem| cat_item_view(it))
}

/// Scanning the arguments of `cat` from position `k`: a lone `--` as the
/// only argument means standard input; `--` otherwise ends option
/// scanning; a `-`-led argument other than `-` is rejected while options
/// are live; `-` reads standard input; everything else is a file.
pub open spec fn cat_scan(
    args: Seq<Seq<char>>,
    k: int,
    is_option: bool,
    items: Seq<Option<Seq<char>>>,
) -> Result<Seq<Option<Seq<char>>>, Seq<char>>
    decreases args.len() - k,
{
    if k < 0 || k >= args.len() {
        Result::Ok(items)
    } else {
        let a = args[k];
        if a == "--"@ {
            if args.len() == 1 {
                Result::Ok(seq![Option::<Seq<char>>::None])
            } else {
                cat_scan(args, k + 1, false, items)
            }
        } else if dash_led(a) && a != "-"@ && is_option {
            Result::Err(a)
        } else if a == "-"@ {
            cat_scan(args, k + 1, is_option, items.push(Option::None))
        } else {
            cat_scan(args, k + 1, is_option, items.push(Option::Some(a)))
        }
    }
}

/// What `cat` reads for a given argument list: standard input alone when
/// there are no arguments, else the scanned items.
pub open spec fn cat_plan_spec(args: Seq<Seq<char>>) -> Result<Seq<Option<Seq<char>>>, Seq<char>> {
    if args.len() == 0 {
        Result::Ok(seq![Option::<Seq<char>>::None])
    } else {
        cat_scan(args, 0, true, Seq::empty())
    }
}

impl CatCommand {
    /// Scan the arguments of `cat` into the list of things it reads,
    /// in order.
    pub fn plan(&self, args: &Vec<String>) -> (r: Result<Vec<CatItem>, ShellError>)
        ensures
            ({
                match cat_plan_spec(args.deep_view()) {
                    Result::Ok(items) => r matches Ok(v) && cat_items_view(v@) == items,
                    Result::Err(a) => r matches Err(ShellError::InvalidOption(m)) && m@ == a,
                }
            }),
    {
        let ghost dv = args.deep_view();
        let mut items: Vec<CatItem> = Vec::new();
        if args.len() == 0 {
            items.push(CatItem::Stdin);
            proof {
                assert(cat_items_view(items@) =~= seq![Option::<Seq<char>>::None]);
            }
            return Ok(items);
        }
        let mut is_option = true;
        let mut k: usize = 0;
        proof {
            assert(cat_items_view(items@) =~= Seq::<Option<Seq<char>>>::empty());
        }
        while k < args.len()
            invariant
                k <= args@.len(),
                args@.len() > 0,
                dv == args.deep_view(),
                dv.len() == args@.len(),
                forall|m: int| 0 <= m < args@.len() ==> dv[m] == #[trigger] args@[m]@,
                cat_scan(dv, k as int, is_option, cat_items_view(items@)) == cat_scan(
                    dv,
                    0,
                    true,
                    Seq::empty(),
                ),
            decreases args@.len() - k,
        {
            let ghost iv = cat_items_view(items@);
            if str_eq(args[k].as_str(), "--") {
                if args.len() == 1 {
                    let mut only: Vec<CatItem> = Vec::new();
                    only.push(CatItem::Stdin);
                    proof {
                        assert(cat_items_view(only@) =~= seq![Option::<Seq<char>>::None]);
                    }
                    return Ok(only);
                }
                is_option = false;
            } else if starts_with_dash(args[k].as_str()) && !str_eq(args[k].as_str(), "-")
                && is_option {
                return Err(ShellError::InvalidOption(args[k].clone()));
            } else if str_eq(args[k].as_str(), "-") {
                items.push(CatItem::Stdin);
                proof {
                    assert(cat_items_view(items@) =~= iv.push(Option::None));
                }
            } else {
                items.push(CatItem::File(args[k].clone()));
                proof {
                    assert(cat_items_view(items@) =~= iv.push(Option::Some(dv[k as int])));
                }
            }
            k = k + 1;
        }
        Ok(items)
    }

    /// Whether the call ends by printing one trailing newline: it does
    /// exactly when a named file stood among the things read.
    pub fn wants_trailing_newline(&self, items: &Vec<CatItem>) -> (r: bool)
        ensures
            r == exists|i: int| 0 <= i < items@.len() && items@[i] is File,
    {
        let mut i: usize = 0;
        while i < items.len()
            invariant
                i <= items@.len(),
                forall|j: int| 0 <= j < i ==> !(items@[j] is File),
            decreases items@.len() - i,
        {
            match &items[i] {
                CatItem::File(_) => {
                    return true;
                },
                CatItem::Stdin => {},
            }
            i = i + 1;
        }
        false
    }

    /// Word the report for a file `cat` could not read.
    pub fn read_error(&self, kind: OsErrorKind, detail: &str) -> (r: ShellError)
        ensures
            r matches ShellError::FileSystemError(m) && m@ == (match kind {
                OsErrorKind::NotFound => "No such file or directory"@,
                OsErrorKind::PermissionDenied => "Permission denied"@,
                OsErrorKind::InvalidInput => "Is a directory"@,
                _ => "Cannot read file: "@ + detail@,
            }),
    {
        let m = match kind {
            OsErrorKind::NotFound => String::from_str("No such file or directory"),
            OsErrorKind::PermissionDenied => String::from_str("Permission denied"),
            OsErrorKind::InvalidInput => String::from_str("Is a directory"),
            _ => concat3("Cannot read file: ", detail, ""),
        };
        proof {
            reveal_strlit("");
            match kind {
                OsErrorKind::NotFound => {},
                OsErrorKind::PermissionDenied => {},
                OsErrorKind::InvalidInput => {},
                _ => {
                    assert(m@ =~= "Cannot read file: "@ + detail@);
                },
            }
        }
        ShellError::FileSystemError(m)
    }

    /// The usage line of `cat`.
    pub fn help(&self) -> (r: &'static str)
        ensures
            r@
                == "Usage: cat [file...] - Concatenate and display files (reads from stdin if no files provided)"@,
    {
        "Usage: cat [file...] - Concatenate and display files (reads from stdin if no files provided)"
    }
}

/// What `mkdir` was asked to do.
#[derive(Debug)]
pub struct MkdirPlan {
    pub create_parents: bool,
    pub dirs: Vec<String>,
}

/// Scanning the arguments of `mkdir` from position `k`: `--` ends option
/// scanning, `-p` turns on parent creation, any other `-`-led argument is
/// rejected (the error carries the text after the dash), the rest are
/// directories.
pub open spec fn mkdir_scan(
    args: Seq<Seq<char>>,
    k: int,
    is_option: bool,
    cp: bool,
    dirs: Seq<Seq<char>>,
) -> Result<(bool, Seq<Seq<char>>), Seq<char>>
    decreases args.len() - k,
{
    if k < 0 || k >= args.len() {
        Result::Ok((cp, dirs))
    } else {
        let a = args[k];
        if a == "--"@ {
            mkdir_scan(args, k + 1, false, cp, dirs)
        } else if a == "-p"@ && is_option {
            mkdir_scan(args, k + 1, is_option, true, dirs)
        } else if dash_led(a) && is_option {
            Result::Err(a.skip(1))
        } else {
            mkdir_scan(args, k + 1, is_option, cp, dirs.push(a))
        }
    }
}

impl MkdirCommand {
    /// Scan the arguments of `mkdir`: `-p` creates parents; at least one
    /// directory operand is required; an unknown option is rejected with
    /// the exact complaint `mkdir` prints.
    pub fn plan(&self, args: &Vec<String>) -> (r: Result<MkdirPlan, ShellError>)
        ensures
            ({
                if args.deep_view().len() == 0 {
                    r matches Err(ShellError::ExecutionError(m)) && m@ == "mkdir: missing operand"@
                } else {
                    match mkdir_scan(args.deep_view(), 0, true, false, Seq::empty()) {
                        Result::Ok((cp, dirs)) => {
                            if dirs.len() == 0 {
                                r matches Err(ShellError::ExecutionError(m)) && m@
                                    == "mkdir: missing operand"@
                            } else {
                                &&& r matches Ok(p)
                                &&& p.create_parents == cp
                                &&& p.dirs.deep_view() == dirs
                            }
                        },
                        Result::Err(rest) => r matches Err(ShellError::ExecutionError(m)) && m@
                            == "mkdir: invalid option -- '"@ + rest + "'"@,
                    }
                }
            }),
    {
        let ghost dv = args.deep_view();
        if args.len() == 0 {
            return Err(ShellError::ExecutionError(String::from_str("mkdir: missing operand")));
        }
        let mut create_parents = false;
        let mut is_option = true;
        let mut dirs: Vec<String> = Vec::new();
        let mut k: usize = 0;
        proof {
            assert(dirs.deep_view() =~= Seq::<Seq<char>>::empty());
        }
        while k < args.len()
            invariant
                k <= args@.len(),
                dv == args.deep_view(),
                dv.len() == args@.len(),
                forall|m: int| 0 <= m < args@.len() ==> dv[m] == #[trigger] args@[m]@,
                mkdir_scan(dv, k as int, is_option, create_parents, dirs.deep_view())
                    == mkdir_scan(dv, 0, true, false, Seq::empty()),
            decreases args@.len() - k,
        {
            let ghost ddv = dirs.deep_view();
            if str_eq(args[k].as_str(), "--") {
                is_option = false;
            } else if str_eq(args[k].as_str(), "-p") && is_option {
                create_parents = true;
            } else if starts_with_dash(args[k].as_str()) && is_option {
                let n = args[k].as_str().unicode_len();
                let rest = args[k].as_str().substring_char(1, n);
                let m = concat3("mkdir: invalid option -- '", rest, "'");
                proof {
                    assert(m@ =~= "mkdir: invalid option -- '"@ + dv[k as int].skip(1) + "'"@);
                }
                return Err(ShellError::ExecutionError(m));
            } else {
                dirs.push(args[k].clone());
                proof {
                    assert(dirs.deep_view() =~= ddv.push(dv[k as int]));
                }
            }
            k = k + 1;
        }
        if dirs.len() == 0 {
            return Err(ShellError::ExecutionError(String::from_str("mkdir: missing operand")));
        }
        Ok(MkdirPlan { create_parents, dirs })
    }

    /// Word the report for a directory that could not be created.
    pub fn creation_failure(&self, dir: &str, detail: &str) -> (r: ShellError)
        ensures
            r matches ShellError::FileSystemError(m) && m@ == "Failed to create directory '"@
                + dir@ + "': "@ + detail@,
    {
        let m = concat4("Failed to create directory '", dir, "': ", detail);
        ShellError::FileSystemError(m)
    }

    /// The usage line of `mkdir`.
    pub fn help(&self) -> (r: &'static str)
        ensures
            r@ == "Usage: mkdir [-p] [directory...] - Create directories"@,
    {
        "Usage: mkdir [-p] [directory...] - Create directories"
    }
}

/// Scanning the operands of `cp` or `mv` from position `k`: `--` ends
/// option scanning; `-r` (when the command knows it) turns on recursion;
/// any other `-`-led argument is rejected; the rest are operands.
pub open spec fn cpmv_scan(
    args: Seq<Seq<char>>,
    k: int,
    is_option: bool,
    recursive: bool,
    with_r: bool,
    filtered: Seq<Seq<char>>,
) -> Result<(bool, Seq<Seq<char>>), Seq<char>>
    decreases args.len() - k,
{
    if k < 0 || k >= args.len() {
        Result::Ok((recursive, filtered))
    } else {
        let a = args[k];
        if a == "--"@ {
            cpmv_scan(args, k + 1, false, recursive, with_r, filtered)
        } else if with_r && a == "-r"@ && is_option {
            cpmv_scan(args, k + 1, is_option, true, with_r, filtered)
        } else if dash_led(a) && is_option {
            Result::Err(a)
        } else {
            cpmv_scan(args, k + 1, is_option, recursive, with_r, filtered.push(a))
        }
    }
}

/// What `cp` was asked to do.
#[derive(Debug)]
pub struct CpPlan {
    pub recursive: bool,
    pub sources: Vec<String>,
    pub target: String,
}

/// What `mv` was asked to do.
#[derive(Debug)]
pub struct MvPlan {
    pub sources: Vec<String>,
    pub target: String,
}

/// One entry of a source-tree walk: its path relative to the tree's
/// root, and whether it is a directory. A walk lists every directory
/// before its contents.
#[derive(Debug)]
pub struct TreeEntry {
    pub rel: String,
    pub is_dir: bool,
}

/// One step of a recursive copy: create a directory, or copy one file to
/// its destination.
#[derive(Debug)]
pub enum CopyOp {
    MakeDir(String),
    CopyFile(String, String),
}

/// What the plan step for one tree entry must be: the entry's directory
/// is created under the destination at the same relative path, and the
/// entry's file is copied from under the source to under the destination
/// at the same relative path.
pub open spec fn copy_op_ok(
    op: CopyOp,
    rel: Seq<char>,
    is_dir: bool,
    src: Seq<char>,
    dst: Seq<char>,
) -> bool {
    if is_dir {
        op matches CopyOp::MakeDir(d) && d@ == dst + "/"@ + rel
    } else {
        op matches CopyOp::CopyFile(s, d) && s@ == src + "/"@ + rel && d@ == dst + "/"@ + rel
    }
}

/// What `cp` does with one source, once source and destination have been
/// looked at: report a problem line, copy one file, or copy a tree.
#[derive(Debug)]
pub enum CpAction {
    Report(String),
    CopyFile,
    CopyTree,
}

/// What `mv` does with one source.
#[derive(Debug)]
pub enum MvAction {
    Report(String),
    Rename,
}

/// What `rm` does with one target.
#[derive(Debug)]
pub enum RmAction {
    Report(String),
    RemoveFile,
    RemoveTree,
}

/// The characters after the last slash.
pub open spec fn base_of(t: Seq<char>) -> Seq<char>
    decreases t.len(),
{
    if t.len() == 0 {
        Seq::empty()
    } else if t[t.len() - 1] == '/' {
        Seq::empty()
    } else {
        base_of(t.drop_last()).push(t[t.len() - 1])
    }
}

/// The base name of a path, as the destination computation uses it:
/// trailing slashes are ignored, a trailing `.` component is ignored
/// too, and a path whose last remaining component is `..` — or that has
/// nothing left — has no base name (empty), matching what the standard
/// path inspection reports for such paths.
pub open spec fn base_name_spec(s: Seq<char>) -> Seq<char>
    decreases s.len(),
{
    if s.len() == 0 {
        Seq::empty()
    } else if s[s.len() - 1] == '/' {
        base_name_spec(s.drop_last())
    } else if base_of(s) == seq!['.'] {
        base_name_spec(s.drop_last())
    } else if base_of(s) == seq!['.', '.'] {
        Seq::empty()
    } else {
        base_of(s)
    }
}

proof fn lemma_base_of_range(t: Seq<char>, start: int)
    requires
        0 <= start <= t.len(),
        forall|j: int| start <= j < t.len() ==> t[j] != '/',
        start == 0 || t[start - 1] == '/',
    ensures
        base_of(t) =~= t.skip(start),
    decreases t.len(),
{
    if t.len() == 0 {
    } else if start == t.len() {
        assert(t[t.len() - 1] == '/');
        assert(base_of(t) =~= Seq::<char>::empty());
        assert(t.skip(start).len() == 0);
    } else {
        assert(t[t.len() - 1] != '/');
        let u = t.drop_last();
        if start <= u.len() {
            lemma_base_of_range(u, start);
            assert(u.skip(start).push(t[t.len() - 1]) =~= t.skip(start));
        }
    }
}

/// The base name of a path.
pub fn base_name(path: &str) -> (r: String)
    ensures
        r@ == base_name_spec(path@),
{
    let cs = chars_of_str(path);
    let n = cs.len();
    let mut end: usize = n;
    proof {
        assert(path@.take(n as int) =~= path@);
    }
    while end > 0
        invariant
            end <= n,
            n == cs@.len(),
            cs@ == path@,
            base_name_spec(path@) == base_name_spec(path@.take(end as int)),
        decreases end,
    {
        let ghost t = path@.take(end as int);
        proof {
            assert(t.len() == end);
            assert(t[t.len() - 1] == path@[end - 1]);
            assert(t.drop_last() =~= path@.take(end - 1));
        }
        if cs[end - 1] == '/' {
            end = end - 1;
        } else {
            let mut start: usize = end;
            while start > 0 && cs[start - 1] != '/'
                invariant
                    start <= end,
                    end <= n,
                    n == cs@.len(),
                    cs@ == path@,
                    forall|j: int| start <= j < end ==> cs@[j] != '/',
                decreases start,
            {
                start = start - 1;
            }
            proof {
                lemma_base_of_range(t, start as int);
                assert(forall|j: int| 0 <= j < end - start ==> #[trigger] t.skip(start as int)[j]
                    == path@[start + j]);
                assert(base_of(t) =~= path@.subrange(start as int, end as int));
            }
            if end - start == 1 && cs[start] == '.' {
                proof {
                    assert(base_of(t) =~= seq!['.']);
                }
                end = end - 1;
            } else if end - start == 2 && cs[start] == '.' && cs[start + 1] == '.' {
                proof {
                    assert(base_of(t) =~= seq!['.', '.']);
                    assert(base_of(t) != seq!['.']);
                    assert(base_name_spec(t) =~= Seq::<char>::empty());
                }
                let r = String::new();
                return r;
            } else {
                let mut v: Vec<char> = Vec::new();
                let mut k: usize = start;
                while k < end
                    invariant
                        start <= k <= end <= n,
                        n == cs@.len(),
                        cs@ == path@,
                        v@ == path@.subrange(start as int, k as int),
                    decreases end - k,
                {
                    v.push(cs[k]);
                    k = k + 1;
                    proof {
                        assert(v@ =~= path@.subrange(start as int, k as int));
                    }
                }
                proof {
                    let c = base_of(t);
                    assert(c.len() == end - start);
                    assert(c != seq!['.']) by {
                        if c == seq!['.'] {
                            assert(c.len() == 1);
                            assert(c[0] == '.');
                            assert(path@[start as int] == '.');
                        }
                    }
                    assert(c != seq!['.', '.']) by {
                        if c == seq!['.', '.'] {
                            assert(c.len() == 2);
                            assert(c[0] == '.' && c[1] == '.');
                            assert(path@[start as int] == '.' && path@[start as int + 1] == '.');
                        }
                    }
                    assert(v@ =~= base_name_spec(t));
                }
                return string_from_chars(&v);
            }
        }
    }
    proof {
        assert(path@.take(0) =~= Seq::<char>::empty());
    }
    String::new()
}

/// The destination path of one source: inside the target directory under
/// the source's base name when the target is a directory, else the target
/// itself.
pub fn dest_path(target: &str, target_is_dir: bool, src: &str) -> (r: String)
    ensures
        r@ == (if target_is_dir {
            target@ + "/"@ + base_name_spec(src@)
        } else {
            target@
        }),
{
    if target_is_dir {
        let b = base_name(src);
        concat3(target, "/", b.as_str())
    } else {
        String::from_str(target)
    }
}

impl CpCommand {
    /// Scan the arguments of `cp`: `-r` allows directory copies; the last
    /// operand is the destination, the rest are sources; fewer than two
    /// operands, or an unknown option, is rejected with the exact
    /// complaint `cp` prints.
    pub fn plan(&self, args: &Vec<String>) -> (r: Result<CpPlan, ShellError>)
        ensures
            ({
                if args.deep_view().len() < 2 {
                    r matches Err(ShellError::ExecutionError(m)) && m@ == "cp: missing operand"@
                } else {
                    match cpmv_scan(args.deep_view(), 0, true, false, true, Seq::empty()) {
                        Result::Ok((rec, f)) => {
                            if f.len() < 2 {
                                r matches Err(ShellError::ExecutionError(m)) && m@
                                    == "cp: missing an operand"@
                            } else {
                                &&& r matches Ok(p)
                                &&& p.recursive == rec
                                &&& p.sources.deep_view() == f.take(f.len() - 1)
                                &&& p.target@ == f.last()
                            }
                        },
                        Result::Err(a) => r matches Err(ShellError::InvalidOption(m)) && m@ == a,
                    }
                }
            }),
    {
        let ghost dv = args.deep_view();
        if args.len() < 2 {
            return Err(ShellError::ExecutionError(String::from_str("cp: missing operand")));
        }
        let mut recursive = false;
        let mut is_option = true;
        let mut filtered: Vec<String> = Vec::new();
        let mut k: usize = 0;
        proof {
            assert(filtered.deep_view() =~= Seq::<Seq<char>>::empty());
        }
        while k < args.len()
            invariant
                k <= args@.len(),
                args@.len() >= 2,
                dv == args.deep_view(),
                dv.len() == args@.len(),
                forall|m: int| 0 <= m < args@.len() ==> dv[m] == #[trigger] args@[m]@,
                cpmv_scan(dv, k as int, is_option, recursive, true, filtered.deep_view())
                    == cpmv_scan(dv, 0, true, false, true, Seq::empty()),
            decreases args@.len() - k,
        {
            let ghost fdv = filtered.deep_view();
            if str_eq(args[k].as_str(), "--") {
                is_option = false;
            } else if str_eq(args[k].as_str(), "-r") && is_option {
                recursive = true;
            } else if starts_with_dash(args[k].as_str()) && is_option {
                return Err(ShellError::InvalidOption(args[k].clone()));
            } else {
                filtered.push(args[k].clone());
                proof {
                    assert(filtered.deep_view() =~= fdv.push(dv[k as int]));
                }
            }
            k = k + 1;
        }
        if filtered.len() < 2 {
            return Err(ShellError::ExecutionError(String::from_str("cp: missing an operand")));
        }
        let ghost fdv = filtered.deep_view();
        let target = match filtered.pop() {
            Option::Some(t) => t,
            Option::None => {
                proof {
                    assert(false);
                }
                String::new()
            },
        };
        proof {
            assert(filtered.deep_view() =~= fdv.take(fdv.len() - 1));
            assert(target@ == fdv.last());
        }
        Ok(CpPlan { recursive, sources: filtered, target })
    }

    /// Several sources can only be copied into an existing directory:
    /// with two or more sources and a destination that is not one, the
    /// whole call is rejected before any source is touched.
    pub fn check_target(&self, n_sources: usize, target: &str, target_class: PathClass) -> (r:
        Result<(), ShellError>)
        ensures
            ({
                if n_sources >= 2 && target_class != PathClass::Dir {
                    r matches Err(ShellError::ExecutionError(m)) && m@ == "cp: target '"@
                        + target@ + "' is not a directory"@
                } else {
                    r is Ok
                }
            }),
    {
        if n_sources >= 2 && !(target_class == PathClass::Dir) {
            Err(ShellError::ExecutionError(concat3("cp: target '", target, "' is not a directory")))
        } else {
            Ok(())
        }
    }

    /// Decide what to do with one source, from what source and computed
    /// destination turned out to be on disk. Problem cases carry the
    /// exact line `cp` prints for them.
    pub fn action(
        &self,
        src: &str,
        src_class: PathClass,
        recursive: bool,
        dest: &str,
        dest_class: PathClass,
    ) -> (r: CpAction)
        ensures
            ({
                match src_class {
                    PathClass::Missing => r matches CpAction::Report(m) && m@ == "cp: cannot stat '"@
                        + src@ + "': No such file or directory"@,
                    PathClass::OtherExisting => r matches CpAction::Report(m) && m@
                        == "cp: cannot copy '"@ + src@ + "': Not a regular file or directory"@,
                    PathClass::Dir => {
                        if !recursive {
                            r matches CpAction::Report(m) && m@ == "cp: omitting directory '"@
                                + src@ + "', use -r to copy"@
                        } else if dest_class == PathClass::File {
                            r matches CpAction::Report(m) && m@
                                == "cp: cannot overwrite non-directory '"@ + dest@
                                + "' with directory '"@ + src@ + "'"@
                        } else {
                            r == CpAction::CopyTree
                        }
                    },
                    PathClass::File => {
                        if dest_class == PathClass::Dir {
                            r matches CpAction::Report(m) && m@
                                == "cp: cannot overwrite directory '"@ + dest@
                                + "' with non-directory '"@ + src@ + "'"@
                        } else {
                            r == CpAction::CopyFile
                        }
                    },
                }
            }),
    {
        match src_class {
            PathClass::Missing => CpAction::Report(
                concat3("cp: cannot stat '", src, "': No such file or directory"),
            ),
            PathClass::OtherExisting => CpAction::Report(
                concat3("cp: cannot copy '", src, "': Not a regular file or directory"),
            ),
            PathClass::Dir => {
                if !recursive {
                    CpAction::Report(concat3("cp: omitting directory '", src, "', use -r to copy"))
                } else if dest_class == PathClass::File {
                    let m = concat5(
                        "cp: cannot overwrite non-directory '",
                        dest,
                        "' with directory '",
                        src,
                        "'",
                    );
                    CpAction::Report(m)
                } else {
                    CpAction::CopyTree
                }
            },
            PathClass::File => {
                if dest_class == PathClass::Dir {
                    let m = concat5(
                        "cp: cannot overwrite directory '",
                        dest,
                        "' with non-directory '",
                        src,
                        "'",
                    );
                    CpAction::Report(m)
                } else {
                    CpAction::CopyFile
                }
            },
        }
    }

    /// The steps of one recursive tree copy, from a walk of the source
    /// tree: first create the destination root, then, in walk order,
    /// create `dst/p` for each directory `p` of the tree and copy
    /// `src/p` to `dst/p` for each file `p` — so after the steps run,
    /// every relative path of the walk exists under the destination, a
    /// directory where the source has one and a copy of the source's
    /// file otherwise.
    pub fn tree_copy_plan(&self, src: &str, dst: &str, entries: &Vec<TreeEntry>) -> (r: Vec<
        CopyOp,
    >)
        ensures
            r@.len() == entries@.len() + 1,
            r@[0] matches CopyOp::MakeDir(d) && d@ == dst@,
            forall|i: int|
                0 <= i < entries@.len() ==> copy_op_ok(
                    #[trigger] r@[i + 1],
                    entries@[i].rel@,
                    entries@[i].is_dir,
                    src@,
                    dst@,
                ),
    {
        let mut ops: Vec<CopyOp> = Vec::new();
        ops.push(CopyOp::MakeDir(String::from_str(dst)));
        let mut i: usize = 0;
        while i < entries.len()
            invariant
                i <= entries@.len(),
                ops@.len() == i + 1,
                ops@[0] matches CopyOp::MakeDir(d) && d@ == dst@,
                forall|m: int|
                    0 <= m < i ==> copy_op_ok(
                        #[trigger] ops@[m + 1],
                        entries@[m].rel@,
                        entries@[m].is_dir,
                        src@,
                        dst@,
                    ),
            decreases entries@.len() - i,
        {
            let d = concat3(dst, "/", entries[i].rel.as_str());
            if entries[i].is_dir {
                ops.push(CopyOp::MakeDir(d));
            } else {
                let s = concat3(src, "/", entries[i].rel.as_str());
                ops.push(CopyOp::CopyFile(s, d));
            }
            i = i + 1;
        }
        ops
    }

    /// Word the report for a directory copy that failed underway.
    pub fn dir_copy_failure(&self, src: &str, kind: OsErrorKind, detail: &str) -> (r: String)
        ensures
            r@ == (match kind {
                OsErrorKind::PermissionDenied => "cp: cannot copy '"@ + src@
                    + "': Permission denied"@,
                OsErrorKind::AlreadyExists => "cp: cannot copy '"@ + src@
                    + "': Destination already exists"@,
                _ => "cp: failed to copy directory '"@ + src@ + "': "@ + detail@,
            }),
    {
        match kind {
            OsErrorKind::PermissionDenied => concat3("cp: cannot copy '", src, "': Permission denied"),
            OsErrorKind::AlreadyExists => concat3(
                "cp: cannot copy '",
                src,
                "': Destination already exists",
            ),
            _ => concat4("cp: failed to copy directory '", src, "': ", detail),
        }
    }

    /// Word the report for a file copy that failed.
    pub fn file_copy_failure(&self, src: &str, kind: OsErrorKind, detail: &str) -> (r: String)
        ensures
            r@ == (match kind {
                OsErrorKind::PermissionDenied => "cp: cannot copy '"@ + src@
                    + "': Permission denied"@,
                OsErrorKind::NotFound => "cp: cannot copy '"@ + src@
                    + "': Destination directory does not exist"@,
                OsErrorKind::InvalidInput => "cp: cannot copy '"@ + src@ + "': Invalid input"@,
                _ => "cp: failed to copy '"@ + src@ + "': "@ + detail@,
            }),
    {
        match kind {
            OsErrorKind::PermissionDenied => concat3("cp: cannot copy '", src, "': Permission denied"),
            OsErrorKind::NotFound => concat3(
                "cp: cannot copy '",
                src,
                "': Destination directory does not exist",
            ),
            OsErrorKind::InvalidInput => concat3("cp: cannot copy '", src, "': Invalid input"),
            _ => concat4("cp: failed to copy '", src, "': ", detail),
        }
    }

    /// The aggregate failure `cp` returns when any source failed.
    pub fn aggregate_error(&self) -> (r: ShellError)
        ensures
            r matches ShellError::ExecutionError(m) && m@ == "Some files could not be copied"@,
    {
        ShellError::ExecutionError(String::from_str("Some files could not be copied"))
    }

    /// The usage line of `cp`.
    pub fn help(&self) -> (r: &'static str)
        ensures
            r@ == "Usage: cp source... destination - Copy files and directories"@,
    {
        "Usage: cp source... destination - Copy files and directories"
    }
}

impl MvCommand {
    /// Scan the arguments of `mv`: the last operand is the destination,
    /// the rest are sources; `mv` knows no options, so any `-`-led
    /// argument before `--` is rejected.
    pub fn plan(&self, args: &Vec<String>) -> (r: Result<MvPlan, ShellError>)
        ensures
            ({
                if args.deep_view().len() < 2 {
                    r matches Err(ShellError::ExecutionError(m)) && m@ == "mv: missing operand"@
                } else {
                    match cpmv_scan(args.deep_view(), 0, true, false, false, Seq::empty()) {
                        Result::Ok((rec, f)) => {
                            if f.len() < 2 {
                                r matches Err(ShellError::ExecutionError(m)) && m@
                                    == "mv: missing operand"@
                            } else {
                                &&& r matches Ok(p)
                                &&& p.sources.deep_view() == f.take(f.len() - 1)
                                &&& p.target@ == f.last()
                            }
                        },
                        Result::Err(a) => r matches Err(ShellError::InvalidOption(m)) && m@ == a,
                    }
                }
            }),
    {
        let ghost dv = args.deep_view();
        if args.len() < 2 {
            return Err(ShellError::ExecutionError(String::from_str("mv: missing operand")));
        }
        let mut is_option = true;
        let mut filtered: Vec<String> = Vec::new();
        let mut k: usize = 0;
        proof {
            assert(filtered.deep_view() =~= Seq::<Seq<char>>::empty());
        }
        while k < args.len()
            invariant
                k <= args@.len(),
                args@.len() >= 2,
                dv == args.deep_view(),
                dv.len() == args@.len(),
                forall|m: int| 0 <= m < args@.len() ==> dv[m] == #[trigger] args@[m]@,
                cpmv_scan(dv, k as int, is_option, false, false, filtered.deep_view())
                    == cpmv_scan(dv, 0, true, false, false, Seq::empty()),
            decreases args@.len() - k,
        {
            let ghost fdv = filtered.deep_view();
            if str_eq(args[k].as_str(), "--") {
                is_option = false;
            } else if starts_with_dash(args[k].as_str()) && is_option {
                return Err(ShellError::InvalidOption(args[k].clone()));
            } else {
                filtered.push(args[k].clone());
                proof {
                    assert(filtered.deep_view() =~= fdv.push(dv[k as int]));
                }
            }
            k = k + 1;
        }
        if filtered.len() < 2 {
            return Err(ShellError::ExecutionError(String::from_str("mv: missing operand")));
        }
        let ghost fdv = filtered.deep_view();
        let target = match filtered.pop() {
            Option::Some(t) => t,
            Option::None => {
                proof {
                    assert(false);
                }
                String::new()
            },
        };
        proof {
            assert(filtered.deep_view() =~= fdv.take(fdv.len() - 1));
            assert(target@ == fdv.last());
        }
        Ok(MvPlan { sources: filtered, target })
    }

    /// Several sources can only be moved into an existing directory:
    /// with two or more sources and a destination that is not one, the
    /// whole call is rejected before any source is touched.
    pub fn check_target(&self, n_sources: usize, target: &str, target_class: PathClass) -> (r:
        Result<(), ShellError>)
        ensures
            ({
                if n_sources >= 2 && target_class != PathClass::Dir {
                    r matches Err(ShellError::ExecutionError(m)) && m@ == "mv: target '"@
                        + target@ + "' is not a directory"@
                } else {
                    r is Ok
                }
            }),
    {
        if n_sources >= 2 && !(target_class == PathClass::Dir) {
            Err(ShellError::ExecutionError(concat3("mv: target '", target, "' is not a directory")))
        } else {
            Ok(())
        }
    }

    /// Decide what to do with one source: report the overwrite conflicts
    /// `mv` refuses, else rename.
    pub fn action(
        &self,
        src: &str,
        src_class: PathClass,
        dest: &str,
        dest_class: PathClass,
    ) -> (r: MvAction)
        ensures
            ({
                match src_class {
                    PathClass::Missing => r matches MvAction::Report(m) && m@ == "mv: cannot stat '"@
                        + src@ + "': No such file or directory"@,
                    PathClass::OtherExisting => r matches MvAction::Report(m) && m@
                        == "mv: cannot move '"@ + src@ + "': Not a regular file or directory"@,
                    PathClass::File => {
                        if dest_class == PathClass::Dir {
                            r matches MvAction::Report(m) && m@
                                == "mv: cannot overwrite directory '"@ + dest@
                                + "' with non-directory '"@ + src@ + "'"@
                        } else {
                            r == MvAction::Rename
                        }
                    },
                    PathClass::Dir => {
                        if dest_class == PathClass::File {
                            r matches MvAction::Report(m) && m@
                                == "mv: cannot overwrite non-directory '"@ + dest@
                                + "' with directory '"@ + src@ + "'"@
                        } else {
                            r == MvAction::Rename
                        }
                    },
                }
            }),
    {
        match src_class {
            PathClass::Missing => MvAction::Report(
                concat3("mv: cannot stat '", src, "': No such file or directory"),
            ),
            PathClass::OtherExisting => MvAction::Report(
                concat3("mv: cannot move '", src, "': Not a regular file or directory"),
            ),
            PathClass::File => {
                if dest_class == PathClass::Dir {
                    let m = concat5(
                        "mv: cannot overwrite directory '",
                        dest,
                        "' with non-directory '",
                        src,
                        "'",
                    );
                    MvAction::Report(m)
                } else {
                    MvAction::Rename
                }
            },
            PathClass::Dir => {
                if dest_class == PathClass::File {
                    let m = concat5(
                        "mv: cannot overwrite non-directory '",
                        dest,
                        "' with directory '",
                        src,
                        "'",
                    );
                    MvAction::Report(m)
                } else {
                    MvAction::Rename
                }
            },
        }
    }

    /// Word the report for a rename that failed.
    pub fn rename_failure(&self, src: &str, kind: OsErrorKind, detail: &str) -> (r: String)
        ensures
            r@ == (match kind {
                OsErrorKind::PermissionDenied => "mv: cannot move '"@ + src@
                    + "': Permission denied"@,
                OsErrorKind::NotFound => "mv: cannot move '"@ + src@
                    + "': Destination directory does not exist"@,
                OsErrorKind::InvalidInput => "mv: cannot move '"@ + src@ + "': Invalid input"@,
                OsErrorKind::CrossesDevices => "mv: cannot move '"@ + src@
                    + "': Cross-device link not permitted"@,
                _ => "mv: failed to move '"@ + src@ + "': "@ + detail@,
            }),
    {
        match kind {
            OsErrorKind::PermissionDenied => concat3("mv: cannot move '", src, "': Permission denied"),
            OsErrorKind::NotFound => concat3(
                "mv: cannot move '",
                src,
                "': Destination directory does not exist",
            ),
            OsErrorKind::InvalidInput => concat3("mv: cannot move '", src, "': Invalid input"),
            OsErrorKind::CrossesDevices => concat3(
                "mv: cannot move '",
                src,
                "': Cross-device link not permitted",
            ),
            _ => concat4("mv: failed to move '", src, "': ", detail),
        }
    }

    /// The aggregate failure `mv` returns when any source failed.
    pub fn aggregate_error(&self) -> (r: ShellError)
        ensures
            r matches ShellError::ExecutionError(m) && m@ == "Some files could not be moved"@,
    {
        ShellError::ExecutionError(String::from_str("Some files could not be moved"))
    }

    /// The usage line of `mv`.
    pub fn help(&self) -> (r: &'static str)
        ensures
            r@ == "Usage: mv source... destination - Move (rename) files or directories"@,
    {
        "Usage: mv source... destination - Move (rename) files or directories"
    }
}

/// A path that names the current or parent directory literally.
pub open spec fn is_dot_path(a: Seq<char>) -> bool {
    a == "."@ || a == ".."@ || a == "./"@ || a == "../"@
}

/// Whether a path names `.` or `..` literally (with or without a
/// trailing slash) — the paths `rm` refuses to touch.
pub fn is_dot_or_dotdot(path: &str) -> (r: bool)
    ensures
        r == is_dot_path(path@),
{
    str_eq(path, ".") || str_eq(path, "..") || str_eq(path, "./") || str_eq(path, "../")
}

/// Why an `rm` argument list is rejected outright.
pub enum RmScanErr {
    Cwd,
    DotDot,
    Opt(Seq<char>),
}

/// What `rm` was asked to do.
#[derive(Debug)]
pub struct RmPlan {
    pub recursive: bool,
    pub targets: Vec<String>,
}

/// Scanning the arguments of `rm` from position `k`: any argument equal
/// to the working directory, or naming `.`/`..`, rejects the whole call;
/// `--` ends option scanning; `-r` turns on recursion; other `-`-led
/// arguments are rejected; the rest are targets.
pub open spec fn rm_scan(
    args: Seq<Seq<char>>,
    cwd: Seq<char>,
    k: int,
    is_option: bool,
    recursive: bool,
    targets: Seq<Seq<char>>,
) -> Result<(bool, Seq<Seq<char>>), RmScanErr>
    decreases args.len() - k,
{
    if k < 0 || k >= args.len() {
        Result::Ok((recursive, targets))
    } else {
        let a = args[k];
        if a == cwd {
            Result::Err(RmScanErr::Cwd)
        } else if is_dot_path(a) {
            Result::Err(RmScanErr::DotDot)
        } else if a == "--"@ {
            rm_scan(args, cwd, k + 1, false, recursive, targets)
        } else if a == "-r"@ && is_option {
            rm_scan(args, cwd, k + 1, is_option, true, targets)
        } else if dash_led(a) && is_option {
            Result::Err(RmScanErr::Opt(a))
        } else {
            rm_scan(args, cwd, k + 1, is_option, recursive, targets.push(a))
        }
    }
}

impl RmCommand {
    /// Scan the arguments of `rm` against the current working directory:
    /// `.`/`..` and the working directory itself are refused outright;
    /// `-r` allows directory removal; at least one target is required.
    pub fn plan(&self, args: &Vec<String>, cwd: &str) -> (r: Result<RmPlan, ShellError>)
        ensures
            ({
                if args.deep_view().len() == 0 {
                    r matches Err(ShellError::ExecutionError(m)) && m@ == "rm: missing operand"@
                } else {
                    match rm_scan(args.deep_view(), cwd@, 0, true, false, Seq::empty()) {
                        Result::Ok((rec, t)) => {
                            if t.len() == 0 {
                                r matches Err(ShellError::ExecutionError(m)) && m@
                                    == "rm: missing operand"@
                            } else {
                                &&& r matches Ok(p)
                                &&& p.recursive == rec
                                &&& p.targets.deep_view() == t
                            }
                        },
                        Result::Err(RmScanErr::Cwd) => r matches Err(
                            ShellError::ExecutionError(m),
                        ) && m@ == "rm: refusing to remove current directory"@,
                        Result::Err(RmScanErr::DotDot) => r matches Err(
                            ShellError::ExecutionError(m),
                        ) && m@ == "rm: refusing to remove '.' or '..'"@,
                        Result::Err(RmScanErr::Opt(a)) => r matches Err(
                            ShellError::InvalidOption(m),
                        ) && m@ == a,
                    }
                }
            }),
    {
        let ghost dv = args.deep_view();
        if args.len() == 0 {
            return Err(ShellError::ExecutionError(String::from_str("rm: missing operand")));
        }
        let mut recursive = false;
        let mut is_option = true;
        let mut targets: Vec<String> = Vec::new();
        let mut k: usize = 0;
        proof {
            assert(targets.deep_view() =~= Seq::<Seq<char>>::empty());
        }
        while k < args.len()
            invariant
                k <= args@.len(),
                dv == args.deep_view(),
                dv.len() == args@.len(),
                forall|m: int| 0 <= m < args@.len() ==> dv[m] == #[trigger] args@[m]@,
                rm_scan(dv, cwd@, k as int, is_option, recursive, targets.deep_view()) == rm_scan(
                    dv,
                    cwd@,
                    0,
                    true,
                    false,
                    Seq::empty(),
                ),
            decreases args@.len() - k,
        {
            let ghost tdv = targets.deep_view();
            if str_eq(args[k].as_str(), cwd) {
                return Err(ShellError::ExecutionError(String::from_str(
                    "rm: refusing to remove current directory",
                )));
            } else if is_dot_or_dotdot(args[k].as_str()) {
                return Err(ShellError::ExecutionError(String::from_str(
                    "rm: refusing to remove '.' or '..'",
                )));
            } else if str_eq(args[k].as_str(), "--") {
                is_option = false;
            } else if str_eq(args[k].as_str(), "-r") && is_option {
                recursive = true;
            } else if starts_with_dash(args[k].as_str()) && is_option {
                return Err(ShellError::InvalidOption(args[k].clone()));
            } else {
                targets.push(args[k].clone());
                proof {
                    assert(targets.deep_view() =~= tdv.push(dv[k as int]));
                }
            }
            k = k + 1;
        }
        if targets.len() == 0 {
            return Err(ShellError::ExecutionError(String::from_str("rm: missing operand")));
        }
        Ok(RmPlan { recursive, targets })
    }

    /// Decide what to do with one target. The directory-without-`-r`
    /// report carries a doubled command prefix, exactly as printed.
    pub fn action(&self, target: &str, class: PathClass, recursive: bool) -> (r: RmAction)
        ensures
            ({
                match class {
                    PathClass::Missing => r matches RmAction::Report(m) && m@
                        == "rm: cannot remove '"@ + target@ + "': No such file or directory"@,
                    PathClass::OtherExisting => r matches RmAction::Report(m) && m@
                        == "rm: cannot remove '"@ + target@
                        + "': Not a regular file or directory"@,
                    PathClass::Dir => {
                        if recursive {
                            r == RmAction::RemoveTree
                        } else {
                            r matches RmAction::Report(m) && m@ == "rm: rm: cannot remove '"@
                                + target@ + "': Is a directory (use -r)"@
                        }
                    },
                    PathClass::File => r == RmAction::RemoveFile,
                }
            }),
    {
        match class {
            PathClass::Missing => RmAction::Report(
                concat3("rm: cannot remove '", target, "': No such file or directory"),
            ),
            PathClass::OtherExisting => RmAction::Report(
                concat3("rm: cannot remove '", target, "': Not a regular file or directory"),
            ),
            PathClass::Dir => {
                if recursive {
                    RmAction::RemoveTree
                } else {
                    RmAction::Report(
                        concat3("rm: rm: cannot remove '", target, "': Is a directory (use -r)"),
                    )
                }
            },
            PathClass::File => RmAction::RemoveFile,
        }
    }

    /// Word the report for a removal that failed.
    pub fn removal_failure(&self, target: &str, kind: OsErrorKind, detail: &str) -> (r: String)
        ensures
            r@ == (match kind {
                OsErrorKind::PermissionDenied => "rm: cannot remove '"@ + target@
                    + "': Permission denied"@,
                OsErrorKind::InvalidInput => "rm: cannot remove '"@ + target@
                    + "': Invalid input"@,
                _ => "rm: failed to remove '"@ + target@ + "': "@ + detail@,
            }),
    {
        match kind {
            OsErrorKind::PermissionDenied => concat3(
                "rm: cannot remove '",
                target,
                "': Permission denied",
            ),
            OsErrorKind::InvalidInput => concat3("rm: cannot remove '", target, "': Invalid input"),
            _ => concat4("rm: failed to remove '", target, "': ", detail),
        }
    }

    /// The aggregate failure `rm` returns when any target failed.
    pub fn aggregate_error(&self) -> (r: ShellError)
        ensures
            r matches ShellError::ExecutionError(m) && m@ == "Some files could not be removed"@,
    {
        ShellError::ExecutionError(String::from_str("Some files could not be removed"))
    }

    /// The usage line of `rm`.
    pub fn help(&self) -> (r: &'static str)
        ensures
            r@ == "Usage: rm [-r] [file...] - Remove files or directories"@,
    {
        "Usage: rm [-r] [file...] - Remove files or directories"
    }
}

} // verus!
