use vshell::commands::{
    base_name, dest_path, is_dot_or_dotdot, CatCommand, CatItem, CdCommand, CopyOp, CpAction,
    CpCommand, EchoCommand, HelpCommand, MkdirCommand, MvAction, MvCommand, PwdCommand,
    RmAction, RmCommand, TreeEntry,
};
use vshell::error::{OsErrorKind, ShellError};
use vshell::listing::PathClass;
use vshell::parser::{Command, CommandParser};
use vshell::registry::{Builtin, CommandRegistry};
use vshell::shell::Shell;

#[test]
fn echo_joins_with_single_spaces() {
    let echo = EchoCommand;
    assert_eq!(echo.render(&vec!["a".to_string(), "b c".to_string()]), "a b c");
    assert_eq!(echo.render(&vec![]), "");
}

#[test]
fn help_overview_and_usage_lines() {
    let help = HelpCommand;
    let overview = help.render(&vec![]);
    assert!(overview.starts_with("Usage: help [command]"));
    assert!(overview.ends_with("echo, exit, help, pwd, cd, ls, cat, mkdir, cp, mv, rm"));
    assert_eq!(help.render(&vec!["a".to_string(), "b".to_string()]), overview);
    assert_eq!(
        help.render(&vec!["ls".to_string()]),
        "Usage: ls [-a] [-l] [-F] [directory...] - List directory contents"
    );
    assert_eq!(help.render(&vec!["frob".to_string()]), "Unknown command: frob");
}

#[test]
fn pwd_rejects_options_and_operands() {
    let pwd = PwdCommand;
    assert!(pwd.validate_args(&vec![]).is_ok());
    assert!(pwd.validate_args(&vec!["--".to_string()]).is_ok());
    match pwd.validate_args(&vec!["-x".to_string()]) {
        Err(ShellError::InvalidOption(m)) => assert_eq!(m, "-x"),
        other => panic!("unexpected: {:?}", other),
    }
    match pwd.validate_args(&vec!["x".to_string()]) {
        Err(ShellError::ExecutionError(m)) => assert_eq!(m, "pwd: too many arguments"),
        other => panic!("unexpected: {:?}", other),
    }
    match pwd.validate_args(&vec!["--".to_string(), "-x".to_string()]) {
        Err(ShellError::ExecutionError(m)) => assert_eq!(m, "pwd: too many arguments"),
        other => panic!("unexpected: {:?}", other),
    }
}

#[test]
fn cd_scans_first_target() {
    let cd = CdCommand;
    assert_eq!(cd.scan_target(&vec![]).unwrap(), "");
    assert_eq!(cd.scan_target(&vec!["dir".to_string(), "extra".to_string()]).unwrap(), "dir");
    assert_eq!(cd.scan_target(&vec!["-".to_string()]).unwrap(), "-");
    match cd.scan_target(&vec!["-x".to_string()]) {
        Err(ShellError::InvalidOption(m)) => assert_eq!(m, "-x"),
        other => panic!("unexpected: {:?}", other),
    }
}

#[test]
fn cd_resolves_home_and_oldpwd() {
    let cd = CdCommand;
    let home = Some("/home/u".to_string());
    let oldpwd = Some("/old".to_string());
    assert_eq!(cd.resolve_target_directory("", &home, &oldpwd).unwrap(), (
        "/home/u".to_string(),
        false,
    ));
    assert_eq!(cd.resolve_target_directory("~/x", &home, &oldpwd).unwrap(), (
        "/home/u/x".to_string(),
        false,
    ));
    assert_eq!(cd.resolve_target_directory("-", &home, &oldpwd).unwrap(), (
        "/old".to_string(),
        true,
    ));
    assert_eq!(cd.resolve_target_directory("plain", &home, &oldpwd).unwrap(), (
        "plain".to_string(),
        false,
    ));
    match cd.resolve_target_directory("", &None, &None) {
        Err(ShellError::FileSystemError(m)) => {
            assert_eq!(m, "cd: HOME environment variable not set");
        },
        other => panic!("unexpected: {:?}", other),
    }
    match cd.resolve_target_directory("-", &home, &None) {
        Err(ShellError::FileSystemError(m)) => assert_eq!(m, "cd: OLDPWD not set"),
        other => panic!("unexpected: {:?}", other),
    }
}

#[test]
fn cd_error_wording() {
    let cd = CdCommand;
    match cd.cd_error("x", OsErrorKind::NotFound, "") {
        ShellError::FileSystemError(m) => assert_eq!(m, "cd: x: No such file or directory"),
        other => panic!("unexpected: {:?}", other),
    }
    match cd.cd_error("x", OsErrorKind::Other, "strange") {
        ShellError::FileSystemError(m) => assert_eq!(m, "cd: x: strange"),
        other => panic!("unexpected: {:?}", other),
    }
}

#[test]
fn cat_plans_stdin_and_files() {
    let cat = CatCommand;
    let plan = cat.plan(&vec![]).unwrap();
    assert_eq!(plan.len(), 1);
    assert!(matches!(plan[0], CatItem::Stdin));
    let plan = cat.plan(&vec!["--".to_string()]).unwrap();
    assert_eq!(plan.len(), 1);
    assert!(matches!(plan[0], CatItem::Stdin));
    let plan = cat
        .plan(&vec!["a".to_string(), "-".to_string(), "b".to_string()])
        .unwrap();
    assert_eq!(plan.len(), 3);
    assert!(matches!(&plan[0], CatItem::File(f) if f == "a"));
    assert!(matches!(plan[1], CatItem::Stdin));
    assert!(matches!(&plan[2], CatItem::File(f) if f == "b"));
    match cat.plan(&vec!["-x".to_string()]) {
        Err(ShellError::InvalidOption(m)) => assert_eq!(m, "-x"),
        other => panic!("unexpected: {:?}", other),
    }
}

#[test]
fn cat_trailing_newline_follows_file_arguments() {
    let cat = CatCommand;
    let stdin_only = cat.plan(&vec![]).unwrap();
    assert!(!cat.wants_trailing_newline(&stdin_only));
    let dash_only = cat.plan(&vec!["-".to_string()]).unwrap();
    assert!(!cat.wants_trailing_newline(&dash_only));
    let with_files = cat.plan(&vec!["a".to_string(), "-".to_string()]).unwrap();
    assert!(cat.wants_trailing_newline(&with_files));
}

#[test]
fn cat_read_error_wording() {
    let cat = CatCommand;
    match cat.read_error(OsErrorKind::InvalidInput, "") {
        ShellError::FileSystemError(m) => assert_eq!(m, "Is a directory"),
        other => panic!("unexpected: {:?}", other),
    }
    match cat.read_error(OsErrorKind::Other, "odd failure") {
        ShellError::FileSystemError(m) => assert_eq!(m, "Cannot read file: odd failure"),
        other => panic!("unexpected: {:?}", other),
    }
}

#[test]
fn mkdir_plan_scans_options() {
    let mkdir = MkdirCommand;
    match mkdir.plan(&vec![]) {
        Err(ShellError::ExecutionError(m)) => assert_eq!(m, "mkdir: missing operand"),
        other => panic!("unexpected: {:?}", other),
    }
    let p = mkdir.plan(&vec!["-p".to_string(), "a/b".to_string()]).unwrap();
    assert!(p.create_parents);
    assert_eq!(p.dirs, vec!["a/b".to_string()]);
    match mkdir.plan(&vec!["-x".to_string(), "d".to_string()]) {
        Err(ShellError::ExecutionError(m)) => assert_eq!(m, "mkdir: invalid option -- 'x'"),
        other => panic!("unexpected: {:?}", other),
    }
    match mkdir.plan(&vec!["-p".to_string()]) {
        Err(ShellError::ExecutionError(m)) => assert_eq!(m, "mkdir: missing operand"),
        other => panic!("unexpected: {:?}", other),
    }
}

#[test]
fn mkdir_failure_wording() {
    let mkdir = MkdirCommand;
    match mkdir.creation_failure("d", "File exists (os error 17)") {
        ShellError::FileSystemError(m) => {
            assert_eq!(m, "Failed to create directory 'd': File exists (os error 17)");
        },
        other => panic!("unexpected: {:?}", other),
    }
}

#[test]
fn cp_plan_splits_sources_and_target() {
    let cp = CpCommand;
    match cp.plan(&vec!["only".to_string()]) {
        Err(ShellError::ExecutionError(m)) => assert_eq!(m, "cp: missing operand"),
        other => panic!("unexpected: {:?}", other),
    }
    let p = cp
        .plan(&vec!["-r".to_string(), "s1".to_string(), "s2".to_string(), "d".to_string()])
        .unwrap();
    assert!(p.recursive);
    assert_eq!(p.sources, vec!["s1".to_string(), "s2".to_string()]);
    assert_eq!(p.target, "d");
    match cp.plan(&vec!["-x".to_string(), "a".to_string(), "b".to_string()]) {
        Err(ShellError::InvalidOption(m)) => assert_eq!(m, "-x"),
        other => panic!("unexpected: {:?}", other),
    }
    match cp.plan(&vec!["-r".to_string(), "a".to_string()]) {
        Err(ShellError::ExecutionError(m)) => assert_eq!(m, "cp: missing an operand"),
        other => panic!("unexpected: {:?}", other),
    }
}

#[test]
fn cp_decisions_cover_each_case() {
    let cp = CpCommand;
    match cp.action("s", PathClass::Missing, false, "d", PathClass::Missing) {
        CpAction::Report(m) => assert_eq!(m, "cp: cannot stat 's': No such file or directory"),
        _ => panic!("expected report"),
    }
    match cp.action("s", PathClass::OtherExisting, true, "d", PathClass::Missing) {
        CpAction::Report(m) => {
            assert_eq!(m, "cp: cannot copy 's': Not a regular file or directory");
        },
        _ => panic!("expected report"),
    }
    match cp.action("s", PathClass::Dir, false, "d", PathClass::Missing) {
        CpAction::Report(m) => assert_eq!(m, "cp: omitting directory 's', use -r to copy"),
        _ => panic!("expected report"),
    }
    match cp.action("s", PathClass::Dir, true, "d", PathClass::File) {
        CpAction::Report(m) => {
            assert_eq!(m, "cp: cannot overwrite non-directory 'd' with directory 's'");
        },
        _ => panic!("expected report"),
    }
    // Recursive copy of a directory onto a fresh destination is allowed:
    // the destination tree is created.
    assert!(matches!(
        cp.action("s", PathClass::Dir, true, "d", PathClass::Missing),
        CpAction::CopyTree
    ));
    match cp.action("s", PathClass::File, false, "d", PathClass::Dir) {
        CpAction::Report(m) => {
            assert_eq!(m, "cp: cannot overwrite directory 'd' with non-directory 's'");
        },
        _ => panic!("expected report"),
    }
    assert!(matches!(
        cp.action("s", PathClass::File, false, "d", PathClass::Missing),
        CpAction::CopyFile
    ));
}

#[test]
fn cp_target_must_be_directory_for_multiple_sources() {
    let cp = CpCommand;
    assert!(cp.check_target(1, "t", PathClass::File).is_ok());
    assert!(cp.check_target(2, "t", PathClass::Dir).is_ok());
    match cp.check_target(2, "t", PathClass::File) {
        Err(ShellError::ExecutionError(m)) => assert_eq!(m, "cp: target 't' is not a directory"),
        other => panic!("unexpected: {:?}", other),
    }
    match cp.check_target(3, "out", PathClass::Missing) {
        Err(ShellError::ExecutionError(m)) => {
            assert_eq!(m, "cp: target 'out' is not a directory");
        },
        other => panic!("unexpected: {:?}", other),
    }
}

#[test]
fn mv_target_must_be_directory_for_multiple_sources() {
    let mv = MvCommand;
    assert!(mv.check_target(1, "t", PathClass::Missing).is_ok());
    assert!(mv.check_target(2, "t", PathClass::Dir).is_ok());
    match mv.check_target(2, "t", PathClass::File) {
        Err(ShellError::ExecutionError(m)) => assert_eq!(m, "mv: target 't' is not a directory"),
        other => panic!("unexpected: {:?}", other),
    }
}

#[test]
fn tree_copy_plan_lists_every_path() {
    let cp = CpCommand;
    let entries = vec![
        TreeEntry { rel: "sub".to_string(), is_dir: true },
        TreeEntry { rel: "sub/f.txt".to_string(), is_dir: false },
        TreeEntry { rel: "top.txt".to_string(), is_dir: false },
    ];
    let ops = cp.tree_copy_plan("s", "d", &entries);
    assert_eq!(ops.len(), 4);
    assert!(matches!(&ops[0], CopyOp::MakeDir(p) if p == "d"));
    assert!(matches!(&ops[1], CopyOp::MakeDir(p) if p == "d/sub"));
    assert!(matches!(&ops[2], CopyOp::CopyFile(f, t) if f == "s/sub/f.txt" && t == "d/sub/f.txt"));
    assert!(matches!(&ops[3], CopyOp::CopyFile(f, t) if f == "s/top.txt" && t == "d/top.txt"));
}

#[test]
fn cp_failure_wording() {
    let cp = CpCommand;
    assert_eq!(
        cp.dir_copy_failure("s", OsErrorKind::AlreadyExists, ""),
        "cp: cannot copy 's': Destination already exists"
    );
    assert_eq!(
        cp.file_copy_failure("s", OsErrorKind::NotFound, ""),
        "cp: cannot copy 's': Destination directory does not exist"
    );
    assert_eq!(
        cp.file_copy_failure("s", OsErrorKind::Other, "disk full"),
        "cp: failed to copy 's': disk full"
    );
    match cp.aggregate_error() {
        ShellError::ExecutionError(m) => assert_eq!(m, "Some files could not be copied"),
        other => panic!("unexpected: {:?}", other),
    }
}

#[test]
fn mv_plan_and_decisions() {
    let mv = MvCommand;
    match mv.plan(&vec!["a".to_string()]) {
        Err(ShellError::ExecutionError(m)) => assert_eq!(m, "mv: missing operand"),
        other => panic!("unexpected: {:?}", other),
    }
    let p = mv.plan(&vec!["a".to_string(), "b".to_string()]).unwrap();
    assert_eq!(p.sources, vec!["a".to_string()]);
    assert_eq!(p.target, "b");
    match mv.plan(&vec!["-r".to_string(), "a".to_string(), "b".to_string()]) {
        Err(ShellError::InvalidOption(m)) => assert_eq!(m, "-r"),
        other => panic!("unexpected: {:?}", other),
    }
    match mv.action("s", PathClass::File, "d", PathClass::Dir) {
        MvAction::Report(m) => {
            assert_eq!(m, "mv: cannot overwrite directory 'd' with non-directory 's'");
        },
        _ => panic!("expected report"),
    }
    match mv.action("s", PathClass::Dir, "d", PathClass::File) {
        MvAction::Report(m) => {
            assert_eq!(m, "mv: cannot overwrite non-directory 'd' with directory 's'");
        },
        _ => panic!("expected report"),
    }
    assert!(matches!(mv.action("s", PathClass::File, "d", PathClass::Missing), MvAction::Rename));
    assert_eq!(
        mv.rename_failure("s", OsErrorKind::CrossesDevices, ""),
        "mv: cannot move 's': Cross-device link not permitted"
    );
}

#[test]
fn rm_refuses_dot_and_current_directory() {
    let rm = RmCommand;
    assert!(is_dot_or_dotdot("."));
    assert!(is_dot_or_dotdot("../"));
    assert!(!is_dot_or_dotdot(".a"));
    match rm.plan(&vec![".".to_string()], "/cwd") {
        Err(ShellError::ExecutionError(m)) => assert_eq!(m, "rm: refusing to remove '.' or '..'"),
        other => panic!("unexpected: {:?}", other),
    }
    match rm.plan(&vec!["-r".to_string(), "..".to_string()], "/cwd") {
        Err(ShellError::ExecutionError(m)) => assert_eq!(m, "rm: refusing to remove '.' or '..'"),
        other => panic!("unexpected: {:?}", other),
    }
    match rm.plan(&vec!["/cwd".to_string()], "/cwd") {
        Err(ShellError::ExecutionError(m)) => {
            assert_eq!(m, "rm: refusing to remove current directory");
        },
        other => panic!("unexpected: {:?}", other),
    }
}

#[test]
fn rm_plan_and_decisions() {
    let rm = RmCommand;
    match rm.plan(&vec![], "/cwd") {
        Err(ShellError::ExecutionError(m)) => assert_eq!(m, "rm: missing operand"),
        other => panic!("unexpected: {:?}", other),
    }
    let p = rm.plan(&vec!["-r".to_string(), "t".to_string()], "/cwd").unwrap();
    assert!(p.recursive);
    assert_eq!(p.targets, vec!["t".to_string()]);
    match rm.action("d", PathClass::Dir, false) {
        RmAction::Report(m) => assert_eq!(m, "rm: rm: cannot remove 'd': Is a directory (use -r)"),
        _ => panic!("expected report"),
    }
    assert!(matches!(rm.action("d", PathClass::Dir, true), RmAction::RemoveTree));
    assert!(matches!(rm.action("f", PathClass::File, false), RmAction::RemoveFile));
    match rm.action("m", PathClass::Missing, false) {
        RmAction::Report(m) => assert_eq!(m, "rm: cannot remove 'm': No such file or directory"),
        _ => panic!("expected report"),
    }
    assert_eq!(
        rm.removal_failure("t", OsErrorKind::PermissionDenied, ""),
        "rm: cannot remove 't': Permission denied"
    );
    match rm.aggregate_error() {
        ShellError::ExecutionError(m) => assert_eq!(m, "Some files could not be removed"),
        other => panic!("unexpected: {:?}", other),
    }
}

#[test]
fn base_name_and_destination_paths() {
    assert_eq!(base_name("a/b/c"), "c");
    assert_eq!(base_name("a/b/"), "b");
    assert_eq!(base_name("abc"), "abc");
    assert_eq!(base_name("/"), "");
    assert_eq!(dest_path("t", true, "a/src"), "t/src");
    assert_eq!(dest_path("t", false, "a/src"), "t");
}

#[test]
fn base_name_ignores_dot_and_refuses_dotdot() {
    assert_eq!(base_name("."), "");
    assert_eq!(base_name("./"), "");
    assert_eq!(base_name("a/."), "a");
    assert_eq!(base_name("a/./."), "a");
    assert_eq!(base_name(".."), "");
    assert_eq!(base_name("a/.."), "");
    assert_eq!(base_name("./a"), "a");
    assert_eq!(base_name(".hidden"), ".hidden");
    assert_eq!(base_name("..."), "...");
}

#[test]
fn registry_resolves_builtin_names() {
    let reg = CommandRegistry::new();
    let cmd = Command { name: "echo".to_string(), args: vec![] };
    assert!(matches!(reg.lookup(&cmd), Ok(Builtin::Echo)));
    let cmd = Command { name: "rm".to_string(), args: vec![] };
    assert!(matches!(reg.lookup(&cmd), Ok(Builtin::Rm)));
    let cmd = Command { name: "frob".to_string(), args: vec![] };
    match reg.lookup(&cmd) {
        Err(ShellError::CommandNotFound(m)) => assert_eq!(m, "frob"),
        other => panic!("unexpected: {:?}", other),
    }
}

#[test]
fn prompt_collapses_home_prefix() {
    let shell = Shell::new();
    assert_eq!(shell.prompt_string("/home/u/work", "/home/u"), "~/work $ ");
    assert_eq!(shell.prompt_string("/etc", "/home/u"), "/etc $ ");
    assert_eq!(shell.prompt_string("/home/u", "/home/u"), "~ $ ");
}

#[test]
fn prompt_after_entering_subdirectory() {
    // After mkdir foo; cd foo the observed working directory ends in
    // /foo, and the prompt shows it.
    let shell = Shell::new();
    let prompt = shell.prompt_string("/tmp/work/foo", "/home/u");
    assert!(prompt.starts_with("/tmp/work/foo"));
    assert!(prompt.ends_with("/foo $ "));
}

#[test]
fn shell_asks_for_more_input_only_on_open_quotes() {
    let shell = Shell::new();
    assert!(shell.needs_more_input("echo 'abc"));
    assert!(shell.needs_more_input("echo \"abc"));
    assert!(!shell.needs_more_input("echo abc"));
    assert!(!shell.needs_more_input("echo \\"));
    assert!(!shell.needs_more_input(""));
}

#[test]
fn full_line_to_dispatch_flow() {
    // mkdir foo, then cd foo, then pwd: each line parses to the built-in
    // that runs it, with the operands the file system layer will use.
    let parser = CommandParser::new();
    let reg = CommandRegistry::new();
    let mkdir = parser.parse("mkdir foo").unwrap().unwrap();
    assert!(matches!(reg.lookup(&mkdir), Ok(Builtin::Mkdir)));
    let plan = MkdirCommand.plan(&mkdir.args).unwrap();
    assert_eq!(plan.dirs, vec!["foo".to_string()]);
    let cd = parser.parse("cd foo").unwrap().unwrap();
    assert!(matches!(reg.lookup(&cd), Ok(Builtin::Cd)));
    let target = CdCommand.scan_target(&cd.args).unwrap();
    assert_eq!(target, "foo");
    let pwd = parser.parse("pwd").unwrap().unwrap();
    assert!(matches!(reg.lookup(&pwd), Ok(Builtin::Pwd)));
    assert!(PwdCommand.validate_args(&pwd.args).is_ok());
}
