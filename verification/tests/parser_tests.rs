use vshell::error::ShellError;
use vshell::parser::{Command, CommandParser};

fn parser_with_home(home: &str) -> CommandParser {
    CommandParser::with_home(Some(home.to_string()))
}

#[test]
fn empty_input_is_none() {
    let p = CommandParser::new();
    assert_eq!(p.parse("").unwrap(), None);
    assert_eq!(p.parse("   \t  ").unwrap(), None);
    assert_eq!(p.parse("\n").unwrap(), None);
}

#[test]
fn simple_words_split_on_whitespace() {
    let p = CommandParser::new();
    let cmd = p.parse("echo hello   world").unwrap().unwrap();
    assert_eq!(cmd.name, "echo");
    assert_eq!(cmd.args, vec!["hello".to_string(), "world".to_string()]);
}

#[test]
fn double_quotes_keep_spaces() {
    let p = CommandParser::new();
    let cmd = p.parse("echo \"a b\" c").unwrap().unwrap();
    assert_eq!(cmd.args, vec!["a b".to_string(), "c".to_string()]);
}

#[test]
fn single_quotes_keep_other_quote() {
    let p = CommandParser::new();
    let cmd = p.parse("echo 'say \"hi\"'").unwrap().unwrap();
    assert_eq!(cmd.args, vec!["say \"hi\"".to_string()]);
}

#[test]
fn unclosed_single_quote_is_incomplete() {
    let p = CommandParser::new();
    match p.parse("echo 'abc") {
        Err(ShellError::IncompleteInput(c)) => assert_eq!(c, '\''),
        other => panic!("unexpected: {:?}", other),
    }
}

#[test]
fn unclosed_double_quote_is_incomplete() {
    let p = CommandParser::new();
    match p.parse("echo \"abc") {
        Err(ShellError::IncompleteInput(c)) => assert_eq!(c, '"'),
        other => panic!("unexpected: {:?}", other),
    }
}

#[test]
fn quote_balance_direct_concatenation() {
    // Appending the closing text directly (no newline in between) glues
    // the two halves into one token.
    let p = CommandParser::new();
    let joined = format!("{}{}", "echo 'abc", "def'");
    let cmd = p.parse(&joined).unwrap().unwrap();
    assert_eq!(cmd.name, "echo");
    assert_eq!(cmd.args, vec!["abcdef".to_string()]);
}

#[test]
fn quote_balance_with_spliced_newline() {
    // The interactive loop appends the next physical line with its
    // newline; inside quotes that newline is a literal character.
    let p = CommandParser::new();
    let cmd = p.parse("echo 'abc\ndef'").unwrap().unwrap();
    assert_eq!(cmd.args, vec!["abc\ndef".to_string()]);
}

#[test]
fn escapes_inside_quotes() {
    let p = CommandParser::new();
    let cmd = p.parse("echo \"a\\nb\\tc\\rd\\\\e\\\"f\"").unwrap().unwrap();
    assert_eq!(cmd.args, vec!["a\nb\tc\rd\\e\"f".to_string()]);
}

#[test]
fn unknown_escape_inside_quotes_keeps_backslash() {
    let p = CommandParser::new();
    let cmd = p.parse("echo \"a\\zb\"").unwrap().unwrap();
    assert_eq!(cmd.args, vec!["a\\zb".to_string()]);
}

#[test]
fn escaped_space_outside_quotes_joins_words() {
    let p = CommandParser::new();
    let cmd = p.parse("echo a\\ b").unwrap().unwrap();
    assert_eq!(cmd.args, vec!["a b".to_string()]);
}

#[test]
fn unknown_escape_outside_quotes_drops_backslash() {
    let p = CommandParser::new();
    let cmd = p.parse("echo a\\zb").unwrap().unwrap();
    assert_eq!(cmd.args, vec!["azb".to_string()]);
}

#[test]
fn backslash_newline_is_line_continuation() {
    let p = CommandParser::new();
    let cmd = p.parse("echo a\\\nb").unwrap().unwrap();
    assert_eq!(cmd.args, vec!["ab".to_string()]);
}

#[test]
fn trailing_backslash_outside_quotes_is_parse_error() {
    let p = CommandParser::new();
    match p.parse("echo \\") {
        Err(ShellError::ParseError(m)) => assert_eq!(m, "unexpected end of input"),
        other => panic!("unexpected: {:?}", other),
    }
}

#[test]
fn trailing_backslash_inside_quotes_is_incomplete() {
    let p = CommandParser::new();
    match p.parse("echo 'a\\") {
        Err(ShellError::IncompleteInput(c)) => assert_eq!(c, '\\'),
        other => panic!("unexpected: {:?}", other),
    }
}

#[test]
fn trailing_empty_quotes_become_empty_argument() {
    let p = CommandParser::new();
    let cmd = p.parse("echo ''").unwrap().unwrap();
    assert_eq!(cmd.args, vec!["".to_string()]);
}

#[test]
fn lone_empty_quotes_are_no_command() {
    let p = CommandParser::new();
    assert_eq!(p.parse("''").unwrap(), None);
}

#[test]
fn empty_quotes_in_the_middle_are_dropped() {
    let p = CommandParser::new();
    let cmd = p.parse("echo '' x").unwrap().unwrap();
    assert_eq!(cmd.args, vec!["x".to_string()]);
}

#[test]
fn tilde_alone_expands_to_home() {
    let p = parser_with_home("/home/u");
    let cmd = p.parse("cd ~").unwrap().unwrap();
    assert_eq!(cmd.name, "cd");
    assert_eq!(cmd.args, vec!["/home/u".to_string()]);
}

#[test]
fn tilde_slash_prefix_expands() {
    let p = parser_with_home("/home/u");
    let cmd = p.parse("echo ~/x").unwrap().unwrap();
    assert_eq!(cmd.args, vec!["/home/u/x".to_string()]);
}

#[test]
fn quoted_tilde_is_not_expanded() {
    let p = parser_with_home("/home/u");
    let cmd = p.parse("echo '~'").unwrap().unwrap();
    assert_eq!(cmd.args, vec!["~".to_string()]);
}

#[test]
fn tilde_without_home_stays() {
    let p = CommandParser::new();
    let cmd = p.parse("echo ~").unwrap().unwrap();
    assert_eq!(cmd.args, vec!["~".to_string()]);
}

#[test]
fn tilde_in_the_middle_is_literal() {
    let p = parser_with_home("/home/u");
    let cmd = p.parse("echo a~b").unwrap().unwrap();
    assert_eq!(cmd.args, vec!["a~b".to_string()]);
}

#[test]
fn unicode_whitespace_is_trimmed_at_the_ends() {
    let p = CommandParser::new();
    let cmd = p.parse("\u{00A0}echo hi\u{2003}").unwrap().unwrap();
    assert_eq!(cmd.name, "echo");
    assert_eq!(cmd.args, vec!["hi".to_string()]);
    // Inside the line such characters are ordinary token characters.
    let cmd = p.parse("echo a\u{00A0}b").unwrap().unwrap();
    assert_eq!(cmd.args, vec!["a\u{00A0}b".to_string()]);
}

#[test]
fn round_trip_of_plain_tokens() {
    // Re-joining the parsed tokens with single spaces and re-parsing
    // reproduces exactly the same command.
    let p = CommandParser::new();
    let first: Command = p.parse("cp   src.txt dest.txt").unwrap().unwrap();
    let mut joined = first.name.clone();
    for a in &first.args {
        joined.push(' ');
        joined.push_str(a);
    }
    assert_eq!(joined, "cp src.txt dest.txt");
    let second = p.parse(&joined).unwrap().unwrap();
    assert_eq!(first, second);
    assert_eq!(second.args.len(), 2);
}

#[test]
fn error_messages_have_exact_text() {
    assert_eq!(
        ShellError::IncompleteInput('\'').message(),
        "Incomplete input: unclosed quote '''"
    );
    assert_eq!(
        ShellError::CommandNotFound("frob".to_string()).message(),
        "Command 'frob' not found"
    );
    assert_eq!(
        ShellError::InvalidOption("-x".to_string()).message(),
        "Invalid option: -x"
    );
    assert_eq!(ShellError::IoError("broken pipe".to_string()).message(), "I/O error: broken pipe");
    assert_eq!(ShellError::ParseError("bad".to_string()).message(), "Parse error: bad");
    assert_eq!(
        ShellError::ExecutionError("rm: missing operand".to_string()).message(),
        "Execution error: rm: missing operand"
    );
    assert_eq!(
        ShellError::FileSystemError("Permission denied".to_string()).message(),
        "File system error: Permission denied"
    );
}
