use unsh::{classify_words, parse_command, CommandError, ErrorKind, Execution, ParseError, Path, Segment};

fn words(ws: &[&str]) -> Vec<String> {
    ws.iter().map(|w| w.to_string()).collect()
}

#[test]
fn import_lines_are_parsed() {
    assert_eq!(
        parse_command(":use usr::*").unwrap(),
        Execution::Use(Path(vec![Segment::Atom("usr"), Segment::Wildcard]))
    );
    assert_eq!(
        parse_command(":bad").unwrap_err(),
        CommandError::Import(ParseError { kind: ErrorKind::UnexpectedToken, position: 0 })
    );
}

#[test]
fn builtins_by_name() {
    assert_eq!(parse_command("pwd").unwrap(), Execution::Pwd);
    assert_eq!(parse_command("  cd /tmp").unwrap(), Execution::Cd);
    assert_eq!(classify_words(words(&["pwd", "x"])).unwrap(), Execution::Pwd);
}

#[test]
fn other_words_run_a_program() {
    assert_eq!(
        parse_command("ls -la 'a b'").unwrap(),
        Execution::Run { program: "ls".to_string(), args: words(&["-la", "a b"]) }
    );
    assert_eq!(
        parse_command("pwdx").unwrap(),
        Execution::Run { program: "pwdx".to_string(), args: vec![] }
    );
    assert_eq!(
        classify_words(words(&["c", "d"])).unwrap(),
        Execution::Run { program: "c".to_string(), args: words(&["d"]) }
    );
}

#[test]
fn empty_and_malformed_lines() {
    assert_eq!(parse_command("").unwrap_err(), CommandError::Empty);
    assert_eq!(parse_command("   ").unwrap_err(), CommandError::Empty);
    assert_eq!(classify_words(vec![]).unwrap_err(), CommandError::Empty);
    assert_eq!(parse_command("echo 'unclosed").unwrap_err(), CommandError::Unsplittable);
}
