use unsh::{atom, import, multiple, path, segment, ws, ErrorKind, ParseError, Path, Segment, Source};

#[test]
fn test_basic() {
    let input_str = "usr::{bin::{less,tail}, local::bin::*}";
    let expected = Path(vec![
        Segment::Atom("usr"),
        Segment::Multiple(vec![
            Path(vec![
                Segment::Atom("bin"),
                Segment::Multiple(vec![
                    Path(vec![Segment::Atom("less")]),
                    Path(vec![Segment::Atom("tail")]),
                ]),
            ]),
            Path(vec![
                Segment::Atom("local"),
                Segment::Atom("bin"),
                Segment::Wildcard,
            ]),
        ]),
    ]);
    let src = Source::new(input_str);
    let (result, end) = path(&src, 0).unwrap();
    assert_eq!(result, expected);
    assert_eq!(end, input_str.len());
    let line = format!(":use {}", input_str);
    assert_eq!(import(&line).unwrap(), expected);
}

#[test]
fn test_2() {
    let input_str = "usr::bin::{env, ls};";
    let expected = Path(vec![
        Segment::Atom("usr"),
        Segment::Atom("bin"),
        Segment::Multiple(vec![
            Path(vec![Segment::Atom("env")]),
            Path(vec![Segment::Atom("ls")]),
        ]),
    ]);
    let src = Source::new(input_str);
    let (result, end) = path(&src, 0).unwrap();
    assert_eq!(result, expected);
    assert_eq!(end, input_str.len() - 1);
    let line = format!(":use {}", input_str);
    assert_eq!(import(&line).unwrap(), expected);
}

fn two_atoms<'a>(a: &'a str, b: &'a str) -> Segment<'a> {
    Segment::Multiple(vec![Path(vec![Segment::Atom(a)]), Path(vec![Segment::Atom(b)])])
}

#[test]
fn import_with_sentinel() {
    let expected = Path(vec![Segment::Atom("usr"), Segment::Atom("bin"), two_atoms("env", "ls")]);
    assert_eq!(import(":use usr::bin::{env, ls}").unwrap(), expected);
    assert_eq!(import(":use\t usr::bin::{env,ls};").unwrap(), expected);
}

#[test]
fn whitespace_around_braces_and_commas() {
    for text in ["{a,b}", "{ a , b }", "{a, b}"] {
        let src = Source::new(text);
        let (g, end) = multiple(&src, 0).unwrap();
        assert_eq!(g, two_atoms("a", "b"));
        assert_eq!(end, text.len());
    }
}

#[test]
fn wildcard_is_not_an_atom() {
    let src = Source::new("*");
    assert_eq!(segment(&src, 0).unwrap(), (Segment::Wildcard, 1));
    assert_eq!(
        atom(&src, 0).unwrap_err(),
        ParseError { kind: ErrorKind::UnexpectedToken, position: 0 }
    );
}

#[test]
fn atom_keeps_text_verbatim() {
    for text in ["x", "Usr", "bin2", "ABCdef0123"] {
        let src = Source::new(text);
        assert_eq!(segment(&src, 0).unwrap(), (Segment::Atom(text), text.len()));
    }
    let src = Source::new("ab_c");
    assert_eq!(atom(&src, 0).unwrap(), (Segment::Atom("ab"), 2));
}

#[test]
fn trailing_content_is_ignored() {
    let with_semicolon = import(":use usr::bin::{env, ls};").unwrap();
    let without = import(":use usr::bin::{env, ls}").unwrap();
    assert_eq!(with_semicolon, without);
    assert_eq!(import(":use a::").unwrap(), Path(vec![Segment::Atom("a")]));
    assert_eq!(import(":use a b").unwrap(), Path(vec![Segment::Atom("a")]));
}

#[test]
fn rejected_inputs() {
    assert_eq!(
        import("{}").unwrap_err(),
        ParseError { kind: ErrorKind::UnexpectedToken, position: 0 }
    );
    assert_eq!(
        import("").unwrap_err(),
        ParseError { kind: ErrorKind::UnexpectedEnd, position: 0 }
    );
    assert_eq!(
        import(":use").unwrap_err(),
        ParseError { kind: ErrorKind::UnexpectedEnd, position: 4 }
    );
    assert_eq!(
        import(":us").unwrap_err(),
        ParseError { kind: ErrorKind::UnexpectedEnd, position: 3 }
    );
    assert_eq!(
        import("use a").unwrap_err(),
        ParseError { kind: ErrorKind::UnexpectedToken, position: 0 }
    );
    let src = Source::new("{a,}");
    assert_eq!(
        multiple(&src, 0).unwrap_err(),
        ParseError { kind: ErrorKind::UnexpectedToken, position: 2 }
    );
    let src = Source::new("{}");
    assert_eq!(
        path(&src, 0).unwrap_err(),
        ParseError { kind: ErrorKind::EmptyList, position: 1 }
    );
}

#[test]
fn empty_brace_group_is_an_empty_list() {
    assert_eq!(
        import(":use {}").unwrap_err(),
        ParseError { kind: ErrorKind::EmptyList, position: 6 }
    );
    assert_eq!(
        import(":use ;").unwrap_err(),
        ParseError { kind: ErrorKind::EmptyList, position: 5 }
    );
}

#[test]
fn unclosed_and_dangling_brace_groups() {
    assert_eq!(
        import(":use {a").unwrap_err(),
        ParseError { kind: ErrorKind::UnexpectedEnd, position: 7 }
    );
    assert_eq!(
        import(":use {a,}").unwrap_err(),
        ParseError { kind: ErrorKind::EmptyList, position: 7 }
    );
    assert_eq!(
        import(":use {a b}").unwrap_err(),
        ParseError { kind: ErrorKind::EmptyList, position: 8 }
    );
}

#[test]
fn no_whitespace_around_path_separator() {
    assert_eq!(import(":use a ::b").unwrap(), Path(vec![Segment::Atom("a")]));
    assert_eq!(import(":use a:: b").unwrap(), Path(vec![Segment::Atom("a")]));
}

#[test]
fn ws_skips_spaces_tabs_and_newlines() {
    let src = Source::new(" \t\r\nx ");
    assert_eq!(ws(&src, 0), 4);
    assert_eq!(ws(&src, 4), 4);
    assert_eq!(ws(&src, 5), 6);
}

#[test]
fn deterministic_results() {
    let line = ":use usr::{bin::{less,tail}, local::bin::*}";
    assert_eq!(import(line).unwrap(), import(line).unwrap());
    assert_eq!(import(":use {,}").unwrap_err(), import(":use {,}").unwrap_err());
}

#[test]
fn non_ascii_text_positions_count_characters() {
    assert_eq!(
        import(":use é").unwrap_err(),
        ParseError { kind: ErrorKind::EmptyList, position: 5 }
    );
    assert_eq!(import(":use ab¥").unwrap(), Path(vec![Segment::Atom("ab")]));
}

#[test]
fn trailing_text_after_a_complete_path() {
    let base = import(":use usr::{bin, sbin}::*").unwrap();
    for tail in [";", "!", "# comment", ")", ";;{"] {
        let line = format!(":use usr::{{bin, sbin}}::*{}", tail);
        assert_eq!(import(&line).unwrap(), base);
    }
    assert!(import(":us;").is_err());
    assert!(import(":use {a;").is_err());
}

#[test]
fn brace_groups_are_never_empty() {
    let tree = import(":use a::{b, c::{d}}").unwrap();
    assert_eq!(tree.0.len(), 2);
    match &tree.0[1] {
        Segment::Multiple(alts) => {
            assert_eq!(alts.len(), 2);
            assert!(alts.iter().all(|p| !p.0.is_empty()));
        }
        other => panic!("expected a brace group, got {:?}", other),
    }
    assert!(import(":use a::{ }").is_ok());
    assert_eq!(import(":use a::{ }").unwrap(), Path(vec![Segment::Atom("a")]));
}
