use text_search::sys::windows::args::parse_args;

fn check_windows_args(cmdline: &str, expected: &[&'static str]) {
    let calculated = parse_args(cmdline);
    assert_eq!(calculated.len(), expected.len(), "  left: `{:?}`, right: `{:?}`\n", calculated, expected);
    for (calc, expec) in calculated.iter().zip(expected) {
        assert_eq!(&calc.as_str(), expec);
    }
}

#[test]
fn single_words() {
    check_windows_args("EXE one_word", &["EXE", "one_word"]);
    check_windows_args("EXE a", &["EXE", "a"]);
    check_windows_args("EXE 😅", &["EXE", "😅"]);
    check_windows_args("EXE 😅🤦", &["EXE", "😅🤦"]);
}

#[test]
fn official_examples() {
    check_windows_args(r#"EXE "abc" d e"#, &["EXE", "abc", "d", "e"]);
    check_windows_args(r#"EXE a\\\b d"e f"g h"#, &["EXE", r"a\\\b", "de fg", "h"]);
    check_windows_args(r#"EXE a\\\"b c d"#, &["EXE", r#"a\"b"#, "c", "d"]);
    check_windows_args(r#"EXE a\\\\"b c" d e"#, &["EXE", r"a\\b c", "d", "e"]);
}

#[test]
fn whitespace_behavior() {
    check_windows_args("test test2 ", &["test", "test2"]);
    check_windows_args("test  test2 ", &["test", "test2"]);
    check_windows_args("test ", &["test"]);
}

#[test]
fn genius_quotes() {
    // quotes cannot be escaped in command names
    check_windows_args(r#""EXE" check"#, &["EXE", "check"]);
    check_windows_args(r#""EXE check""#, &["EXE check"]);
    check_windows_args(r#""EXE """for""" check"#, &["EXE for check"]);
    check_windows_args(r#"E"X"E test"#, &["EXE", "test"]);
    check_windows_args(r#"EX""E test"#, &["EXE", "test"]);
}

// from https://daviddeley.com/autohotkey/parameters/parameters.htm#WINCRULESEX
#[test]
fn post_2008() {
    check_windows_args("EXE CallMeIshmael", &["EXE", "CallMeIshmael"]);
    check_windows_args(r#"EXE "Call Me Ishmael""#, &["EXE", "Call Me Ishmael"]);
    check_windows_args(r#"EXE Cal"l Me I"shmael"#, &["EXE", "Call Me Ishmael"]);
    check_windows_args(r#"EXE CallMe\"Ishmael"#, &["EXE", r#"CallMe"Ishmael"#]);
    check_windows_args(r#"EXE "CallMe\"Ishmael""#, &["EXE", r#"CallMe"Ishmael"#]);
    check_windows_args(r#"EXE "Call Me Ishmael\\""#, &["EXE", r"Call Me Ishmael\"]);
    check_windows_args(r#"EXE "CallMe\\\"Ishmael""#, &["EXE", r#"CallMe\"Ishmael"#]);
    check_windows_args(r#"EXE a\\\b"#, &["EXE", r"a\\\b"]);
    check_windows_args(r#"EXE "a\\\b""#, &["EXE", r"a\\\b"]);
    check_windows_args(
        r#"EXE "\"Call Me Ishmael\"""#,
        &["EXE", r#""Call Me Ishmael""#],
    );
    check_windows_args(r#"EXE "C:\TEST A\\""#, &["EXE", r"C:\TEST A\"]);
    check_windows_args(r#"EXE "\"C:\TEST A\\\"""#, &["EXE", r#""C:\TEST A\""#]);
    check_windows_args(r#"EXE "a b c"  d  e"#, &["EXE", "a b c", "d", "e"]);
    check_windows_args(r#"EXE "ab\"c"  "\\"  d"#, &["EXE", r#"ab"c"#, r"\", "d"]);
    check_windows_args(r#"EXE a\\\b d"e f"g h"#, &["EXE", r"a\\\b", "de fg", "h"]);
    check_windows_args(r#"EXE a\\\"b c d"#, &["EXE", r#"a\"b"#, "c", "d"]);
    check_windows_args(r#"EXE a\\\\"b c" d e"#, &["EXE", r"a\\b c", "d", "e"]);
}

#[test]
fn windows_args_blanks_and_empty_quotes() {
    check_windows_args("", &[]);
    check_windows_args(" \t ", &[]);
    check_windows_args("a\tb", &["a", "b"]);
    check_windows_args(r#"a "" b"#, &["a", "", "b"]);
    check_windows_args(r#"a """#, &["a"]);
}

#[test]
fn windows_args_backslashes_at_the_end_are_dropped() {
    check_windows_args(r"a\", &["a"]);
    check_windows_args(r"a\\ b", &[r"a\\", "b"]);
    check_windows_args(r"\\", &[]);
}

#[test]
fn windows_args_open_quote_ends_with_the_line() {
    check_windows_args(r#"a "b c"#, &["a", "b c"]);
    check_windows_args(r#"a\\\\"b c"#, &[r"a\\b c"]);
}
