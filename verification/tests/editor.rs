use text_search::editor::{build_command, replace, to_decimal, EditorError, Replacements};

#[test]
fn replace_file_line_in_valid_strings() {
    let file = String::from("/home/foo/bar");
    let line = String::from("38");

    let mut replacements = Replacements::new();
    replacements.insert(String::from("file"), file.clone());
    replacements.insert(String::from("line"), line.clone());

    assert_eq!(
        replace("{file}", &replacements).unwrap(),
        file
    );
    assert_eq!(
        replace("{file}{line}", &replacements).unwrap(),
        format!("{}{}", file, line)
    );
    assert_eq!(
        replace("--line={line}", &replacements).unwrap(),
        format!("--line={}", line)
    );
    assert_eq!(
        replace("-p={file}:{line}", &replacements).unwrap(),
        format!("-p={}:{}", file, line)
    );
    assert_eq!(
        replace(r#"--json-pos=\{"line": {line}, "file": "{file}"\}"#, &replacements).unwrap(),
        format!(r#"--json-pos={{"line": {}, "file": "{}"}}"#, line, file),
    );
}

#[test]
fn replace_file_in_invalid_string() {
    let mut replacements = Replacements::new();
    replacements.insert(String::from("file"), String::from("/home/"));

    replace("{file", &replacements).unwrap_err();
    replace("{{file}", &replacements).unwrap_err();
    replace("\\", &replacements).unwrap_err();
    replace("{line}", &replacements).unwrap_err();
}

#[test]
fn building_command_without_editor() {
    let file = String::from("/home");
    let line = 10;
    build_command("", file.clone(), line).unwrap_err();

    let cmd = build_command("{file} {line}", file.clone(), line).unwrap();
    assert_eq!(cmd.program, "{file}");
}

#[test]
fn building_valid_command_with_replacements() {
    let file = String::from("/home");
    let line = 10;

    let cmd = build_command("/usr/bin/editor {file} {line}", file.clone(), line).unwrap();
    assert_eq!(cmd.program, "/usr/bin/editor");
    assert_eq!(cmd.arguments.len(), 2);
    assert_eq!(cmd.arguments[0], "/home");
    assert_eq!(cmd.arguments[1], "10");

    let cmd = build_command("subl {file}:{line}", file.clone(), line).unwrap();
    assert_eq!(cmd.program, "subl");
    assert_eq!(cmd.arguments.len(), 1);
    assert_eq!(cmd.arguments[0], "/home:10");
}

#[test]
fn replace_reports_each_fault() {
    let mut replacements = Replacements::new();
    replacements.insert(String::from("file"), String::from("/home/"));

    assert_eq!(replace("a\\", &replacements), Err(EditorError::DanglingEscape));
    assert_eq!(replace("{{file}", &replacements), Err(EditorError::NestedBrace));
    assert_eq!(replace("file}", &replacements), Err(EditorError::UnmatchedBrace));
    assert_eq!(replace("ab{line}", &replacements), Err(EditorError::UnknownKey { position: 2 }));
    assert_eq!(replace("a{file", &replacements), Err(EditorError::UnclosedBrace { position: 1 }));
    assert_eq!(
        build_command("  ", String::from("/home"), 1).unwrap_err(),
        EditorError::NoProgram
    );
    assert_eq!(
        build_command("vi {file} {column}", String::from("/home"), 1).unwrap_err(),
        EditorError::UnknownKey { position: 0 }
    );
}

#[test]
fn replace_first_fault_wins() {
    let replacements = Replacements::new();
    assert_eq!(replace("}{", &replacements), Err(EditorError::UnmatchedBrace));
    assert_eq!(replace("{a\\", &replacements), Err(EditorError::DanglingEscape));
    assert_eq!(replace("{a}{", &replacements), Err(EditorError::UnknownKey { position: 0 }));
}

#[test]
fn replace_takes_the_value_stored_last() {
    let mut replacements = Replacements::new();
    replacements.insert(String::from("file"), String::from("first"));
    replacements.insert(String::from("file"), String::from("second"));
    assert_eq!(replace("{file}", &replacements).unwrap(), "second");
    assert_eq!(replacements.get(&String::from("file")), Some(&String::from("second")));
    assert_eq!(replacements.get(&String::from("line")), None);
}

#[test]
fn replace_escapes_any_character() {
    let replacements = Replacements::new();
    assert_eq!(replace("a\\bc\\\\d", &replacements).unwrap(), "abc\\d");
    assert_eq!(replace("", &replacements).unwrap(), "");
}

#[test]
fn decimal_numerals() {
    assert_eq!(to_decimal(0), "0");
    assert_eq!(to_decimal(7), "7");
    assert_eq!(to_decimal(10), "10");
    assert_eq!(to_decimal(38), "38");
    assert_eq!(to_decimal(1234567890), "1234567890");
    assert_eq!(to_decimal(usize::MAX), format!("{}", usize::MAX));
}
