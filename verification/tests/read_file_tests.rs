use motosan_agent_tool::tools::read_file::{
    contains_str, read_file_result, read_file_target, resolve_path, resolve_with, truncate_content, FileRead, ReadFileInput,
    ReadFileTool,
};

fn input(path: &str, max_chars: Option<usize>) -> ReadFileInput {
    ReadFileInput { path: path.to_string(), max_chars }
}

#[test]
fn read_file_should_have_correct_name_and_schema() {
    let def = ReadFileTool::new().def();
    assert_eq!(def.name, "read_file");
    let schema = &def.input_schema;
    assert_eq!(schema.get("type").and_then(|t| t.as_str()), Some("object"));
    assert!(schema.get("properties").unwrap().get("path").unwrap().is_object());
    assert!(schema.get("properties").unwrap().get("max_chars").unwrap().is_object());
    let required: Vec<&str> =
        schema.get("required").unwrap().as_array().unwrap().iter().map(|x| x.as_str().unwrap()).collect();
    assert_eq!(required, vec!["path"]);
    def.validate_input_schema().unwrap();
}

#[test]
fn read_file_should_reject_path_traversal() {
    let result = read_file_target(&input("/tmp/../etc/passwd", None), None).unwrap_err();
    assert!(result.is_error);
    assert!(result.as_text().unwrap().contains("Path traversal"));
}

#[test]
fn should_fail_for_missing_file() {
    let result = read_file_result(&input("/nonexistent/file.txt", None), FileRead::Missing);
    assert!(result.is_error);
    assert!(result.as_text().unwrap().contains("File not found"));
    assert_eq!(result.as_text(), Some("File not found: /nonexistent/file.txt"));
}

#[test]
fn should_read_file_contents() {
    let result = read_file_result(&input("/tmp/x.txt", None), FileRead::Text("Hello from test file".to_string()));
    assert!(!result.is_error);
    assert_eq!(result.as_text().unwrap(), "Hello from test file");
}

#[test]
fn read_file_should_resolve_relative_path_via_ctx_cwd() {
    assert_eq!(read_file_target(&input("relative.txt", None), Some("/data")).unwrap(), "/data/relative.txt");
    assert_eq!(read_file_target(&input("/abs.txt", None), Some("/data")).unwrap(), "/abs.txt");
    assert_eq!(read_file_target(&input("relative.txt", None), None).unwrap(), "relative.txt");
}

#[test]
fn should_truncate_with_max_chars() {
    let content = "a".repeat(1000);
    let result = read_file_result(&input("/tmp/big.txt", Some(100)), FileRead::Text(content));
    assert!(!result.is_error);
    let text = result.as_text().unwrap();
    assert!(text.contains("truncated"));
    assert!(text.len() < 1000);
}

#[test]
fn truncation_note_states_limit_and_total() {
    let text = truncate_content("abcdefghij".to_string(), Some(4));
    assert_eq!(text, "abcd\n\n[... truncated at 4 chars, total 10 chars]");
    assert_eq!(truncate_content("abc".to_string(), Some(3)), "abc");
    assert_eq!(truncate_content("abc".to_string(), None), "abc");
}

#[test]
fn truncation_counts_characters() {
    assert_eq!(truncate_content("ééé".to_string(), Some(3)), "ééé");
    assert_eq!(truncate_content("aéb".to_string(), Some(2)), "aé\n\n[... truncated at 2 chars, total 3 chars]");
    assert_eq!(truncate_content("é".to_string(), Some(0)), "\n\n[... truncated at 0 chars, total 1 chars]");
}

#[test]
fn other_read_failures_have_their_messages() {
    let i = input("/tmp/d", None);
    assert_eq!(read_file_result(&i, FileRead::NotAFile).as_text(), Some("Not a file: /tmp/d"));
    assert_eq!(
        read_file_result(&i, FileRead::Binary).as_text(),
        Some("File appears to be binary. Only UTF-8 text files are supported.")
    );
    assert_eq!(
        read_file_result(&i, FileRead::Failed("Permission denied".to_string())).as_text(),
        Some("Failed to read file: Permission denied")
    );
}

#[test]
fn contains_finds_substrings() {
    assert!(contains_str("a..b", ".."));
    assert!(!contains_str("a.b.c", ".."));
    assert!(contains_str("x", ""));
}

#[test]
fn resolve_without_cwd_keeps_path() {
    assert_eq!(resolve_path("a/b.txt", None), "a/b.txt");
}

#[test]
fn resolution_joins_only_relative_paths_with_a_directory() {
    assert_eq!(resolve_with("a.txt", Some("/d"), false, "/d/a.txt"), "/d/a.txt");
    assert_eq!(resolve_with("/a.txt", Some("/d"), true, "/a.txt"), "/a.txt");
    assert_eq!(resolve_with("a.txt", None, false, "ignored"), "a.txt");
}
