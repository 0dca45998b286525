use motosan_agent_tool::tools::generate_pdf::{
    check_pdf_output, check_pdf_request, default_format, parse_markdown_lines, pdf_summary, prepare_pdf_lines,
    strip_inline_formatting, word_wrap, GeneratePdfInput, GeneratePdfTool,
};
use motosan_agent_tool::{JsonNumber, JsonValue, ToolContent};

fn input(content: &str, output_path: &str, format: &str) -> GeneratePdfInput {
    GeneratePdfInput {
        content: content.to_string(),
        output_path: output_path.to_string(),
        format: format.to_string(),
        title: None,
    }
}

fn string_list(v: &JsonValue) -> Vec<String> {
    v.as_array()
        .expect("array")
        .iter()
        .map(|x| x.as_str().expect("string").to_string())
        .collect()
}

#[test]
fn word_wrap_short_line() {
    let result = word_wrap("short", 80);
    assert_eq!(result, vec!["short"]);
}

#[test]
fn word_wrap_long_line() {
    let result = word_wrap("hello world this is a long line", 12);
    assert!(result.len() > 1);
    for line in &result {
        // Each line should be <= max_chars (unless a single word exceeds it).
        assert!(line.len() <= 20, "line too long: {}", line);
    }
}

#[test]
fn strip_inline_formatting_removes_markdown() {
    assert_eq!(strip_inline_formatting("**bold**"), "bold");
    assert_eq!(strip_inline_formatting("*italic*"), "italic");
    assert_eq!(strip_inline_formatting("`code`"), "code");
    assert_eq!(strip_inline_formatting("[link](https://example.com)"), "link");
}

#[test]
fn parse_markdown_lines_detects_headings() {
    let lines = parse_markdown_lines("# Title\n\nParagraph\n## Sub");
    assert_eq!(lines[0], (1, "Title".to_string()));
    assert_eq!(lines[1], (0, String::new()));
    assert_eq!(lines[2], (0, "Paragraph".to_string()));
    assert_eq!(lines[3], (2, "Sub".to_string()));
}

#[test]
fn generate_pdf_should_have_correct_name_and_schema() {
    let tool = GeneratePdfTool::new();
    let def = tool.def();
    assert_eq!(def.name, "generate_pdf");
    def.validate_input_schema().unwrap();
    let schema = &def.input_schema;
    assert_eq!(schema.get("type").and_then(|t| t.as_str()), Some("object"));
    let props = schema.get("properties").unwrap();
    assert!(props.get("content").unwrap().is_object());
    assert!(props.get("output_path").unwrap().is_object());
    assert!(props.get("format").unwrap().is_object());
    assert!(props.get("title").unwrap().is_object());
    assert_eq!(string_list(schema.get("required").unwrap()), vec!["content", "output_path"]);
}

#[test]
fn generate_pdf_should_reject_path_traversal() {
    let result = check_pdf_request(&input("Hello", "/tmp/../etc/evil.pdf", "text"), None).unwrap_err();
    assert!(result.is_error);
    assert!(result.as_text().unwrap().contains("Path traversal"));
}

#[test]
fn rejects_unknown_format() {
    let result = check_pdf_request(&input("Hello", "/tmp/out.pdf", "html"), None).unwrap_err();
    assert!(result.is_error);
    assert_eq!(result.as_text(), Some("Unsupported format 'html'. Use 'text' or 'markdown'."));
}

#[test]
fn traversal_is_reported_before_format() {
    let result = check_pdf_output("a/../b.pdf", "html").unwrap_err();
    assert_eq!(
        result.as_text(),
        Some("Path traversal detected: paths containing '..' are not allowed")
    );
}

#[test]
fn accepts_text_and_markdown_requests() {
    assert_eq!(check_pdf_request(&input("x", "/tmp/a.pdf", "text"), None).unwrap(), "/tmp/a.pdf");
    assert_eq!(check_pdf_request(&input("x", "out/b.pdf", "markdown"), None).unwrap(), "out/b.pdf");
}

#[test]
fn relative_output_path_resolves_against_cwd() {
    let resolved = check_pdf_request(&input("x", "report.pdf", "text"), Some("/tmp/work")).unwrap();
    assert_eq!(resolved, "/tmp/work/report.pdf");
    let absolute = check_pdf_request(&input("x", "/var/r.pdf", "text"), Some("/tmp/work")).unwrap();
    assert_eq!(absolute, "/var/r.pdf");
}

#[test]
fn default_format_is_text() {
    assert_eq!(default_format(), "text");
}

#[test]
fn plain_text_lines_have_level_zero() {
    let lines = prepare_pdf_lines(&input("Hello, World!\nThis is a test PDF.", "/tmp/x.pdf", "text"));
    assert_eq!(lines, vec![(0, "Hello, World!".to_string()), (0, "This is a test PDF.".to_string())]);
}

#[test]
fn markdown_lines_are_reduced() {
    let lines = prepare_pdf_lines(&input("# Report\n\n- item **one**", "/tmp/x.pdf", "markdown"));
    assert_eq!(lines[0], (1, "Report".to_string()));
    assert_eq!(lines[1], (0, String::new()));
    assert_eq!(lines[2].0, 0);
}

#[test]
fn summary_reports_path_pages_and_size() {
    let result = pdf_summary("/tmp/out.pdf", 3, 1234);
    assert!(!result.is_error);
    match &result.content[0] {
        ToolContent::Json(v) => {
            assert_eq!(v.get("path").and_then(|p| p.as_str()), Some("/tmp/out.pdf"));
            assert_eq!(v.get("pages").and_then(|p| p.as_u64()), Some(3));
            assert_eq!(v.get("size_bytes").and_then(|p| p.as_u64()), Some(1234));
        }
        _ => panic!("expected JSON content"),
    }
}

#[test]
fn word_wrap_keeps_overlong_word_whole() {
    let result = word_wrap("tiny supercalifragilistic word", 8);
    assert_eq!(result, vec!["tiny", "supercalifragilistic", "word"]);
}

#[test]
fn word_wrap_of_blank_text_is_one_empty_line() {
    assert_eq!(word_wrap("          ", 4), vec![String::new()]);
}

#[test]
fn strip_inline_formatting_leaves_plain_text() {
    assert_eq!(strip_inline_formatting("plain text"), "plain text");
    assert_eq!(strip_inline_formatting("a **b** and *c*"), "a b and c");
}

#[test]
fn pdf_number_variant_is_integer() {
    let v = JsonValue::Number(JsonNumber::PosInt(7));
    assert_eq!(v.as_u64(), Some(7));
}
