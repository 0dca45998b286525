use motosan_agent_tool::tools::browser_act::{BrowserActInput, BrowserActTool};
use motosan_agent_tool::tools::browser_auth::{BrowserAuthInput, BrowserAuthTool};
use motosan_agent_tool::tools::browser_common::{
    browser_session, not_found_or_error, session_args, validate_url, BrowserStep, ProcessOutcome, SpawnError, BINARY,
};
use motosan_agent_tool::tools::browser_navigate::{BrowserNavigateInput, BrowserNavigateTool};
use motosan_agent_tool::tools::browser_read::{BrowserReadInput, BrowserReadTool};
use motosan_agent_tool::tools::browser_snapshot::BrowserSnapshotTool;
use motosan_agent_tool::tools::browser_wait::{BrowserWaitInput, BrowserWaitTool};
use motosan_agent_tool::{JsonValue, ToolContext, ToolDef, ToolResult};

fn required(def: &ToolDef) -> Vec<String> {
    def.input_schema
        .get("required")
        .and_then(|r| r.as_array())
        .unwrap()
        .iter()
        .map(|x| x.as_str().unwrap().to_string())
        .collect()
}

fn has_prop(def: &ToolDef, name: &str) -> bool {
    def.input_schema.get("properties").and_then(|p| p.get(name)).map(|p| p.is_object()).unwrap_or(false)
}

fn schema_type(def: &ToolDef) -> Option<&str> {
    def.input_schema.get("type").and_then(|t| t.as_str())
}

fn run_args(step: BrowserStep) -> Vec<String> {
    match step {
        BrowserStep::Run(run) => run.args,
        BrowserStep::Done(r) => panic!("expected a run, got {:?}", r.as_text()),
    }
}

fn done(step: BrowserStep) -> ToolResult {
    match step {
        BrowserStep::Done(r) => r,
        BrowserStep::Run(run) => panic!("expected a result, got a run of {:?}", run.args),
    }
}

fn missing_binary() -> ProcessOutcome {
    ProcessOutcome::SpawnFailed(SpawnError {
        not_found: true,
        message: "No such file or directory (os error 2)".to_string(),
    })
}

fn act(action: &str, r: Option<&str>, value: Option<&str>) -> BrowserActInput {
    BrowserActInput {
        action: action.to_string(),
        element_ref: r.map(|s| s.to_string()),
        value: value.map(|s| s.to_string()),
    }
}

fn finished(success: bool, code: Option<i32>, stdout: &str, stderr: &str) -> ProcessOutcome {
    ProcessOutcome::Exited { success, code, stdout: stdout.to_string(), stderr: stderr.to_string() }
}

#[test]
fn browser_act_should_have_correct_name_and_schema() {
    let def = BrowserActTool::new().def();
    assert_eq!(def.name, "browser_act");
    assert_eq!(schema_type(&def), Some("object"));
    assert!(has_prop(&def, "action"));
    assert!(has_prop(&def, "ref"));
    assert!(has_prop(&def, "value"));
    assert_eq!(required(&def), vec!["action"]);
    def.validate_input_schema().unwrap();
}

#[test]
fn should_require_ref_for_click() {
    let result = done(BrowserActTool::new().plan(&act("click", None, None), &None));
    assert!(result.is_error);
    assert_eq!(result.as_text(), Some("Action 'click' requires a 'ref' parameter (e.g. @e1)"));
}

#[test]
fn browser_act_should_return_error_when_binary_missing() {
    let tool = BrowserActTool::new();
    let input = act("click", Some("@e1"), None);
    assert_eq!(run_args(tool.plan(&input, &None)), vec!["click", "@e1"]);
    let result = tool.finish(&input, missing_binary());
    assert!(result.is_error);
    let text = result.as_text().unwrap();
    assert!(text.contains("agent-browser"), "Unexpected error: {text}");
}

#[test]
fn act_press_takes_value_without_ref() {
    let args = run_args(BrowserActTool::new().plan(&act("press", None, Some("Enter")), &None));
    assert_eq!(args, vec!["press", "Enter"]);
}

#[test]
fn act_rejects_unknown_action() {
    let result = done(BrowserActTool::new().plan(&act("scroll", Some("@e1"), None), &None));
    assert_eq!(
        result.as_text(),
        Some("Unknown action 'scroll'. Valid actions: click, fill, type, hover, select, check, press")
    );
}

#[test]
fn act_runs_in_the_session() {
    let session = Some("s1".to_string());
    let args = run_args(BrowserActTool::new().plan(&act("fill", Some("@e2"), Some("hi")), &session));
    assert_eq!(args, vec!["--session-name", "s1", "fill", "@e2", "hi"]);
}

#[test]
fn act_reports_success_and_failure() {
    let tool = BrowserActTool::new();
    let input = act("click", Some("@e1"), None);
    assert_eq!(tool.finish(&input, finished(true, Some(0), "  \n", "")).as_text(), Some("Action 'click' completed successfully"));
    assert_eq!(tool.finish(&input, finished(true, Some(0), "clicked", "")).as_text(), Some("clicked"));
    let failed = tool.finish(&input, finished(false, Some(2), "", "no element"));
    assert!(failed.is_error);
    assert_eq!(failed.as_text(), Some("agent-browser click failed (exit 2):\nno element"));
    let killed = tool.finish(&input, finished(false, None, "", "killed"));
    assert_eq!(killed.as_text(), Some("agent-browser click failed (exit -1):\nkilled"));
    assert_eq!(tool.finish(&input, ProcessOutcome::TimedOut).as_text(), Some("Execution timed out after 30 seconds"));
    assert_eq!(
        tool.finish(&input, ProcessOutcome::WaitFailed("broken pipe".to_string())).as_text(),
        Some("Process error: broken pipe")
    );
}

#[test]
fn browser_auth_should_have_correct_name_and_schema() {
    let def = BrowserAuthTool::new().def();
    assert_eq!(def.name, "browser_auth");
    assert_eq!(schema_type(&def), Some("object"));
    assert!(has_prop(&def, "action"));
    assert!(has_prop(&def, "path"));
    assert_eq!(required(&def), vec!["action", "path"]);
    def.validate_input_schema().unwrap();
}

#[test]
fn should_handle_load_action_as_advisory() {
    let input = BrowserAuthInput { action: "load".to_string(), path: "~/.pilot/auth.json".to_string() };
    let result = done(BrowserAuthTool::new().plan(&input, &None));
    assert!(!result.is_error);
    let text = result.as_text().unwrap();
    assert!(text.contains("Advisory"));
    assert!(text.contains("~/.pilot/auth.json"));
    assert!(text.contains("--state"));
}

#[test]
fn should_return_error_for_save_when_binary_missing() {
    let tool = BrowserAuthTool::new();
    let input = BrowserAuthInput { action: "save".to_string(), path: "/tmp/auth-test.json".to_string() };
    assert_eq!(run_args(tool.plan(&input, &None)), vec!["state", "save", "/tmp/auth-test.json"]);
    let result = tool.finish(&input, missing_binary());
    assert!(result.is_error);
    assert!(result.as_text().unwrap().contains("agent-browser"));
}

#[test]
fn should_support_auto_connect_save() {
    let tool = BrowserAuthTool::new();
    let input = BrowserAuthInput { action: "auto-connect-save".to_string(), path: "/tmp/auth-test.json".to_string() };
    let session = Some("work".to_string());
    assert_eq!(
        run_args(tool.plan(&input, &session)),
        vec!["--session-name", "work", "--auto-connect", "state", "save", "/tmp/auth-test.json"]
    );
    assert_eq!(
        tool.finish(&input, finished(true, Some(0), "", "")).as_text(),
        Some("Auth state saved to /tmp/auth-test.json")
    );
}

#[test]
fn auth_rejects_unknown_action() {
    let input = BrowserAuthInput { action: "delete".to_string(), path: "p".to_string() };
    let result = done(BrowserAuthTool::new().plan(&input, &None));
    assert_eq!(result.as_text(), Some("Unknown action 'delete'. Valid actions: load, save, auto-connect-save"));
}

#[test]
fn browser_navigate_should_have_correct_name_and_schema() {
    let def = BrowserNavigateTool::new().def();
    assert_eq!(def.name, "browser_navigate");
    assert_eq!(schema_type(&def), Some("object"));
    assert!(has_prop(&def, "url"));
    assert_eq!(required(&def), vec!["url"]);
    def.validate_input_schema().unwrap();
}

#[test]
fn should_reject_invalid_url_scheme() {
    let input = BrowserNavigateInput { url: "ftp://example.com".to_string() };
    let result = done(BrowserNavigateTool::new().plan(&input, &None));
    assert!(result.is_error);
    assert!(result.as_text().unwrap().contains("Invalid URL"));
}

#[test]
fn should_reject_bare_string_url() {
    let input = BrowserNavigateInput { url: "example.com".to_string() };
    let result = done(BrowserNavigateTool::new().plan(&input, &None));
    assert!(result.is_error);
    assert_eq!(
        result.as_text(),
        Some("Invalid URL: 'example.com'. URL must start with http://, https://, or file://")
    );
}

#[test]
fn should_return_not_found_when_binary_missing() {
    let tool = BrowserNavigateTool::new();
    let input = BrowserNavigateInput { url: "https://example.com".to_string() };
    assert_eq!(run_args(tool.plan(&input, &None)), vec!["open", "https://example.com"]);
    let result = tool.finish(&input, missing_binary());
    assert!(result.is_error);
    assert!(result.as_text().unwrap().contains("agent-browser not found"));
}

#[test]
fn navigate_reports_success() {
    let tool = BrowserNavigateTool::new();
    let input = BrowserNavigateInput { url: "file:///tmp/x.html".to_string() };
    assert_eq!(tool.finish(&input, finished(true, Some(0), "", "")).as_text(), Some("Navigated to file:///tmp/x.html"));
    assert_eq!(
        tool.finish(&input, finished(false, Some(1), "", "bad")).as_text(),
        Some("agent-browser failed (exit 1):\nbad")
    );
}

#[test]
fn browser_read_should_have_correct_name_and_schema() {
    let def = BrowserReadTool::new().def();
    assert_eq!(def.name, "browser_read");
    assert_eq!(schema_type(&def), Some("object"));
    assert!(has_prop(&def, "target"));
    assert!(has_prop(&def, "ref"));
    assert_eq!(required(&def), vec!["target"]);
    def.validate_input_schema().unwrap();
}

#[test]
fn should_require_ref_for_text() {
    let input = BrowserReadInput { target: "text".to_string(), element_ref: None };
    let result = done(BrowserReadTool::new().plan(&input, &None));
    assert!(result.is_error);
    assert_eq!(result.as_text(), Some("Target 'text' requires a 'ref' parameter (e.g. @e1)"));
}

#[test]
fn browser_read_should_return_error_when_binary_missing() {
    let tool = BrowserReadTool::new();
    let input = BrowserReadInput { target: "url".to_string(), element_ref: None };
    assert_eq!(run_args(tool.plan(&input, &None)), vec!["get", "url"]);
    let result = tool.finish(&input, missing_binary());
    assert!(result.is_error);
    assert!(result.as_text().unwrap().contains("agent-browser"));
}

#[test]
fn read_passes_output_through() {
    let tool = BrowserReadTool::new();
    let input = BrowserReadInput { target: "html".to_string(), element_ref: Some("@e3".to_string()) };
    assert_eq!(run_args(tool.plan(&input, &None)), vec!["get", "html", "@e3"]);
    assert_eq!(tool.finish(&input, finished(true, Some(0), "", "")).as_text(), Some(""));
    assert_eq!(
        tool.finish(&input, finished(false, Some(3), "", "x")).as_text(),
        Some("agent-browser get html failed (exit 3):\nx")
    );
    let unknown = done(tool.plan(&BrowserReadInput { target: "cookies".to_string(), element_ref: None }, &None));
    assert_eq!(unknown.as_text(), Some("Unknown target 'cookies'. Valid targets: text, html, value, url, title"));
}

#[test]
fn browser_snapshot_should_have_correct_name_and_schema() {
    let def = BrowserSnapshotTool::new().def();
    assert_eq!(def.name, "browser_snapshot");
    assert_eq!(schema_type(&def), Some("object"));
    def.validate_input_schema().unwrap();
}

#[test]
fn browser_snapshot_should_return_error_when_binary_missing() {
    let tool = BrowserSnapshotTool::new();
    assert_eq!(tool.plan(&None).args, vec!["snapshot"]);
    let result = tool.finish(missing_binary());
    assert!(result.is_error);
    assert!(result.as_text().unwrap().contains("agent-browser"));
    assert_eq!(
        tool.finish(finished(false, Some(1), "", "e")).as_text(),
        Some("agent-browser snapshot failed (exit 1):\ne")
    );
}

#[test]
fn browser_wait_should_have_correct_name_and_schema() {
    let def = BrowserWaitTool::new().def();
    assert_eq!(def.name, "browser_wait");
    assert_eq!(schema_type(&def), Some("object"));
    assert!(has_prop(&def, "event"));
    assert!(has_prop(&def, "value"));
    assert!(has_prop(&def, "timeout_ms"));
    assert_eq!(required(&def), vec!["event"]);
    def.validate_input_schema().unwrap();
}

#[test]
fn should_require_value_for_selector_event() {
    let input = BrowserWaitInput { event: "selector".to_string(), value: None, timeout_ms: None };
    let result = done(BrowserWaitTool::new().plan(&input, &None));
    assert!(result.is_error);
    let text = result.as_text().unwrap();
    assert!(text.contains("requires a 'value'"), "Got: {text}");
}

#[test]
fn browser_wait_should_return_error_when_binary_missing() {
    let tool = BrowserWaitTool::new();
    let input = BrowserWaitInput { event: "load".to_string(), value: None, timeout_ms: None };
    match tool.plan(&input, &None) {
        BrowserStep::Run(run) => {
            assert_eq!(run.args, vec!["wait", "load", "--timeout", "30000"]);
            assert_eq!(run.timeout_ms, 35000);
        }
        BrowserStep::Done(_) => panic!("expected a run"),
    }
    let result = tool.finish(&input, missing_binary());
    assert!(result.is_error);
    assert!(result.as_text().unwrap().contains("agent-browser"));
}

#[test]
fn wait_timeout_saturates_and_is_reported() {
    let tool = BrowserWaitTool::new();
    let input = BrowserWaitInput { event: "text".to_string(), value: Some("Done".to_string()), timeout_ms: Some(u64::MAX) };
    match tool.plan(&input, &Some("s".to_string())) {
        BrowserStep::Run(run) => {
            assert_eq!(run.args, vec!["--session-name", "s", "wait", "text", "Done", "--timeout", "18446744073709551615"]);
            assert_eq!(run.timeout_ms, u64::MAX);
        }
        BrowserStep::Done(_) => panic!("expected a run"),
    }
    let short = BrowserWaitInput { event: "url".to_string(), value: Some("*/done".to_string()), timeout_ms: Some(1500) };
    assert_eq!(tool.finish(&short, ProcessOutcome::TimedOut).as_text(), Some("Execution timed out after 1500ms"));
    assert_eq!(tool.finish(&short, finished(true, Some(0), "", "")).as_text(), Some("Wait for 'url' completed"));
    let unknown = BrowserWaitInput { event: "idle".to_string(), value: None, timeout_ms: None };
    assert_eq!(
        done(tool.plan(&unknown, &None)).as_text(),
        Some("Unknown event 'idle'. Valid events: load, network-idle, selector, text, url")
    );
}

#[test]
fn urls_with_allowed_schemes_pass() {
    assert!(validate_url("http://a").is_ok());
    assert!(validate_url("https://a").is_ok());
    assert!(validate_url("file:///a").is_ok());
    assert!(validate_url("HTTP://a").is_err());
    assert!(validate_url("").is_err());
}

#[test]
fn spawn_errors_read_by_kind() {
    let missing = not_found_or_error(&SpawnError { not_found: true, message: "gone".to_string() });
    assert_eq!(
        missing,
        "agent-browser not found. Please install it:\n\n  cargo install agent-browser\n\nor download from https://github.com/anthropics/agent-browser\n\nError: gone"
    );
    let other = not_found_or_error(&SpawnError { not_found: false, message: "denied".to_string() });
    assert_eq!(other, "Failed to spawn agent-browser: denied");
    assert_eq!(BINARY, "agent-browser");
}

#[test]
fn session_comes_from_context() {
    let ctx = ToolContext::new("a", "p").with("browser_session", JsonValue::String("thread-7".to_string()));
    let session = browser_session(&ctx);
    assert_eq!(session.as_deref(), Some("thread-7"));
    assert_eq!(session_args(&session), vec!["--session-name", "thread-7"]);
    assert_eq!(browser_session(&ToolContext::new("a", "p")), None);
    assert!(session_args(&None).is_empty());
}
