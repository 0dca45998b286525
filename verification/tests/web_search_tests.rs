use motosan_agent_tool::tools::web_search::{
    brave_query, brave_results, format_search_results, search_result, select_provider, tavily_body, tavily_results,
    BraveWebResult, SearchEnv, SearchOutcome, SearchProvider, SearchResult, TavilySearchResult, WebSearchInput,
    WebSearchTool, DEFAULT_MAX_RESULTS,
};
use motosan_agent_tool::{JsonValue, ToolContext};

fn env(brave: Option<&str>, tavily: Option<&str>, provider: Option<&str>) -> SearchEnv {
    SearchEnv {
        brave_api_key: brave.map(|s| s.to_string()),
        tavily_api_key: tavily.map(|s| s.to_string()),
        search_provider: provider.map(|s| s.to_string()),
    }
}

fn test_ctx() -> ToolContext {
    ToolContext::new("test-agent", "test")
}

fn result(title: &str, url: &str, description: &str) -> SearchResult {
    SearchResult { title: title.to_string(), url: url.to_string(), description: description.to_string() }
}

#[test]
fn web_search_should_have_correct_name_and_schema() {
    let def = WebSearchTool::new().def();
    assert_eq!(def.name, "web_search");
    let schema = def.input_schema;
    assert_eq!(schema.get("type").and_then(|t| t.as_str()), Some("object"));
    assert!(schema.get("properties").unwrap().get("query").unwrap().is_object());
    assert!(schema.get("properties").unwrap().get("max_results").unwrap().is_object());
    let required: Vec<&str> =
        schema.get("required").unwrap().as_array().unwrap().iter().map(|x| x.as_str().unwrap()).collect();
    assert_eq!(required, vec!["query"]);
}

#[test]
fn should_fail_without_api_key() {
    let message = select_provider(&test_ctx(), &env(None, None, None)).unwrap_err();
    assert!(message.contains("API key is not configured"));
}

#[test]
fn should_select_tavily_when_tavily_key_present() {
    let (provider, key) = select_provider(&test_ctx(), &env(None, Some("tvly-test-key"), None)).unwrap();
    assert_eq!(provider, SearchProvider::Tavily);
    assert_eq!(key, "tvly-test-key");
}

#[test]
fn should_select_brave_when_only_brave_key_present() {
    let (provider, key) = select_provider(&test_ctx(), &env(Some("brave-test-key"), None, None)).unwrap();
    assert_eq!(provider, SearchProvider::Brave);
    assert_eq!(key, "brave-test-key");
}

#[test]
fn should_respect_search_provider_override() {
    let (provider, key) =
        select_provider(&test_ctx(), &env(Some("brave-test-key"), Some("tvly-test-key"), Some("brave"))).unwrap();
    assert_eq!(provider, SearchProvider::Brave);
    assert_eq!(key, "brave-test-key");
}

#[test]
fn tavily_is_preferred_when_both_keys_exist() {
    let (provider, _) = select_provider(&test_ctx(), &env(Some("b"), Some("t"), None)).unwrap();
    assert_eq!(provider, SearchProvider::Tavily);
}

#[test]
fn provider_preference_ignores_case() {
    let (provider, _) = select_provider(&test_ctx(), &env(Some("b"), Some("t"), Some("BRAVE"))).unwrap();
    assert_eq!(provider, SearchProvider::Brave);
    let (provider, _) = select_provider(&test_ctx(), &env(Some("b"), Some("t"), Some("Tavily"))).unwrap();
    assert_eq!(provider, SearchProvider::Tavily);
}

#[test]
fn missing_key_for_preferred_provider_is_named() {
    let brave = select_provider(&test_ctx(), &env(None, Some("t"), Some("brave"))).unwrap_err();
    assert!(brave.starts_with("Brave Search API key is not configured"));
    let tavily = select_provider(&test_ctx(), &env(Some("b"), None, Some("tavily"))).unwrap_err();
    assert!(tavily.starts_with("Tavily API key is not configured"));
}

#[test]
fn context_keys_win_over_environment() {
    let ctx = test_ctx()
        .with("brave_api_key", JsonValue::String("ctx-brave".to_string()))
        .with("search_provider", JsonValue::String("brave".to_string()));
    let (provider, key) = select_provider(&ctx, &env(Some("env-brave"), Some("t"), Some("tavily"))).unwrap();
    assert_eq!(provider, SearchProvider::Brave);
    assert_eq!(key, "ctx-brave");
}

#[test]
fn results_are_reported_with_citation_and_duration() {
    let results = vec![result("Rust", "https://rust-lang.org", "A language"), result("Crates", "https://crates.io", "")];
    let r = format_search_results(&results, 12);
    assert!(!r.is_error);
    assert_eq!(
        r.as_text(),
        Some("Found 2 results:\n\n1. Rust\n   https://rust-lang.org\n   A language\n\n2. Crates\n   https://crates.io")
    );
    assert_eq!(r.citation.as_deref(), Some("https://rust-lang.org, https://crates.io"));
    assert_eq!(r.duration_ms, Some(12));
}

#[test]
fn no_results_have_no_citation() {
    let r = format_search_results(&vec![], 3);
    assert_eq!(r.as_text(), Some("Found 0 results:"));
    assert!(r.citation.is_none());
}

#[test]
fn search_failures_name_the_provider() {
    let e = search_result(SearchProvider::Brave, SearchOutcome::SendFailed("timeout".to_string()), 1);
    assert_eq!(e.as_text(), Some("Failed to call Brave Search API: timeout"));
    assert!(e.is_error);
    let e = search_result(
        SearchProvider::Tavily,
        SearchOutcome::HttpError { status: "401 Unauthorized".to_string(), body: "no".to_string() },
        1,
    );
    assert_eq!(e.as_text(), Some("Tavily Search API error 401 Unauthorized: no"));
    let e = search_result(SearchProvider::Tavily, SearchOutcome::ParseFailed("eof".to_string()), 1);
    assert_eq!(e.as_text(), Some("Failed to parse Tavily Search response: eof"));
    let ok = search_result(SearchProvider::Brave, SearchOutcome::Found(vec![result("t", "u", "d")]), 5);
    assert_eq!(ok.duration_ms, Some(5));
}

#[test]
fn provider_results_map_to_search_results() {
    let brave = brave_results(Some(vec![BraveWebResult { title: "t".into(), url: "u".into(), description: None }]));
    assert_eq!(brave.len(), 1);
    assert_eq!(brave[0].description, "");
    assert!(brave_results(None).is_empty());
    let tavily = tavily_results(vec![TavilySearchResult { title: "a".into(), url: "b".into(), content: "c".into() }]);
    assert_eq!(tavily[0].description, "c");
}

#[test]
fn requests_carry_query_and_count() {
    let input = WebSearchInput { query: "rust verus".to_string(), max_results: DEFAULT_MAX_RESULTS };
    let q = brave_query(&input);
    assert_eq!(q, vec![("q".to_string(), "rust verus".to_string()), ("count".to_string(), "5".to_string())]);
    let body = tavily_body("key", &input);
    assert_eq!(body.get("api_key").and_then(|v| v.as_str()), Some("key"));
    assert_eq!(body.get("query").and_then(|v| v.as_str()), Some("rust verus"));
    assert_eq!(body.get("max_results").and_then(|v| v.as_u64()), Some(5));
}
