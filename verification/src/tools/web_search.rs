//! Web search through the Brave Search API or the Tavily Search API: the
//! choice of provider and key, the requests' content, and the report of
//! the results.

use vstd::prelude::*;
use crate::json::{JsonNumber, JsonValue, JsonView};
use crate::schema::{entries_view, json_str, object_schema, object_schema_exec, prop, prop_view, prop_with, push_entry, strs_view, with_entry};
use crate::text::{
    chars_of, concat, decimal, eq_ignore_ascii_case, eq_ignore_case, join, string_from_range, sviews, trim, trim_bounds,
    u64_to_string,
};
use crate::tool::{error_result, ContentView, ResultView, ToolContext, ToolDef, ToolResult};

verus! {

pub const BRAVE_SEARCH_ENDPOINT: &'static str = "https://api.search.brave.com/res/v1/web/search";
pub const TAVILY_SEARCH_ENDPOINT: &'static str = "https://api.tavily.com/search";

/// The number of results asked for when the caller names none.
pub const DEFAULT_MAX_RESULTS: u64 = 5;

pub const BRAVE_KEY_MISSING: &'static str = "Brave Search API key is not configured. Set BRAVE_API_KEY (or ctx.extra[\"brave_api_key\"]).";
pub const TAVILY_KEY_MISSING: &'static str = "Tavily API key is not configured. Set TAVILY_API_KEY (or ctx.extra[\"tavily_api_key\"]).";
pub const NO_KEY: &'static str = "Search API key is not configured. Set TAVILY_API_KEY (or ctx.extra[\"tavily_api_key\"]) for Tavily, or BRAVE_API_KEY (or ctx.extra[\"brave_api_key\"]) for Brave Search.";

/// Which search provider to use.
#[derive(Debug, Clone, Copy, PartialEq, Eq, Structural)]
pub enum SearchProvider {
    Brave,
    Tavily,
}

/// The input of the search tool.
pub struct WebSearchInput {
    pub query: String,
    pub max_results: u64,
}

/// The number of results asked for when the caller names none.
pub fn default_max_results() -> (r: u64)
    ensures
        r == DEFAULT_MAX_RESULTS,
{
    DEFAULT_MAX_RESULTS
}

/// The settings that the process environment gives: `BRAVE_API_KEY`,
/// `TAVILY_API_KEY` and `SEARCH_PROVIDER`.
pub struct SearchEnv {
    pub brave_api_key: Option<String>,
    pub tavily_api_key: Option<String>,
    pub search_provider: Option<String>,
}

/// The view of an optional string.
pub open spec fn opt_view(o: Option<String>) -> Option<Seq<char>> {
    match o {
        Some(s) => Some(s@),
        None => None,
    }
}

/// The string that the context's `extra` holds under `key`.
pub open spec fn ctx_str(ctx: ToolContext, key: Seq<char>) -> Option<Seq<char>> {
    match ctx.extra_get(key) {
        Some(v) => v.as_str(),
        None => None,
    }
}

/// `a` when there is one, else `b`.
pub open spec fn or_else(a: Option<Seq<char>>, b: Option<Seq<char>>) -> Option<Seq<char>> {
    if a is Some {
        a
    } else {
        b
    }
}

/// The provider and key to search with: the provider named by the
/// preference (in any ASCII case) with its key, else Tavily when its key
/// is there, else Brave; the message when the key needed is missing.
pub open spec fn provider_choice(brave: Option<Seq<char>>, tavily: Option<Seq<char>>, pref: Option<Seq<char>>) -> Result<(SearchProvider, Seq<char>), Seq<char>> {
    if pref matches Some(p) && eq_ignore_ascii_case(p, "brave"@) {
        match brave {
            Some(k) => Ok((SearchProvider::Brave, k)),
            None => Err(BRAVE_KEY_MISSING@),
        }
    } else if pref matches Some(p) && eq_ignore_ascii_case(p, "tavily"@) {
        match tavily {
            Some(k) => Ok((SearchProvider::Tavily, k)),
            None => Err(TAVILY_KEY_MISSING@),
        }
    } else {
        match tavily {
            Some(k) => Ok((SearchProvider::Tavily, k)),
            None => match brave {
                Some(k) => Ok((SearchProvider::Brave, k)),
                None => Err(NO_KEY@),
            },
        }
    }
}

/// The context's string under `key`, else `fallback`.
fn ctx_or(ctx: &ToolContext, key: &str, fallback: &Option<String>) -> (r: Option<String>)
    ensures
        opt_view(r) == or_else(ctx_str(*ctx, key@), opt_view(*fallback)),
{
    match ctx.get_str(key) {
        Some(s) => Some(s.to_string()),
        None => fallback.clone(),
    }
}

/// Whether `p` names `name` in any ASCII case.
fn names(p: &Option<String>, name: &str) -> (r: bool)
    ensures
        r == (opt_view(*p) matches Some(x) && eq_ignore_ascii_case(x, name@)),
{
    match p {
        Some(x) => eq_ignore_case(&chars_of(x.as_str()), name),
        None => false,
    }
}

/// The provider and key to search with (see [`provider_choice`]): the
/// keys and the preference come from the context's `extra`, else from
/// the environment.
pub fn select_provider(ctx: &ToolContext, env: &SearchEnv) -> (r: Result<(SearchProvider, String), String>)
    ensures
        ({
            let choice = provider_choice(
                or_else(ctx_str(*ctx, "brave_api_key"@), opt_view(env.brave_api_key)),
                or_else(ctx_str(*ctx, "tavily_api_key"@), opt_view(env.tavily_api_key)),
                or_else(ctx_str(*ctx, "search_provider"@), opt_view(env.search_provider)),
            );
            match r {
                Ok((p, k)) => choice == Ok::<(SearchProvider, Seq<char>), Seq<char>>((p, k@)),
                Err(m) => choice == Err::<(SearchProvider, Seq<char>), Seq<char>>(m@),
            }
        }),
{
    let brave = ctx_or(ctx, "brave_api_key", &env.brave_api_key);
    let tavily = ctx_or(ctx, "tavily_api_key", &env.tavily_api_key);
    let pref = ctx_or(ctx, "search_provider", &env.search_provider);
    if names(&pref, "brave") {
        match brave {
            Some(k) => Ok((SearchProvider::Brave, k)),
            None => Err(BRAVE_KEY_MISSING.to_string()),
        }
    } else if names(&pref, "tavily") {
        match tavily {
            Some(k) => Ok((SearchProvider::Tavily, k)),
            None => Err(TAVILY_KEY_MISSING.to_string()),
        }
    } else {
        match tavily {
            Some(k) => Ok((SearchProvider::Tavily, k)),
            None => match brave {
                Some(k) => Ok((SearchProvider::Brave, k)),
                None => Err(NO_KEY.to_string()),
            },
        }
    }
}

/// One search result.
pub struct SearchResult {
    pub title: String,
    pub url: String,
    pub description: String,
}

/// A result as the Brave Search API gives it.
pub struct BraveWebResult {
    pub title: String,
    pub url: String,
    pub description: Option<String>,
}

/// A result as the Tavily Search API gives it.
pub struct TavilySearchResult {
    pub title: String,
    pub url: String,
    pub content: String,
}

/// The Brave results `web` as search results: none without a `web`
/// section, and an empty description where the result has none.
pub fn brave_results(web: Option<Vec<BraveWebResult>>) -> (r: Vec<SearchResult>)
    ensures
        match web {
            None => r@.len() == 0,
            Some(ws) => r@.len() == ws@.len() && forall|i: int| 0 <= i < ws@.len() ==> {
                &&& (#[trigger] r@[i]).title@ == ws@[i].title@
                &&& r@[i].url@ == ws@[i].url@
                &&& r@[i].description@ == match ws@[i].description {
                    Some(d) => d@,
                    None => Seq::<char>::empty(),
                }
            },
        },
{
    let mut out: Vec<SearchResult> = Vec::new();
    match web {
        None => {},
        Some(ws) => {
            let ghost wv = ws@;
            for w in it: ws.into_iter()
                invariant
                    it.seq() == wv,
                    out@.len() == it.index(),
                    forall|i: int| 0 <= i < it.index() ==> {
                        &&& (#[trigger] out@[i]).title@ == wv[i].title@
                        &&& out@[i].url@ == wv[i].url@
                        &&& out@[i].description@ == match wv[i].description {
                            Some(d) => d@,
                            None => Seq::<char>::empty(),
                        }
                    },
            {
                let description = match w.description {
                    Some(d) => d,
                    None => String::new(),
                };
                out.push(SearchResult { title: w.title, url: w.url, description });
            }
        },
    }
    out
}

/// The Tavily results as search results, the content as description.
pub fn tavily_results(results: Vec<TavilySearchResult>) -> (r: Vec<SearchResult>)
    ensures
        r@.len() == results@.len(),
        forall|i: int| 0 <= i < results@.len() ==> {
            &&& (#[trigger] r@[i]).title@ == results@[i].title@
            &&& r@[i].url@ == results@[i].url@
            &&& r@[i].description@ == results@[i].content@
        },
{
    let ghost rv = results@;
    let mut out: Vec<SearchResult> = Vec::new();
    for t in it: results.into_iter()
        invariant
            it.seq() == rv,
            out@.len() == it.index(),
            forall|i: int| 0 <= i < it.index() ==> {
                &&& (#[trigger] out@[i]).title@ == rv[i].title@
                &&& out@[i].url@ == rv[i].url@
                &&& out@[i].description@ == rv[i].content@
            },
    {
        out.push(SearchResult { title: t.title, url: t.url, description: t.content });
    }
    out
}

/// The Brave query parameters: `q` and `count`.
pub fn brave_query(input: &WebSearchInput) -> (r: Vec<(String, String)>)
    ensures
        r@.len() == 2,
        r@[0].0@ == "q"@ && r@[0].1@ == input.query@,
        r@[1].0@ == "count"@ && r@[1].1@ == decimal(input.max_results as nat),
{
    let mut r: Vec<(String, String)> = Vec::new();
    r.push(("q".to_string(), input.query.clone()));
    r.push(("count".to_string(), u64_to_string(input.max_results)));
    r
}

/// The Tavily request body: `{"api_key", "query", "max_results"}`.
pub open spec fn tavily_body_view(api_key: Seq<char>, query: Seq<char>, max_results: u64) -> JsonView {
    JsonView::Object(
        seq![
            ("api_key"@, JsonView::Str(api_key)),
            ("query"@, JsonView::Str(query)),
            ("max_results"@, JsonView::Number(JsonNumber::PosInt(max_results))),
        ],
    )
}

/// The Tavily request body (see [`tavily_body_view`]).
pub fn tavily_body(api_key: &str, input: &WebSearchInput) -> (r: JsonValue)
    ensures
        r@ == tavily_body_view(api_key@, input.query@, input.max_results),
{
    let mut es: Vec<(String, JsonValue)> = Vec::new();
    push_entry(&mut es, "api_key", json_str(api_key));
    push_entry(&mut es, "query", json_str(input.query.as_str()));
    push_entry(&mut es, "max_results", JsonValue::Number(JsonNumber::PosInt(input.max_results)));
    let r = JsonValue::Object(es);
    assert(r@->Object_0 =~= tavily_body_view(api_key@, input.query@, input.max_results)->Object_0);
    r
}

/// The report line of the `i`-th result (counting from 1).
pub open spec fn result_entry(n: nat, r: SearchResult) -> Seq<char> {
    decimal(n) + ". "@ + r.title@ + "\n   "@ + r.url@ + "\n   "@ + r.description@ + "\n\n"@
}

/// The report lines of `rs[..n]`.
pub open spec fn result_entries(rs: Seq<SearchResult>, n: nat) -> Seq<char>
    decreases n,
{
    if n == 0 || n > rs.len() {
        seq![]
    } else {
        result_entries(rs, (n - 1) as nat) + result_entry(n, rs[n - 1])
    }
}

/// The URLs of the results.
pub open spec fn result_urls(rs: Seq<SearchResult>) -> Seq<Seq<char>> {
    Seq::new(rs.len(), |i: int| rs[i].url@)
}

/// The report of the results `rs`: their count and entries, trimmed; the
/// URLs joined by `, ` as citation when there are any; and the time taken.
pub open spec fn search_report(rs: Seq<SearchResult>, duration_ms: u64) -> ResultView {
    let text = trim("Found "@ + decimal(rs.len()) + " results:\n\n"@ + result_entries(rs, rs.len()));
    let citation = join(result_urls(rs), ", "@);
    ResultView {
        content: seq![ContentView::Text(text)],
        is_error: false,
        citation: if citation.len() == 0 {
            None
        } else {
            Some(citation)
        },
        inject_to_context: false,
        duration_ms: Some(duration_ms),
    }
}

/// `s` trimmed, as a new string.
pub fn trim_string(s: &str) -> (r: String)
    ensures
        r@ == trim(s@),
{
    let v = chars_of(s);
    let (a, b) = trim_bounds(&v, 0, v.len());
    assert(v@.subrange(0, v@.len() as int) =~= v@);
    string_from_range(&v, a, b)
}

/// The report of the results (see [`search_report`]).
pub fn format_search_results(results: &Vec<SearchResult>, duration_ms: u64) -> (r: ToolResult)
    ensures
        r@ == search_report(results@, duration_ms),
{
    let ghost rs = results@;
    let mut text = concat("Found ", u64_to_string(results.len() as u64).as_str());
    text.append(" results:\n\n");
    let ghost head = text@;
    let mut urls: Vec<String> = Vec::new();
    let mut i: usize = 0;
    while i < results.len()
        invariant
            rs == results@,
            0 <= i <= rs.len(),
            text@ == head + result_entries(rs, i as nat),
            sviews(urls@) == result_urls(rs).take(i as int),
        decreases rs.len() - i,
    {
        let r = &results[i];
        let ghost before = text@;
        text.append(u64_to_string((i + 1) as u64).as_str());
        text.append(". ");
        text.append(r.title.as_str());
        text.append("\n   ");
        text.append(r.url.as_str());
        text.append("\n   ");
        text.append(r.description.as_str());
        text.append("\n\n");
        assert(text@ =~= before + result_entry((i + 1) as nat, rs[i as int]));
        let ghost u0 = sviews(urls@);
        urls.push(r.url.clone());
        assert(sviews(urls@) =~= u0.push(rs[i as int].url@));
        assert(result_urls(rs).take(i + 1) =~= result_urls(rs).take(i as int).push(rs[i as int].url@));
        i += 1;
    }
    assert(result_urls(rs).take(rs.len() as int) =~= result_urls(rs));
    let trimmed = trim_string(text.as_str());
    let citation = crate::text::join_strings(&urls, ", ");
    let result = ToolResult::text(trimmed.as_str()).with_duration(duration_ms);
    if citation.as_str().is_empty() {
        result
    } else {
        result.with_citation(citation.as_str())
    }
}

/// How a search request ended.
pub enum SearchOutcome {
    /// The request could not be sent, with the error's message.
    SendFailed(String),
    /// The API answered with an error status and body.
    HttpError { status: String, body: String },
    /// The answer could not be parsed, with the error's message.
    ParseFailed(String),
    /// The results.
    Found(Vec<SearchResult>),
}

/// The name of the provider's API in messages.
pub open spec fn provider_name(p: SearchProvider) -> Seq<char> {
    match p {
        SearchProvider::Brave => "Brave Search"@,
        SearchProvider::Tavily => "Tavily Search"@,
    }
}

/// The result of a search with `provider` that ended with `outcome`.
pub open spec fn search_outcome_result(provider: SearchProvider, outcome: SearchOutcome, duration_ms: u64) -> ResultView {
    match outcome {
        SearchOutcome::SendFailed(e) => error_result("Failed to call "@ + provider_name(provider) + " API: "@ + e@),
        SearchOutcome::HttpError { status, body } => error_result(provider_name(provider) + " API error "@ + status@ + ": "@ + body@),
        SearchOutcome::ParseFailed(e) => error_result("Failed to parse "@ + provider_name(provider) + " response: "@ + e@),
        SearchOutcome::Found(rs) => search_report(rs@, duration_ms),
    }
}

/// The result of a search (see [`search_outcome_result`]).
pub fn search_result(provider: SearchProvider, outcome: SearchOutcome, duration_ms: u64) -> (r: ToolResult)
    ensures
        r@ == search_outcome_result(provider, outcome, duration_ms),
{
    let name = match provider {
        SearchProvider::Brave => "Brave Search",
        SearchProvider::Tavily => "Tavily Search",
    };
    match outcome {
        SearchOutcome::SendFailed(e) => {
            let mut m = concat("Failed to call ", name);
            m.append(" API: ");
            m.append(e.as_str());
            ToolResult::error(m.as_str())
        },
        SearchOutcome::HttpError { status, body } => {
            let mut m = concat(name, " API error ");
            m.append(status.as_str());
            m.append(": ");
            m.append(body.as_str());
            ToolResult::error(m.as_str())
        },
        SearchOutcome::ParseFailed(e) => {
            let mut m = concat("Failed to parse ", name);
            m.append(" response: ");
            m.append(e.as_str());
            ToolResult::error(m.as_str())
        },
        SearchOutcome::Found(rs) => format_search_results(&rs, duration_ms),
    }
}

pub const WEB_SEARCH_DESCRIPTION: &'static str = "Search the web using the Brave Search API or Tavily Search API. Returns a list of results with title, URL, and description.";
pub const WS_QUERY_DESCRIPTION: &'static str = "The search query";
pub const WS_MAX_RESULTS_DESCRIPTION: &'static str = "Number of results to return (default: 5)";

/// The input schema of the search tool.
pub open spec fn web_search_schema() -> JsonView {
    object_schema(
        seq![
            ("query"@, prop_view("string"@, WS_QUERY_DESCRIPTION@)),
            ("max_results"@, with_entry(prop_view("integer"@, WS_MAX_RESULTS_DESCRIPTION@), "default"@,
                JsonView::Number(JsonNumber::PosInt(5)))),
        ],
        seq!["query"@],
    )
}

/// A tool that performs web searches using the Brave Search API or the
/// Tavily Search API.
pub struct WebSearchTool;

impl WebSearchTool {
    pub fn new() -> (r: Self) {
        WebSearchTool
    }

    /// The tool's definition: its name, description and input schema.
    pub fn def(&self) -> (r: ToolDef)
        ensures
            r.name@ == "web_search"@,
            r.description@ == WEB_SEARCH_DESCRIPTION@,
            r.input_schema@ == web_search_schema(),
    {
        let mut props: Vec<(String, JsonValue)> = Vec::new();
        push_entry(&mut props, "query", prop("string", WS_QUERY_DESCRIPTION));
        push_entry(
            &mut props,
            "max_results",
            prop_with(prop("integer", WS_MAX_RESULTS_DESCRIPTION), "default", JsonValue::Number(JsonNumber::PosInt(5))),
        );
        let ghost pv = entries_view(props);
        let schema = object_schema_exec(props, &["query"]);
        proof {
            assert(pv =~= web_search_schema()->Object_0[1].1->Object_0);
            assert(strs_view(["query"]@) =~= seq!["query"@]);
        }
        ToolDef { name: "web_search".to_string(), description: WEB_SEARCH_DESCRIPTION.to_string(), input_schema: schema }
    }
}

impl Default for WebSearchTool {
    fn default() -> (r: Self) {
        WebSearchTool::new()
    }
}


/// The input schema of the search tool is well formed.
pub proof fn law_web_search_schema_well_formed()
    ensures
        crate::schema::schema_problem(web_search_schema()) is None,
{
    let s = web_search_schema();
    let props = s->Object_0[1].1->Object_0;
    let req = seq!["query"@];
    assert(s == object_schema(props, req));
    reveal_strlit("query");
    reveal_strlit("max_results");
    assert("max_results"@.len() != "query"@.len());
    assert(props[1].0 != props[0].0);
    crate::schema::lemma_entries_get_at(props, 0);
    assert(crate::json::entries_get(props, req[0]) is Some);
    crate::schema::law_object_schema_well_formed(props, req);
}

} // verus!
