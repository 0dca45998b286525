//! Navigating the browser to a URL.

use vstd::prelude::*;
use crate::json::{JsonValue, JsonView};
use crate::schema::{entries_view, object_schema, object_schema_exec, prop, prop_view, push_entry, strs_view};
use crate::text::sviews;
use crate::tool::{error_result, ToolDef, ToolResult};
use crate::tools::browser_common::{
    finish_run, opt_str, push_arg, run_result, session_args, session_prefix, url_allowed, validate_url, BrowserRun,
    BrowserStep, ProcessOutcome, StepView, DEFAULT_TIMEOUT_MS, TIMED_OUT_30S,
};

verus! {

/// The input of the navigation tool.
pub struct BrowserNavigateInput {
    pub url: String,
}

/// What the tool does for `url` in the browser session `session`: open
/// it when its scheme is allowed, else answer with an error.
pub open spec fn navigate_step(url: Seq<char>, session: Option<Seq<char>>) -> StepView {
    if url_allowed(url) {
        StepView::Run(session_prefix(session) + seq!["open"@, url], DEFAULT_TIMEOUT_MS)
    } else {
        StepView::Done(error_result("Invalid URL: '"@ + url + "'. URL must start with http://, https://, or file://"@))
    }
}

pub const BROWSER_NAVIGATE_DESCRIPTION: &'static str = "Navigate the browser to a URL using agent-browser.";
pub const BN_URL_DESCRIPTION: &'static str = "The URL to navigate to (must start with http://, https://, or file://)";

/// The input schema of the navigation tool.
pub open spec fn browser_navigate_schema() -> JsonView {
    object_schema(seq![("url"@, prop_view("string"@, BN_URL_DESCRIPTION@))], seq!["url"@])
}

/// A tool that navigates the browser to a URL via `agent-browser open`.
pub struct BrowserNavigateTool;

impl BrowserNavigateTool {
    pub fn new() -> (r: Self) {
        BrowserNavigateTool
    }

    /// The tool's definition: its name, description and input schema.
    pub fn def(&self) -> (r: ToolDef)
        ensures
            r.name@ == "browser_navigate"@,
            r.description@ == BROWSER_NAVIGATE_DESCRIPTION@,
            r.input_schema@ == browser_navigate_schema(),
    {
        let mut props: Vec<(String, JsonValue)> = Vec::new();
        push_entry(&mut props, "url", prop("string", BN_URL_DESCRIPTION));
        let ghost pv = entries_view(props);
        let schema = object_schema_exec(props, &["url"]);
        proof {
            assert(pv =~= browser_navigate_schema()->Object_0[1].1->Object_0);
            assert(strs_view(["url"]@) =~= seq!["url"@]);
        }
        ToolDef {
            name: "browser_navigate".to_string(),
            description: BROWSER_NAVIGATE_DESCRIPTION.to_string(),
            input_schema: schema,
        }
    }

    /// What the tool does for `input` in the browser session `session`
    /// (see [`navigate_step`]).
    pub fn plan(&self, input: &BrowserNavigateInput, session: &Option<String>) -> (r: BrowserStep)
        ensures
            r@ == navigate_step(input.url@, opt_str(*session)),
    {
        if let Err(e) = validate_url(input.url.as_str()) {
            return BrowserStep::Done(e);
        }
        let mut args = session_args(session);
        let ghost pre = sviews(args@);
        push_arg(&mut args, "open");
        push_arg(&mut args, input.url.as_str());
        assert(sviews(args@) =~= pre + seq!["open"@, input.url@]);
        BrowserStep::Run(BrowserRun { args, timeout_ms: DEFAULT_TIMEOUT_MS })
    }

    /// The tool's result once `open` ended with `outcome`.
    pub fn finish(&self, input: &BrowserNavigateInput, outcome: ProcessOutcome) -> (r: ToolResult)
        ensures
            r@ == run_result(outcome, Some("Navigated to "@ + input.url@), ""@, TIMED_OUT_30S@),
    {
        let done = crate::text::concat("Navigated to ", input.url.as_str());
        finish_run(outcome, Some(done), "", TIMED_OUT_30S)
    }
}

impl Default for BrowserNavigateTool {
    fn default() -> (r: Self) {
        BrowserNavigateTool::new()
    }
}


/// The input schema of the navigation tool is well formed.
pub proof fn law_browser_navigate_schema_well_formed()
    ensures
        crate::schema::schema_problem(browser_navigate_schema()) is None,
{
    let s = browser_navigate_schema();
    let props = s->Object_0[1].1->Object_0;
    let req = seq!["url"@];
    assert(s == object_schema(props, req));
    reveal_strlit("url");
    crate::schema::lemma_entries_get_at(props, 0);
    assert(crate::json::entries_get(props, req[0]) is Some);
    crate::schema::law_object_schema_well_formed(props, req);
}

} // verus!
