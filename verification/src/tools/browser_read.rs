//! Reading data from the browser.

use vstd::prelude::*;
use crate::json::{JsonValue, JsonView};
use crate::schema::{entries_view, object_schema, object_schema_exec, prop, prop_view, prop_with, push_entry, str_array, str_array_exec, strs_view, with_entry};
use crate::text::{str_eq, sviews};
use crate::tool::{error_result, ToolDef, ToolResult};
use crate::tools::browser_common::{
    concat3, finish_run, opt_str, push_arg, run_result, session_args, session_prefix, BrowserRun, BrowserStep,
    ProcessOutcome, StepView, DEFAULT_TIMEOUT_MS, TIMED_OUT_30S,
};

verus! {

/// The input of the read tool.
pub struct BrowserReadInput {
    pub target: String,
    pub element_ref: Option<String>,
}

/// Whether the target `t` is read from an element, and so needs its `ref`.
pub open spec fn target_needs_ref(t: Seq<char>) -> bool {
    t == "text"@ || t == "html"@ || t == "value"@
}

/// What the tool does for `target` with the element `element_ref`, in the
/// browser session `session`.
pub open spec fn read_step(target: Seq<char>, element_ref: Option<Seq<char>>, session: Option<Seq<char>>) -> StepView {
    if target_needs_ref(target) {
        match element_ref {
            Some(r) => StepView::Run(session_prefix(session) + seq!["get"@, target, r], DEFAULT_TIMEOUT_MS),
            None => StepView::Done(error_result("Target '"@ + target + "' requires a 'ref' parameter (e.g. @e1)"@)),
        }
    } else if target == "url"@ || target == "title"@ {
        StepView::Run(session_prefix(session) + seq!["get"@, target], DEFAULT_TIMEOUT_MS)
    } else {
        StepView::Done(error_result("Unknown target '"@ + target + "'. Valid targets: text, html, value, url, title"@))
    }
}

pub const BROWSER_READ_DESCRIPTION: &'static str = "Read data from the browser. Targets: text, html, value (require @ref), url, title (no ref needed).";
pub const BR_TARGET_DESCRIPTION: &'static str = "What to read from the browser";
pub const BR_REF_DESCRIPTION: &'static str = "Element reference from snapshot (required for text/html/value)";

/// The input schema of the read tool.
pub open spec fn browser_read_schema() -> JsonView {
    object_schema(
        seq![
            ("target"@, with_entry(prop_view("string"@, BR_TARGET_DESCRIPTION@), "enum"@,
                str_array(seq!["text"@, "html"@, "value"@, "url"@, "title"@]))),
            ("ref"@, prop_view("string"@, BR_REF_DESCRIPTION@)),
        ],
        seq!["target"@],
    )
}

/// A tool that reads text, HTML, values, the URL or the title from the
/// browser via `agent-browser get`.
pub struct BrowserReadTool;

impl BrowserReadTool {
    pub fn new() -> (r: Self) {
        BrowserReadTool
    }

    /// The tool's definition: its name, description and input schema.
    pub fn def(&self) -> (r: ToolDef)
        ensures
            r.name@ == "browser_read"@,
            r.description@ == BROWSER_READ_DESCRIPTION@,
            r.input_schema@ == browser_read_schema(),
    {
        let mut props: Vec<(String, JsonValue)> = Vec::new();
        let targets = str_array_exec(&["text", "html", "value", "url", "title"]);
        push_entry(&mut props, "target", prop_with(prop("string", BR_TARGET_DESCRIPTION), "enum", targets));
        push_entry(&mut props, "ref", prop("string", BR_REF_DESCRIPTION));
        let ghost pv = entries_view(props);
        let schema = object_schema_exec(props, &["target"]);
        proof {
            assert(strs_view(["text", "html", "value", "url", "title"]@) =~= seq!["text"@, "html"@, "value"@, "url"@, "title"@]);
            assert(pv =~= browser_read_schema()->Object_0[1].1->Object_0);
            assert(strs_view(["target"]@) =~= seq!["target"@]);
        }
        ToolDef { name: "browser_read".to_string(), description: BROWSER_READ_DESCRIPTION.to_string(), input_schema: schema }
    }

    /// What the tool does for `input` in the browser session `session`
    /// (see [`read_step`]).
    pub fn plan(&self, input: &BrowserReadInput, session: &Option<String>) -> (r: BrowserStep)
        ensures
            r@ == read_step(input.target@, opt_str(input.element_ref), opt_str(*session)),
    {
        let t = input.target.as_str();
        let mut args = session_args(session);
        let ghost pre = sviews(args@);
        if str_eq(t, "text") || str_eq(t, "html") || str_eq(t, "value") {
            match &input.element_ref {
                Some(r) => {
                    push_arg(&mut args, "get");
                    push_arg(&mut args, t);
                    push_arg(&mut args, r.as_str());
                    assert(sviews(args@) =~= pre + seq!["get"@, t@, r@]);
                },
                None => {
                    return BrowserStep::Done(
                        ToolResult::error(concat3("Target '", t, "' requires a 'ref' parameter (e.g. @e1)").as_str()),
                    );
                },
            }
        } else if str_eq(t, "url") || str_eq(t, "title") {
            push_arg(&mut args, "get");
            push_arg(&mut args, t);
            assert(sviews(args@) =~= pre + seq!["get"@, t@]);
        } else {
            return BrowserStep::Done(
                ToolResult::error(
                    concat3("Unknown target '", t, "'. Valid targets: text, html, value, url, title").as_str(),
                ),
            );
        }
        BrowserStep::Run(BrowserRun { args, timeout_ms: DEFAULT_TIMEOUT_MS })
    }

    /// The tool's result once `get` ended with `outcome`: the output as it
    /// is.
    pub fn finish(&self, input: &BrowserReadInput, outcome: ProcessOutcome) -> (r: ToolResult)
        ensures
            r@ == run_result(outcome, None, " get "@ + input.target@, TIMED_OUT_30S@),
    {
        let label = crate::text::concat(" get ", input.target.as_str());
        finish_run(outcome, None, label.as_str(), TIMED_OUT_30S)
    }
}

impl Default for BrowserReadTool {
    fn default() -> (r: Self) {
        BrowserReadTool::new()
    }
}


/// The input schema of the read tool is well formed.
pub proof fn law_browser_read_schema_well_formed()
    ensures
        crate::schema::schema_problem(browser_read_schema()) is None,
{
    let s = browser_read_schema();
    let props = s->Object_0[1].1->Object_0;
    let req = seq!["target"@];
    assert(s == object_schema(props, req));
    reveal_strlit("target");
    reveal_strlit("ref");
    assert("ref"@.len() != "target"@.len());
    assert(props[1].0 != props[0].0);
    crate::schema::lemma_entries_get_at(props, 0);
    assert(crate::json::entries_get(props, req[0]) is Some);
    crate::schema::law_object_schema_well_formed(props, req);
}

/// Every target that the input schema lists is planned as a run of
/// `agent-browser get`, never answered as unknown: text, html and value, given
/// an element `r`, run the session prefix, `get`, the target and `r`; url and
/// title run the session prefix, `get` and the target, with or without an
/// element.
pub proof fn law_listed_targets_run(r: Seq<char>, element_ref: Option<Seq<char>>, session: Option<Seq<char>>)
    ensures
        read_step("text"@, Some(r), session)
            == StepView::Run(session_prefix(session) + seq!["get"@, "text"@, r], DEFAULT_TIMEOUT_MS),
        read_step("html"@, Some(r), session)
            == StepView::Run(session_prefix(session) + seq!["get"@, "html"@, r], DEFAULT_TIMEOUT_MS),
        read_step("value"@, Some(r), session)
            == StepView::Run(session_prefix(session) + seq!["get"@, "value"@, r], DEFAULT_TIMEOUT_MS),
        read_step("url"@, element_ref, session)
            == StepView::Run(session_prefix(session) + seq!["get"@, "url"@], DEFAULT_TIMEOUT_MS),
        read_step("title"@, element_ref, session)
            == StepView::Run(session_prefix(session) + seq!["get"@, "title"@], DEFAULT_TIMEOUT_MS),
{
    reveal_strlit("text");
    reveal_strlit("html");
    reveal_strlit("value");
    reveal_strlit("url");
    reveal_strlit("title");
    assert("title"@ != "value"@) by {
        assert("title"@[0] != "value"@[0]);
    }
    assert(!target_needs_ref("url"@));
    assert(!target_needs_ref("title"@));
}

/// A target read from an element but asked without one is answered with an
/// error that names the target and asks for a `ref`; a target that the
/// schema does not list is answered as unknown, with the list of valid
/// targets. Neither runs the browser.
pub proof fn law_read_refusals(t: Seq<char>, session: Option<Seq<char>>)
    ensures
        target_needs_ref(t) ==> read_step(t, None, session)
            == StepView::Done(error_result("Target '"@ + t + "' requires a 'ref' parameter (e.g. @e1)"@)),
        t != "text"@ && t != "html"@ && t != "value"@ && t != "url"@ && t != "title"@
            ==> forall|r: Option<Seq<char>>| #[trigger] read_step(t, r, session)
            == StepView::Done(error_result("Unknown target '"@ + t + "'. Valid targets: text, html, value, url, title"@)),
{
}

} // verus!
