//! Waiting for a browser condition.

use vstd::prelude::*;
use crate::json::{JsonNumber, JsonValue, JsonView};
use crate::schema::{entries_view, object_schema, object_schema_exec, prop, prop_view, prop_with, push_entry, str_array, str_array_exec, strs_view, with_entry};
use crate::text::{decimal, str_eq, sviews, u64_to_string};
use crate::tool::{error_result, ToolDef, ToolResult};
use crate::tools::browser_common::{
    concat3, finish_run, opt_seq, opt_str, push_arg, push_opt_arg, run_result, session_args, session_prefix,
    BrowserRun, BrowserStep, ProcessOutcome, StepView,
};

verus! {

/// The wait timeout, in milliseconds, when the caller names none.
pub const DEFAULT_WAIT_TIMEOUT_MS: u64 = 30000;

/// The milliseconds that the process may run beyond the wait timeout.
pub const PROCESS_GRACE_MS: u64 = 5000;

/// The input of the wait tool.
pub struct BrowserWaitInput {
    pub event: String,
    pub value: Option<String>,
    pub timeout_ms: Option<u64>,
}

/// Whether the event `e` is about a value, and so needs one.
pub open spec fn event_needs_value(e: Seq<char>) -> bool {
    e == "selector"@ || e == "text"@ || e == "url"@
}

/// The wait timeout: the one given, else the default.
pub open spec fn wait_timeout(t: Option<u64>) -> u64 {
    match t {
        Some(ms) => ms,
        None => DEFAULT_WAIT_TIMEOUT_MS,
    }
}

/// The process timeout: the wait timeout plus the grace, saturating.
pub open spec fn process_timeout(ms: u64) -> u64 {
    if ms + PROCESS_GRACE_MS > u64::MAX {
        u64::MAX
    } else {
        (ms + PROCESS_GRACE_MS) as u64
    }
}

/// What the tool does for `event`, `value` and `timeout`, in the browser
/// session `session`.
pub open spec fn wait_step(event: Seq<char>, value: Option<Seq<char>>, timeout: Option<u64>, session: Option<Seq<char>>) -> StepView {
    let ms = wait_timeout(timeout);
    if event_needs_value(event) && value is None {
        StepView::Done(error_result("Event '"@ + event + "' requires a 'value' parameter"@))
    } else if event_needs_value(event) || event == "load"@ || event == "network-idle"@ {
        StepView::Run(
            session_prefix(session) + seq!["wait"@, event] + opt_seq(value) + seq!["--timeout"@, decimal(ms as nat)],
            process_timeout(ms),
        )
    } else {
        StepView::Done(error_result("Unknown event '"@ + event + "'. Valid events: load, network-idle, selector, text, url"@))
    }
}

pub const BROWSER_WAIT_DESCRIPTION: &'static str = "Wait for a browser condition. Events: load, network-idle, selector, text, url. Optionally specify a value (selector string, text content, or URL pattern) and timeout.";
pub const BW_EVENT_DESCRIPTION: &'static str = "The event/condition to wait for";
pub const BW_VALUE_DESCRIPTION: &'static str = "Selector string, text content, or URL pattern (required for selector/text/url)";
pub const BW_TIMEOUT_DESCRIPTION: &'static str = "Timeout in milliseconds (default: 30000)";

/// The input schema of the wait tool.
pub open spec fn browser_wait_schema() -> JsonView {
    object_schema(
        seq![
            ("event"@, with_entry(prop_view("string"@, BW_EVENT_DESCRIPTION@), "enum"@,
                str_array(seq!["load"@, "network-idle"@, "selector"@, "text"@, "url"@]))),
            ("value"@, prop_view("string"@, BW_VALUE_DESCRIPTION@)),
            ("timeout_ms"@, with_entry(prop_view("integer"@, BW_TIMEOUT_DESCRIPTION@), "default"@,
                JsonView::Number(JsonNumber::PosInt(30000)))),
        ],
        seq!["event"@],
    )
}

/// A tool that waits for a browser condition via `agent-browser wait`.
pub struct BrowserWaitTool;

impl BrowserWaitTool {
    pub fn new() -> (r: Self) {
        BrowserWaitTool
    }

    /// The tool's definition: its name, description and input schema.
    pub fn def(&self) -> (r: ToolDef)
        ensures
            r.name@ == "browser_wait"@,
            r.description@ == BROWSER_WAIT_DESCRIPTION@,
            r.input_schema@ == browser_wait_schema(),
    {
        let mut props: Vec<(String, JsonValue)> = Vec::new();
        let events = str_array_exec(&["load", "network-idle", "selector", "text", "url"]);
        push_entry(&mut props, "event", prop_with(prop("string", BW_EVENT_DESCRIPTION), "enum", events));
        push_entry(&mut props, "value", prop("string", BW_VALUE_DESCRIPTION));
        push_entry(
            &mut props,
            "timeout_ms",
            prop_with(prop("integer", BW_TIMEOUT_DESCRIPTION), "default", JsonValue::Number(JsonNumber::PosInt(30000))),
        );
        let ghost pv = entries_view(props);
        let schema = object_schema_exec(props, &["event"]);
        proof {
            assert(strs_view(["load", "network-idle", "selector", "text", "url"]@)
                =~= seq!["load"@, "network-idle"@, "selector"@, "text"@, "url"@]);
            assert(pv =~= browser_wait_schema()->Object_0[1].1->Object_0);
            assert(strs_view(["event"]@) =~= seq!["event"@]);
        }
        ToolDef { name: "browser_wait".to_string(), description: BROWSER_WAIT_DESCRIPTION.to_string(), input_schema: schema }
    }

    /// What the tool does for `input` in the browser session `session`
    /// (see [`wait_step`]).
    pub fn plan(&self, input: &BrowserWaitInput, session: &Option<String>) -> (r: BrowserStep)
        ensures
            r@ == wait_step(input.event@, opt_str(input.value), input.timeout_ms, opt_str(*session)),
    {
        let e = input.event.as_str();
        let needs = str_eq(e, "selector") || str_eq(e, "text") || str_eq(e, "url");
        if needs && input.value.is_none() {
            return BrowserStep::Done(ToolResult::error(concat3("Event '", e, "' requires a 'value' parameter").as_str()));
        }
        if !needs && !str_eq(e, "load") && !str_eq(e, "network-idle") {
            return BrowserStep::Done(
                ToolResult::error(
                    concat3("Unknown event '", e, "'. Valid events: load, network-idle, selector, text, url").as_str(),
                ),
            );
        }
        let ms = match input.timeout_ms {
            Some(t) => t,
            None => DEFAULT_WAIT_TIMEOUT_MS,
        };
        let mut args = session_args(session);
        let ghost pre = sviews(args@);
        push_arg(&mut args, "wait");
        push_arg(&mut args, e);
        let ghost mid = sviews(args@);
        push_opt_arg(&mut args, &input.value);
        let ghost after = sviews(args@);
        push_arg(&mut args, "--timeout");
        let ms_text = u64_to_string(ms);
        push_arg(&mut args, ms_text.as_str());
        assert(sviews(args@) =~= pre + seq!["wait"@, e@] + opt_seq(opt_str(input.value)) + seq!["--timeout"@, decimal(ms as nat)]);
        BrowserStep::Run(BrowserRun { args, timeout_ms: ms.saturating_add(PROCESS_GRACE_MS) })
    }

    /// The tool's result once `wait` ended with `outcome`.
    pub fn finish(&self, input: &BrowserWaitInput, outcome: ProcessOutcome) -> (r: ToolResult)
        ensures
            r@ == run_result(
                outcome,
                Some("Wait for '"@ + input.event@ + "' completed"@),
                " wait "@ + input.event@,
                "Execution timed out after "@ + decimal(wait_timeout(input.timeout_ms) as nat) + "ms"@,
            ),
    {
        let e = input.event.as_str();
        let ms = match input.timeout_ms {
            Some(t) => t,
            None => DEFAULT_WAIT_TIMEOUT_MS,
        };
        let done = concat3("Wait for '", e, "' completed");
        let label = crate::text::concat(" wait ", e);
        let timeout_msg = concat3("Execution timed out after ", u64_to_string(ms).as_str(), "ms");
        finish_run(outcome, Some(done), label.as_str(), timeout_msg.as_str())
    }
}

impl Default for BrowserWaitTool {
    fn default() -> (r: Self) {
        BrowserWaitTool::new()
    }
}


/// The input schema of the wait tool is well formed.
pub proof fn law_browser_wait_schema_well_formed()
    ensures
        crate::schema::schema_problem(browser_wait_schema()) is None,
{
    let s = browser_wait_schema();
    let props = s->Object_0[1].1->Object_0;
    let req = seq!["event"@];
    assert(s == object_schema(props, req));
    reveal_strlit("event");
    reveal_strlit("value");
    reveal_strlit("timeout_ms");
    assert("value"@[0] != "event"@[0]);
    assert(props[1].0 != props[0].0);
    assert("timeout_ms"@.len() != "event"@.len());
    assert(props[2].0 != props[0].0);
    crate::schema::lemma_entries_get_at(props, 0);
    assert(crate::json::entries_get(props, req[0]) is Some);
    crate::schema::law_object_schema_well_formed(props, req);
}

} // verus!
