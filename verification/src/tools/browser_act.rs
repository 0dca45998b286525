//! Interacting with a browser element.

use vstd::prelude::*;
use crate::json::{JsonValue, JsonView};
use crate::schema::{entries_view, object_schema, object_schema_exec, prop, prop_view, prop_with, push_entry, str_array, str_array_exec, strs_view, with_entry};
use crate::text::{str_eq, sviews};
use crate::tool::{error_result, ToolDef, ToolResult};
use crate::tools::browser_common::{
    concat3, finish_run, opt_seq, opt_str, push_arg, push_opt_arg, run_result, session_args, session_prefix,
    BrowserRun, BrowserStep, ProcessOutcome, StepView, DEFAULT_TIMEOUT_MS, TIMED_OUT_30S,
};

verus! {

/// The input of the element interaction tool.
pub struct BrowserActInput {
    pub action: String,
    pub element_ref: Option<String>,
    pub value: Option<String>,
}

/// Whether the action `a` acts on an element, and so needs its `ref`.
pub open spec fn needs_ref(a: Seq<char>) -> bool {
    a == "click"@ || a == "fill"@ || a == "type"@ || a == "hover"@ || a == "select"@ || a == "check"@
}

/// What the tool does for `action` with the element `element_ref` and the
/// `value`, in the browser session `session`.
pub open spec fn act_step(action: Seq<char>, element_ref: Option<Seq<char>>, value: Option<Seq<char>>, session: Option<Seq<char>>) -> StepView {
    if needs_ref(action) {
        match element_ref {
            Some(r) => StepView::Run(session_prefix(session) + seq![action, r] + opt_seq(value), DEFAULT_TIMEOUT_MS),
            None => StepView::Done(error_result("Action '"@ + action + "' requires a 'ref' parameter (e.g. @e1)"@)),
        }
    } else if action == "press"@ {
        StepView::Run(session_prefix(session) + seq![action] + opt_seq(value), DEFAULT_TIMEOUT_MS)
    } else {
        StepView::Done(error_result("Unknown action '"@ + action + "'. Valid actions: click, fill, type, hover, select, check, press"@))
    }
}

pub const BROWSER_ACT_DESCRIPTION: &'static str = "Interact with a browser element. Use @ref values from browser_snapshot to target elements. Actions: click, fill, type, hover, select, check, press.";
pub const BA_ACTION_DESCRIPTION: &'static str = "The action to perform";
pub const BA_REF_DESCRIPTION: &'static str = "Element reference from snapshot (e.g. @e1). Required for click/fill/type/hover/select/check.";
pub const BA_VALUE_DESCRIPTION: &'static str = "Value for fill/type/select/press actions";

/// The input schema of the element interaction tool.
pub open spec fn browser_act_schema() -> JsonView {
    object_schema(
        seq![
            ("action"@, with_entry(prop_view("string"@, BA_ACTION_DESCRIPTION@), "enum"@,
                str_array(seq!["click"@, "fill"@, "type"@, "hover"@, "select"@, "check"@, "press"@]))),
            ("ref"@, prop_view("string"@, BA_REF_DESCRIPTION@)),
            ("value"@, prop_view("string"@, BA_VALUE_DESCRIPTION@)),
        ],
        seq!["action"@],
    )
}

/// A tool that interacts with a browser element via `agent-browser`.
pub struct BrowserActTool;

impl BrowserActTool {
    pub fn new() -> (r: Self) {
        BrowserActTool
    }

    /// The tool's definition: its name, description and input schema.
    pub fn def(&self) -> (r: ToolDef)
        ensures
            r.name@ == "browser_act"@,
            r.description@ == BROWSER_ACT_DESCRIPTION@,
            r.input_schema@ == browser_act_schema(),
    {
        let mut props: Vec<(String, JsonValue)> = Vec::new();
        let actions = str_array_exec(&["click", "fill", "type", "hover", "select", "check", "press"]);
        push_entry(&mut props, "action", prop_with(prop("string", BA_ACTION_DESCRIPTION), "enum", actions));
        push_entry(&mut props, "ref", prop("string", BA_REF_DESCRIPTION));
        push_entry(&mut props, "value", prop("string", BA_VALUE_DESCRIPTION));
        let ghost pv = entries_view(props);
        let schema = object_schema_exec(props, &["action"]);
        proof {
            assert(strs_view(["click", "fill", "type", "hover", "select", "check", "press"]@)
                =~= seq!["click"@, "fill"@, "type"@, "hover"@, "select"@, "check"@, "press"@]);
            assert(pv =~= browser_act_schema()->Object_0[1].1->Object_0);
            assert(strs_view(["action"]@) =~= seq!["action"@]);
        }
        ToolDef { name: "browser_act".to_string(), description: BROWSER_ACT_DESCRIPTION.to_string(), input_schema: schema }
    }

    /// What the tool does for `input` in the browser session `session`
    /// (see [`act_step`]).
    pub fn plan(&self, input: &BrowserActInput, session: &Option<String>) -> (r: BrowserStep)
        ensures
            r@ == act_step(input.action@, opt_str(input.element_ref), opt_str(input.value), opt_str(*session)),
    {
        let a = input.action.as_str();
        let mut args = session_args(session);
        let ghost pre = sviews(args@);
        if str_eq(a, "click") || str_eq(a, "fill") || str_eq(a, "type") || str_eq(a, "hover") || str_eq(a, "select")
            || str_eq(a, "check") {
            match &input.element_ref {
                Some(r) => {
                    push_arg(&mut args, a);
                    push_arg(&mut args, r.as_str());
                    assert(pre.push(a@).push(r@) =~= pre + seq![a@, r@]);
                },
                None => {
                    return BrowserStep::Done(
                        ToolResult::error(concat3("Action '", a, "' requires a 'ref' parameter (e.g. @e1)").as_str()),
                    );
                },
            }
        } else if str_eq(a, "press") {
            push_arg(&mut args, a);
            assert(pre.push(a@) =~= pre + seq![a@]);
        } else {
            return BrowserStep::Done(
                ToolResult::error(
                    concat3("Unknown action '", a, "'. Valid actions: click, fill, type, hover, select, check, press").as_str(),
                ),
            );
        }
        push_opt_arg(&mut args, &input.value);
        BrowserStep::Run(BrowserRun { args, timeout_ms: DEFAULT_TIMEOUT_MS })
    }

    /// The tool's result once the browser command ended with `outcome`.
    pub fn finish(&self, input: &BrowserActInput, outcome: ProcessOutcome) -> (r: ToolResult)
        ensures
            r@ == run_result(
                outcome,
                Some("Action '"@ + input.action@ + "' completed successfully"@),
                " "@ + input.action@,
                TIMED_OUT_30S@,
            ),
    {
        let a = input.action.as_str();
        let done = concat3("Action '", a, "' completed successfully");
        let label = crate::text::concat(" ", a);
        finish_run(outcome, Some(done), label.as_str(), TIMED_OUT_30S)
    }
}

impl Default for BrowserActTool {
    fn default() -> (r: Self) {
        BrowserActTool::new()
    }
}


/// The input schema of the element interaction tool is well formed.
pub proof fn law_browser_act_schema_well_formed()
    ensures
        crate::schema::schema_problem(browser_act_schema()) is None,
{
    let s = browser_act_schema();
    let props = s->Object_0[1].1->Object_0;
    let req = seq!["action"@];
    assert(s == object_schema(props, req));
    reveal_strlit("action");
    reveal_strlit("ref");
    reveal_strlit("value");
    assert("ref"@.len() != "action"@.len());
    assert(props[1].0 != props[0].0);
    assert("value"@.len() != "action"@.len());
    assert(props[2].0 != props[0].0);
    crate::schema::lemma_entries_get_at(props, 0);
    assert(crate::json::entries_get(props, req[0]) is Some);
    crate::schema::law_object_schema_well_formed(props, req);
}

/// Every action that the input schema lists is planned as a run of the browser
/// command, never answered as unknown: each of click, fill, type, hover,
/// select and check, given an element `r`, runs the session prefix, the
/// action, `r` and the value, if any; press runs the session prefix, the
/// action and the value, with or without an element.
pub proof fn law_listed_actions_run(r: Seq<char>, element_ref: Option<Seq<char>>, value: Option<Seq<char>>, session: Option<Seq<char>>)
    ensures
        act_step("click"@, Some(r), value, session)
            == StepView::Run(session_prefix(session) + seq!["click"@, r] + opt_seq(value), DEFAULT_TIMEOUT_MS),
        act_step("fill"@, Some(r), value, session)
            == StepView::Run(session_prefix(session) + seq!["fill"@, r] + opt_seq(value), DEFAULT_TIMEOUT_MS),
        act_step("type"@, Some(r), value, session)
            == StepView::Run(session_prefix(session) + seq!["type"@, r] + opt_seq(value), DEFAULT_TIMEOUT_MS),
        act_step("hover"@, Some(r), value, session)
            == StepView::Run(session_prefix(session) + seq!["hover"@, r] + opt_seq(value), DEFAULT_TIMEOUT_MS),
        act_step("select"@, Some(r), value, session)
            == StepView::Run(session_prefix(session) + seq!["select"@, r] + opt_seq(value), DEFAULT_TIMEOUT_MS),
        act_step("check"@, Some(r), value, session)
            == StepView::Run(session_prefix(session) + seq!["check"@, r] + opt_seq(value), DEFAULT_TIMEOUT_MS),
        act_step("press"@, element_ref, value, session)
            == StepView::Run(session_prefix(session) + seq!["press"@] + opt_seq(value), DEFAULT_TIMEOUT_MS),
{
    reveal_strlit("click");
    reveal_strlit("fill");
    reveal_strlit("type");
    reveal_strlit("hover");
    reveal_strlit("select");
    reveal_strlit("check");
    reveal_strlit("press");
    assert("press"@ != "click"@ && "press"@ != "check"@ && "press"@ != "hover"@) by {
        assert("press"@[0] != "click"@[0]);
        assert("press"@[0] != "check"@[0]);
        assert("press"@[0] != "hover"@[0]);
    }
    assert("press"@.len() != "fill"@.len() && "press"@.len() != "type"@.len() && "press"@.len() != "select"@.len());
    assert(!needs_ref("press"@));
}

/// An action that acts on an element but comes without one is answered
/// with an error that names the action and asks for a `ref`; an action that
/// the schema does not list is answered as unknown, with the list of valid
/// actions. Neither runs the browser.
pub proof fn law_act_refusals(a: Seq<char>, value: Option<Seq<char>>, session: Option<Seq<char>>)
    ensures
        needs_ref(a) ==> act_step(a, None, value, session)
            == StepView::Done(error_result("Action '"@ + a + "' requires a 'ref' parameter (e.g. @e1)"@)),
        a != "click"@ && a != "fill"@ && a != "type"@ && a != "hover"@ && a != "select"@ && a != "check"@
            && a != "press"@ ==> forall|r: Option<Seq<char>>| #[trigger] act_step(a, r, value, session)
            == StepView::Done(error_result("Unknown action '"@ + a + "'. Valid actions: click, fill, type, hover, select, check, press"@)),
{
}

} // verus!
