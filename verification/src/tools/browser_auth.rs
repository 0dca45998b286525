//! Saving and loading browser authentication state.

use vstd::prelude::*;
use crate::json::{JsonValue, JsonView};
use crate::schema::{entries_view, object_schema, object_schema_exec, prop, prop_view, prop_with, push_entry, str_array, str_array_exec, strs_view, with_entry};
use crate::text::{str_eq, sviews};
use crate::tool::{error_result, text_result, ToolDef, ToolResult};
use crate::tools::browser_common::{
    concat3, finish_run, opt_str, push_arg, run_result, session_args, session_prefix, BrowserRun, BrowserStep,
    ProcessOutcome, StepView, DEFAULT_TIMEOUT_MS, TIMED_OUT_30S,
};

verus! {

/// The input of the authentication state tool.
pub struct BrowserAuthInput {
    pub action: String,
    pub path: String,
}

/// The advice given for `load`: the tool keeps no state between calls.
pub open spec fn load_advice(path: Seq<char>) -> Seq<char> {
    "Advisory: To use auth state from "@ + path
        + ", pass --state flag on your next agent-browser command. This tool does not persist state between calls \u{2014} the calling agent must manage this."@
}

/// What the tool does for `action` on the state file `path`, in the
/// browser session `session`: `load` is answered with advice, `save`
/// and `auto-connect-save` run `state save`.
pub open spec fn auth_step(action: Seq<char>, path: Seq<char>, session: Option<Seq<char>>) -> StepView {
    if action == "load"@ {
        StepView::Done(text_result(load_advice(path)))
    } else if action == "save"@ {
        StepView::Run(session_prefix(session) + seq!["state"@, "save"@, path], DEFAULT_TIMEOUT_MS)
    } else if action == "auto-connect-save"@ {
        StepView::Run(session_prefix(session) + seq!["--auto-connect"@, "state"@, "save"@, path], DEFAULT_TIMEOUT_MS)
    } else {
        StepView::Done(error_result("Unknown action '"@ + action + "'. Valid actions: load, save, auto-connect-save"@))
    }
}

pub const BROWSER_AUTH_DESCRIPTION: &'static str = "Manage browser authentication state. Actions: load (advisory \u{2014} tells you to pass --state on next command), save (persist current state), auto-connect-save (save with auto-connect).";
pub const BU_ACTION_DESCRIPTION: &'static str = "The auth action to perform";
pub const BU_PATH_DESCRIPTION: &'static str = "Path to the auth state file (e.g. ~/.pilot/auth-591.json)";

/// The input schema of the authentication state tool.
pub open spec fn browser_auth_schema() -> JsonView {
    object_schema(
        seq![
            ("action"@, with_entry(prop_view("string"@, BU_ACTION_DESCRIPTION@), "enum"@,
                str_array(seq!["load"@, "save"@, "auto-connect-save"@]))),
            ("path"@, prop_view("string"@, BU_PATH_DESCRIPTION@)),
        ],
        seq!["action"@, "path"@],
    )
}

/// A tool that saves browser authentication state via `agent-browser`,
/// and advises on loading it.
pub struct BrowserAuthTool;

impl BrowserAuthTool {
    pub fn new() -> (r: Self) {
        BrowserAuthTool
    }

    /// The tool's definition: its name, description and input schema.
    pub fn def(&self) -> (r: ToolDef)
        ensures
            r.name@ == "browser_auth"@,
            r.description@ == BROWSER_AUTH_DESCRIPTION@,
            r.input_schema@ == browser_auth_schema(),
    {
        let mut props: Vec<(String, JsonValue)> = Vec::new();
        let actions = str_array_exec(&["load", "save", "auto-connect-save"]);
        push_entry(&mut props, "action", prop_with(prop("string", BU_ACTION_DESCRIPTION), "enum", actions));
        push_entry(&mut props, "path", prop("string", BU_PATH_DESCRIPTION));
        let ghost pv = entries_view(props);
        let schema = object_schema_exec(props, &["action", "path"]);
        proof {
            assert(strs_view(["load", "save", "auto-connect-save"]@) =~= seq!["load"@, "save"@, "auto-connect-save"@]);
            assert(pv =~= browser_auth_schema()->Object_0[1].1->Object_0);
            assert(strs_view(["action", "path"]@) =~= seq!["action"@, "path"@]);
        }
        ToolDef { name: "browser_auth".to_string(), description: BROWSER_AUTH_DESCRIPTION.to_string(), input_schema: schema }
    }

    /// What the tool does for `input` in the browser session `session`
    /// (see [`auth_step`]).
    pub fn plan(&self, input: &BrowserAuthInput, session: &Option<String>) -> (r: BrowserStep)
        ensures
            r@ == auth_step(input.action@, input.path@, opt_str(*session)),
    {
        let a = input.action.as_str();
        let p = input.path.as_str();
        if str_eq(a, "load") {
            let msg = concat3(
                "Advisory: To use auth state from ",
                p,
                ", pass --state flag on your next agent-browser command. This tool does not persist state between calls \u{2014} the calling agent must manage this.",
            );
            return BrowserStep::Done(ToolResult::text(msg.as_str()));
        }
        let save = str_eq(a, "save");
        let auto = str_eq(a, "auto-connect-save");
        if !save && !auto {
            return BrowserStep::Done(
                ToolResult::error(concat3("Unknown action '", a, "'. Valid actions: load, save, auto-connect-save").as_str()),
            );
        }
        let mut args = session_args(session);
        let ghost pre = sviews(args@);
        if auto {
            push_arg(&mut args, "--auto-connect");
        }
        push_arg(&mut args, "state");
        push_arg(&mut args, "save");
        push_arg(&mut args, p);
        proof {
            if auto {
                reveal_strlit("save");
                reveal_strlit("auto-connect-save");
                assert(input.action@ != "save"@);
                assert(sviews(args@) =~= pre + seq!["--auto-connect"@, "state"@, "save"@, p@]);
            } else {
                assert(sviews(args@) =~= pre + seq!["state"@, "save"@, p@]);
            }
        }
        BrowserStep::Run(BrowserRun { args, timeout_ms: DEFAULT_TIMEOUT_MS })
    }

    /// The tool's result once `state save` ended with `outcome`.
    pub fn finish(&self, input: &BrowserAuthInput, outcome: ProcessOutcome) -> (r: ToolResult)
        ensures
            r@ == run_result(outcome, Some("Auth state saved to "@ + input.path@), " state save"@, TIMED_OUT_30S@),
    {
        let done = crate::text::concat("Auth state saved to ", input.path.as_str());
        finish_run(outcome, Some(done), " state save", TIMED_OUT_30S)
    }
}

impl Default for BrowserAuthTool {
    fn default() -> (r: Self) {
        BrowserAuthTool::new()
    }
}


/// The input schema of the authentication state tool is well formed.
pub proof fn law_browser_auth_schema_well_formed()
    ensures
        crate::schema::schema_problem(browser_auth_schema()) is None,
{
    let s = browser_auth_schema();
    let props = s->Object_0[1].1->Object_0;
    let req = seq!["action"@, "path"@];
    assert(s == object_schema(props, req));
    reveal_strlit("action");
    reveal_strlit("path");
    assert("path"@.len() != "action"@.len());
    assert(props[1].0 != props[0].0);
    crate::schema::lemma_entries_get_at(props, 0);
    assert(crate::json::entries_get(props, req[0]) is Some);
    crate::schema::lemma_entries_get_at(props, 1);
    assert(crate::json::entries_get(props, req[1]) is Some);
    crate::schema::law_object_schema_well_formed(props, req);
}

} // verus!
