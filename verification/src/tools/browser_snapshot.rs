//! Capturing the browser's accessibility tree.

use vstd::prelude::*;
use crate::json::{JsonValue, JsonView};
use crate::schema::{object_schema, object_schema_exec, strs_view};
use crate::text::sviews;
use crate::tool::{ToolDef, ToolResult};
use crate::tools::browser_common::{
    finish_run, opt_str, push_arg, run_result, session_args, session_prefix, BrowserRun, ProcessOutcome,
    DEFAULT_TIMEOUT_MS, TIMED_OUT_30S,
};

verus! {

pub const BROWSER_SNAPSHOT_DESCRIPTION: &'static str = "Capture the browser accessibility tree with @ref annotations. Use the @refs to interact with elements via browser_act.";

/// The input schema of the snapshot tool: an object with no properties.
pub open spec fn browser_snapshot_schema() -> JsonView {
    object_schema(seq![], seq![])
}

/// A tool that captures the accessibility tree via `agent-browser snapshot`.
pub struct BrowserSnapshotTool;

impl BrowserSnapshotTool {
    pub fn new() -> (r: Self) {
        BrowserSnapshotTool
    }

    /// The tool's definition: its name, description and input schema.
    pub fn def(&self) -> (r: ToolDef)
        ensures
            r.name@ == "browser_snapshot"@,
            r.description@ == BROWSER_SNAPSHOT_DESCRIPTION@,
            r.input_schema@ == browser_snapshot_schema(),
    {
        let props: Vec<(String, JsonValue)> = Vec::new();
        let empty: [&str; 0] = [];
        let schema = object_schema_exec(props, &empty);
        proof {
            assert(crate::schema::entries_view(props) =~= Seq::<(Seq<char>, JsonView)>::empty());
            assert(strs_view(empty@) =~= Seq::<Seq<char>>::empty());
        }
        ToolDef {
            name: "browser_snapshot".to_string(),
            description: BROWSER_SNAPSHOT_DESCRIPTION.to_string(),
            input_schema: schema,
        }
    }

    /// The command run in the browser session `session`: `snapshot`.
    pub fn plan(&self, session: &Option<String>) -> (r: BrowserRun)
        ensures
            sviews(r.args@) == session_prefix(opt_str(*session)) + seq!["snapshot"@],
            r.timeout_ms == DEFAULT_TIMEOUT_MS,
    {
        let mut args = session_args(session);
        push_arg(&mut args, "snapshot");
        BrowserRun { args, timeout_ms: DEFAULT_TIMEOUT_MS }
    }

    /// The tool's result once `snapshot` ended with `outcome`: the output
    /// as it is.
    pub fn finish(&self, outcome: ProcessOutcome) -> (r: ToolResult)
        ensures
            r@ == run_result(outcome, None, " snapshot"@, TIMED_OUT_30S@),
    {
        finish_run(outcome, None, " snapshot", TIMED_OUT_30S)
    }
}

impl Default for BrowserSnapshotTool {
    fn default() -> (r: Self) {
        BrowserSnapshotTool::new()
    }
}


/// The input schema of the snapshot tool is well formed.
pub proof fn law_browser_snapshot_schema_well_formed()
    ensures
        crate::schema::schema_problem(browser_snapshot_schema()) is None,
{
    let s = browser_snapshot_schema();
    let props = s->Object_0[1].1->Object_0;
    let req = Seq::<Seq<char>>::empty();
    assert(s == object_schema(props, req));
    crate::schema::law_object_schema_well_formed(props, req);
}

} // verus!
