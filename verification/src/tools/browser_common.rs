//! What the browser tools share: the `agent-browser` command line, the
//! session option, URL checking, and how a finished run of the command
//! reads as a tool result.

use vstd::prelude::*;
use crate::text::{chars_of, concat, i64_to_string, signed_decimal, starts_with, sviews, trim, trim_bounds};
use crate::tool::{error_result, text_result, ResultView, ToolContext, ToolResult};

verus! {

/// The browser automation command that the browser tools run.
pub const BINARY: &'static str = "agent-browser";

/// The seconds that a browser command may run, except where the tool
/// takes a timeout of its own.
pub const DEFAULT_TIMEOUT_MS: u64 = 30000;

pub const TIMED_OUT_30S: &'static str = "Execution timed out after 30 seconds";

/// Why the browser command could not be started.
pub struct SpawnError {
    /// Whether the command was not found.
    pub not_found: bool,
    /// The operating system's message.
    pub message: String,
}

/// The message for a command that could not be started.
pub open spec fn spawn_failure_text(not_found: bool, message: Seq<char>) -> Seq<char> {
    if not_found {
        "agent-browser not found. Please install it:\n\n  cargo install agent-browser\n\nor download from https://github.com/anthropics/agent-browser\n\nError: "@
            + message
    } else {
        "Failed to spawn agent-browser: "@ + message
    }
}

/// The message for a command that could not be started (see
/// [`spawn_failure_text`]).
pub fn not_found_or_error(e: &SpawnError) -> (r: String)
    ensures
        r@ == spawn_failure_text(e.not_found, e.message@),
{
    if e.not_found {
        concat(
            "agent-browser not found. Please install it:\n\n  cargo install agent-browser\n\nor download from https://github.com/anthropics/agent-browser\n\nError: ",
            e.message.as_str(),
        )
    } else {
        concat("Failed to spawn agent-browser: ", e.message.as_str())
    }
}

/// The leading arguments that select the browser session `session`.
pub open spec fn session_prefix(session: Option<Seq<char>>) -> Seq<Seq<char>> {
    match session {
        Some(s) => seq!["--session-name"@, s],
        None => seq![],
    }
}

/// The view of an optional string.
pub open spec fn opt_str(o: Option<String>) -> Option<Seq<char>> {
    match o {
        Some(s) => Some(s@),
        None => None,
    }
}

/// The leading arguments for `session` (see [`session_prefix`]): the
/// command line that `command_with_session` starts.
pub fn session_args(session: &Option<String>) -> (r: Vec<String>)
    ensures
        sviews(r@) == session_prefix(opt_str(*session)),
{
    let mut r: Vec<String> = Vec::new();
    match session {
        Some(s) => {
            r.push("--session-name".to_string());
            r.push(s.clone());
            assert(sviews(r@) =~= seq!["--session-name"@, s@]);
        },
        None => {
            assert(sviews(r@) =~= Seq::<Seq<char>>::empty());
        },
    }
    r
}

/// Appends `a` to the argument list `args`.
pub fn push_arg(args: &mut Vec<String>, a: &str)
    ensures
        sviews(final(args)@) == sviews(old(args)@).push(a@),
{
    let ghost before = old(args)@;
    args.push(a.to_string());
    assert(sviews(args@) =~= sviews(before).push(a@));
}

/// The browser session that the caller's context names.
pub fn browser_session(ctx: &ToolContext) -> (r: Option<String>)
    ensures
        match r {
            Some(s) => ctx.extra_get("browser_session"@) matches Some(v) && v.as_str() == Some(s@),
            None => !(ctx.extra_get("browser_session"@) matches Some(v) && v.as_str() is Some),
        },
{
    match ctx.get_str("browser_session") {
        Some(s) => Some(s.to_string()),
        None => None,
    }
}

/// Whether `url` has a scheme that the browser tools open.
pub open spec fn url_allowed(url: Seq<char>) -> bool {
    starts_with(url, "http://"@) || starts_with(url, "https://"@) || starts_with(url, "file://"@)
}

/// Whether `s` begins with `p`.
pub fn starts_with_str(s: &str, p: &str) -> (r: bool)
    ensures
        r == starts_with(s@, p@),
{
    let v = chars_of(s);
    let w = chars_of(p);
    if w.len() > v.len() {
        return false;
    }
    let mut i: usize = 0;
    while i < w.len()
        invariant
            v@ == s@,
            w@ == p@,
            w@.len() <= v@.len(),
            0 <= i <= w@.len(),
            forall|j: int| 0 <= j < i ==> v@[j] == #[trigger] w@[j],
        decreases w@.len() - i,
    {
        if v[i] != w[i] {
            assert(v@.take(w@.len() as int)[i as int] != w@[i as int]);
            return false;
        }
        i += 1;
    }
    assert(v@.take(w@.len() as int) =~= w@);
    true
}

/// Accepts URLs that start with `http://`, `https://` or `file://`, and
/// answers others with an error result.
pub fn validate_url(url: &str) -> (r: Result<(), ToolResult>)
    ensures
        r is Ok <==> url_allowed(url@),
        r matches Err(e) ==> e@ == error_result(
            "Invalid URL: '"@ + url@ + "'. URL must start with http://, https://, or file://"@,
        ),
{
    if starts_with_str(url, "http://") || starts_with_str(url, "https://") || starts_with_str(url, "file://") {
        Ok(())
    } else {
        let mut m = concat("Invalid URL: '", url);
        m.append("'. URL must start with http://, https://, or file://");
        Err(ToolResult::error(m.as_str()))
    }
}

/// A run of the browser command: its arguments after the command name,
/// and the milliseconds it may take.
pub struct BrowserRun {
    pub args: Vec<String>,
    pub timeout_ms: u64,
}

/// What a browser tool does with its input: answer at once, or run the
/// browser command.
pub enum BrowserStep {
    Done(ToolResult),
    Run(BrowserRun),
}

/// The mathematical content of a [`BrowserStep`].
pub enum StepView {
    Done(ResultView),
    Run(Seq<Seq<char>>, u64),
}

impl View for BrowserStep {
    type V = StepView;

    open spec fn view(&self) -> StepView {
        match self {
            BrowserStep::Done(r) => StepView::Done(r@),
            BrowserStep::Run(run) => StepView::Run(sviews(run.args@), run.timeout_ms),
        }
    }
}

/// How a run of the browser command ended.
pub enum ProcessOutcome {
    /// The command could not be started.
    SpawnFailed(SpawnError),
    /// The command exited; its output is read as UTF-8, lossily.
    Exited { success: bool, code: Option<i32>, stdout: String, stderr: String },
    /// Waiting for the command failed, with the error's message.
    WaitFailed(String),
    /// The command ran out of time.
    TimedOut,
}

/// The exit code as reported: the code, or -1 when there is none.
pub open spec fn code_or_minus_one(code: Option<i32>) -> int {
    match code {
        Some(c) => c as int,
        None => -1,
    }
}

/// The result of a run that ended with `outcome`. On success the output
/// is the result, or `on_empty` when the output is blank and the tool
/// has such a text; on failure the message names the command as
/// `agent-browser` followed by `label`.
pub open spec fn run_result(outcome: ProcessOutcome, on_empty: Option<Seq<char>>, label: Seq<char>, timeout_msg: Seq<char>) -> ResultView {
    match outcome {
        ProcessOutcome::SpawnFailed(e) => error_result(spawn_failure_text(e.not_found, e.message@)),
        ProcessOutcome::Exited { success, code, stdout, stderr } => if success {
            match on_empty {
                Some(d) => if trim(stdout@).len() == 0 {
                    text_result(d)
                } else {
                    text_result(stdout@)
                },
                None => text_result(stdout@),
            }
        } else {
            error_result(
                "agent-browser"@ + label + " failed (exit "@ + signed_decimal(code_or_minus_one(code)) + "):\n"@ + stderr@,
            )
        },
        ProcessOutcome::WaitFailed(e) => error_result("Process error: "@ + e@),
        ProcessOutcome::TimedOut => error_result(timeout_msg),
    }
}

/// Whether `s` is empty once trimmed.
pub fn is_blank(s: &str) -> (r: bool)
    ensures
        r == (trim(s@).len() == 0),
{
    let v = chars_of(s);
    let (a, b) = trim_bounds(&v, 0, v.len());
    assert(v@.subrange(0, v@.len() as int) =~= v@);
    a == b
}

/// The result of a run that ended with `outcome` (see [`run_result`]).
pub fn finish_run(outcome: ProcessOutcome, on_empty: Option<String>, label: &str, timeout_msg: &str) -> (r: ToolResult)
    ensures
        r@ == run_result(outcome, opt_str(on_empty), label@, timeout_msg@),
{
    match outcome {
        ProcessOutcome::SpawnFailed(e) => ToolResult::error(not_found_or_error(&e).as_str()),
        ProcessOutcome::Exited { success, code, stdout, stderr } => {
            if success {
                match on_empty {
                    Some(d) => {
                        if is_blank(stdout.as_str()) {
                            ToolResult::text(d.as_str())
                        } else {
                            ToolResult::text(stdout.as_str())
                        }
                    },
                    None => ToolResult::text(stdout.as_str()),
                }
            } else {
                let c: i64 = match code {
                    Some(c) => c as i64,
                    None => -1,
                };
                let mut m = concat("agent-browser", label);
                m.append(" failed (exit ");
                m.append(i64_to_string(c).as_str());
                m.append("):\n");
                m.append(stderr.as_str());
                ToolResult::error(m.as_str())
            }
        },
        ProcessOutcome::WaitFailed(e) => ToolResult::error(concat("Process error: ", e.as_str()).as_str()),
        ProcessOutcome::TimedOut => ToolResult::error(timeout_msg),
    }
}


/// The argument list holding `v` when there is one.
pub open spec fn opt_seq(v: Option<Seq<char>>) -> Seq<Seq<char>> {
    match v {
        Some(x) => seq![x],
        None => seq![],
    }
}

/// Appends `v` to `args` when there is one.
pub fn push_opt_arg(args: &mut Vec<String>, v: &Option<String>)
    ensures
        sviews(final(args)@) == sviews(old(args)@) + opt_seq(opt_str(*v)),
{
    match v {
        Some(x) => {
            push_arg(args, x.as_str());
            assert(sviews(args@) =~= sviews(old(args)@) + seq![x@]);
        },
        None => {
            assert(sviews(args@) =~= sviews(old(args)@) + Seq::<Seq<char>>::empty());
        },
    }
}

/// `a + b + c` as one string.
pub fn concat3(a: &str, b: &str, c: &str) -> (r: String)
    ensures
        r@ == a@ + b@ + c@,
{
    let mut r = concat(a, b);
    r.append(c);
    r
}

} // verus!
