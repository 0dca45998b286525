//! Tool definitions, tool results and the call context.

use vstd::prelude::*;
use crate::error::Error;
use crate::json::{entries_get, entries_lookup, JsonValue, JsonView};
use crate::schema::{args_problem, check_args, check_schema, schema_problem, entries_view};

verus! {

// ---------------------------------------------------------------------------
// ToolDef
// ---------------------------------------------------------------------------

/// Definition of a tool, suitable for serialization to LLM APIs.
#[derive(Debug)]
pub struct ToolDef {
    pub name: String,
    pub description: String,
    pub input_schema: JsonValue,
}

impl Clone for ToolDef {
    fn clone(&self) -> (r: Self)
        ensures
            r.name@ == self.name@,
            r.description@ == self.description@,
            r.input_schema@ == self.input_schema@,
    {
        ToolDef {
            name: self.name.clone(),
            description: self.description.clone(),
            input_schema: self.input_schema.deep_copy(),
        }
    }
}

impl ToolDef {
    /// Validate that the input schema itself is well formed.
    pub fn validate_input_schema(&self) -> (r: Result<(), Error>)
        ensures
            match r {
                Ok(_) => schema_problem(self.input_schema@) is None,
                Err(e) => e@.0 == crate::error::ErrorKind::Validation
                    && schema_problem(self.input_schema@) == Some(e@.1),
            },
    {
        check_schema(&self.input_schema)
    }

    /// Validate arguments against the input schema (schema check, required
    /// fields, type checking, enum checking).
    pub fn validate_args(&self, args: &JsonValue) -> (r: Result<(), Error>)
        ensures
            match r {
                Ok(_) => args_problem(self.input_schema@, args@) is None,
                Err(e) => args_problem(self.input_schema@, args@) == Some(e@),
            },
    {
        check_args(&self.input_schema, args)
    }
}

// ---------------------------------------------------------------------------
// ToolContent / ToolResult
// ---------------------------------------------------------------------------

/// A single content block in a tool result.
#[derive(Debug, Clone)]
pub enum ToolContent {
    /// Plain text content.
    Text(String),
    /// Structured JSON content.
    Json(JsonValue),
}

/// The mathematical content of a [`ToolContent`].
pub enum ContentView {
    Text(Seq<char>),
    Json(JsonView),
}

impl View for ToolContent {
    type V = ContentView;

    open spec fn view(&self) -> ContentView {
        match self {
            ToolContent::Text(s) => ContentView::Text(s@),
            ToolContent::Json(v) => ContentView::Json(v@),
        }
    }
}

/// Result returned by tool execution.
#[derive(Debug, Clone)]
pub struct ToolResult {
    /// Structured content blocks returned by the tool.
    pub content: Vec<ToolContent>,
    /// Whether the result represents an error.
    pub is_error: bool,
    /// Source URL for citation.
    pub citation: Option<String>,
    /// Whether this result should be injected into the next round's context.
    pub inject_to_context: bool,
    /// Execution time in milliseconds.
    pub duration_ms: Option<u64>,
}

/// The mathematical content of a [`ToolResult`].
pub struct ResultView {
    pub content: Seq<ContentView>,
    pub is_error: bool,
    pub citation: Option<Seq<char>>,
    pub inject_to_context: bool,
    pub duration_ms: Option<u64>,
}

impl View for ToolResult {
    type V = ResultView;

    open spec fn view(&self) -> ResultView {
        ResultView {
            content: Seq::new(self.content@.len(), |i: int| self.content@[i]@),
            is_error: self.is_error,
            citation: match self.citation {
                Some(c) => Some(c@),
                None => None,
            },
            inject_to_context: self.inject_to_context,
            duration_ms: self.duration_ms,
        }
    }
}

/// The first text block of `content`.
pub open spec fn first_text(content: Seq<ContentView>) -> Option<Seq<char>>
    decreases content.len(),
{
    if content.len() == 0 {
        None
    } else {
        match content[0] {
            ContentView::Text(s) => Some(s),
            _ => first_text(content.drop_first()),
        }
    }
}

/// A plain result: the one content block, no citation, no injection,
/// no duration.
pub open spec fn plain_result(block: ContentView, is_error: bool) -> ResultView {
    ResultView {
        content: seq![block],
        is_error,
        citation: None,
        inject_to_context: false,
        duration_ms: None,
    }
}

/// A successful result holding `text`.
pub open spec fn text_result(text: Seq<char>) -> ResultView {
    plain_result(ContentView::Text(text), false)
}

/// An error result holding `message`.
pub open spec fn error_result(message: Seq<char>) -> ResultView {
    plain_result(ContentView::Text(message), true)
}

/// A successful result holding the JSON value `v`.
pub open spec fn json_result(v: JsonView) -> ResultView {
    plain_result(ContentView::Json(v), false)
}

/// The text of a text result or of an error result reads back as it was
/// given, and only the error result is marked as an error.
pub proof fn law_result_text_reads_back(text: Seq<char>)
    ensures
        first_text(text_result(text).content) == Some(text),
        first_text(error_result(text).content) == Some(text),
        !text_result(text).is_error,
        error_result(text).is_error,
{
}

/// A JSON result holds no text.
pub proof fn law_json_result_has_no_text(v: JsonView)
    ensures
        first_text(json_result(v).content) is None,
        !json_result(v).is_error,
{
    let c = json_result(v).content;
    assert(c.drop_first() =~= Seq::<ContentView>::empty());
    assert(first_text(c.drop_first()) is None);
    assert(c[0] == ContentView::Json(v));
}

impl ToolResult {
    /// Successful text result.
    pub fn text(text: &str) -> (r: ToolResult)
        ensures
            r@ == text_result(text@),
    {
        let mut content = Vec::new();
        content.push(ToolContent::Text(text.to_owned()));
        let r = ToolResult {
            content,
            is_error: false,
            citation: None,
            inject_to_context: false,
            duration_ms: None,
        };
        assert(r@.content =~= seq![ContentView::Text(text@)]);
        r
    }

    /// Successful JSON result.
    pub fn json(value: JsonValue) -> (r: ToolResult)
        ensures
            r@ == json_result(value@),
    {
        let ghost v = value@;
        let mut content = Vec::new();
        content.push(ToolContent::Json(value));
        let r = ToolResult {
            content,
            is_error: false,
            citation: None,
            inject_to_context: false,
            duration_ms: None,
        };
        assert(r@.content =~= seq![ContentView::Json(v)]);
        r
    }

    /// Error result.
    pub fn error(message: &str) -> (r: ToolResult)
        ensures
            r@ == error_result(message@),
    {
        let mut content = Vec::new();
        content.push(ToolContent::Text(message.to_owned()));
        let r = ToolResult {
            content,
            is_error: true,
            citation: None,
            inject_to_context: false,
            duration_ms: None,
        };
        assert(r@.content =~= seq![ContentView::Text(message@)]);
        r
    }

    /// Set the citation on this result (builder pattern).
    pub fn with_citation(self, citation: &str) -> (r: ToolResult)
        ensures
            r@ == (ResultView { citation: Some(citation@), ..self@ }),
    {
        let mut r = self;
        r.citation = Some(citation.to_owned());
        assert(r@.content =~= self@.content);
        r
    }

    /// Set `inject_to_context` on this result.
    pub fn with_inject(self, inject: bool) -> (r: ToolResult)
        ensures
            r@ == (ResultView { inject_to_context: inject, ..self@ }),
    {
        let mut r = self;
        r.inject_to_context = inject;
        assert(r@.content =~= self@.content);
        r
    }

    /// Set `duration_ms` on this result.
    pub fn with_duration(self, ms: u64) -> (r: ToolResult)
        ensures
            r@ == (ResultView { duration_ms: Some(ms), ..self@ }),
    {
        let mut r = self;
        r.duration_ms = Some(ms);
        assert(r@.content =~= self@.content);
        r
    }

    /// The first text content, if any.
    pub fn as_text(&self) -> (r: Option<&str>)
        ensures
            match r {
                Some(s) => first_text(self@.content) == Some(s@),
                None => first_text(self@.content) is None,
            },
    {
        let ghost c = self@.content;
        assert(c.skip(0) =~= c);
        let mut i: usize = 0;
        while i < self.content.len()
            invariant
                c == self@.content,
                0 <= i <= self.content@.len(),
                first_text(c) == first_text(c.skip(i as int)),
            decreases self.content@.len() - i,
        {
            assert(c.skip(i as int)[0] == self.content@[i as int]@);
            assert(c.skip(i as int).drop_first() =~= c.skip(i + 1));
            match &self.content[i] {
                ToolContent::Text(s) => {
                    return Some(s.as_str());
                },
                ToolContent::Json(_) => {},
            }
            i += 1;
        }
        assert(c.skip(i as int).len() == 0);
        None
    }
}

// ---------------------------------------------------------------------------
// ToolContext
// ---------------------------------------------------------------------------

/// Execution context passed to every tool call: common fields plus an
/// `extra` map for platform-specific data.
#[derive(Debug, Clone)]
pub struct ToolContext {
    /// Who is calling the tool (agent_id or user_id).
    pub caller_id: String,
    /// Platform identifier ("crucible", "line", "telegram", ...).
    pub platform: String,
    /// Working directory that relative paths are resolved against.
    pub cwd: Option<String>,
    /// Platform-specific key-value extensions; a key's value is that of
    /// its last entry.
    pub extra: Vec<(String, JsonValue)>,
}

impl ToolContext {
    /// The value stored under `key` in `extra`.
    pub open spec fn extra_get(self, key: Seq<char>) -> Option<JsonView> {
        entries_get(entries_view(self.extra), key)
    }

    pub fn new(caller_id: &str, platform: &str) -> (r: ToolContext)
        ensures
            r.caller_id@ == caller_id@,
            r.platform@ == platform@,
            r.cwd is None,
            r.extra@.len() == 0,
            forall|k: Seq<char>| r.extra_get(k) is None,
    {
        ToolContext {
            caller_id: caller_id.to_owned(),
            platform: platform.to_owned(),
            cwd: None,
            extra: Vec::new(),
        }
    }

    /// Insert an extra field, replacing the value a key already has (at
    /// its last entry), builder pattern.
    pub fn with(self, key: &str, value: JsonValue) -> (r: ToolContext)
        ensures
            r.caller_id == self.caller_id,
            r.platform == self.platform,
            r.cwd == self.cwd,
            r.extra_get(key@) == Some(value@),
            forall|k: Seq<char>| k != key@ ==> r.extra_get(k) == self.extra_get(k),
    {
        let ghost old_v = entries_view(self.extra);
        let ghost val = value@;
        let mut r = self;
        let mut i: usize = r.extra.len();
        while i > 0
            invariant
                0 <= i <= r.extra@.len(),
                r.caller_id == self.caller_id,
                r.platform == self.platform,
                r.cwd == self.cwd,
                r.extra == self.extra,
                val == value@,
                old_v == entries_view(r.extra),
                forall|j: int| i <= j < old_v.len() ==> (#[trigger] old_v[j]).0 != key@,
            decreases i,
        {
            let k0 = i - 1;
            assert(old_v[k0 as int] == (r.extra@[k0 as int].0@, r.extra@[k0 as int].1@));
            if crate::text::str_eq(r.extra[k0].0.as_str(), key) {
                let k = r.extra[k0].0.clone();
                let ghost old_extra = r.extra@;
                r.extra.set(k0, (k, value));
                proof {
                    let new_v = entries_view(r.extra);
                    assert(r.extra@ == old_extra.update(k0 as int, r.extra@[k0 as int]));
                    assert(r.extra@[k0 as int].0@ == key@);
                    assert(r.extra@[k0 as int].1@ == val);
                    assert forall|j: int| 0 <= j < new_v.len() implies new_v[j] == old_v.update(k0 as int, (key@, val))[j] by {
                        if j != k0 {
                            assert(r.extra@[j] == old_extra[j]);
                        }
                    }
                    assert(new_v =~= old_v.update(k0 as int, (key@, val)));
                    crate::json::lemma_entries_get_update(old_v, k0 as int, key@, val);
                }
                return r;
            }
            i -= 1;
        }
        r.extra.push((key.to_owned(), value));
        proof {
            let new_v = entries_view(r.extra);
            assert(new_v =~= old_v.push((key@, val)));
            crate::json::lemma_entries_get_push(old_v, key@, val);
        }
        r
    }

    /// Set the working directory (builder pattern).
    pub fn with_cwd(self, cwd: &str) -> (r: ToolContext)
        ensures
            r.caller_id == self.caller_id,
            r.platform == self.platform,
            r.extra == self.extra,
            r.cwd matches Some(c) && c@ == cwd@,
    {
        let mut r = self;
        r.cwd = Some(cwd.to_owned());
        r
    }

    /// A string value from `extra`.
    pub fn get_str(&self, key: &str) -> (r: Option<&str>)
        ensures
            match r {
                Some(s) => self.extra_get(key@) matches Some(v) && v.as_str() == Some(s@),
                None => !(self.extra_get(key@) matches Some(v) && v.as_str() is Some),
            },
    {
        match entries_lookup(&self.extra, key) {
            Some(v) => v.as_str(),
            None => None,
        }
    }

    /// A u64 value from `extra`.
    pub fn get_u64(&self, key: &str) -> (r: Option<u64>)
        ensures
            r == match self.extra_get(key@) {
                Some(v) => v.as_u64(),
                None => None,
            },
    {
        match entries_lookup(&self.extra, key) {
            Some(v) => v.as_u64(),
            None => None,
        }
    }

    /// A bool value from `extra`.
    pub fn get_bool(&self, key: &str) -> (r: Option<bool>)
        ensures
            r == match self.extra_get(key@) {
                Some(v) => v.as_bool(),
                None => None,
            },
    {
        match entries_lookup(&self.extra, key) {
            Some(v) => v.as_bool(),
            None => None,
        }
    }
}

impl Default for ToolContext {
    fn default() -> (r: ToolContext)
        ensures
            r.caller_id@.len() == 0,
            r.platform@.len() == 0,
            r.cwd is None,
            r.extra@.len() == 0,
    {
        ToolContext { caller_id: String::new(), platform: String::new(), cwd: None, extra: Vec::new() }
    }
}

} // verus!
