//! Reading local text files: the path check, path resolution against the
//! caller's working directory, and the truncation of long contents.

use vstd::prelude::*;
use crate::json::{JsonValue, JsonView};
use crate::schema::{entries_view, object_schema, object_schema_exec, prop, prop_view, push_entry};
use crate::text::{chars_of, concat, decimal, find, find_from_exec, u64_to_string};
use crate::tool::{error_result, text_result, ToolDef, ToolResult};

verus! {

pub const PATH_TRAVERSAL: &'static str = "Path traversal detected: paths containing '..' are not allowed";
pub const BINARY_FILE: &'static str = "File appears to be binary. Only UTF-8 text files are supported.";

/// Whether `pat` occurs in `s`.
pub fn contains_str(s: &str, pat: &str) -> (r: bool)
    ensures
        r == (find(s@, pat@) is Some),
{
    let v = chars_of(s);
    let p = chars_of(pat);
    find_from_exec(&v, &p, 0).is_some()
}

/// Whether `Path::is_absolute` takes `path` as absolute. It depends on
/// the path alone, under the path rules of the platform the library is
/// built for (a root on Unix; a prefix and a root on Windows).
pub uninterp spec fn path_absolute(path: Seq<char>) -> bool;

/// The text of `Path::join` of `base` and `path`. It depends on the two
/// paths alone, under the path rules of the platform the library is
/// built for.
pub uninterp spec fn path_joined(base: Seq<char>, path: Seq<char>) -> Seq<char>;

/// `Path::is_absolute`: whether `path` is absolute.
#[verifier::external_body]
fn path_is_absolute(path: &str) -> (r: bool)
    ensures
        r == path_absolute(path@),
{
    std::path::Path::new(path).is_absolute()
}

/// `Path::join`: `path` adjoined to `base`, as text.
#[verifier::external_body]
fn path_join(base: &str, path: &str) -> (r: String)
    ensures
        r@ == path_joined(base@, path@),
{
    std::path::Path::new(base).join(path).to_string_lossy().into_owned()
}

/// The view of an optional string.
pub open spec fn opt_str_view(o: Option<&str>) -> Option<Seq<char>> {
    match o {
        Some(s) => Some(s@),
        None => None,
    }
}

/// The path that `path` names for a caller whose working directory is
/// `cwd`, given whether the platform takes `path` as absolute and the
/// path that the platform makes of `path` joined to `cwd`: a relative
/// path is joined to the working directory when there is one; otherwise
/// the path stays as it is.
pub open spec fn resolution(path: Seq<char>, cwd: Option<Seq<char>>, absolute: bool, joined: Seq<char>) -> Seq<char> {
    if cwd is Some && !absolute {
        joined
    } else {
        path
    }
}

/// The path that `path` names (see [`resolution`]), from whether it is
/// absolute and what joining it to `cwd` gives.
pub fn resolve_with(path: &str, cwd: Option<&str>, absolute: bool, joined: &str) -> (r: String)
    ensures
        r@ == resolution(path@, opt_str_view(cwd), absolute, joined@),
{
    if cwd.is_some() && !absolute {
        joined.to_string()
    } else {
        path.to_string()
    }
}

/// The path that `path` names for a caller whose working directory is
/// `cwd`: joined to the directory when it is relative, as it is
/// otherwise (see [`resolution`]).
pub open spec fn resolved_path(path: Seq<char>, cwd: Option<Seq<char>>) -> Seq<char> {
    resolution(
        path,
        cwd,
        path_absolute(path),
        match cwd {
            Some(b) => path_joined(b, path),
            None => path,
        },
    )
}

/// The path that `path` names for a caller whose working directory is
/// `cwd` (see [`resolved_path`]).
pub fn resolve_path(path: &str, cwd: Option<&str>) -> (r: String)
    ensures
        r@ == resolved_path(path@, opt_str_view(cwd)),
{
    let absolute = path_is_absolute(path);
    let joined = match cwd {
        Some(base) => {
            if absolute {
                path.to_string()
            } else {
                path_join(base, path)
            }
        },
        None => path.to_string(),
    };
    resolve_with(path, cwd, absolute, joined.as_str())
}

/// `s` cut, when a limit is given and `s` has more characters than the
/// limit, to its first `max` characters, followed by a note of the limit
/// and of the full length, both counted in characters.
pub open spec fn truncated_content(s: Seq<char>, max: Option<usize>) -> Seq<char> {
    match max {
        Some(m) => if s.len() > m {
            s.take(m as int) + "\n\n[... truncated at "@ + decimal(m as nat) + " chars, total "@ + decimal(s.len())
                + " chars]"@
        } else {
            s
        },
        None => s,
    }
}

/// When content is cut, what is kept is a prefix of the content holding
/// exactly as many characters as the limit; content within the limit is
/// kept whole.
pub proof fn law_truncation_keeps_prefix(s: Seq<char>, max: usize)
    ensures
        s.len() > max ==> truncated_content(s, Some(max)).take(max as int) == s.take(max as int),
        s.len() > max ==> truncated_content(s, Some(max)).len() > max,
        s.len() <= max ==> truncated_content(s, Some(max)) == s,
        truncated_content(s, None) == s,
{
    if s.len() > max {
        let t = truncated_content(s, Some(max));
        assert(t.take(max as int) =~= s.take(max as int));
    }
}

/// Cuts `content` to at most `max_chars` characters (see
/// [`truncated_content`]).
pub fn truncate_content(content: String, max_chars: Option<usize>) -> (r: String)
    ensures
        r@ == truncated_content(content@, max_chars),
{
    match max_chars {
        None => content,
        Some(max) => {
            let v = chars_of(content.as_str());
            let len = v.len();
            if len <= max {
                return content;
            }
            let mut r = crate::text::string_from_range(&v, 0, max);
            r.append("\n\n[... truncated at ");
            r.append(u64_to_string(max as u64).as_str());
            r.append(" chars, total ");
            r.append(u64_to_string(len as u64).as_str());
            r.append(" chars]");
            assert(v@.subrange(0, max as int) =~= content@.take(max as int));
            assert(r@ =~= content@.take(max as int) + "\n\n[... truncated at "@ + decimal(max as nat) + " chars, total "@
                + decimal(content@.len()) + " chars]"@);
            r
        },
    }
}

/// What reading a file gave.
pub enum FileRead {
    /// Nothing exists at the path.
    Missing,
    /// Something other than a file is there.
    NotAFile,
    /// The file's bytes are no valid UTF-8.
    Binary,
    /// Reading failed otherwise, with the error's message.
    Failed(String),
    /// The file's text.
    Text(String),
}

/// The input of the file reader.
pub struct ReadFileInput {
    pub path: String,
    pub max_chars: Option<usize>,
}

/// The file the reader is to read for `input`, or the error it answers
/// with: paths containing `..` are refused.
pub fn read_file_target(input: &ReadFileInput, cwd: Option<&str>) -> (r: Result<String, ToolResult>)
    ensures
        r is Err <==> find(input.path@, ".."@) is Some,
        r matches Err(e) ==> e@ == error_result(PATH_TRAVERSAL@),
        r matches Ok(p) ==> p@ == resolved_path(input.path@, opt_str_view(cwd)),
{
    if contains_str(input.path.as_str(), "..") {
        return Err(ToolResult::error(PATH_TRAVERSAL));
    }
    Ok(resolve_path(input.path.as_str(), cwd))
}

/// The result that the file reader gives when reading the file at
/// `input.path` gave `read`.
pub open spec fn read_file_outcome(path: Seq<char>, max_chars: Option<usize>, read: FileRead) -> crate::tool::ResultView {
    match read {
        FileRead::Missing => error_result("File not found: "@ + path),
        FileRead::NotAFile => error_result("Not a file: "@ + path),
        FileRead::Binary => error_result(BINARY_FILE@),
        FileRead::Failed(e) => error_result("Failed to read file: "@ + e@),
        FileRead::Text(t) => text_result(truncated_content(t@, max_chars)),
    }
}

/// The file reader's answer once the file was read (see [`read_file_outcome`]).
pub fn read_file_result(input: &ReadFileInput, read: FileRead) -> (r: ToolResult)
    ensures
        r@ == read_file_outcome(input.path@, input.max_chars, read),
{
    match read {
        FileRead::Missing => ToolResult::error(concat("File not found: ", input.path.as_str()).as_str()),
        FileRead::NotAFile => ToolResult::error(concat("Not a file: ", input.path.as_str()).as_str()),
        FileRead::Binary => ToolResult::error(BINARY_FILE),
        FileRead::Failed(e) => ToolResult::error(concat("Failed to read file: ", e.as_str()).as_str()),
        FileRead::Text(t) => {
            let c = truncate_content(t, input.max_chars);
            ToolResult::text(c.as_str())
        },
    }
}

pub const READ_FILE_DESCRIPTION: &'static str = "Read the contents of a local file. Returns the text content of the file. Only UTF-8 files are supported.";
pub const RF_PATH_DESCRIPTION: &'static str = "The path to the file to read";
pub const RF_MAX_CHARS_DESCRIPTION: &'static str = "Maximum number of characters to return (optional)";

/// The input schema of the file reader.
pub open spec fn read_file_schema() -> JsonView {
    object_schema(
        seq![
            ("path"@, prop_view("string"@, RF_PATH_DESCRIPTION@)),
            ("max_chars"@, prop_view("integer"@, RF_MAX_CHARS_DESCRIPTION@)),
        ],
        seq!["path"@],
    )
}

/// A tool that reads local files from disk.
///
/// Includes path traversal protection (rejects paths containing `..`) and
/// validates that files are valid UTF-8.
pub struct ReadFileTool;

impl ReadFileTool {
    pub fn new() -> (r: Self) {
        ReadFileTool
    }

    /// The tool's definition: its name, description and input schema.
    pub fn def(&self) -> (r: ToolDef)
        ensures
            r.name@ == "read_file"@,
            r.description@ == READ_FILE_DESCRIPTION@,
            r.input_schema@ == read_file_schema(),
    {
        let mut props: Vec<(String, JsonValue)> = Vec::new();
        push_entry(&mut props, "path", prop("string", RF_PATH_DESCRIPTION));
        push_entry(&mut props, "max_chars", prop("integer", RF_MAX_CHARS_DESCRIPTION));
        let ghost pv = entries_view(props);
        let schema = object_schema_exec(props, &["path"]);
        proof {
            assert(pv =~= read_file_schema()->Object_0[1].1->Object_0);
            assert(crate::schema::strs_view(["path"]@) =~= seq!["path"@]);
        }
        ToolDef { name: "read_file".to_string(), description: READ_FILE_DESCRIPTION.to_string(), input_schema: schema }
    }
}

impl Default for ReadFileTool {
    fn default() -> (r: Self) {
        ReadFileTool::new()
    }
}


/// The input schema of the file reader is well formed.
pub proof fn law_read_file_schema_well_formed()
    ensures
        crate::schema::schema_problem(read_file_schema()) is None,
{
    let s = read_file_schema();
    let props = s->Object_0[1].1->Object_0;
    let req = seq!["path"@];
    assert(s == object_schema(props, req));
    reveal_strlit("path");
    reveal_strlit("max_chars");
    assert("max_chars"@.len() != "path"@.len());
    assert(props[1].0 != props[0].0);
    crate::schema::lemma_entries_get_at(props, 0);
    assert(crate::json::entries_get(props, req[0]) is Some);
    crate::schema::law_object_schema_well_formed(props, req);
}

} // verus!
