use vstd::prelude::*;

use crate::json::{find_member, lemma_members_view, members_view, obj_get, JsonNumber, JsonValue, JsonView, NumberView};
use crate::memory::{
    memory_error_text, select_error_text, FileContent, FileEntry, FileSelector, GrepMatch, GrepRequest, LineRange,
    ListDirRequest, MemoryEntry, MemoryError, MemoryStore, MemoryView, ReadFileRequest, SelectError,
};
use crate::message::{ToolDef, ToolDefView, ToolErrorView, ToolExecutorError};
use crate::text::concat3;

verus! {

// ---------------------------------------------------------------------------
// Reading the arguments of a tool call
// ---------------------------------------------------------------------------

/// The argument `key` of a call: the member of that name when the arguments
/// are an object.
pub open spec fn arg_value(args: JsonView, key: Seq<char>) -> Option<JsonView> {
    match args {
        JsonView::Object(ms) => obj_get(ms, key),
        _ => None,
    }
}

pub open spec fn missing_arg(key: Seq<char>) -> ToolErrorView {
    ToolErrorView::ExecutionError("Missing or invalid '"@ + key + "' parameter"@)
}

pub open spec fn invalid_arg(key: Seq<char>) -> ToolErrorView {
    ToolErrorView::ExecutionError("Invalid '"@ + key + "' parameter"@)
}

/// A string argument that must be there.
pub open spec fn string_arg(args: JsonView, key: Seq<char>) -> Result<Seq<char>, ToolErrorView> {
    match arg_value(args, key) {
        Some(JsonView::Str(s)) => Ok(s),
        _ => Err(missing_arg(key)),
    }
}

/// A string argument that may be missing or null.
pub open spec fn opt_string_arg(args: JsonView, key: Seq<char>) -> Result<Option<Seq<char>>, ToolErrorView> {
    match arg_value(args, key) {
        None => Ok(None),
        Some(JsonView::Null) => Ok(None),
        Some(JsonView::Str(s)) => Ok(Some(s)),
        _ => Err(invalid_arg(key)),
    }
}

/// An unsigned integer argument that may be missing or null.
pub open spec fn opt_usize_arg(args: JsonView, key: Seq<char>) -> Result<Option<usize>, ToolErrorView> {
    match arg_value(args, key) {
        None => Ok(None),
        Some(JsonView::Null) => Ok(None),
        Some(JsonView::Number(NumberView::PosInt(n))) => if n <= usize::MAX {
            Ok(Some(n as usize))
        } else {
            Err(invalid_arg(key))
        },
        _ => Err(invalid_arg(key)),
    }
}

/// An unsigned integer argument that must be there.
pub open spec fn usize_arg(args: JsonView, key: Seq<char>) -> Result<usize, ToolErrorView> {
    match opt_usize_arg(args, key) {
        Err(e) => Err(e),
        Ok(None) => Err(missing_arg(key)),
        Ok(Some(n)) => Ok(n),
    }
}

/// A boolean argument that may be missing or null.
pub open spec fn opt_bool_arg(args: JsonView, key: Seq<char>) -> Result<Option<bool>, ToolErrorView> {
    match arg_value(args, key) {
        None => Ok(None),
        Some(JsonView::Null) => Ok(None),
        Some(JsonView::Bool(b)) => Ok(Some(b)),
        _ => Err(invalid_arg(key)),
    }
}

fn arg<'a>(arguments: &'a JsonValue, key: &str) -> (r: Option<&'a JsonValue>)
    ensures
        match r {
            Some(v) => arg_value(arguments@, key@) == Some(v@),
            None => arg_value(arguments@, key@) is None,
        },
{
    match arguments {
        JsonValue::Object(ms) => match find_member(ms, key) {
            Some(i) => Some(&ms[i].1),
            None => None,
        },
        _ => None,
    }
}

fn missing_error(key: &str) -> (r: ToolExecutorError)
    ensures
        r@ == missing_arg(key@),
{
    ToolExecutorError::ExecutionError(concat3("Missing or invalid '", key, "' parameter"))
}

fn invalid_error(key: &str) -> (r: ToolExecutorError)
    ensures
        r@ == invalid_arg(key@),
{
    ToolExecutorError::ExecutionError(concat3("Invalid '", key, "' parameter"))
}

/// The string argument `key`; see `string_arg`.
pub fn required_string(arguments: &JsonValue, key: &str) -> (r: Result<String, ToolExecutorError>)
    ensures
        match r {
            Ok(s) => string_arg(arguments@, key@) == Ok::<Seq<char>, ToolErrorView>(s@),
            Err(e) => string_arg(arguments@, key@) == Err::<Seq<char>, ToolErrorView>(e@),
        },
{
    match arg(arguments, key) {
        Some(JsonValue::Str(s)) => Ok(s.clone()),
        _ => Err(missing_error(key)),
    }
}

/// The string argument `key`, if given; see `opt_string_arg`.
pub fn optional_string(arguments: &JsonValue, key: &str) -> (r: Result<Option<String>, ToolExecutorError>)
    ensures
        match r {
            Ok(Some(s)) => opt_string_arg(arguments@, key@) == Ok::<Option<Seq<char>>, ToolErrorView>(Some(s@)),
            Ok(None) => opt_string_arg(arguments@, key@) == Ok::<Option<Seq<char>>, ToolErrorView>(None),
            Err(e) => opt_string_arg(arguments@, key@) == Err::<Option<Seq<char>>, ToolErrorView>(e@),
        },
{
    match arg(arguments, key) {
        None => Ok(None),
        Some(JsonValue::Null) => Ok(None),
        Some(JsonValue::Str(s)) => Ok(Some(s.clone())),
        _ => Err(invalid_error(key)),
    }
}

/// The unsigned integer argument `key`, if given; see `opt_usize_arg`.
pub fn optional_usize(arguments: &JsonValue, key: &str) -> (r: Result<Option<usize>, ToolExecutorError>)
    ensures
        match r {
            Ok(n) => opt_usize_arg(arguments@, key@) == Ok::<Option<usize>, ToolErrorView>(n),
            Err(e) => opt_usize_arg(arguments@, key@) == Err::<Option<usize>, ToolErrorView>(e@),
        },
{
    match arg(arguments, key) {
        None => Ok(None),
        Some(JsonValue::Null) => Ok(None),
        Some(JsonValue::Number(JsonNumber::PosInt(n))) => {
            if *n <= usize::MAX as u64 {
                Ok(Some(*n as usize))
            } else {
                Err(invalid_error(key))
            }
        },
        _ => Err(invalid_error(key)),
    }
}

/// The unsigned integer argument `key`; see `usize_arg`.
pub fn required_usize(arguments: &JsonValue, key: &str) -> (r: Result<usize, ToolExecutorError>)
    ensures
        match r {
            Ok(n) => usize_arg(arguments@, key@) == Ok::<usize, ToolErrorView>(n),
            Err(e) => usize_arg(arguments@, key@) == Err::<usize, ToolErrorView>(e@),
        },
{
    match optional_usize(arguments, key) {
        Err(e) => Err(e),
        Ok(None) => Err(missing_error(key)),
        Ok(Some(n)) => Ok(n),
    }
}

/// The boolean argument `key`, if given; see `opt_bool_arg`.
pub fn optional_bool(arguments: &JsonValue, key: &str) -> (r: Result<Option<bool>, ToolExecutorError>)
    ensures
        match r {
            Ok(b) => opt_bool_arg(arguments@, key@) == Ok::<Option<bool>, ToolErrorView>(b),
            Err(e) => opt_bool_arg(arguments@, key@) == Err::<Option<bool>, ToolErrorView>(e@),
        },
{
    match arg(arguments, key) {
        None => Ok(None),
        Some(JsonValue::Null) => Ok(None),
        Some(JsonValue::Bool(b)) => Ok(Some(*b)),
        _ => Err(invalid_error(key)),
    }
}

// ---------------------------------------------------------------------------
// Building replies
// ---------------------------------------------------------------------------

/// A tool's reply, the error seen by its view.
pub open spec fn reply_view(r: Result<JsonValue, ToolExecutorError>) -> Result<JsonView, ToolErrorView> {
    match r {
        Ok(v) => Ok(v@),
        Err(e) => Err(e@),
    }
}

pub open spec fn jstr(s: Seq<char>) -> JsonView {
    JsonView::Str(s)
}

pub open spec fn jnum(n: u64) -> JsonView {
    JsonView::Number(NumberView::PosInt(n))
}

pub(crate) fn str_value(s: &str) -> (r: JsonValue)
    ensures
        r@ == jstr(s@),
{
    JsonValue::Str(String::from_str(s))
}

pub(crate) fn num_value(n: usize) -> (r: JsonValue)
    ensures
        r@ == jnum(n as u64),
{
    JsonValue::Number(JsonNumber::PosInt(n as u64))
}

/// An object of one member.
pub(crate) fn object1(k1: &str, v1: JsonValue) -> (r: JsonValue)
    ensures
        r@ == JsonView::Object(seq![(k1@, v1@)]),
{
    let mut ms: Vec<(String, JsonValue)> = Vec::new();
    ms.push((String::from_str(k1), v1));
    proof {
        lemma_members_view(ms@);
        assert(members_view(ms@) =~= seq![(k1@, v1@)]);
    }
    JsonValue::Object(ms)
}

/// An object of two members, in the order given.
fn object2(k1: &str, v1: JsonValue, k2: &str, v2: JsonValue) -> (r: JsonValue)
    ensures
        r@ == JsonView::Object(seq![(k1@, v1@), (k2@, v2@)]),
{
    let mut ms: Vec<(String, JsonValue)> = Vec::new();
    ms.push((String::from_str(k1), v1));
    ms.push((String::from_str(k2), v2));
    proof {
        lemma_members_view(ms@);
        assert(members_view(ms@) =~= seq![(k1@, v1@), (k2@, v2@)]);
    }
    JsonValue::Object(ms)
}

/// An object of three members, in the order given.
pub(crate) fn object3(k1: &str, v1: JsonValue, k2: &str, v2: JsonValue, k3: &str, v3: JsonValue) -> (r: JsonValue)
    ensures
        r@ == JsonView::Object(seq![(k1@, v1@), (k2@, v2@), (k3@, v3@)]),
{
    let mut ms: Vec<(String, JsonValue)> = Vec::new();
    ms.push((String::from_str(k1), v1));
    ms.push((String::from_str(k2), v2));
    ms.push((String::from_str(k3), v3));
    proof {
        lemma_members_view(ms@);
        assert(members_view(ms@) =~= seq![(k1@, v1@), (k2@, v2@), (k3@, v3@)]);
    }
    JsonValue::Object(ms)
}

/// The reply to a change of the file `path`: `{"ok": true, "path": path}`.
pub open spec fn ok_path_json(path: Seq<char>) -> JsonView {
    JsonView::Object(seq![("ok"@, JsonView::Bool(true)), ("path"@, jstr(path))])
}

/// A failure of the store as the tool reports it.
pub open spec fn memory_failure(e: MemoryError) -> ToolErrorView {
    ToolErrorView::ExecutionError(memory_error_text(e))
}

/// A failure of the selector as the tool reports it.
pub open spec fn select_failure(e: SelectError) -> ToolErrorView {
    ToolErrorView::ExecutionError(select_error_text(e))
}

fn memory_failure_error(e: &MemoryError) -> (r: ToolExecutorError)
    ensures
        r@ == memory_failure(*e),
{
    ToolExecutorError::ExecutionError(e.to_text())
}

fn select_failure_error(e: &SelectError) -> (r: ToolExecutorError)
    ensures
        r@ == select_failure(*e),
{
    ToolExecutorError::ExecutionError(e.to_text())
}

/// The reply to a change of the file `path`, by how the store did.
pub open spec fn change_reply(path: Seq<char>, outcome: Result<(), MemoryError>) -> Result<JsonView, ToolErrorView> {
    match outcome {
        Ok(_) => Ok(ok_path_json(path)),
        Err(e) => Err(memory_failure(e)),
    }
}

/// The reply to a change of the file `path`; see `change_reply`.
pub fn change_outcome(path: &str, outcome: Result<(), MemoryError>) -> (r: Result<JsonValue, ToolExecutorError>)
    ensures
        reply_view(r) == change_reply(path@, outcome),
{
    match outcome {
        Ok(_) => Ok(object2("ok", JsonValue::Bool(true), "path", str_value(path))),
        Err(e) => Err(memory_failure_error(&e)),
    }
}

/// A listing entry as JSON.
pub open spec fn memory_entry_json(e: MemoryEntry) -> JsonView {
    JsonView::Object(seq![
        ("is_dir"@, JsonView::Bool(e.is_dir)),
        ("path"@, jstr(e.path@)),
        ("size_bytes"@, jnum(e.size_bytes as u64)),
    ])
}

/// A numbered line as JSON: a pair of its number and its text.
pub open spec fn line_json(l: (usize, String)) -> JsonView {
    JsonView::Array(seq![jnum(l.0 as u64), jstr(l.1@)])
}

/// What reading a memory path shows, as JSON.
pub open spec fn memory_view_json(v: MemoryView) -> JsonView {
    match v {
        MemoryView::Directory(listing) => JsonView::Object(seq![
            ("entries"@, JsonView::Array(listing.entries@.map_values(|e: MemoryEntry| memory_entry_json(e)))),
            ("kind"@, jstr("directory"@)),
            ("path"@, jstr(listing.path@)),
        ]),
        MemoryView::File(snapshot) => JsonView::Object(seq![
            ("kind"@, jstr("file"@)),
            ("lines"@, JsonView::Array(snapshot.lines@.map_values(|l: (usize, String)| line_json(l)))),
            ("path"@, jstr(snapshot.path@)),
        ]),
    }
}

pub(crate) fn array_value(items: Vec<JsonValue>) -> (r: JsonValue)
    ensures
        r@ == JsonView::Array(items@.map_values(|v: JsonValue| v@)),
{
    proof {
        crate::json::lemma_json_seq_view(items@);
        assert(crate::json::json_seq_view(items@) =~= items@.map_values(|v: JsonValue| v@));
    }
    JsonValue::Array(items)
}

fn memory_view_value(v: &MemoryView) -> (r: JsonValue)
    ensures
        r@ == memory_view_json(*v),
{
    match v {
        MemoryView::Directory(listing) => {
            let mut items: Vec<JsonValue> = Vec::new();
            let mut i: usize = 0;
            while i < listing.entries.len()
                invariant
                    i <= listing.entries@.len(),
                    items@.len() == i,
                    forall|j: int| 0 <= j < i ==> (#[trigger] items@[j])@ == memory_entry_json(listing.entries@[j]),
                decreases listing.entries@.len() - i,
            {
                let e = &listing.entries[i];
                items.push(object3(
                    "is_dir",
                    JsonValue::Bool(e.is_dir),
                    "path",
                    str_value(e.path.as_str()),
                    "size_bytes",
                    num_value(e.size_bytes),
                ));
                i = i + 1;
            }
            proof {
                assert(items@.map_values(|x: JsonValue| x@) =~= listing.entries@.map_values(|e: MemoryEntry| memory_entry_json(e)));
            }
            object3("entries", array_value(items), "kind", str_value("directory"), "path", str_value(listing.path.as_str()))
        },
        MemoryView::File(snapshot) => {
            let mut items: Vec<JsonValue> = Vec::new();
            let mut i: usize = 0;
            while i < snapshot.lines.len()
                invariant
                    i <= snapshot.lines@.len(),
                    items@.len() == i,
                    forall|j: int| 0 <= j < i ==> (#[trigger] items@[j])@ == line_json(snapshot.lines@[j]),
                decreases snapshot.lines@.len() - i,
            {
                let pair = vec![num_value(snapshot.lines[i].0), str_value(snapshot.lines[i].1.as_str())];
                proof {
                    assert(pair@.map_values(|x: JsonValue| x@) =~= seq![jnum(snapshot.lines@[i as int].0 as u64), jstr(snapshot.lines@[i as int].1@)]);
                }
                items.push(array_value(pair));
                i = i + 1;
            }
            proof {
                assert(items@.map_values(|x: JsonValue| x@) =~= snapshot.lines@.map_values(|l: (usize, String)| line_json(l)));
            }
            object3("kind", str_value("file"), "lines", array_value(items), "path", str_value(snapshot.path.as_str()))
        },
    }
}


// ---------------------------------------------------------------------------
// Parameter schemas
// ---------------------------------------------------------------------------

/// The schema of one parameter: its description and minimum where it has
/// them, and its type, members in the order of their names.
pub open spec fn prop_json(ty: Seq<char>, minimum: Option<u64>, description: Option<Seq<char>>) -> JsonView {
    let d = match description {
        Some(t) => seq![("description"@, jstr(t))],
        None => Seq::empty(),
    };
    let m = match minimum {
        Some(n) => seq![("minimum"@, jnum(n))],
        None => Seq::empty(),
    };
    JsonView::Object(d + m + seq![("type"@, jstr(ty))])
}

/// The schema of an object of parameters, some of them required.
pub open spec fn schema_json(properties: Seq<(Seq<char>, JsonView)>, required: Seq<Seq<char>>) -> JsonView {
    JsonView::Object(seq![
        ("properties"@, JsonView::Object(properties)),
        ("required"@, JsonView::Array(required.map_values(|k: Seq<char>| jstr(k)))),
        ("type"@, jstr("object"@)),
    ])
}

fn prop(ty: &str, minimum: Option<u64>, description: Option<&str>) -> (r: JsonValue)
    ensures
        r@ == prop_json(ty@, minimum, match description { Some(t) => Some(t@), None => None }),
{
    let ghost dv = match description { Some(t) => Some(t@), None => None::<Seq<char>> };
    let mut ms: Vec<(String, JsonValue)> = Vec::new();
    let ghost mut want: Seq<(Seq<char>, JsonView)> = Seq::empty();
    match description {
        Some(t) => {
            ms.push((String::from_str("description"), str_value(t)));
            proof { want = want.push(("description"@, jstr(t@))); }
        },
        None => {},
    }
    match minimum {
        Some(n) => {
            ms.push((String::from_str("minimum"), JsonValue::Number(JsonNumber::PosInt(n))));
            proof { want = want.push(("minimum"@, jnum(n))); }
        },
        None => {},
    }
    ms.push((String::from_str("type"), str_value(ty)));
    proof {
        want = want.push(("type"@, jstr(ty@)));
        lemma_members_view(ms@);
        assert(members_view(ms@) =~= want);
        match prop_json(ty@, minimum, dv) {
            JsonView::Object(w) => assert(w =~= want),
            _ => {},
        }
    }
    JsonValue::Object(ms)
}

fn schema(properties: JsonValue, required: Vec<&str>) -> (r: JsonValue)
    requires
        properties@ is Object,
    ensures
        r@ == schema_json(properties@->Object_0, required@.map_values(|k: &str| k@)),
{
    let mut items: Vec<JsonValue> = Vec::new();
    let mut i: usize = 0;
    while i < required.len()
        invariant
            i <= required@.len(),
            items@.len() == i,
            forall|j: int| 0 <= j < i ==> (#[trigger] items@[j])@ == jstr(required@[j]@),
        decreases required@.len() - i,
    {
        items.push(str_value(required[i]));
        i = i + 1;
    }
    proof {
        assert(items@.map_values(|v: JsonValue| v@) =~= required@.map_values(|k: &str| k@).map_values(|k: Seq<char>| jstr(k)));
    }
    object3("properties", properties, "required", array_value(items), "type", str_value("object"))
}

fn tool_def(name: &str, description: &str, parameters: JsonValue) -> (r: ToolDef)
    ensures
        r@ == (ToolDefView { name: name@, description: description@, parameters: parameters@ }),
{
    ToolDef { name: String::from_str(name), description: String::from_str(description), parameters }
}

pub open spec fn string_prop(description: Seq<char>) -> JsonView {
    prop_json("string"@, None, Some(description))
}

pub open spec fn plain_prop(ty: Seq<char>) -> JsonView {
    prop_json(ty, None, None)
}


// ---------------------------------------------------------------------------
// The memory tools
// ---------------------------------------------------------------------------

/// What `memory_read` is called with: a path, and a range of lines when a
/// start or an end is given (the start defaults to the first line).
pub open spec fn read_args(args: JsonView) -> Result<(Seq<char>, Option<LineRange>), ToolErrorView> {
    match string_arg(args, "path"@) {
        Err(e) => Err(e),
        Ok(path) => match opt_usize_arg(args, "start_line"@) {
            Err(e) => Err(e),
            Ok(start) => match opt_usize_arg(args, "end_line"@) {
                Err(e) => Err(e),
                Ok(end) => Ok((
                    path,
                    if start is None && end is None {
                        None
                    } else {
                        Some(LineRange { start: if let Some(s) = start { s } else { 1 }, end })
                    },
                )),
            },
        },
    }
}

/// The reply of `memory_read`, by what the store showed.
pub open spec fn read_reply(outcome: Result<MemoryView, MemoryError>) -> Result<JsonView, ToolErrorView> {
    match outcome {
        Ok(v) => Ok(memory_view_json(v)),
        Err(e) => Err(memory_failure(e)),
    }
}

pub open spec fn memory_read_def() -> ToolDefView {
    ToolDefView {
        name: "memory_read"@,
        description: "Read a file or list a directory under /memories. Supports optional 1-based start_line and end_line for file views."@,
        parameters: schema_json(
            seq![
                ("end_line"@, prop_json("integer"@, Some(1), Some("Optional 1-based end line for file reads."@))),
                ("path"@, string_prop("Path under /memories."@)),
                ("start_line"@, prop_json("integer"@, Some(1), Some("Optional 1-based start line for file reads."@))),
            ],
            seq!["path"@],
        ),
    }
}

/// Reads a file, or lists a directory, of the memory store.
#[derive(Debug)]
pub struct MemoryReadTool {
    definition: ToolDef,
}

impl MemoryReadTool {
    pub closed spec fn def_of(&self) -> ToolDefView {
        self.definition@
    }

    pub fn new() -> (r: Self)
        ensures
            r.def_of() == memory_read_def(),
    {
        let props = object3(
            "end_line",
            prop("integer", Some(1), Some("Optional 1-based end line for file reads.")),
            "path",
            prop("string", None, Some("Path under /memories.")),
            "start_line",
            prop("integer", Some(1), Some("Optional 1-based start line for file reads.")),
        );
        let required = vec!["path"];
        proof { assert(required@.map_values(|k: &str| k@) =~= seq!["path"@]); }
        let parameters = schema(props, required);
        MemoryReadTool {
            definition: tool_def(
                "memory_read",
                "Read a file or list a directory under /memories. Supports optional 1-based start_line and end_line for file views.",
                parameters,
            ),
        }
    }

    pub fn definition(&self) -> (r: &ToolDef)
        ensures
            r@ == self.def_of(),
    {
        &self.definition
    }

    /// The path and the range a call asks for; see `read_args`.
    pub fn arguments(arguments: &JsonValue) -> (r: Result<(String, Option<LineRange>), ToolExecutorError>)
        ensures
            match r {
                Ok((p, range)) => read_args(arguments@) == Ok::<(Seq<char>, Option<LineRange>), ToolErrorView>((p@, range)),
                Err(e) => read_args(arguments@) == Err::<(Seq<char>, Option<LineRange>), ToolErrorView>(e@),
            },
    {
        let path = match required_string(arguments, "path") {
            Ok(p) => p,
            Err(e) => return Err(e),
        };
        let start = match optional_usize(arguments, "start_line") {
            Ok(s) => s,
            Err(e) => return Err(e),
        };
        let end = match optional_usize(arguments, "end_line") {
            Ok(s) => s,
            Err(e) => return Err(e),
        };
        let range = match (start, end) {
            (None, None) => None,
            (start, end) => Some(LineRange::new(
                match start {
                    Some(s) => s,
                    None => 1,
                },
                end,
            )),
        };
        Ok((path, range))
    }

    /// The reply for what the store showed; see `read_reply`.
    pub fn reply(outcome: Result<MemoryView, MemoryError>) -> (r: Result<JsonValue, ToolExecutorError>)
        ensures
            reply_view(r) == read_reply(outcome),
    {
        match outcome {
            Ok(v) => Ok(memory_view_value(&v)),
            Err(e) => Err(memory_failure_error(&e)),
        }
    }

    /// Runs a call against `store`: bad arguments are refused before the
    /// store is asked; otherwise the reply is made of what it showed.
    pub fn execute<S: MemoryStore>(&self, store: &S, arguments: &JsonValue) -> (r: Result<JsonValue, ToolExecutorError>)
        ensures
            match read_args(arguments@) {
                Err(e) => reply_view(r) == Err::<JsonView, ToolErrorView>(e),
                Ok(_) => exists|o: Result<MemoryView, MemoryError>| reply_view(r) == #[trigger] read_reply(o),
            },
    {
        match Self::arguments(arguments) {
            Err(e) => Err(e),
            Ok((path, range)) => {
                let outcome = store.view(path.as_str(), range);
                let ghost o = outcome;
                let r = Self::reply(outcome);
                proof { assert(reply_view(r) == read_reply(o)); }
                r
            },
        }
    }
}

/// What `memory_write` is called with: a path and the file's content.
pub open spec fn write_args(args: JsonView) -> Result<(Seq<char>, Seq<char>), ToolErrorView> {
    match string_arg(args, "path"@) {
        Err(e) => Err(e),
        Ok(path) => match string_arg(args, "content"@) {
            Err(e) => Err(e),
            Ok(content) => Ok((path, content)),
        },
    }
}

pub open spec fn memory_write_def() -> ToolDefView {
    ToolDefView {
        name: "memory_write"@,
        description: "Create a new memory file under /memories."@,
        parameters: schema_json(
            seq![
                ("content"@, string_prop("Full file content."@)),
                ("path"@, string_prop("Destination path under /memories."@)),
            ],
            seq!["path"@, "content"@],
        ),
    }
}

/// Creates a file in the memory store.
#[derive(Debug)]
pub struct MemoryWriteTool {
    definition: ToolDef,
}

impl MemoryWriteTool {
    pub closed spec fn def_of(&self) -> ToolDefView {
        self.definition@
    }

    pub fn new() -> (r: Self)
        ensures
            r.def_of() == memory_write_def(),
    {
        let props = object2(
            "content",
            prop("string", None, Some("Full file content.")),
            "path",
            prop("string", None, Some("Destination path under /memories.")),
        );
        let required = vec!["path", "content"];
        proof { assert(required@.map_values(|k: &str| k@) =~= seq!["path"@, "content"@]); }
        let parameters = schema(props, required);
        MemoryWriteTool { definition: tool_def("memory_write", "Create a new memory file under /memories.", parameters) }
    }

    pub fn definition(&self) -> (r: &ToolDef)
        ensures
            r@ == self.def_of(),
    {
        &self.definition
    }

    /// The path and the content a call gives; see `write_args`.
    pub fn arguments(arguments: &JsonValue) -> (r: Result<(String, String), ToolExecutorError>)
        ensures
            match r {
                Ok((p, c)) => write_args(arguments@) == Ok::<(Seq<char>, Seq<char>), ToolErrorView>((p@, c@)),
                Err(e) => write_args(arguments@) == Err::<(Seq<char>, Seq<char>), ToolErrorView>(e@),
            },
    {
        let path = match required_string(arguments, "path") {
            Ok(p) => p,
            Err(e) => return Err(e),
        };
        let content = match required_string(arguments, "content") {
            Ok(c) => c,
            Err(e) => return Err(e),
        };
        Ok((path, content))
    }

    /// Runs a call against `store`: bad arguments are refused before the
    /// store is asked; otherwise the reply says how the creation went.
    pub fn execute<S: MemoryStore>(&self, store: &mut S, arguments: &JsonValue) -> (r: Result<JsonValue, ToolExecutorError>)
        ensures
            match write_args(arguments@) {
                Err(e) => reply_view(r) == Err::<JsonView, ToolErrorView>(e),
                Ok((path, _)) => exists|o: Result<(), MemoryError>| reply_view(r) == #[trigger] change_reply(path, o),
            },
    {
        match Self::arguments(arguments) {
            Err(e) => Err(e),
            Ok((path, content)) => {
                let outcome = store.create(path.as_str(), content.as_str());
                let ghost o = outcome;
                let r = change_outcome(path.as_str(), outcome);
                proof {
                    assert(reply_view(r) == change_reply(path@, o));
                    assert(write_args(arguments@)->Ok_0.0 == path@);
                }
                r
            },
        }
    }
}


/// What `memory_update` is called with: a path, the text to replace and its
/// replacement.
pub open spec fn update_args(args: JsonView) -> Result<(Seq<char>, Seq<char>, Seq<char>), ToolErrorView> {
    match string_arg(args, "path"@) {
        Err(e) => Err(e),
        Ok(path) => match string_arg(args, "old_text"@) {
            Err(e) => Err(e),
            Ok(old_text) => match string_arg(args, "new_text"@) {
                Err(e) => Err(e),
                Ok(new_text) => Ok((path, old_text, new_text)),
            },
        },
    }
}

pub open spec fn memory_update_def() -> ToolDefView {
    ToolDefView {
        name: "memory_update"@,
        description: "Replace a unique text fragment inside a memory file."@,
        parameters: schema_json(
            seq![("new_text"@, plain_prop("string"@)), ("old_text"@, plain_prop("string"@)), ("path"@, plain_prop("string"@))],
            seq!["path"@, "old_text"@, "new_text"@],
        ),
    }
}

/// Replaces a unique piece of text in a file of the memory store.
#[derive(Debug)]
pub struct MemoryUpdateTool {
    definition: ToolDef,
}

impl MemoryUpdateTool {
    pub closed spec fn def_of(&self) -> ToolDefView {
        self.definition@
    }

    pub fn new() -> (r: Self)
        ensures
            r.def_of() == memory_update_def(),
    {
        let props = object3(
            "new_text",
            prop("string", None, None),
            "old_text",
            prop("string", None, None),
            "path",
            prop("string", None, None),
        );
        let required = vec!["path", "old_text", "new_text"];
        proof { assert(required@.map_values(|k: &str| k@) =~= seq!["path"@, "old_text"@, "new_text"@]); }
        let parameters = schema(props, required);
        MemoryUpdateTool {
            definition: tool_def("memory_update", "Replace a unique text fragment inside a memory file.", parameters),
        }
    }

    pub fn definition(&self) -> (r: &ToolDef)
        ensures
            r@ == self.def_of(),
    {
        &self.definition
    }

    /// The path, the old text and the new; see `update_args`.
    pub fn arguments(arguments: &JsonValue) -> (r: Result<(String, String, String), ToolExecutorError>)
        ensures
            match r {
                Ok((p, a, b)) => update_args(arguments@) == Ok::<(Seq<char>, Seq<char>, Seq<char>), ToolErrorView>((p@, a@, b@)),
                Err(e) => update_args(arguments@) == Err::<(Seq<char>, Seq<char>, Seq<char>), ToolErrorView>(e@),
            },
    {
        let path = match required_string(arguments, "path") {
            Ok(p) => p,
            Err(e) => return Err(e),
        };
        let old_text = match required_string(arguments, "old_text") {
            Ok(t) => t,
            Err(e) => return Err(e),
        };
        let new_text = match required_string(arguments, "new_text") {
            Ok(t) => t,
            Err(e) => return Err(e),
        };
        Ok((path, old_text, new_text))
    }

    /// Runs a call against `store`: bad arguments are refused before the
    /// store is asked; otherwise the reply says how the replacement went.
    pub fn execute<S: MemoryStore>(&self, store: &mut S, arguments: &JsonValue) -> (r: Result<JsonValue, ToolExecutorError>)
        ensures
            update_args(arguments@) is Err ==> reply_view(r) == Err::<JsonView, ToolErrorView>(update_args(arguments@)->Err_0),
            update_args(arguments@) is Ok ==> exists|o: Result<(), MemoryError>|
                reply_view(r) == #[trigger] change_reply(update_args(arguments@)->Ok_0.0, o),
    {
        match Self::arguments(arguments) {
            Err(e) => Err(e),
            Ok((path, old_text, new_text)) => {
                let outcome = store.replace_text(path.as_str(), old_text.as_str(), new_text.as_str());
                let ghost o = outcome;
                let r = change_outcome(path.as_str(), outcome);
                proof {
                    assert(reply_view(r) == change_reply(path@, o));
                    assert(update_args(arguments@)->Ok_0.0 == path@);
                }
                r
            },
        }
    }
}

pub open spec fn memory_delete_def() -> ToolDefView {
    ToolDefView {
        name: "memory_delete"@,
        description: "Delete a file or directory under /memories."@,
        parameters: schema_json(seq![("path"@, plain_prop("string"@))], seq!["path"@]),
    }
}

/// Deletes a file or a directory of the memory store.
#[derive(Debug)]
pub struct MemoryDeleteTool {
    definition: ToolDef,
}

impl MemoryDeleteTool {
    pub closed spec fn def_of(&self) -> ToolDefView {
        self.definition@
    }

    pub fn new() -> (r: Self)
        ensures
            r.def_of() == memory_delete_def(),
    {
        let props = object1("path", prop("string", None, None));
        let required = vec!["path"];
        proof { assert(required@.map_values(|k: &str| k@) =~= seq!["path"@]); }
        let parameters = schema(props, required);
        MemoryDeleteTool { definition: tool_def("memory_delete", "Delete a file or directory under /memories.", parameters) }
    }

    pub fn definition(&self) -> (r: &ToolDef)
        ensures
            r@ == self.def_of(),
    {
        &self.definition
    }

    /// Runs a call against `store`: a call without a path is refused before
    /// the store is asked; otherwise the reply says how the deletion went.
    pub fn execute<S: MemoryStore>(&self, store: &mut S, arguments: &JsonValue) -> (r: Result<JsonValue, ToolExecutorError>)
        ensures
            string_arg(arguments@, "path"@) is Err ==> reply_view(r) == Err::<JsonView, ToolErrorView>(
                string_arg(arguments@, "path"@)->Err_0,
            ),
            string_arg(arguments@, "path"@) is Ok ==> exists|o: Result<(), MemoryError>|
                reply_view(r) == #[trigger] change_reply(string_arg(arguments@, "path"@)->Ok_0, o),
    {
        match required_string(arguments, "path") {
            Err(e) => Err(e),
            Ok(path) => {
                let outcome = store.delete(path.as_str());
                let ghost o = outcome;
                let r = change_outcome(path.as_str(), outcome);
                proof {
                    assert(reply_view(r) == change_reply(path@, o));
                    assert(string_arg(arguments@, "path"@)->Ok_0 == path@);
                }
                r
            },
        }
    }
}

/// What `memory_rename` is called with: the old path and the new.
pub open spec fn rename_args(args: JsonView) -> Result<(Seq<char>, Seq<char>), ToolErrorView> {
    match string_arg(args, "old_path"@) {
        Err(e) => Err(e),
        Ok(old_path) => match string_arg(args, "new_path"@) {
            Err(e) => Err(e),
            Ok(new_path) => Ok((old_path, new_path)),
        },
    }
}

/// The reply of `memory_rename`, by how the store did.
pub open spec fn rename_reply(old_path: Seq<char>, new_path: Seq<char>, outcome: Result<(), MemoryError>) -> Result<JsonView, ToolErrorView> {
    match outcome {
        Ok(_) => Ok(JsonView::Object(seq![
            ("new_path"@, jstr(new_path)),
            ("ok"@, JsonView::Bool(true)),
            ("old_path"@, jstr(old_path)),
        ])),
        Err(e) => Err(memory_failure(e)),
    }
}

pub open spec fn memory_rename_def() -> ToolDefView {
    ToolDefView {
        name: "memory_rename"@,
        description: "Rename or move a file or directory within /memories."@,
        parameters: schema_json(
            seq![("new_path"@, plain_prop("string"@)), ("old_path"@, plain_prop("string"@))],
            seq!["old_path"@, "new_path"@],
        ),
    }
}

/// Renames or moves a file or a directory of the memory store.
#[derive(Debug)]
pub struct MemoryRenameTool {
    definition: ToolDef,
}

impl MemoryRenameTool {
    pub closed spec fn def_of(&self) -> ToolDefView {
        self.definition@
    }

    pub fn new() -> (r: Self)
        ensures
            r.def_of() == memory_rename_def(),
    {
        let props = object2("new_path", prop("string", None, None), "old_path", prop("string", None, None));
        let required = vec!["old_path", "new_path"];
        proof { assert(required@.map_values(|k: &str| k@) =~= seq!["old_path"@, "new_path"@]); }
        let parameters = schema(props, required);
        MemoryRenameTool {
            definition: tool_def("memory_rename", "Rename or move a file or directory within /memories.", parameters),
        }
    }

    pub fn definition(&self) -> (r: &ToolDef)
        ensures
            r@ == self.def_of(),
    {
        &self.definition
    }

    /// The old path and the new; see `rename_args`.
    pub fn arguments(arguments: &JsonValue) -> (r: Result<(String, String), ToolExecutorError>)
        ensures
            match r {
                Ok((a, b)) => rename_args(arguments@) == Ok::<(Seq<char>, Seq<char>), ToolErrorView>((a@, b@)),
                Err(e) => rename_args(arguments@) == Err::<(Seq<char>, Seq<char>), ToolErrorView>(e@),
            },
    {
        let old_path = match required_string(arguments, "old_path") {
            Ok(p) => p,
            Err(e) => return Err(e),
        };
        let new_path = match required_string(arguments, "new_path") {
            Ok(p) => p,
            Err(e) => return Err(e),
        };
        Ok((old_path, new_path))
    }

    /// The reply for how the store did; see `rename_reply`.
    pub fn reply(old_path: &str, new_path: &str, outcome: Result<(), MemoryError>) -> (r: Result<JsonValue, ToolExecutorError>)
        ensures
            reply_view(r) == rename_reply(old_path@, new_path@, outcome),
    {
        match outcome {
            Ok(_) => Ok(object3("new_path", str_value(new_path), "ok", JsonValue::Bool(true), "old_path", str_value(old_path))),
            Err(e) => Err(memory_failure_error(&e)),
        }
    }

    /// Runs a call against `store`: bad arguments are refused before the
    /// store is asked; otherwise the reply says how the renaming went.
    pub fn execute<S: MemoryStore>(&self, store: &mut S, arguments: &JsonValue) -> (r: Result<JsonValue, ToolExecutorError>)
        ensures
            rename_args(arguments@) is Err ==> reply_view(r) == Err::<JsonView, ToolErrorView>(rename_args(arguments@)->Err_0),
            rename_args(arguments@) is Ok ==> exists|o: Result<(), MemoryError>|
                reply_view(r) == #[trigger] rename_reply(rename_args(arguments@)->Ok_0.0, rename_args(arguments@)->Ok_0.1, o),
    {
        match Self::arguments(arguments) {
            Err(e) => Err(e),
            Ok((old_path, new_path)) => {
                let outcome = store.rename(old_path.as_str(), new_path.as_str());
                let ghost o = outcome;
                let r = Self::reply(old_path.as_str(), new_path.as_str(), outcome);
                proof {
                    assert(reply_view(r) == rename_reply(old_path@, new_path@, o));
                    assert(rename_args(arguments@)->Ok_0.0 == old_path@);
                    assert(rename_args(arguments@)->Ok_0.1 == new_path@);
                }
                r
            },
        }
    }
}

/// What `memory_insert` is called with: a path, a 0-based line index and the
/// text to insert there.
pub open spec fn insert_args(args: JsonView) -> Result<(Seq<char>, usize, Seq<char>), ToolErrorView> {
    match string_arg(args, "path"@) {
        Err(e) => Err(e),
        Ok(path) => match usize_arg(args, "line"@) {
            Err(e) => Err(e),
            Ok(line) => match string_arg(args, "text"@) {
                Err(e) => Err(e),
                Ok(text) => Ok((path, line, text)),
            },
        },
    }
}

/// The reply of `memory_insert`, by how the store did.
pub open spec fn insert_reply(path: Seq<char>, line: usize, outcome: Result<(), MemoryError>) -> Result<JsonView, ToolErrorView> {
    match outcome {
        Ok(_) => Ok(JsonView::Object(seq![
            ("line"@, jnum(line as u64)),
            ("ok"@, JsonView::Bool(true)),
            ("path"@, jstr(path)),
        ])),
        Err(e) => Err(memory_failure(e)),
    }
}

pub open spec fn memory_insert_def() -> ToolDefView {
    ToolDefView {
        name: "memory_insert"@,
        description: "Insert a line into a memory file at a zero-based insertion index."@,
        parameters: schema_json(
            seq![
                ("line"@, prop_json("integer"@, Some(0), Some("Zero-based insertion index."@))),
                ("path"@, plain_prop("string"@)),
                ("text"@, plain_prop("string"@)),
            ],
            seq!["path"@, "line"@, "text"@],
        ),
    }
}

/// Inserts a line into a file of the memory store.
#[derive(Debug)]
pub struct MemoryInsertTool {
    definition: ToolDef,
}

impl MemoryInsertTool {
    pub closed spec fn def_of(&self) -> ToolDefView {
        self.definition@
    }

    pub fn new() -> (r: Self)
        ensures
            r.def_of() == memory_insert_def(),
    {
        let props = object3(
            "line",
            prop("integer", Some(0), Some("Zero-based insertion index.")),
            "path",
            prop("string", None, None),
            "text",
            prop("string", None, None),
        );
        let required = vec!["path", "line", "text"];
        proof { assert(required@.map_values(|k: &str| k@) =~= seq!["path"@, "line"@, "text"@]); }
        let parameters = schema(props, required);
        MemoryInsertTool {
            definition: tool_def("memory_insert", "Insert a line into a memory file at a zero-based insertion index.", parameters),
        }
    }

    pub fn definition(&self) -> (r: &ToolDef)
        ensures
            r@ == self.def_of(),
    {
        &self.definition
    }

    /// The path, the line index and the text; see `insert_args`.
    pub fn arguments(arguments: &JsonValue) -> (r: Result<(String, usize, String), ToolExecutorError>)
        ensures
            match r {
                Ok((p, n, t)) => insert_args(arguments@) == Ok::<(Seq<char>, usize, Seq<char>), ToolErrorView>((p@, n, t@)),
                Err(e) => insert_args(arguments@) == Err::<(Seq<char>, usize, Seq<char>), ToolErrorView>(e@),
            },
    {
        let path = match required_string(arguments, "path") {
            Ok(p) => p,
            Err(e) => return Err(e),
        };
        let line = match required_usize(arguments, "line") {
            Ok(n) => n,
            Err(e) => return Err(e),
        };
        let text = match required_string(arguments, "text") {
            Ok(t) => t,
            Err(e) => return Err(e),
        };
        Ok((path, line, text))
    }

    /// The reply for how the store did; see `insert_reply`.
    pub fn reply(path: &str, line: usize, outcome: Result<(), MemoryError>) -> (r: Result<JsonValue, ToolExecutorError>)
        ensures
            reply_view(r) == insert_reply(path@, line, outcome),
    {
        match outcome {
            Ok(_) => Ok(object3("line", num_value(line), "ok", JsonValue::Bool(true), "path", str_value(path))),
            Err(e) => Err(memory_failure_error(&e)),
        }
    }

    /// Runs a call against `store`: bad arguments are refused before the
    /// store is asked; otherwise the reply says how the insertion went.
    pub fn execute<S: MemoryStore>(&self, store: &mut S, arguments: &JsonValue) -> (r: Result<JsonValue, ToolExecutorError>)
        ensures
            insert_args(arguments@) is Err ==> reply_view(r) == Err::<JsonView, ToolErrorView>(insert_args(arguments@)->Err_0),
            insert_args(arguments@) is Ok ==> exists|o: Result<(), MemoryError>|
                reply_view(r) == #[trigger] insert_reply(insert_args(arguments@)->Ok_0.0, insert_args(arguments@)->Ok_0.1, o),
    {
        match Self::arguments(arguments) {
            Err(e) => Err(e),
            Ok((path, line, text)) => {
                let outcome = store.insert(path.as_str(), line, text.as_str());
                let ghost o = outcome;
                let r = Self::reply(path.as_str(), line, outcome);
                proof {
                    assert(reply_view(r) == insert_reply(path@, line, o));
                    assert(insert_args(arguments@)->Ok_0.0 == path@);
                    assert(insert_args(arguments@)->Ok_0.1 == line);
                }
                r
            },
        }
    }
}


// ---------------------------------------------------------------------------
// The workspace file tools
// ---------------------------------------------------------------------------

/// A file entry as JSON; a size that is not known is null.
pub open spec fn file_entry_json(e: FileEntry) -> JsonView {
    let size = match e.size_bytes {
        Some(n) => jnum(n),
        None => JsonView::Null,
    };
    JsonView::Object(seq![("is_dir"@, JsonView::Bool(e.is_dir)), ("path"@, jstr(e.path@)), ("size_bytes"@, size)])
}

/// What `file_list` is called with.
pub open spec fn list_args(args: JsonView) -> Result<(Seq<char>, Option<usize>, Option<Seq<char>>), ToolErrorView> {
    match string_arg(args, "path"@) {
        Err(e) => Err(e),
        Ok(path) => match opt_usize_arg(args, "max_depth"@) {
            Err(e) => Err(e),
            Ok(max_depth) => match opt_string_arg(args, "pattern"@) {
                Err(e) => Err(e),
                Ok(pattern) => Ok((path, max_depth, pattern)),
            },
        },
    }
}

/// The reply of `file_list`, by what the selector found.
pub open spec fn list_reply(outcome: Result<Vec<FileEntry>, SelectError>) -> Result<JsonView, ToolErrorView> {
    match outcome {
        Ok(entries) => Ok(JsonView::Object(seq![
            ("entries"@, JsonView::Array(entries@.map_values(|e: FileEntry| file_entry_json(e)))),
        ])),
        Err(e) => Err(select_failure(e)),
    }
}

pub open spec fn file_list_def() -> ToolDefView {
    ToolDefView {
        name: "file_list"@,
        description: "List files and directories within the configured workspace."@,
        parameters: schema_json(
            seq![
                ("max_depth"@, prop_json("integer"@, Some(1), None)),
                ("path"@, string_prop("Workspace-relative directory path."@)),
                ("pattern"@, string_prop("Optional glob for file names."@)),
            ],
            seq!["path"@],
        ),
    }
}

/// Lists a directory of the workspace.
#[derive(Debug)]
pub struct FileListTool {
    definition: ToolDef,
}

impl FileListTool {
    pub closed spec fn def_of(&self) -> ToolDefView {
        self.definition@
    }

    pub fn new() -> (r: Self)
        ensures
            r.def_of() == file_list_def(),
    {
        let props = object3(
            "max_depth",
            prop("integer", Some(1), None),
            "path",
            prop("string", None, Some("Workspace-relative directory path.")),
            "pattern",
            prop("string", None, Some("Optional glob for file names.")),
        );
        let required = vec!["path"];
        proof { assert(required@.map_values(|k: &str| k@) =~= seq!["path"@]); }
        let parameters = schema(props, required);
        FileListTool {
            definition: tool_def("file_list", "List files and directories within the configured workspace.", parameters),
        }
    }

    pub fn definition(&self) -> (r: &ToolDef)
        ensures
            r@ == self.def_of(),
    {
        &self.definition
    }

    /// The request a call makes; see `list_args`.
    pub fn arguments(arguments: &JsonValue) -> (r: Result<ListDirRequest, ToolExecutorError>)
        ensures
            match r {
                Ok(q) => list_args(arguments@) == Ok::<(Seq<char>, Option<usize>, Option<Seq<char>>), ToolErrorView>((
                    q.path@,
                    q.max_depth,
                    match q.pattern { Some(t) => Some(t@), None => None },
                )),
                Err(e) => list_args(arguments@) == Err::<(Seq<char>, Option<usize>, Option<Seq<char>>), ToolErrorView>(e@),
            },
    {
        let path = match required_string(arguments, "path") {
            Ok(p) => p,
            Err(e) => return Err(e),
        };
        let mut request = ListDirRequest::new(path.as_str());
        request.max_depth = match optional_usize(arguments, "max_depth") {
            Ok(n) => n,
            Err(e) => return Err(e),
        };
        request.pattern = match optional_string(arguments, "pattern") {
            Ok(t) => t,
            Err(e) => return Err(e),
        };
        Ok(request)
    }

    /// The reply for what the selector found; see `list_reply`.
    pub fn reply(outcome: Result<Vec<FileEntry>, SelectError>) -> (r: Result<JsonValue, ToolExecutorError>)
        ensures
            reply_view(r) == list_reply(outcome),
    {
        match outcome {
            Ok(entries) => {
                let mut items: Vec<JsonValue> = Vec::new();
                let mut i: usize = 0;
                while i < entries.len()
                    invariant
                        i <= entries@.len(),
                        items@.len() == i,
                        forall|j: int| 0 <= j < i ==> (#[trigger] items@[j])@ == file_entry_json(entries@[j]),
                    decreases entries@.len() - i,
                {
                    let e = &entries[i];
                    let size = match e.size_bytes {
                        Some(n) => JsonValue::Number(JsonNumber::PosInt(n)),
                        None => JsonValue::Null,
                    };
                    proof {
                        assert(size@ == match entries@[i as int].size_bytes {
                            Some(n) => jnum(n),
                            None => JsonView::Null,
                        });
                    }
                    let item = object3("is_dir", JsonValue::Bool(e.is_dir), "path", str_value(e.path.as_str()), "size_bytes", size);
items.push(item);
                    i = i + 1;
                }
                proof {
                    assert(items@.map_values(|x: JsonValue| x@) =~= entries@.map_values(|e: FileEntry| file_entry_json(e)));
                }
                Ok(object1("entries", array_value(items)))
            },
            Err(e) => Err(select_failure_error(&e)),
        }
    }

    /// Runs a call against `selector`: bad arguments are refused before it is
    /// asked; otherwise the reply is made of what it found.
    pub fn execute<F: FileSelector>(&self, selector: &F, arguments: &JsonValue) -> (r: Result<JsonValue, ToolExecutorError>)
        ensures
            list_args(arguments@) is Err ==> reply_view(r) == Err::<JsonView, ToolErrorView>(list_args(arguments@)->Err_0),
            list_args(arguments@) is Ok ==> exists|o: Result<Vec<FileEntry>, SelectError>| reply_view(r) == #[trigger] list_reply(o),
    {
        match Self::arguments(arguments) {
            Err(e) => Err(e),
            Ok(request) => {
                let outcome = selector.list_dir(&request);
                let ghost o = outcome;
                let r = Self::reply(outcome);
                proof { assert(reply_view(r) == list_reply(o)); }
                r
            },
        }
    }
}

/// A matching line as JSON.
pub open spec fn grep_match_json(m: GrepMatch) -> JsonView {
    JsonView::Object(seq![
        ("content"@, jstr(m.content@)),
        ("file"@, jstr(m.file@)),
        ("line"@, jnum(m.line as u64)),
    ])
}

/// What `file_search` is called with: a pattern and a path, then an optional
/// file filter, case folding (off unless given) and a limit.
pub open spec fn search_args(args: JsonView) -> Result<(Seq<char>, Seq<char>, Option<Seq<char>>, bool, Option<usize>), ToolErrorView> {
    match string_arg(args, "pattern"@) {
        Err(e) => Err(e),
        Ok(pattern) => match string_arg(args, "path"@) {
            Err(e) => Err(e),
            Ok(path) => match opt_string_arg(args, "file_pattern"@) {
                Err(e) => Err(e),
                Ok(file_pattern) => match opt_bool_arg(args, "ignore_case"@) {
                    Err(e) => Err(e),
                    Ok(ignore_case) => match opt_usize_arg(args, "max_results"@) {
                        Err(e) => Err(e),
                        Ok(max_results) => Ok((
                            pattern,
                            path,
                            file_pattern,
                            if let Some(b) = ignore_case { b } else { false },
                            max_results,
                        )),
                    },
                },
            },
        },
    }
}

/// The reply of `file_search`, by what the selector found.
pub open spec fn search_reply(outcome: Result<Vec<GrepMatch>, SelectError>) -> Result<JsonView, ToolErrorView> {
    match outcome {
        Ok(matches) => Ok(JsonView::Object(seq![
            ("matches"@, JsonView::Array(matches@.map_values(|m: GrepMatch| grep_match_json(m)))),
        ])),
        Err(e) => Err(select_failure(e)),
    }
}

pub open spec fn file_search_def() -> ToolDefView {
    ToolDefView {
        name: "file_search"@,
        description: "Search file contents in the workspace using a regex pattern."@,
        parameters: schema_json(
            seq![
                ("file_pattern"@, string_prop("Optional glob filter for file names."@)),
                ("ignore_case"@, plain_prop("boolean"@)),
                ("max_results"@, prop_json("integer"@, Some(1), None)),
                ("path"@, string_prop("Workspace-relative file or directory path."@)),
                ("pattern"@, string_prop("Regex pattern to search for."@)),
            ],
            seq!["pattern"@, "path"@],
        ),
    }
}

/// An object of five members, in the order given.
fn object5(
    k1: &str,
    v1: JsonValue,
    k2: &str,
    v2: JsonValue,
    k3: &str,
    v3: JsonValue,
    k4: &str,
    v4: JsonValue,
    k5: &str,
    v5: JsonValue,
) -> (r: JsonValue)
    ensures
        r@ == JsonView::Object(seq![(k1@, v1@), (k2@, v2@), (k3@, v3@), (k4@, v4@), (k5@, v5@)]),
{
    let mut ms: Vec<(String, JsonValue)> = Vec::new();
    ms.push((String::from_str(k1), v1));
    ms.push((String::from_str(k2), v2));
    ms.push((String::from_str(k3), v3));
    ms.push((String::from_str(k4), v4));
    ms.push((String::from_str(k5), v5));
    proof {
        lemma_members_view(ms@);
        assert(members_view(ms@) =~= seq![(k1@, v1@), (k2@, v2@), (k3@, v3@), (k4@, v4@), (k5@, v5@)]);
    }
    JsonValue::Object(ms)
}

/// Searches the contents of the workspace's files.
#[derive(Debug)]
pub struct FileSearchTool {
    definition: ToolDef,
}

impl FileSearchTool {
    pub closed spec fn def_of(&self) -> ToolDefView {
        self.definition@
    }

    pub fn new() -> (r: Self)
        ensures
            r.def_of() == file_search_def(),
    {
        let props = object5(
            "file_pattern",
            prop("string", None, Some("Optional glob filter for file names.")),
            "ignore_case",
            prop("boolean", None, None),
            "max_results",
            prop("integer", Some(1), None),
            "path",
            prop("string", None, Some("Workspace-relative file or directory path.")),
            "pattern",
            prop("string", None, Some("Regex pattern to search for.")),
        );
        let required = vec!["pattern", "path"];
        proof { assert(required@.map_values(|k: &str| k@) =~= seq!["pattern"@, "path"@]); }
        let parameters = schema(props, required);
        FileSearchTool {
            definition: tool_def("file_search", "Search file contents in the workspace using a regex pattern.", parameters),
        }
    }

    pub fn definition(&self) -> (r: &ToolDef)
        ensures
            r@ == self.def_of(),
    {
        &self.definition
    }

    /// The request a call makes; see `search_args`.
    pub fn arguments(arguments: &JsonValue) -> (r: Result<GrepRequest, ToolExecutorError>)
        ensures
            match r {
                Ok(q) => search_args(arguments@) == Ok::<(Seq<char>, Seq<char>, Option<Seq<char>>, bool, Option<usize>), ToolErrorView>((
                    q.pattern@,
                    q.path@,
                    match q.file_pattern { Some(t) => Some(t@), None => None },
                    q.ignore_case,
                    q.max_results,
                )),
                Err(e) => search_args(arguments@) == Err::<(Seq<char>, Seq<char>, Option<Seq<char>>, bool, Option<usize>), ToolErrorView>(e@),
            },
    {
        let pattern = match required_string(arguments, "pattern") {
            Ok(p) => p,
            Err(e) => return Err(e),
        };
        let path = match required_string(arguments, "path") {
            Ok(p) => p,
            Err(e) => return Err(e),
        };
        let mut request = GrepRequest::new(pattern.as_str(), path.as_str());
        request.file_pattern = match optional_string(arguments, "file_pattern") {
            Ok(t) => t,
            Err(e) => return Err(e),
        };
        request.ignore_case = match optional_bool(arguments, "ignore_case") {
            Ok(Some(b)) => b,
            Ok(None) => false,
            Err(e) => return Err(e),
        };
        request.max_results = match optional_usize(arguments, "max_results") {
            Ok(n) => n,
            Err(e) => return Err(e),
        };
        Ok(request)
    }

    /// The reply for what the selector found; see `search_reply`.
    pub fn reply(outcome: Result<Vec<GrepMatch>, SelectError>) -> (r: Result<JsonValue, ToolExecutorError>)
        ensures
            reply_view(r) == search_reply(outcome),
    {
        match outcome {
            Ok(matches) => {
                let mut items: Vec<JsonValue> = Vec::new();
                let mut i: usize = 0;
                while i < matches.len()
                    invariant
                        i <= matches@.len(),
                        items@.len() == i,
                        forall|j: int| 0 <= j < i ==> (#[trigger] items@[j])@ == grep_match_json(matches@[j]),
                    decreases matches@.len() - i,
                {
                    let m = &matches[i];
                    items.push(object3(
                        "content",
                        str_value(m.content.as_str()),
                        "file",
                        str_value(m.file.as_str()),
                        "line",
                        num_value(m.line),
                    ));
                    i = i + 1;
                }
                proof {
                    assert(items@.map_values(|x: JsonValue| x@) =~= matches@.map_values(|m: GrepMatch| grep_match_json(m)));
                }
                Ok(object1("matches", array_value(items)))
            },
            Err(e) => Err(select_failure_error(&e)),
        }
    }

    /// Runs a call against `selector`: bad arguments are refused before it is
    /// asked; otherwise the reply is made of what it found.
    pub fn execute<F: FileSelector>(&self, selector: &F, arguments: &JsonValue) -> (r: Result<JsonValue, ToolExecutorError>)
        ensures
            search_args(arguments@) is Err ==> reply_view(r) == Err::<JsonView, ToolErrorView>(search_args(arguments@)->Err_0),
            search_args(arguments@) is Ok ==> exists|o: Result<Vec<GrepMatch>, SelectError>| reply_view(r) == #[trigger] search_reply(o),
    {
        match Self::arguments(arguments) {
            Err(e) => Err(e),
            Ok(request) => {
                let outcome = selector.grep(&request);
                let ghost o = outcome;
                let r = Self::reply(outcome);
                proof { assert(reply_view(r) == search_reply(o)); }
                r
            },
        }
    }
}

/// Lines read from a file, as JSON.
pub open spec fn file_content_json(c: FileContent) -> JsonView {
    JsonView::Object(seq![
        ("content"@, jstr(c.content@)),
        ("end_line"@, jnum(c.end_line as u64)),
        ("path"@, jstr(c.path@)),
        ("start_line"@, jnum(c.start_line as u64)),
        ("total_lines"@, jnum(c.total_lines as u64)),
    ])
}

/// What `file_read` is called with: a path and optional line bounds.
pub open spec fn file_read_args(args: JsonView) -> Result<(Seq<char>, Option<usize>, Option<usize>), ToolErrorView> {
    match string_arg(args, "path"@) {
        Err(e) => Err(e),
        Ok(path) => match opt_usize_arg(args, "start_line"@) {
            Err(e) => Err(e),
            Ok(start) => match opt_usize_arg(args, "end_line"@) {
                Err(e) => Err(e),
                Ok(end) => Ok((path, start, end)),
            },
        },
    }
}

/// The reply of `file_read`, by what the selector read.
pub open spec fn file_read_reply(outcome: Result<FileContent, SelectError>) -> Result<JsonView, ToolErrorView> {
    match outcome {
        Ok(c) => Ok(file_content_json(c)),
        Err(e) => Err(select_failure(e)),
    }
}

pub open spec fn file_read_def() -> ToolDefView {
    ToolDefView {
        name: "file_read"@,
        description: "Read a file fragment from the workspace using optional 1-based line bounds."@,
        parameters: schema_json(
            seq![
                ("end_line"@, prop_json("integer"@, Some(1), None)),
                ("path"@, string_prop("Workspace-relative file path."@)),
                ("start_line"@, prop_json("integer"@, Some(1), None)),
            ],
            seq!["path"@],
        ),
    }
}

/// Reads lines of a file of the workspace.
#[derive(Debug)]
pub struct FileReadTool {
    definition: ToolDef,
}

impl FileReadTool {
    pub closed spec fn def_of(&self) -> ToolDefView {
        self.definition@
    }

    pub fn new() -> (r: Self)
        ensures
            r.def_of() == file_read_def(),
    {
        let props = object3(
            "end_line",
            prop("integer", Some(1), None),
            "path",
            prop("string", None, Some("Workspace-relative file path.")),
            "start_line",
            prop("integer", Some(1), None),
        );
        let required = vec!["path"];
        proof { assert(required@.map_values(|k: &str| k@) =~= seq!["path"@]); }
        let parameters = schema(props, required);
        FileReadTool {
            definition: tool_def(
                "file_read",
                "Read a file fragment from the workspace using optional 1-based line bounds.",
                parameters,
            ),
        }
    }

    pub fn definition(&self) -> (r: &ToolDef)
        ensures
            r@ == self.def_of(),
    {
        &self.definition
    }

    /// The request a call makes; see `file_read_args`.
    pub fn arguments(arguments: &JsonValue) -> (r: Result<ReadFileRequest, ToolExecutorError>)
        ensures
            match r {
                Ok(q) => file_read_args(arguments@) == Ok::<(Seq<char>, Option<usize>, Option<usize>), ToolErrorView>((
                    q.path@,
                    q.start_line,
                    q.end_line,
                )),
                Err(e) => file_read_args(arguments@) == Err::<(Seq<char>, Option<usize>, Option<usize>), ToolErrorView>(e@),
            },
    {
        let path = match required_string(arguments, "path") {
            Ok(p) => p,
            Err(e) => return Err(e),
        };
        let mut request = ReadFileRequest::new(path.as_str());
        request.start_line = match optional_usize(arguments, "start_line") {
            Ok(n) => n,
            Err(e) => return Err(e),
        };
        request.end_line = match optional_usize(arguments, "end_line") {
            Ok(n) => n,
            Err(e) => return Err(e),
        };
        Ok(request)
    }

    /// The reply for what the selector read; see `file_read_reply`.
    pub fn reply(outcome: Result<FileContent, SelectError>) -> (r: Result<JsonValue, ToolExecutorError>)
        ensures
            reply_view(r) == file_read_reply(outcome),
    {
        match outcome {
            Ok(c) => Ok(object5(
                "content",
                str_value(c.content.as_str()),
                "end_line",
                num_value(c.end_line),
                "path",
                str_value(c.path.as_str()),
                "start_line",
                num_value(c.start_line),
                "total_lines",
                num_value(c.total_lines),
            )),
            Err(e) => Err(select_failure_error(&e)),
        }
    }

    /// Runs a call against `selector`: bad arguments are refused before it is
    /// asked; otherwise the reply is made of what it read.
    pub fn execute<F: FileSelector>(&self, selector: &F, arguments: &JsonValue) -> (r: Result<JsonValue, ToolExecutorError>)
        ensures
            file_read_args(arguments@) is Err ==> reply_view(r) == Err::<JsonView, ToolErrorView>(file_read_args(arguments@)->Err_0),
            file_read_args(arguments@) is Ok ==> exists|o: Result<FileContent, SelectError>| reply_view(r) == #[trigger] file_read_reply(o),
    {
        match Self::arguments(arguments) {
            Err(e) => Err(e),
            Ok(request) => {
                let outcome = selector.read_file(&request);
                let ghost o = outcome;
                let r = Self::reply(outcome);
                proof { assert(reply_view(r) == file_read_reply(o)); }
                r
            },
        }
    }
}

/// One of the memory and file tools.
#[derive(Debug)]
pub enum MemoryTool {
    Read(MemoryReadTool),
    Write(MemoryWriteTool),
    Update(MemoryUpdateTool),
    Delete(MemoryDeleteTool),
    Rename(MemoryRenameTool),
    Insert(MemoryInsertTool),
    List(FileListTool),
    Search(FileSearchTool),
    FileRead(FileReadTool),
}

impl MemoryTool {
    pub open spec fn def_of(&self) -> ToolDefView {
        match self {
            MemoryTool::Read(t) => t.def_of(),
            MemoryTool::Write(t) => t.def_of(),
            MemoryTool::Update(t) => t.def_of(),
            MemoryTool::Delete(t) => t.def_of(),
            MemoryTool::Rename(t) => t.def_of(),
            MemoryTool::Insert(t) => t.def_of(),
            MemoryTool::List(t) => t.def_of(),
            MemoryTool::Search(t) => t.def_of(),
            MemoryTool::FileRead(t) => t.def_of(),
        }
    }

    pub fn definition(&self) -> (r: &ToolDef)
        ensures
            r@ == self.def_of(),
    {
        match self {
            MemoryTool::Read(t) => t.definition(),
            MemoryTool::Write(t) => t.definition(),
            MemoryTool::Update(t) => t.definition(),
            MemoryTool::Delete(t) => t.definition(),
            MemoryTool::Rename(t) => t.definition(),
            MemoryTool::Insert(t) => t.definition(),
            MemoryTool::List(t) => t.definition(),
            MemoryTool::Search(t) => t.definition(),
            MemoryTool::FileRead(t) => t.definition(),
        }
    }
}

/// The definitions of the memory and file tools, in the order they are
/// registered.
pub open spec fn memory_tool_defs() -> Seq<ToolDefView> {
    seq![
        memory_read_def(),
        memory_write_def(),
        memory_update_def(),
        memory_delete_def(),
        memory_rename_def(),
        memory_insert_def(),
        file_list_def(),
        file_search_def(),
        file_read_def(),
    ]
}

/// The memory and file tools, in the order they are registered: read, write,
/// update, delete, rename and insert in the memory, then list, search and
/// read in the workspace.
pub fn memory_tool_set() -> (r: Vec<MemoryTool>)
    ensures
        r@.len() == memory_tool_defs().len(),
        forall|i: int| 0 <= i < r@.len() ==> (#[trigger] r@[i]).def_of() == memory_tool_defs()[i],
{
    let r = vec![
        MemoryTool::Read(MemoryReadTool::new()),
        MemoryTool::Write(MemoryWriteTool::new()),
        MemoryTool::Update(MemoryUpdateTool::new()),
        MemoryTool::Delete(MemoryDeleteTool::new()),
        MemoryTool::Rename(MemoryRenameTool::new()),
        MemoryTool::Insert(MemoryInsertTool::new()),
        MemoryTool::List(FileListTool::new()),
        MemoryTool::Search(FileSearchTool::new()),
        MemoryTool::FileRead(FileReadTool::new()),
    ];
    r
}

} // verus!
