use agent::json::{json_to_text, JsonNumber, JsonValue};
use agent::memory::{
    DirectoryListing, FileContent, FileEntry, FileSelector, FileSnapshot, FindRequest, GrepMatch, GrepRequest, LineRange,
    ListDirRequest, MemoryEntry, MemoryError, MemoryStore, MemoryView, ReadFileRequest, SelectError,
};
use agent::memory_tools::{
    optional_bool, optional_usize, required_string, FileListTool, FileReadTool, FileSearchTool, MemoryDeleteTool,
    MemoryInsertTool, MemoryReadTool, MemoryRenameTool, MemoryUpdateTool, MemoryWriteTool,
};
use agent::message::ToolExecutorError;

fn s(v: &str) -> JsonValue {
    JsonValue::Str(v.to_string())
}

fn n(v: u64) -> JsonValue {
    JsonValue::Number(JsonNumber::PosInt(v))
}

fn obj(members: Vec<(&str, JsonValue)>) -> JsonValue {
    JsonValue::Object(members.into_iter().map(|(k, v)| (k.to_string(), v)).collect())
}

fn text(v: &JsonValue) -> String {
    json_to_text(v)
}

fn exec_error(r: Result<JsonValue, ToolExecutorError>) -> String {
    match r {
        Err(ToolExecutorError::ExecutionError(m)) => m,
        other => panic!("expected an execution error, got {:?}", other),
    }
}

#[derive(Default)]
struct Store {
    files: Vec<(String, Vec<String>)>,
    last_range: Option<Option<LineRange>>,
}

impl Store {
    fn position(&self, path: &str) -> Option<usize> {
        self.files.iter().position(|(p, _)| p == path)
    }
}

impl MemoryStore for Store {
    fn view(&self, path: &str, range: Option<LineRange>) -> Result<MemoryView, MemoryError> {
        let _ = range;
        match self.position(path) {
            Some(i) => Ok(MemoryView::File(FileSnapshot {
                path: path.to_string(),
                lines: self.files[i].1.iter().enumerate().map(|(k, l)| (k + 1, l.clone())).collect(),
            })),
            None if path == "/memories" => Ok(MemoryView::Directory(DirectoryListing {
                path: path.to_string(),
                entries: self
                    .files
                    .iter()
                    .map(|(p, _)| MemoryEntry { path: p.clone(), size_bytes: 4, is_dir: false })
                    .collect(),
            })),
            None => Err(MemoryError::PathNotFound(path.to_string())),
        }
    }

    fn create(&mut self, path: &str, content: &str) -> Result<(), MemoryError> {
        if !path.starts_with("/memories") {
            return Err(MemoryError::InvalidPath(path.to_string()));
        }
        if self.position(path).is_some() {
            return Err(MemoryError::FileExists(path.to_string()));
        }
        self.files.push((path.to_string(), content.lines().map(|l| l.to_string()).collect()));
        Ok(())
    }

    fn replace_text(&mut self, path: &str, old_text: &str, new_text: &str) -> Result<(), MemoryError> {
        let i = self.position(path).ok_or_else(|| MemoryError::PathNotFound(path.to_string()))?;
        let hits: Vec<usize> =
            self.files[i].1.iter().enumerate().filter(|(_, l)| l.contains(old_text)).map(|(k, _)| k + 1).collect();
        match hits.len() {
            0 => Err(MemoryError::TextNotFound(old_text.to_string())),
            1 => {
                let k = hits[0] - 1;
                self.files[i].1[k] = self.files[i].1[k].replace(old_text, new_text);
                Ok(())
            }
            _ => Err(MemoryError::MultipleOccurrences { text: old_text.to_string(), lines: hits }),
        }
    }

    fn insert(&mut self, path: &str, line: usize, text: &str) -> Result<(), MemoryError> {
        let i = self.position(path).ok_or_else(|| MemoryError::PathNotFound(path.to_string()))?;
        let max_lines = self.files[i].1.len();
        if line > max_lines {
            return Err(MemoryError::InvalidLine { line, max_lines });
        }
        self.files[i].1.insert(line, text.to_string());
        Ok(())
    }

    fn delete(&mut self, path: &str) -> Result<(), MemoryError> {
        if path == "/memories" {
            return Err(MemoryError::CannotDeleteRoot);
        }
        let i = self.position(path).ok_or_else(|| MemoryError::PathNotFound(path.to_string()))?;
        self.files.remove(i);
        Ok(())
    }

    fn rename(&mut self, old_path: &str, new_path: &str) -> Result<(), MemoryError> {
        if self.position(new_path).is_some() {
            return Err(MemoryError::DestinationExists(new_path.to_string()));
        }
        let i = self.position(old_path).ok_or_else(|| MemoryError::PathNotFound(old_path.to_string()))?;
        self.files[i].0 = new_path.to_string();
        Ok(())
    }

    fn clear_all(&mut self) -> Result<(), MemoryError> {
        self.files.clear();
        Ok(())
    }
}

struct Selector;

impl FileSelector for Selector {
    fn list_dir(&self, request: &ListDirRequest) -> Result<Vec<FileEntry>, SelectError> {
        if request.path == "missing" {
            return Err(SelectError::NotFound(request.path.clone()));
        }
        Ok(vec![
            FileEntry { path: "src".to_string(), is_dir: true, size_bytes: None },
            FileEntry { path: "src/lib.rs".to_string(), is_dir: false, size_bytes: Some(37) },
        ])
    }

    fn find(&self, _request: &FindRequest) -> Result<Vec<String>, SelectError> {
        Ok(vec![])
    }

    fn grep(&self, request: &GrepRequest) -> Result<Vec<GrepMatch>, SelectError> {
        if request.ignore_case {
            return Err(SelectError::Regex("case folding is not supported here".to_string()));
        }
        Ok(vec![GrepMatch { file: "src/lib.rs".to_string(), line: 1, content: "pub fn login() {}".to_string() }])
    }

    fn read_file(&self, request: &ReadFileRequest) -> Result<FileContent, SelectError> {
        Ok(FileContent {
            path: request.path.clone(),
            content: "pub fn login() {}".to_string(),
            start_line: request.start_line.unwrap_or(1),
            end_line: request.end_line.unwrap_or(2),
            total_lines: 2,
        })
    }
}

#[test]
fn argument_readers_report_missing_and_invalid_values() {
    let args = obj(vec![("path", s("/memories/a.md")), ("line", s("three")), ("flag", JsonValue::Null)]);
    assert_eq!(required_string(&args, "path").unwrap(), "/memories/a.md");
    match required_string(&args, "content") {
        Err(ToolExecutorError::ExecutionError(m)) => assert_eq!(m, "Missing or invalid 'content' parameter"),
        other => panic!("unexpected {:?}", other),
    }
    match optional_usize(&args, "line") {
        Err(ToolExecutorError::ExecutionError(m)) => assert_eq!(m, "Invalid 'line' parameter"),
        other => panic!("unexpected {:?}", other),
    }
    assert_eq!(optional_bool(&args, "flag").unwrap(), None);
    assert_eq!(optional_usize(&args, "absent").unwrap(), None);
    assert!(required_string(&s("not an object"), "path").is_err());
}

#[test]
fn memory_write_then_read_round_trip() {
    let mut store = Store::default();
    let write = MemoryWriteTool::new();
    let read = MemoryReadTool::new();
    let reply = write
        .execute(
            &mut store,
            &obj(vec![("path", s("/memories/analysis.md")), ("content", s("# Analysis\n\n- target: auth module"))]),
        )
        .unwrap();
    assert_eq!(text(&reply), r#"{"ok":true,"path":"/memories/analysis.md"}"#);

    let shown = read.execute(&store, &obj(vec![("path", s("/memories/analysis.md"))])).unwrap();
    assert_eq!(
        text(&shown),
        r##"{"kind":"file","lines":[[1,"# Analysis"],[2,""],[3,"- target: auth module"]],"path":"/memories/analysis.md"}"##
    );

    let listing = read.execute(&store, &obj(vec![("path", s("/memories"))])).unwrap();
    assert_eq!(
        text(&listing),
        r#"{"entries":[{"is_dir":false,"path":"/memories/analysis.md","size_bytes":4}],"kind":"directory","path":"/memories"}"#
    );
}

#[test]
fn memory_write_outside_memories_fails() {
    let mut store = Store::default();
    let write = MemoryWriteTool::new();
    let r = write.execute(&mut store, &obj(vec![("path", s("/tmp/outside.md")), ("content", s("nope"))]));
    assert_eq!(exec_error(r), "path must start with /memories: /tmp/outside.md");
    let twice = obj(vec![("path", s("/memories/a.md")), ("content", s("x"))]);
    write.execute(&mut store, &twice).unwrap();
    assert_eq!(exec_error(write.execute(&mut store, &twice)), "file already exists: /memories/a.md");
}

#[test]
fn memory_read_range_defaults_its_start() {
    let only_end = obj(vec![("path", s("/memories/a.md")), ("end_line", n(4))]);
    let (path, range) = MemoryReadTool::arguments(&only_end).unwrap();
    assert_eq!(path, "/memories/a.md");
    assert_eq!(range, Some(LineRange { start: 1, end: Some(4) }));
    let (_, none) = MemoryReadTool::arguments(&obj(vec![("path", s("/memories/a.md"))])).unwrap();
    assert_eq!(none, None);
    let bad = obj(vec![("path", s("/memories/a.md")), ("start_line", s("one"))]);
    assert_eq!(exec_error(MemoryReadTool::new().execute(&Store::default(), &bad)), "Invalid 'start_line' parameter");
}

#[test]
fn memory_update_insert_rename_delete() {
    let mut store = Store::default();
    MemoryWriteTool::new()
        .execute(&mut store, &obj(vec![("path", s("/memories/n.md")), ("content", s("a login\nb login\nc"))]))
        .unwrap();
    let update = MemoryUpdateTool::new();
    let dup = update.execute(
        &mut store,
        &obj(vec![("path", s("/memories/n.md")), ("old_text", s("login")), ("new_text", s("auth"))]),
    );
    assert_eq!(exec_error(dup), "multiple occurrences found for `login` at lines [1, 2]");
    let ok = update
        .execute(&mut store, &obj(vec![("path", s("/memories/n.md")), ("old_text", s("a login")), ("new_text", s("a auth"))]))
        .unwrap();
    assert_eq!(text(&ok), r#"{"ok":true,"path":"/memories/n.md"}"#);

    let insert = MemoryInsertTool::new();
    let inserted =
        insert.execute(&mut store, &obj(vec![("path", s("/memories/n.md")), ("line", n(3)), ("text", s("d"))])).unwrap();
    assert_eq!(text(&inserted), r#"{"line":3,"ok":true,"path":"/memories/n.md"}"#);
    let too_far = insert.execute(&mut store, &obj(vec![("path", s("/memories/n.md")), ("line", n(9)), ("text", s("e"))]));
    assert_eq!(exec_error(too_far), "invalid insert line 9, valid range is [0, 4]");
    let no_line = insert.execute(&mut store, &obj(vec![("path", s("/memories/n.md")), ("text", s("e"))]));
    assert_eq!(exec_error(no_line), "Missing or invalid 'line' parameter");

    let renamed = MemoryRenameTool::new()
        .execute(&mut store, &obj(vec![("old_path", s("/memories/n.md")), ("new_path", s("/memories/m.md"))]))
        .unwrap();
    assert_eq!(text(&renamed), r#"{"new_path":"/memories/m.md","ok":true,"old_path":"/memories/n.md"}"#);

    let delete = MemoryDeleteTool::new();
    assert_eq!(exec_error(delete.execute(&mut store, &obj(vec![("path", s("/memories"))]))), "cannot delete /memories root");
    let deleted = delete.execute(&mut store, &obj(vec![("path", s("/memories/m.md"))])).unwrap();
    assert_eq!(text(&deleted), r#"{"ok":true,"path":"/memories/m.md"}"#);
    assert!(store.files.is_empty());
}

#[test]
fn file_tools_shape_their_replies() {
    let list = FileListTool::new().execute(&Selector, &obj(vec![("path", s("."))])).unwrap();
    assert_eq!(
        text(&list),
        r#"{"entries":[{"is_dir":true,"path":"src","size_bytes":null},{"is_dir":false,"path":"src/lib.rs","size_bytes":37}]}"#
    );
    assert_eq!(exec_error(FileListTool::new().execute(&Selector, &obj(vec![("path", s("missing"))]))), "path not found: missing");

    let search_args = obj(vec![("path", s(".")), ("pattern", s("login")), ("file_pattern", s("*.rs"))]);
    let request = FileSearchTool::arguments(&search_args).unwrap();
    assert!(!request.ignore_case);
    assert_eq!(request.file_pattern, Some("*.rs".to_string()));
    let found = FileSearchTool::new().execute(&Selector, &search_args).unwrap();
    assert_eq!(text(&found), r#"{"matches":[{"content":"pub fn login() {}","file":"src/lib.rs","line":1}]}"#);
    let folded = obj(vec![("path", s(".")), ("pattern", s("login")), ("ignore_case", JsonValue::Bool(true))]);
    assert_eq!(exec_error(FileSearchTool::new().execute(&Selector, &folded)), "regex error: case folding is not supported here");

    let read = FileReadTool::new()
        .execute(&Selector, &obj(vec![("path", s("src/lib.rs")), ("start_line", n(1)), ("end_line", n(1))]))
        .unwrap();
    assert_eq!(
        text(&read),
        r#"{"content":"pub fn login() {}","end_line":1,"path":"src/lib.rs","start_line":1,"total_lines":2}"#
    );
}

#[test]
fn tool_definitions_describe_their_parameters() {
    let delete = MemoryDeleteTool::new();
    assert_eq!(delete.definition().name, "memory_delete");
    assert_eq!(
        text(&delete.definition().parameters),
        r#"{"properties":{"path":{"type":"string"}},"required":["path"],"type":"object"}"#
    );
    let insert = MemoryInsertTool::new();
    assert_eq!(
        text(&insert.definition().parameters),
        r#"{"properties":{"line":{"description":"Zero-based insertion index.","minimum":0,"type":"integer"},"path":{"type":"string"},"text":{"type":"string"}},"required":["path","line","text"],"type":"object"}"#
    );
    assert_eq!(MemoryReadTool::new().definition().name, "memory_read");
    assert_eq!(FileSearchTool::new().definition().name, "file_search");
}

#[test]
fn memory_tool_set_lists_the_tools_in_order() {
    let names: Vec<String> = agent::memory_tools::memory_tool_set().iter().map(|t| t.definition().name.clone()).collect();
    assert_eq!(
        names,
        vec![
            "memory_read",
            "memory_write",
            "memory_update",
            "memory_delete",
            "memory_rename",
            "memory_insert",
            "file_list",
            "file_search",
            "file_read",
        ]
    );
}

#[test]
fn json_strings_are_escaped_as_serde_json_does() {
    let v = JsonValue::Str("a\"b\\c\n\t\u{1}\u{7f}é".to_string());
    assert_eq!(json_to_text(&v), "\"a\\\"b\\\\c\\n\\t\\u0001\u{7f}é\"");
}
