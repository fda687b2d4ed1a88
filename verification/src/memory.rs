use vstd::prelude::*;

use crate::json::{decimal, decimal_string};
use crate::text::{concat2, concat3};

verus! {

/// Why an operation on the `/memories` store failed.
#[derive(Debug, PartialEq, Eq)]
pub enum MemoryError {
    InvalidPath(String),
    PathTraversal(String),
    PathNotFound(String),
    CannotDeleteRoot,
    FileExists(String),
    DestinationExists(String),
    ContentTooLarge { max_bytes: usize, actual_bytes: usize },
    TextNotFound(String),
    MultipleOccurrences { text: String, lines: Vec<usize> },
    InvalidLine { line: usize, max_lines: usize },
    Io(String),
}

/// A store of memory files under `/memories`, implemented by its users.
pub trait MemoryStore {
    /// A directory's listing or a file's lines, optionally a range of them.
    fn view(&self, path: &str, range: Option<LineRange>) -> Result<MemoryView, MemoryError>;

    /// Creates the file `path` with `content`.
    fn create(&mut self, path: &str, content: &str) -> Result<(), MemoryError>;

    /// Replaces the one occurrence of `old_text` in the file `path`.
    fn replace_text(&mut self, path: &str, old_text: &str, new_text: &str) -> Result<(), MemoryError>;

    /// Inserts `text` as a line at the 0-based index `line`.
    fn insert(&mut self, path: &str, line: usize, text: &str) -> Result<(), MemoryError>;

    /// Deletes a file or a directory.
    fn delete(&mut self, path: &str) -> Result<(), MemoryError>;

    /// Renames or moves a file or a directory.
    fn rename(&mut self, old_path: &str, new_path: &str) -> Result<(), MemoryError>;

    /// Removes everything under `/memories`.
    fn clear_all(&mut self) -> Result<(), MemoryError>;
}

/// A range of lines, 1-based and inclusive; an open end runs to the last line.
#[derive(Debug, Clone, Copy, PartialEq, Eq)]
pub struct LineRange {
    pub start: usize,
    pub end: Option<usize>,
}

impl LineRange {
    pub fn new(start: usize, end: Option<usize>) -> (r: LineRange)
        ensures
            r.start == start,
            r.end == end,
    {
        LineRange { start, end }
    }
}

/// `base` joined with the relative path `part`, as `Path::join` joins them.
pub open spec fn path_join(base: Seq<char>, part: Seq<char>) -> Seq<char> {
    if base.len() == 0 {
        part
    } else if base.last() == '/' {
        base + part
    } else {
        base + "/"@ + part
    }
}

/// Where the memory store lives and how large its files may grow.
#[derive(Debug)]
pub struct MemoryConfig {
    pub base_path: String,
    pub max_file_size: usize,
    pub max_line_length: usize,
}

impl Default for MemoryConfig {
    fn default() -> (r: MemoryConfig)
        ensures
            r.base_path@ == "./memory"@,
            r.max_file_size == 1024 * 1024,
            r.max_line_length == 2000,
    {
        MemoryConfig { base_path: String::from_str("./memory"), max_file_size: 1024 * 1024, max_line_length: 2000 }
    }
}

impl MemoryConfig {
    pub fn new(base_path: &str) -> (r: MemoryConfig)
        ensures
            r.base_path@ == base_path@,
            r.max_file_size == 1024 * 1024,
            r.max_line_length == 2000,
    {
        MemoryConfig { base_path: String::from_str(base_path), max_file_size: 1024 * 1024, max_line_length: 2000 }
    }

    /// The directory that holds `/memories`: `memories` under the base path.
    pub fn memory_root(&self) -> (r: String)
        ensures
            r@ == path_join(self.base_path@, "memories"@),
    {
        let cs = crate::text::chars_of(self.base_path.as_str());
        if cs.len() == 0 {
            String::from_str("memories")
        } else if cs[cs.len() - 1] == '/' {
            concat2(self.base_path.as_str(), "memories")
        } else {
            concat3(self.base_path.as_str(), "/", "memories")
        }
    }
}

impl Clone for MemoryConfig {
    fn clone(&self) -> (r: Self)
        ensures
            r.base_path@ == self.base_path@,
            r.max_file_size == self.max_file_size,
            r.max_line_length == self.max_line_length,
    {
        MemoryConfig { base_path: self.base_path.clone(), max_file_size: self.max_file_size, max_line_length: self.max_line_length }
    }
}

/// A file or directory in a listing.
#[derive(Debug, PartialEq, Eq)]
pub struct MemoryEntry {
    pub path: String,
    pub size_bytes: usize,
    pub is_dir: bool,
}

/// A directory and what is in it.
#[derive(Debug, PartialEq, Eq)]
pub struct DirectoryListing {
    pub path: String,
    pub entries: Vec<MemoryEntry>,
}

/// A file's lines with their numbers.
#[derive(Debug, PartialEq, Eq)]
pub struct FileSnapshot {
    pub path: String,
    pub lines: Vec<(usize, String)>,
}

/// What reading a memory path shows.
#[derive(Debug, PartialEq, Eq)]
pub enum MemoryView {
    Directory(DirectoryListing),
    File(FileSnapshot),
}

/// `n` right-aligned in six columns.
pub open spec fn pad6(n: nat) -> Seq<char> {
    let d = decimal(n);
    if d.len() < 6 { Seq::new((6 - d.len()) as nat, |_i: int| ' ') + d } else { d }
}

/// The text of a snapshot: a heading, then each line as number, tab, text.
pub open spec fn snapshot_text(path: Seq<char>, lines: Seq<(usize, Seq<char>)>) -> Seq<char>
    decreases lines.len(),
{
    if lines.len() == 0 {
        "Here's the content of "@ + path + " with line numbers:\n"@
    } else {
        snapshot_text(path, lines.drop_last()) + pad6(lines.last().0 as nat) + "\t"@ + lines.last().1 + "\n"@
    }
}

fn pad6_string(n: usize) -> (r: String)
    ensures
        r@ == pad6(n as nat),
{
    let d = decimal_string(n as u64);
    let cs = crate::text::chars_of(d.as_str());
    if cs.len() >= 6 {
        return d;
    }
    let mut r = String::new();
    let mut k: usize = cs.len();
    while k < 6
        invariant
            cs@ == decimal(n as nat),
            cs@.len() <= k <= 6,
            r@ == Seq::new((k - cs@.len()) as nat, |_i: int| ' '),
        decreases 6 - k,
    {
        crate::json::push_char(&mut r, ' ');
        proof { assert(r@ =~= Seq::new((k + 1 - cs@.len()) as nat, |_i: int| ' ')); }
        k = k + 1;
    }
    r.append(d.as_str());
    r
}

impl FileSnapshot {
    pub open spec fn lines_view(&self) -> Seq<(usize, Seq<char>)> {
        self.lines@.map_values(|l: (usize, String)| (l.0, l.1@))
    }

    /// The snapshot as text; see `snapshot_text`.
    pub fn to_text(&self) -> (r: String)
        ensures
            r@ == snapshot_text(self.path@, self.lines_view()),
    {
        let mut r = concat3("Here's the content of ", self.path.as_str(), " with line numbers:\n");
        let ghost lv = self.lines_view();
        let mut i: usize = 0;
        proof { assert(lv.take(0) =~= Seq::<(usize, Seq<char>)>::empty()); }
        while i < self.lines.len()
            invariant
                i <= self.lines.len(),
                lv == self.lines_view(),
                r@ == snapshot_text(self.path@, lv.take(i as int)),
            decreases self.lines.len() - i,
        {
            proof {
                assert(lv.take(i as int + 1).drop_last() =~= lv.take(i as int));
                assert(lv.take(i as int + 1).last() == (self.lines@[i as int].0, self.lines@[i as int].1@));
            }
            let p = pad6_string(self.lines[i].0);
            r.append(p.as_str());
            r.append("\t");
            r.append(self.lines[i].1.as_str());
            r.append("\n");
            i = i + 1;
        }
        proof { assert(lv.take(lv.len() as int) =~= lv); }
        r
    }
}

/// The text of an error, as its `Display` writes it.
pub open spec fn memory_error_text(e: MemoryError) -> Seq<char> {
    match e {
        MemoryError::InvalidPath(p) => "path must start with /memories: "@ + p@,
        MemoryError::PathTraversal(p) => "path escapes /memories: "@ + p@,
        MemoryError::PathNotFound(p) => "path not found: "@ + p@,
        MemoryError::CannotDeleteRoot => "cannot delete /memories root"@,
        MemoryError::FileExists(p) => "file already exists: "@ + p@,
        MemoryError::DestinationExists(p) => "destination already exists: "@ + p@,
        MemoryError::ContentTooLarge { max_bytes, actual_bytes } => "content exceeds max size "@ + decimal(max_bytes as nat)
            + " bytes, got "@ + decimal(actual_bytes as nat) + " bytes"@,
        MemoryError::TextNotFound(t) => "text not found in file: "@ + t@,
        MemoryError::MultipleOccurrences { text, lines } => "multiple occurrences found for `"@ + text@ + "` at lines "@
            + number_list(lines@),
        MemoryError::InvalidLine { line, max_lines } => "invalid insert line "@ + decimal(line as nat) + ", valid range is [0, "@
            + decimal(max_lines as nat) + "]"@,
        MemoryError::Io(m) => "i/o error: "@ + m@,
    }
}

/// The numbers as `{:?}` prints a list of them.
pub open spec fn number_list(ns: Seq<usize>) -> Seq<char> {
    "["@ + crate::text::join(ns.map_values(|n: usize| decimal(n as nat)), ", "@) + "]"@
}

fn number_list_string(ns: &Vec<usize>) -> (r: String)
    ensures
        r@ == number_list(ns@),
{
    let mut parts: Vec<String> = Vec::new();
    let mut i: usize = 0;
    while i < ns.len()
        invariant
            i <= ns.len(),
            parts@.len() == i,
            forall|j: int| 0 <= j < i ==> (#[trigger] parts@[j])@ == decimal(ns@[j] as nat),
        decreases ns.len() - i,
    {
        parts.push(decimal_string(ns[i] as u64));
        i = i + 1;
    }
    let body = crate::text::join_strings(&parts, ", ");
    proof {
        assert(crate::text::strs_view(parts@) =~= ns@.map_values(|n: usize| decimal(n as nat)));
    }
    concat3("[", body.as_str(), "]")
}

impl MemoryError {
    /// The text of this error; see `memory_error_text`.
    pub fn to_text(&self) -> (r: String)
        ensures
            r@ == memory_error_text(*self),
    {
        match self {
            MemoryError::InvalidPath(p) => concat2("path must start with /memories: ", p.as_str()),
            MemoryError::PathTraversal(p) => concat2("path escapes /memories: ", p.as_str()),
            MemoryError::PathNotFound(p) => concat2("path not found: ", p.as_str()),
            MemoryError::CannotDeleteRoot => String::from_str("cannot delete /memories root"),
            MemoryError::FileExists(p) => concat2("file already exists: ", p.as_str()),
            MemoryError::DestinationExists(p) => concat2("destination already exists: ", p.as_str()),
            MemoryError::ContentTooLarge { max_bytes, actual_bytes } => {
                let a = decimal_string(*max_bytes as u64);
                let b = decimal_string(*actual_bytes as u64);
                let mut r = concat3("content exceeds max size ", a.as_str(), " bytes, got ");
                r.append(b.as_str());
                r.append(" bytes");
                r
            },
            MemoryError::TextNotFound(t) => concat2("text not found in file: ", t.as_str()),
            MemoryError::MultipleOccurrences { text, lines } => {
                let l = number_list_string(lines);
                let mut r = concat3("multiple occurrences found for `", text.as_str(), "` at lines ");
                r.append(l.as_str());
                r
            },
            MemoryError::InvalidLine { line, max_lines } => {
                let a = decimal_string(*line as u64);
                let b = decimal_string(*max_lines as u64);
                let mut r = concat3("invalid insert line ", a.as_str(), ", valid range is [0, ");
                r.append(b.as_str());
                r.append("]");
                r
            },
            MemoryError::Io(m) => concat2("i/o error: ", m.as_str()),
        }
    }
}

/// A file or directory that a search found.
#[derive(Debug, PartialEq, Eq)]
pub struct FileEntry {
    pub path: String,
    pub is_dir: bool,
    pub size_bytes: Option<u64>,
}

/// A line that matched a search.
#[derive(Debug, PartialEq, Eq)]
pub struct GrepMatch {
    pub file: String,
    pub line: usize,
    pub content: String,
}

/// Lines read from a file.
#[derive(Debug, PartialEq, Eq)]
pub struct FileContent {
    pub path: String,
    pub content: String,
    pub start_line: usize,
    pub end_line: usize,
    pub total_lines: usize,
}

/// A request to list a directory.
#[derive(Debug, PartialEq, Eq)]
pub struct ListDirRequest {
    pub path: String,
    pub max_depth: Option<usize>,
    pub pattern: Option<String>,
}

impl ListDirRequest {
    pub fn new(path: &str) -> (r: ListDirRequest)
        ensures
            r.path@ == path@,
            r.max_depth is None,
            r.pattern is None,
    {
        ListDirRequest { path: String::from_str(path), max_depth: None, pattern: None }
    }
}

/// A request to find files by name.
#[derive(Debug, PartialEq, Eq)]
pub struct FindRequest {
    pub path: String,
    pub name_pattern: Option<String>,
    pub only_directories: bool,
    pub only_files: bool,
    pub max_depth: Option<usize>,
}

impl FindRequest {
    pub fn new(path: &str) -> (r: FindRequest)
        ensures
            r.path@ == path@,
            r.name_pattern is None,
            !r.only_directories,
            !r.only_files,
            r.max_depth is None,
    {
        FindRequest { path: String::from_str(path), name_pattern: None, only_directories: false, only_files: false, max_depth: None }
    }
}

/// A request to search file contents.
#[derive(Debug, PartialEq, Eq)]
pub struct GrepRequest {
    pub pattern: String,
    pub path: String,
    pub file_pattern: Option<String>,
    pub ignore_case: bool,
    pub max_results: Option<usize>,
}

impl GrepRequest {
    pub fn new(pattern: &str, path: &str) -> (r: GrepRequest)
        ensures
            r.pattern@ == pattern@,
            r.path@ == path@,
            r.file_pattern is None,
            !r.ignore_case,
            r.max_results is None,
    {
        GrepRequest {
            pattern: String::from_str(pattern),
            path: String::from_str(path),
            file_pattern: None,
            ignore_case: false,
            max_results: None,
        }
    }
}

/// A request to read a file, optionally a range of its lines.
#[derive(Debug, PartialEq, Eq)]
pub struct ReadFileRequest {
    pub path: String,
    pub start_line: Option<usize>,
    pub end_line: Option<usize>,
}

impl ReadFileRequest {
    pub fn new(path: &str) -> (r: ReadFileRequest)
        ensures
            r.path@ == path@,
            r.start_line is None,
            r.end_line is None,
    {
        ReadFileRequest { path: String::from_str(path), start_line: None, end_line: None }
    }
}

/// Limits of file selection in the workspace.
#[derive(Debug)]
pub struct SelectConfig {
    pub base_path: Option<String>,
    pub max_depth: usize,
    pub max_results: usize,
    pub max_file_size: u64,
    pub max_line_length: usize,
    pub max_read_lines: usize,
}

pub open spec fn select_defaults(c: SelectConfig) -> bool {
    &&& c.max_depth == 10
    &&& c.max_results == 100
    &&& c.max_file_size == 10 * 1024 * 1024
    &&& c.max_line_length == 2000
    &&& c.max_read_lines == 1000
}

impl Default for SelectConfig {
    fn default() -> (r: SelectConfig)
        ensures
            r.base_path is None,
            select_defaults(r),
    {
        SelectConfig {
            base_path: None,
            max_depth: 10,
            max_results: 100,
            max_file_size: 10 * 1024 * 1024,
            max_line_length: 2000,
            max_read_lines: 1000,
        }
    }
}

impl SelectConfig {
    pub fn new(base_path: &str) -> (r: SelectConfig)
        ensures
            r.base_path is Some && r.base_path->0@ == base_path@,
            select_defaults(r),
    {
        SelectConfig {
            base_path: Some(String::from_str(base_path)),
            max_depth: 10,
            max_results: 100,
            max_file_size: 10 * 1024 * 1024,
            max_line_length: 2000,
            max_read_lines: 1000,
        }
    }
}

impl Clone for SelectConfig {
    fn clone(&self) -> (r: Self)
        ensures
            crate::message::opt_str(r.base_path) == crate::message::opt_str(self.base_path),
            r.max_depth == self.max_depth,
            r.max_results == self.max_results,
            r.max_file_size == self.max_file_size,
            r.max_line_length == self.max_line_length,
            r.max_read_lines == self.max_read_lines,
    {
        SelectConfig {
            base_path: crate::message::copy_opt_string(&self.base_path),
            max_depth: self.max_depth,
            max_results: self.max_results,
            max_file_size: self.max_file_size,
            max_line_length: self.max_line_length,
            max_read_lines: self.max_read_lines,
        }
    }
}

/// Why selecting files failed.
#[derive(Debug, PartialEq, Eq)]
pub enum SelectError {
    PathTraversal(String),
    OutsideBasePath(String),
    NotFound(String),
    NotDirectory(String),
    NotFile(String),
    Regex(String),
    FileTooLarge { actual: u64, limit: u64 },
    Io(String),
}

pub open spec fn select_error_text(e: SelectError) -> Seq<char> {
    match e {
        SelectError::PathTraversal(p) => "path traversal is not allowed: "@ + p@,
        SelectError::OutsideBasePath(p) => "path is outside allowed base path: "@ + p@,
        SelectError::NotFound(p) => "path not found: "@ + p@,
        SelectError::NotDirectory(p) => "path is not a directory: "@ + p@,
        SelectError::NotFile(p) => "path is a directory, not a file: "@ + p@,
        SelectError::Regex(m) => "regex error: "@ + m@,
        SelectError::FileTooLarge { actual, limit } => "file too large: "@ + decimal(actual as nat) + " bytes > "@
            + decimal(limit as nat) + " bytes"@,
        SelectError::Io(m) => "i/o error: "@ + m@,
    }
}

impl SelectError {
    /// The text of this error, as its `Display` writes it.
    pub fn to_text(&self) -> (r: String)
        ensures
            r@ == select_error_text(*self),
    {
        match self {
            SelectError::PathTraversal(p) => concat2("path traversal is not allowed: ", p.as_str()),
            SelectError::OutsideBasePath(p) => concat2("path is outside allowed base path: ", p.as_str()),
            SelectError::NotFound(p) => concat2("path not found: ", p.as_str()),
            SelectError::NotDirectory(p) => concat2("path is not a directory: ", p.as_str()),
            SelectError::NotFile(p) => concat2("path is a directory, not a file: ", p.as_str()),
            SelectError::Regex(m) => concat2("regex error: ", m.as_str()),
            SelectError::FileTooLarge { actual, limit } => {
                let a = decimal_string(*actual);
                let b = decimal_string(*limit);
                let mut r = concat3("file too large: ", a.as_str(), " bytes > ");
                r.append(b.as_str());
                r.append(" bytes");
                r
            },
            SelectError::Io(m) => concat2("i/o error: ", m.as_str()),
        }
    }
}

/// Read-only access to the files of a workspace, implemented by its users.
pub trait FileSelector {
    /// The entries of a directory.
    fn list_dir(&self, request: &ListDirRequest) -> Result<Vec<FileEntry>, SelectError>;

    /// The paths whose names match a request.
    fn find(&self, request: &FindRequest) -> Result<Vec<String>, SelectError>;

    /// The lines that match a pattern.
    fn grep(&self, request: &GrepRequest) -> Result<Vec<GrepMatch>, SelectError>;

    /// A range of a file's lines.
    fn read_file(&self, request: &ReadFileRequest) -> Result<FileContent, SelectError>;
}

/// The configuration of the memory and file tools.
#[derive(Debug)]
pub struct MemoryToolConfig {
    pub memory: MemoryConfig,
    pub select: SelectConfig,
}

impl Default for MemoryToolConfig {
    fn default() -> (r: MemoryToolConfig)
        ensures
            r.memory.base_path@ == "./memory"@,
            r.memory.max_file_size == 1024 * 1024,
            r.memory.max_line_length == 2000,
            r.select.base_path is None,
            select_defaults(r.select),
    {
        MemoryToolConfig { memory: MemoryConfig::default(), select: SelectConfig::default() }
    }
}

impl MemoryToolConfig {
    pub fn new(memory_base_path: &str, workspace_root: &str) -> (r: MemoryToolConfig)
        ensures
            r.memory.base_path@ == memory_base_path@,
            r.memory.max_file_size == 1024 * 1024,
            r.memory.max_line_length == 2000,
            r.select.base_path is Some && r.select.base_path->0@ == workspace_root@,
            select_defaults(r.select),
    {
        MemoryToolConfig { memory: MemoryConfig::new(memory_base_path), select: SelectConfig::new(workspace_root) }
    }

    pub fn from_configs(memory: MemoryConfig, select: SelectConfig) -> (r: MemoryToolConfig)
        ensures
            r.memory == memory,
            r.select == select,
    {
        MemoryToolConfig { memory, select }
    }
}

} // verus!
