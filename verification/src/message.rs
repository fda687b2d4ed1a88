use vstd::prelude::*;

use crate::json::{JsonValue, JsonView};

verus! {

/// The function part of a tool call: its name and its arguments as JSON text.
#[derive(Debug)]
pub struct ToolCallFunction {
    pub name: String,
    pub arguments: String,
}

/// A tool call as a model reports it, possibly in pieces while streaming.
#[derive(Debug)]
pub struct ToolCall {
    pub id: String,
    pub call_type: Option<String>,
    pub index: Option<u32>,
    pub function: Option<ToolCallFunction>,
    pub name: Option<String>,
    pub arguments: Option<JsonValue>,
}

/// A tool that a model may call.
#[derive(Debug)]
pub struct ToolDef {
    pub name: String,
    pub description: String,
    pub parameters: JsonValue,
}

/// What a tool returned.
#[derive(Debug)]
pub struct ToolResult {
    pub id: String,
    pub success: bool,
    pub output: JsonValue,
}

/// Token usage reported by a provider.
#[derive(Debug, Clone, Copy, PartialEq, Eq)]
pub struct Usage {
    pub prompt_tokens: u32,
    pub completion_tokens: u32,
    pub total_tokens: u32,
    pub prompt_cache_hit_tokens: Option<u32>,
    pub prompt_cache_miss_tokens: Option<u32>,
}

#[derive(Debug, Clone, Copy, PartialEq, Eq, Structural)]
pub enum MessageRole {
    System,
    User,
    Assistant,
    Tool,
}

/// A chat message.
#[derive(Debug)]
pub enum Message {
    System { content: String },
    User { content: String },
    Assistant {
        content: String,
        reasoning_content: Option<String>,
        tool_calls: Option<Vec<ToolCall>>,
    },
    Tool { tool_call_id: String, content: String },
}

// ---------------------------------------------------------------------------
// Mathematical views
// ---------------------------------------------------------------------------

pub struct FunctionView {
    pub name: Seq<char>,
    pub arguments: Seq<char>,
}

pub struct ToolCallView {
    pub id: Seq<char>,
    pub call_type: Option<Seq<char>>,
    pub index: Option<u32>,
    pub function: Option<FunctionView>,
    pub name: Option<Seq<char>>,
    pub arguments: Option<JsonView>,
}

pub enum MessageView {
    System { content: Seq<char> },
    User { content: Seq<char> },
    Assistant {
        content: Seq<char>,
        reasoning_content: Option<Seq<char>>,
        tool_calls: Option<Seq<ToolCallView>>,
    },
    Tool { tool_call_id: Seq<char>, content: Seq<char> },
}

pub open spec fn opt_str(o: Option<String>) -> Option<Seq<char>> {
    match o {
        Some(s) => Some(s@),
        None => None,
    }
}

pub open spec fn opt_json(o: Option<JsonValue>) -> Option<JsonView> {
    match o {
        Some(v) => Some(v@),
        None => None,
    }
}

impl View for ToolCallFunction {
    type V = FunctionView;

    open spec fn view(&self) -> FunctionView {
        FunctionView { name: self.name@, arguments: self.arguments@ }
    }
}

pub open spec fn opt_function(o: Option<ToolCallFunction>) -> Option<FunctionView> {
    match o {
        Some(f) => Some(f@),
        None => None,
    }
}

impl View for ToolCall {
    type V = ToolCallView;

    open spec fn view(&self) -> ToolCallView {
        ToolCallView {
            id: self.id@,
            call_type: opt_str(self.call_type),
            index: self.index,
            function: opt_function(self.function),
            name: opt_str(self.name),
            arguments: opt_json(self.arguments),
        }
    }
}

pub open spec fn calls_view(s: Seq<ToolCall>) -> Seq<ToolCallView> {
    s.map_values(|c: ToolCall| c@)
}

pub open spec fn opt_calls(o: Option<Vec<ToolCall>>) -> Option<Seq<ToolCallView>> {
    match o {
        Some(v) => Some(calls_view(v@)),
        None => None,
    }
}

impl View for Message {
    type V = MessageView;

    open spec fn view(&self) -> MessageView {
        match self {
            Message::System { content } => MessageView::System { content: content@ },
            Message::User { content } => MessageView::User { content: content@ },
            Message::Assistant { content, reasoning_content, tool_calls } => MessageView::Assistant {
                content: content@,
                reasoning_content: opt_str(*reasoning_content),
                tool_calls: opt_calls(*tool_calls),
            },
            Message::Tool { tool_call_id, content } => MessageView::Tool {
                tool_call_id: tool_call_id@,
                content: content@,
            },
        }
    }
}

pub open spec fn messages_view(s: Seq<Message>) -> Seq<MessageView> {
    s.map_values(|m: Message| m@)
}

pub open spec fn opt_message(o: Option<Message>) -> Option<MessageView> {
    match o {
        Some(m) => Some(m@),
        None => None,
    }
}

/// The text of a message, whatever its role.
pub open spec fn content_of(m: MessageView) -> Seq<char> {
    match m {
        MessageView::System { content } => content,
        MessageView::User { content } => content,
        MessageView::Assistant { content, .. } => content,
        MessageView::Tool { content, .. } => content,
    }
}

/// The name a tool call goes by: the function's name, else the flat name, else empty.
pub open spec fn call_name(c: ToolCallView) -> Seq<char> {
    match c.function {
        Some(f) => f.name,
        None => match c.name {
            Some(n) => n,
            None => Seq::empty(),
        },
    }
}

/// The arguments of a tool call: the function's argument text, else the flat
/// arguments, else null.
pub open spec fn call_arguments(c: ToolCallView) -> JsonView {
    match c.function {
        Some(f) => JsonView::Str(f.arguments),
        None => match c.arguments {
            Some(a) => a,
            None => JsonView::Null,
        },
    }
}

// ---------------------------------------------------------------------------
// Copies that keep the view
// ---------------------------------------------------------------------------

pub fn copy_opt_string(o: &Option<String>) -> (r: Option<String>)
    ensures
        opt_str(r) == opt_str(*o),
{
    match o {
        Some(s) => Some(s.clone()),
        None => None,
    }
}

pub fn copy_opt_json(o: &Option<JsonValue>) -> (r: Option<JsonValue>)
    ensures
        opt_json(r) == opt_json(*o),
{
    match o {
        Some(v) => Some(v.clone()),
        None => None,
    }
}

impl Clone for ToolCallFunction {
    fn clone(&self) -> (r: Self)
        ensures
            r@ == self@,
    {
        ToolCallFunction { name: self.name.clone(), arguments: self.arguments.clone() }
    }
}

impl Clone for ToolCall {
    fn clone(&self) -> (r: Self)
        ensures
            r@ == self@,
    {
        let function = match &self.function {
            Some(f) => Some(f.clone()),
            None => None,
        };
        ToolCall {
            id: self.id.clone(),
            call_type: copy_opt_string(&self.call_type),
            index: self.index,
            function,
            name: copy_opt_string(&self.name),
            arguments: copy_opt_json(&self.arguments),
        }
    }
}

impl Clone for ToolDef {
    fn clone(&self) -> (r: Self)
        ensures
            r.name@ == self.name@,
            r.description@ == self.description@,
            r.parameters@ == self.parameters@,
    {
        ToolDef {
            name: self.name.clone(),
            description: self.description.clone(),
            parameters: self.parameters.clone(),
        }
    }
}

pub fn copy_calls(v: &Vec<ToolCall>) -> (r: Vec<ToolCall>)
    ensures
        calls_view(r@) == calls_view(v@),
{
    let mut out: Vec<ToolCall> = Vec::new();
    let mut i: usize = 0;
    while i < v.len()
        invariant
            i <= v.len(),
            out@.len() == i,
            forall|j: int| 0 <= j < i ==> #[trigger] out@[j]@ == v@[j]@,
        decreases v.len() - i,
    {
        out.push(v[i].clone());
        i = i + 1;
    }
    proof {
        assert(calls_view(out@) =~= calls_view(v@));
    }
    out
}

pub fn copy_opt_calls(o: &Option<Vec<ToolCall>>) -> (r: Option<Vec<ToolCall>>)
    ensures
        opt_calls(r) == opt_calls(*o),
{
    match o {
        Some(v) => Some(copy_calls(v)),
        None => None,
    }
}

impl Clone for Message {
    fn clone(&self) -> (r: Self)
        ensures
            r@ == self@,
    {
        match self {
            Message::System { content } => Message::System { content: content.clone() },
            Message::User { content } => Message::User { content: content.clone() },
            Message::Assistant { content, reasoning_content, tool_calls } => Message::Assistant {
                content: content.clone(),
                reasoning_content: copy_opt_string(reasoning_content),
                tool_calls: copy_opt_calls(tool_calls),
            },
            Message::Tool { tool_call_id, content } => Message::Tool {
                tool_call_id: tool_call_id.clone(),
                content: content.clone(),
            },
        }
    }
}

pub fn copy_messages(v: &Vec<Message>) -> (r: Vec<Message>)
    ensures
        messages_view(r@) == messages_view(v@),
{
    let mut out: Vec<Message> = Vec::new();
    let mut i: usize = 0;
    while i < v.len()
        invariant
            i <= v.len(),
            out@.len() == i,
            forall|j: int| 0 <= j < i ==> #[trigger] out@[j]@ == v@[j]@,
        decreases v.len() - i,
    {
        out.push(v[i].clone());
        i = i + 1;
    }
    proof {
        assert(messages_view(out@) =~= messages_view(v@));
    }
    out
}

// ---------------------------------------------------------------------------
// Constructors and accessors
// ---------------------------------------------------------------------------

impl Message {
    pub fn system(content: &str) -> (m: Message)
        ensures
            m@ == (MessageView::System { content: content@ }),
    {
        Message::System { content: content.to_owned() }
    }

    pub fn user(content: &str) -> (m: Message)
        ensures
            m@ == (MessageView::User { content: content@ }),
    {
        Message::User { content: content.to_owned() }
    }

    pub fn assistant(content: &str) -> (m: Message)
        ensures
            m@ == (MessageView::Assistant {
                content: content@,
                reasoning_content: None,
                tool_calls: None,
            }),
    {
        Message::Assistant { content: content.to_owned(), reasoning_content: None, tool_calls: None }
    }

    /// An assistant message that carries the model's reasoning text.
    pub fn assistant_with_reasoning(content: &str, reasoning_content: &str) -> (m: Message)
        ensures
            m@ == (MessageView::Assistant {
                content: content@,
                reasoning_content: Some(reasoning_content@),
                tool_calls: None,
            }),
    {
        Message::Assistant {
            content: content.to_owned(),
            reasoning_content: Some(reasoning_content.to_owned()),
            tool_calls: None,
        }
    }

    /// The message's text, whatever its role.
    pub fn content(&self) -> (r: &str)
        ensures
            r@ == content_of(self@),
    {
        match self {
            Message::System { content } => content.as_str(),
            Message::User { content } => content.as_str(),
            Message::Assistant { content, .. } => content.as_str(),
            Message::Tool { content, .. } => content.as_str(),
        }
    }

    /// The reasoning text; only assistant messages can have one.
    pub fn reasoning_content(&self) -> (r: Option<&str>)
        ensures
            match self@ {
                MessageView::Assistant { reasoning_content: Some(rc), .. } => r is Some && r->0@ == rc,
                _ => r is None,
            },
    {
        match self {
            Message::Assistant { reasoning_content, .. } => match reasoning_content {
                Some(rc) => Some(rc.as_str()),
                None => None,
            },
            _ => None,
        }
    }

    /// The role of the message.
    pub fn role(&self) -> (r: MessageRole)
        ensures
            r == role_of(self@),
    {
        match self {
            Message::System { .. } => MessageRole::System,
            Message::User { .. } => MessageRole::User,
            Message::Assistant { .. } => MessageRole::Assistant,
            Message::Tool { .. } => MessageRole::Tool,
        }
    }
}

pub open spec fn role_of(m: MessageView) -> MessageRole {
    match m {
        MessageView::System { .. } => MessageRole::System,
        MessageView::User { .. } => MessageRole::User,
        MessageView::Assistant { .. } => MessageRole::Assistant,
        MessageView::Tool { .. } => MessageRole::Tool,
    }
}

impl ToolCall {
    /// The name this call goes by.
    pub fn get_name(&self) -> (r: String)
        ensures
            r@ == call_name(self@),
    {
        match &self.function {
            Some(f) => f.name.clone(),
            None => match &self.name {
                Some(n) => n.clone(),
                None => String::new(),
            },
        }
    }

    /// The arguments of this call.
    pub fn get_arguments(&self) -> (r: JsonValue)
        ensures
            r@ == call_arguments(self@),
    {
        match &self.function {
            Some(f) => JsonValue::Str(f.arguments.clone()),
            None => match &self.arguments {
                Some(a) => a.clone(),
                None => JsonValue::Null,
            },
        }
    }
}


pub struct ToolDefView {
    pub name: Seq<char>,
    pub description: Seq<char>,
    pub parameters: JsonView,
}

impl View for ToolDef {
    type V = ToolDefView;

    open spec fn view(&self) -> ToolDefView {
        ToolDefView { name: self.name@, description: self.description@, parameters: self.parameters@ }
    }
}

pub open spec fn defs_view(s: Seq<ToolDef>) -> Seq<ToolDefView> {
    s.map_values(|d: ToolDef| d@)
}

pub fn copy_defs(v: &Vec<ToolDef>) -> (r: Vec<ToolDef>)
    ensures
        defs_view(r@) == defs_view(v@),
{
    let mut out: Vec<ToolDef> = Vec::new();
    let mut i: usize = 0;
    while i < v.len()
        invariant
            i <= v.len(),
            out@.len() == i,
            forall|j: int| 0 <= j < i ==> #[trigger] out@[j]@ == v@[j]@,
        decreases v.len() - i,
    {
        out.push(v[i].clone());
        i = i + 1;
    }
    proof {
        assert(defs_view(out@) =~= defs_view(v@));
    }
    out
}

pub struct ToolResultView {
    pub id: Seq<char>,
    pub success: bool,
    pub output: JsonView,
}

impl View for ToolResult {
    type V = ToolResultView;

    open spec fn view(&self) -> ToolResultView {
        ToolResultView { id: self.id@, success: self.success, output: self.output@ }
    }
}

/// Why a tool could not be run.
#[derive(Debug)]
pub enum ToolExecutorError {
    ToolNotFound(String),
    ExecutionError(String),
}

pub enum ToolErrorView {
    ToolNotFound(Seq<char>),
    ExecutionError(Seq<char>),
}

impl View for ToolExecutorError {
    type V = ToolErrorView;

    open spec fn view(&self) -> ToolErrorView {
        match self {
            ToolExecutorError::ToolNotFound(s) => ToolErrorView::ToolNotFound(s@),
            ToolExecutorError::ExecutionError(s) => ToolErrorView::ExecutionError(s@),
        }
    }
}

/// The text of a tool error.
pub open spec fn tool_error_text(e: ToolErrorView) -> Seq<char> {
    match e {
        ToolErrorView::ToolNotFound(name) => "Tool not found: "@ + name,
        ToolErrorView::ExecutionError(msg) => "Execution error: "@ + msg,
    }
}

impl ToolExecutorError {
    /// The error's text.
    pub fn to_text(&self) -> (r: String)
        ensures
            r@ == tool_error_text(self@),
    {
        match self {
            ToolExecutorError::ToolNotFound(name) => crate::text::concat2("Tool not found: ", name.as_str()),
            ToolExecutorError::ExecutionError(msg) => crate::text::concat2("Execution error: ", msg.as_str()),
        }
    }
}

} // verus!
