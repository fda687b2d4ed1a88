use vstd::prelude::*;

use crate::json::{decimal, decimal_string, json_text, json_to_text, members_view, obj_insert, object_insert, JsonValue, JsonView};
use crate::message::{call_arguments, call_name, calls_view, copy_calls, copy_opt_string, opt_calls, opt_str, ToolCall, ToolCallFunction, ToolCallView};
use crate::text::{concat2, concat3};

verus! {

// ---------------------------------------------------------------------------
// Phases, errors and step results
// ---------------------------------------------------------------------------

/// The point of a step at which a hook runs.
#[derive(Debug, Clone, Copy, PartialEq, Eq, Structural)]
pub enum HookPhase {
    BeforeStep,
    BeforeCallModel,
    OnModelEvent,
    AfterCallModel,
    BeforeCallTools,
    AfterCallTools,
    AfterStep,
}

/// The name of a phase, as `{:?}` prints it.
pub open spec fn phase_name(p: HookPhase) -> Seq<char> {
    match p {
        HookPhase::BeforeStep => "BeforeStep"@,
        HookPhase::BeforeCallModel => "BeforeCallModel"@,
        HookPhase::OnModelEvent => "OnModelEvent"@,
        HookPhase::AfterCallModel => "AfterCallModel"@,
        HookPhase::BeforeCallTools => "BeforeCallTools"@,
        HookPhase::AfterCallTools => "AfterCallTools"@,
        HookPhase::AfterStep => "AfterStep"@,
    }
}

impl HookPhase {
    pub fn name(&self) -> (r: &'static str)
        ensures
            r@ == phase_name(*self),
    {
        match self {
            HookPhase::BeforeStep => "BeforeStep",
            HookPhase::BeforeCallModel => "BeforeCallModel",
            HookPhase::OnModelEvent => "OnModelEvent",
            HookPhase::AfterCallModel => "AfterCallModel",
            HookPhase::BeforeCallTools => "BeforeCallTools",
            HookPhase::AfterCallTools => "AfterCallTools",
            HookPhase::AfterStep => "AfterStep",
        }
    }
}

/// What a hook reports when it fails.
#[derive(Debug)]
pub struct HookError {
    pub message: String,
}

impl HookError {
    pub fn new(message: &str) -> (r: HookError)
        ensures
            r.message@ == message@,
    {
        HookError { message: String::from_str(message) }
    }
}

/// Why a step of the agent failed.
#[derive(Debug)]
pub enum AgentError {
    Model(String),
    Tool(String),
    Hook { plugin: String, phase: HookPhase, message: String },
    Cancelled,
    Timeout,
    MaxIterations(usize),
}

pub enum AgentErrorView {
    Model(Seq<char>),
    Tool(Seq<char>),
    Hook { plugin: Seq<char>, phase: HookPhase, message: Seq<char> },
    Cancelled,
    Timeout,
    MaxIterations(usize),
}

impl View for AgentError {
    type V = AgentErrorView;

    open spec fn view(&self) -> AgentErrorView {
        match self {
            AgentError::Model(m) => AgentErrorView::Model(m@),
            AgentError::Tool(m) => AgentErrorView::Tool(m@),
            AgentError::Hook { plugin, phase, message } => AgentErrorView::Hook { plugin: plugin@, phase: *phase, message: message@ },
            AgentError::Cancelled => AgentErrorView::Cancelled,
            AgentError::Timeout => AgentErrorView::Timeout,
            AgentError::MaxIterations(n) => AgentErrorView::MaxIterations(*n),
        }
    }
}

impl Clone for AgentError {
    fn clone(&self) -> (r: Self)
        ensures
            r@ == self@,
    {
        match self {
            AgentError::Model(m) => AgentError::Model(m.clone()),
            AgentError::Tool(m) => AgentError::Tool(m.clone()),
            AgentError::Hook { plugin, phase, message } => AgentError::Hook { plugin: plugin.clone(), phase: *phase, message: message.clone() },
            AgentError::Cancelled => AgentError::Cancelled,
            AgentError::Timeout => AgentError::Timeout,
            AgentError::MaxIterations(n) => AgentError::MaxIterations(*n),
        }
    }
}

/// The text of an error, as its `Display` writes it.
pub open spec fn agent_error_text(e: AgentErrorView) -> Seq<char> {
    match e {
        AgentErrorView::Model(m) => "Model error: "@ + m,
        AgentErrorView::Tool(m) => "Tool execution error: "@ + m,
        AgentErrorView::Hook { plugin, phase, message } => "Hook `"@ + plugin + "` failed at "@ + phase_name(phase) + ": "@ + message,
        AgentErrorView::Cancelled => "Cancelled by user"@,
        AgentErrorView::Timeout => "Operation timed out"@,
        AgentErrorView::MaxIterations(n) => "Max iterations ("@ + decimal(n as nat) + ") reached"@,
    }
}

/// The kind of an error, one word.
pub open spec fn agent_error_kind(e: AgentErrorView) -> Seq<char> {
    match e {
        AgentErrorView::Model(_) => "model"@,
        AgentErrorView::Tool(_) => "tool"@,
        AgentErrorView::Hook { .. } => "hook"@,
        AgentErrorView::Cancelled => "cancelled"@,
        AgentErrorView::Timeout => "timeout"@,
        AgentErrorView::MaxIterations(_) => "max_iterations"@,
    }
}

impl AgentError {
    /// The text of this error; see `agent_error_text`.
    pub fn to_text(&self) -> (r: String)
        ensures
            r@ == agent_error_text(self@),
    {
        match self {
            AgentError::Model(m) => concat2("Model error: ", m.as_str()),
            AgentError::Tool(m) => concat2("Tool execution error: ", m.as_str()),
            AgentError::Hook { plugin, phase, message } => {
                let mut r = concat3("Hook `", plugin.as_str(), "` failed at ");
                r.append(phase.name());
                r.append(": ");
                r.append(message.as_str());
                r
            },
            AgentError::Cancelled => String::from_str("Cancelled by user"),
            AgentError::Timeout => String::from_str("Operation timed out"),
            AgentError::MaxIterations(n) => {
                let d = decimal_string(*n as u64);
                concat3("Max iterations (", d.as_str(), ") reached")
            },
        }
    }
}

/// The kind of `err`; see `agent_error_kind`.
pub fn hook_error_kind(err: &AgentError) -> (r: &'static str)
    ensures
        r@ == agent_error_kind(err@),
{
    match err {
        AgentError::Model(_) => "model",
        AgentError::Tool(_) => "tool",
        AgentError::Hook { .. } => "hook",
        AgentError::Cancelled => "cancelled",
        AgentError::Timeout => "timeout",
        AgentError::MaxIterations(_) => "max_iterations",
    }
}

/// What running one tool call gave.
#[derive(Debug)]
pub struct CallToolResult {
    pub call_id: String,
    pub tool_name: String,
    pub success: bool,
    pub output: String,
}

pub struct CallToolResultView {
    pub call_id: Seq<char>,
    pub tool_name: Seq<char>,
    pub success: bool,
    pub output: Seq<char>,
}

impl View for CallToolResult {
    type V = CallToolResultView;

    open spec fn view(&self) -> CallToolResultView {
        CallToolResultView { call_id: self.call_id@, tool_name: self.tool_name@, success: self.success, output: self.output@ }
    }
}

impl Clone for CallToolResult {
    fn clone(&self) -> (r: Self)
        ensures
            r@ == self@,
    {
        CallToolResult {
            call_id: self.call_id.clone(),
            tool_name: self.tool_name.clone(),
            success: self.success,
            output: self.output.clone(),
        }
    }
}

pub open spec fn results_view(s: Seq<CallToolResult>) -> Seq<CallToolResultView> {
    s.map_values(|r: CallToolResult| r@)
}

pub fn copy_results(v: &Vec<CallToolResult>) -> (r: Vec<CallToolResult>)
    ensures
        results_view(r@) == results_view(v@),
{
    let mut out: Vec<CallToolResult> = Vec::new();
    let mut i: usize = 0;
    while i < v.len()
        invariant
            i <= v.len(),
            out@.len() == i,
            forall|j: int| 0 <= j < i ==> #[trigger] out@[j]@ == v@[j]@,
        decreases v.len() - i,
    {
        out.push(v[i].clone());
        i = i + 1;
    }
    proof { assert(results_view(out@) =~= results_view(v@)); }
    out
}

/// The result of a step while hooks may still change it.
#[derive(Debug)]
pub enum StepResultDraft {
    Continue {
        content: String,
        reasoning_content: Option<String>,
        tool_calls: Vec<ToolCall>,
        tool_results: Vec<CallToolResult>,
    },
    Done { content: String, reasoning_content: Option<String> },
    Error(AgentError),
}

/// The result of one step of the agent.
#[derive(Debug)]
pub enum StepResult {
    Continue {
        content: String,
        reasoning_content: Option<String>,
        tool_calls: Vec<ToolCall>,
        tool_results: Vec<CallToolResult>,
    },
    Done { content: String, reasoning_content: Option<String> },
    Error(AgentError),
}

pub enum StepView {
    Continue {
        content: Seq<char>,
        reasoning_content: Option<Seq<char>>,
        tool_calls: Seq<ToolCallView>,
        tool_results: Seq<CallToolResultView>,
    },
    Done { content: Seq<char>, reasoning_content: Option<Seq<char>> },
    Error(AgentErrorView),
}

impl View for StepResultDraft {
    type V = StepView;

    open spec fn view(&self) -> StepView {
        match self {
            StepResultDraft::Continue { content, reasoning_content, tool_calls, tool_results } => StepView::Continue {
                content: content@,
                reasoning_content: opt_str(*reasoning_content),
                tool_calls: calls_view(tool_calls@),
                tool_results: results_view(tool_results@),
            },
            StepResultDraft::Done { content, reasoning_content } => StepView::Done {
                content: content@,
                reasoning_content: opt_str(*reasoning_content),
            },
            StepResultDraft::Error(e) => StepView::Error(e@),
        }
    }
}

impl View for StepResult {
    type V = StepView;

    open spec fn view(&self) -> StepView {
        match self {
            StepResult::Continue { content, reasoning_content, tool_calls, tool_results } => StepView::Continue {
                content: content@,
                reasoning_content: opt_str(*reasoning_content),
                tool_calls: calls_view(tool_calls@),
                tool_results: results_view(tool_results@),
            },
            StepResult::Done { content, reasoning_content } => StepView::Done {
                content: content@,
                reasoning_content: opt_str(*reasoning_content),
            },
            StepResult::Error(e) => StepView::Error(e@),
        }
    }
}

impl Clone for StepResultDraft {
    fn clone(&self) -> (r: Self)
        ensures
            r@ == self@,
    {
        match self {
            StepResultDraft::Continue { content, reasoning_content, tool_calls, tool_results } => StepResultDraft::Continue {
                content: content.clone(),
                reasoning_content: copy_opt_string(reasoning_content),
                tool_calls: copy_calls(tool_calls),
                tool_results: copy_results(tool_results),
            },
            StepResultDraft::Done { content, reasoning_content } => StepResultDraft::Done {
                content: content.clone(),
                reasoning_content: copy_opt_string(reasoning_content),
            },
            StepResultDraft::Error(e) => StepResultDraft::Error(e.clone()),
        }
    }
}

impl Clone for StepResult {
    fn clone(&self) -> (r: Self)
        ensures
            r@ == self@,
    {
        match self {
            StepResult::Continue { content, reasoning_content, tool_calls, tool_results } => StepResult::Continue {
                content: content.clone(),
                reasoning_content: copy_opt_string(reasoning_content),
                tool_calls: copy_calls(tool_calls),
                tool_results: copy_results(tool_results),
            },
            StepResult::Done { content, reasoning_content } => StepResult::Done {
                content: content.clone(),
                reasoning_content: copy_opt_string(reasoning_content),
            },
            StepResult::Error(e) => StepResult::Error(e.clone()),
        }
    }
}

/// The final result of a step, as its draft left it.
pub fn step_result_from_draft(draft: StepResultDraft) -> (r: StepResult)
    ensures
        r@ == draft@,
{
    match draft {
        StepResultDraft::Continue { content, reasoning_content, tool_calls, tool_results } => StepResult::Continue {
            content,
            reasoning_content,
            tool_calls,
            tool_results,
        },
        StepResultDraft::Done { content, reasoning_content } => StepResult::Done { content, reasoning_content },
        StepResultDraft::Error(err) => StepResult::Error(err),
    }
}


// ---------------------------------------------------------------------------
// What public hooks see and return
// ---------------------------------------------------------------------------

#[derive(Debug)]
pub struct HookToolCallFunction {
    pub name: String,
    pub arguments: String,
}

/// A tool call as public hooks see it: always with a type and a function.
#[derive(Debug)]
pub struct HookToolCall {
    pub id: String,
    pub call_type: String,
    pub index: Option<u32>,
    pub function: HookToolCallFunction,
}

pub struct HookCallView {
    pub id: Seq<char>,
    pub call_type: Seq<char>,
    pub index: Option<u32>,
    pub name: Seq<char>,
    pub arguments: Seq<char>,
}

impl View for HookToolCall {
    type V = HookCallView;

    open spec fn view(&self) -> HookCallView {
        HookCallView {
            id: self.id@,
            call_type: self.call_type@,
            index: self.index,
            name: self.function.name@,
            arguments: self.function.arguments@,
        }
    }
}

/// A tool call as hooks see it: the type defaults to "function"; without a
/// function part, the name and the JSON text of the arguments stand in.
pub open spec fn hook_call_of(c: ToolCallView) -> HookCallView {
    HookCallView {
        id: c.id,
        call_type: match c.call_type {
            Some(t) => t,
            None => "function"@,
        },
        index: c.index,
        name: match c.function {
            Some(f) => f.name,
            None => call_name(c),
        },
        arguments: match c.function {
            Some(f) => f.arguments,
            None => json_text(call_arguments(c)),
        },
    }
}

/// A hook's tool call back as a tool call, with a type and a function part.
pub open spec fn tool_call_of(h: HookCallView) -> ToolCallView {
    ToolCallView {
        id: h.id,
        call_type: Some(h.call_type),
        index: h.index,
        function: Some(crate::message::FunctionView { name: h.name, arguments: h.arguments }),
        name: None,
        arguments: None,
    }
}

pub open spec fn hook_calls_view(s: Seq<HookToolCall>) -> Seq<HookCallView> {
    s.map_values(|h: HookToolCall| h@)
}

impl HookToolCall {
    /// `call` as hooks see it; see `hook_call_of`.
    pub fn from_tool_call(call: &ToolCall) -> (r: HookToolCall)
        ensures
            r@ == hook_call_of(call@),
    {
        let call_type = match &call.call_type {
            Some(t) => t.clone(),
            None => String::from_str("function"),
        };
        let function = match &call.function {
            Some(f) => HookToolCallFunction { name: f.name.clone(), arguments: f.arguments.clone() },
            None => HookToolCallFunction { name: call.get_name(), arguments: json_to_text(&call.get_arguments()) },
        };
        HookToolCall { id: call.id.clone(), call_type, index: call.index, function }
    }

    /// This call back as a tool call; see `tool_call_of`.
    pub fn into_tool_call(self) -> (r: ToolCall)
        ensures
            r@ == tool_call_of(self@),
    {
        ToolCall {
            id: self.id,
            call_type: Some(self.call_type),
            index: self.index,
            function: Some(ToolCallFunction { name: self.function.name, arguments: self.function.arguments }),
            name: None,
            arguments: None,
        }
    }
}

/// Every call as hooks see it.
pub fn hook_calls_from(calls: &Vec<ToolCall>) -> (r: Vec<HookToolCall>)
    ensures
        hook_calls_view(r@) == calls_view(calls@).map_values(|c: ToolCallView| hook_call_of(c)),
{
    let mut out: Vec<HookToolCall> = Vec::new();
    let mut i: usize = 0;
    while i < calls.len()
        invariant
            i <= calls.len(),
            out@.len() == i,
            forall|j: int| 0 <= j < i ==> #[trigger] out@[j]@ == hook_call_of(calls@[j]@),
        decreases calls.len() - i,
    {
        out.push(HookToolCall::from_tool_call(&calls[i]));
        i = i + 1;
    }
    proof { assert(hook_calls_view(out@) =~= calls_view(calls@).map_values(|c: ToolCallView| hook_call_of(c))); }
    out
}

/// Every hook call back as a tool call.
pub fn tool_calls_from(calls: Vec<HookToolCall>) -> (r: Vec<ToolCall>)
    ensures
        calls_view(r@) == hook_calls_view(calls@).map_values(|h: HookCallView| tool_call_of(h)),
{
    let ghost hv = hook_calls_view(calls@);
    let mut rest = calls;
    let mut rev: Vec<ToolCall> = Vec::new();
    while rest.len() > 0
        invariant
            rest@.len() + rev@.len() == hv.len(),
            forall|j: int| 0 <= j < rest@.len() ==> #[trigger] rest@[j]@ == hv[j],
            forall|j: int| 0 <= j < rev@.len() ==> #[trigger] rev@[j]@ == tool_call_of(hv[hv.len() - 1 - j]),
        decreases rest@.len(),
    {
        let h = rest.pop().unwrap();
        rev.push(h.into_tool_call());
    }
    let mut out: Vec<ToolCall> = Vec::new();
    while rev.len() > 0
        invariant
            out@.len() + rev@.len() == hv.len(),
            forall|j: int| 0 <= j < rev@.len() ==> #[trigger] rev@[j]@ == tool_call_of(hv[hv.len() - 1 - j]),
            forall|j: int| 0 <= j < out@.len() ==> #[trigger] out@[j]@ == tool_call_of(hv[j]),
        decreases rev@.len(),
    {
        let c = rev.pop().unwrap();
        out.push(c);
    }
    proof { assert(calls_view(out@) =~= hv.map_values(|h: HookCallView| tool_call_of(h))); }
    out
}

/// A tool result as hooks see it.
#[derive(Debug)]
pub struct HookToolResult {
    pub call_id: String,
    pub tool_name: String,
    pub success: bool,
    pub output: String,
}

impl View for HookToolResult {
    type V = CallToolResultView;

    open spec fn view(&self) -> CallToolResultView {
        CallToolResultView { call_id: self.call_id@, tool_name: self.tool_name@, success: self.success, output: self.output@ }
    }
}

pub open spec fn hook_results_view(s: Seq<HookToolResult>) -> Seq<CallToolResultView> {
    s.map_values(|r: HookToolResult| r@)
}

impl HookToolResult {
    pub fn from_call_tool_result(result: &CallToolResult) -> (r: HookToolResult)
        ensures
            r@ == result@,
    {
        HookToolResult {
            call_id: result.call_id.clone(),
            tool_name: result.tool_name.clone(),
            success: result.success,
            output: result.output.clone(),
        }
    }

    pub fn into_call_tool_result(self) -> (r: CallToolResult)
        ensures
            r@ == self@,
    {
        CallToolResult { call_id: self.call_id, tool_name: self.tool_name, success: self.success, output: self.output }
    }
}

fn hook_results_from(results: &Vec<CallToolResult>) -> (r: Vec<HookToolResult>)
    ensures
        hook_results_view(r@) == results_view(results@),
{
    let mut out: Vec<HookToolResult> = Vec::new();
    let mut i: usize = 0;
    while i < results.len()
        invariant
            i <= results.len(),
            out@.len() == i,
            forall|j: int| 0 <= j < i ==> #[trigger] out@[j]@ == results@[j]@,
        decreases results.len() - i,
    {
        out.push(HookToolResult::from_call_tool_result(&results[i]));
        i = i + 1;
    }
    proof { assert(hook_results_view(out@) =~= results_view(results@)); }
    out
}

fn results_from_hook(results: Vec<HookToolResult>) -> (r: Vec<CallToolResult>)
    ensures
        results_view(r@) == hook_results_view(results@),
{
    let ghost hv = hook_results_view(results@);
    let mut rest = results;
    let mut rev: Vec<CallToolResult> = Vec::new();
    while rest.len() > 0
        invariant
            rest@.len() + rev@.len() == hv.len(),
            forall|j: int| 0 <= j < rest@.len() ==> #[trigger] rest@[j]@ == hv[j],
            forall|j: int| 0 <= j < rev@.len() ==> #[trigger] rev@[j]@ == hv[hv.len() - 1 - j],
        decreases rest@.len(),
    {
        let h = rest.pop().unwrap();
        rev.push(h.into_call_tool_result());
    }
    let mut out: Vec<CallToolResult> = Vec::new();
    while rev.len() > 0
        invariant
            out@.len() + rev@.len() == hv.len(),
            forall|j: int| 0 <= j < rev@.len() ==> #[trigger] rev@[j]@ == hv[hv.len() - 1 - j],
            forall|j: int| 0 <= j < out@.len() ==> #[trigger] out@[j]@ == hv[j],
        decreases rev@.len(),
    {
        let c = rev.pop().unwrap();
        out.push(c);
    }
    proof { assert(results_view(out@) =~= hv); }
    out
}

#[derive(Debug)]
pub struct HookStepError {
    pub kind: String,
    pub message: String,
}

#[derive(Debug)]
pub struct HookContinueStep {
    pub content: String,
    pub reasoning_content: Option<String>,
    pub tool_calls: Vec<HookToolCall>,
    pub tool_results: Vec<HookToolResult>,
}

#[derive(Debug)]
pub struct HookDoneStep {
    pub content: String,
    pub reasoning_content: Option<String>,
}

/// A step's result as public hooks see it.
#[derive(Debug)]
pub enum HookStepResult {
    Continue(HookContinueStep),
    Done(HookDoneStep),
    Error(HookStepError),
}

/// A result that a public hook puts in place of the step's.
#[derive(Debug)]
pub enum HookStepUpdate {
    Continue(HookContinueStep),
    Done(HookDoneStep),
}

pub enum HookResultView {
    Continue {
        content: Seq<char>,
        reasoning_content: Option<Seq<char>>,
        tool_calls: Seq<HookCallView>,
        tool_results: Seq<CallToolResultView>,
    },
    Done { content: Seq<char>, reasoning_content: Option<Seq<char>> },
    Error { kind: Seq<char>, message: Seq<char> },
}

impl View for HookStepResult {
    type V = HookResultView;

    open spec fn view(&self) -> HookResultView {
        match self {
            HookStepResult::Continue(c) => HookResultView::Continue {
                content: c.content@,
                reasoning_content: opt_str(c.reasoning_content),
                tool_calls: hook_calls_view(c.tool_calls@),
                tool_results: hook_results_view(c.tool_results@),
            },
            HookStepResult::Done(d) => HookResultView::Done { content: d.content@, reasoning_content: opt_str(d.reasoning_content) },
            HookStepResult::Error(e) => HookResultView::Error { kind: e.kind@, message: e.message@ },
        }
    }
}

pub enum HookUpdateView {
    Continue {
        content: Seq<char>,
        reasoning_content: Option<Seq<char>>,
        tool_calls: Seq<HookCallView>,
        tool_results: Seq<CallToolResultView>,
    },
    Done { content: Seq<char>, reasoning_content: Option<Seq<char>> },
}

impl View for HookStepUpdate {
    type V = HookUpdateView;

    open spec fn view(&self) -> HookUpdateView {
        match self {
            HookStepUpdate::Continue(c) => HookUpdateView::Continue {
                content: c.content@,
                reasoning_content: opt_str(c.reasoning_content),
                tool_calls: hook_calls_view(c.tool_calls@),
                tool_results: hook_results_view(c.tool_results@),
            },
            HookStepUpdate::Done(d) => HookUpdateView::Done { content: d.content@, reasoning_content: opt_str(d.reasoning_content) },
        }
    }
}

/// A step result as public hooks see it: tool calls in their form, an error
/// by its kind and text.
pub open spec fn hook_result_of(d: StepView) -> HookResultView {
    match d {
        StepView::Continue { content, reasoning_content, tool_calls, tool_results } => HookResultView::Continue {
            content,
            reasoning_content,
            tool_calls: tool_calls.map_values(|c: ToolCallView| hook_call_of(c)),
            tool_results,
        },
        StepView::Done { content, reasoning_content } => HookResultView::Done { content, reasoning_content },
        StepView::Error(e) => HookResultView::Error { kind: agent_error_kind(e), message: agent_error_text(e) },
    }
}

/// A hook's replacement result as a draft.
pub open spec fn draft_of(u: HookUpdateView) -> StepView {
    match u {
        HookUpdateView::Continue { content, reasoning_content, tool_calls, tool_results } => StepView::Continue {
            content,
            reasoning_content,
            tool_calls: tool_calls.map_values(|h: HookCallView| tool_call_of(h)),
            tool_results,
        },
        HookUpdateView::Done { content, reasoning_content } => StepView::Done { content, reasoning_content },
    }
}

impl HookStepResult {
    /// `draft` as public hooks see it; see `hook_result_of`.
    pub fn from_draft(draft: &StepResultDraft) -> (r: HookStepResult)
        ensures
            r@ == hook_result_of(draft@),
    {
        match draft {
            StepResultDraft::Continue { content, reasoning_content, tool_calls, tool_results } => HookStepResult::Continue(
                HookContinueStep {
                    content: content.clone(),
                    reasoning_content: copy_opt_string(reasoning_content),
                    tool_calls: hook_calls_from(tool_calls),
                    tool_results: hook_results_from(tool_results),
                },
            ),
            StepResultDraft::Done { content, reasoning_content } => HookStepResult::Done(
                HookDoneStep { content: content.clone(), reasoning_content: copy_opt_string(reasoning_content) },
            ),
            StepResultDraft::Error(err) => HookStepResult::Error(
                HookStepError { kind: String::from_str(hook_error_kind(err)), message: err.to_text() },
            ),
        }
    }
}

impl HookStepUpdate {
    /// This update as a draft; see `draft_of`.
    pub fn into_draft(self) -> (r: StepResultDraft)
        ensures
            r@ == draft_of(self@),
    {
        match self {
            HookStepUpdate::Continue(c) => StepResultDraft::Continue {
                content: c.content,
                reasoning_content: c.reasoning_content,
                tool_calls: tool_calls_from(c.tool_calls),
                tool_results: results_from_hook(c.tool_results),
            },
            HookStepUpdate::Done(d) => StepResultDraft::Done { content: d.content, reasoning_content: d.reasoning_content },
        }
    }
}

/// What a model reports while it runs.
#[derive(Debug)]
pub enum CallModelEvent {
    TextChunk(String),
    ReasoningChunk(String),
    Completed { content: String, reasoning_content: Option<String>, tool_calls: Option<Vec<ToolCall>> },
    Error(String),
}

/// A model event as public hooks see it.
#[derive(Debug)]
pub enum HookModelEvent {
    TextChunk(String),
    ReasoningChunk(String),
    Completed { content: String, reasoning_content: Option<String>, tool_calls: Vec<HookToolCall> },
    Error { message: String },
}

/// Whether `h` is `event` as public hooks see it: the same text, reasoning
/// or error; a completion with the same answer and its calls as hook calls
/// (none when it had none).
pub open spec fn hook_event_matches(event: CallModelEvent, h: HookModelEvent) -> bool {
    match (event, h) {
        (CallModelEvent::TextChunk(a), HookModelEvent::TextChunk(b)) => a@ == b@,
        (CallModelEvent::ReasoningChunk(a), HookModelEvent::ReasoningChunk(b)) => a@ == b@,
        (
            CallModelEvent::Completed { content: c1, reasoning_content: r1, tool_calls: t1 },
            HookModelEvent::Completed { content: c2, reasoning_content: r2, tool_calls: t2 },
        ) => c1@ == c2@ && opt_str(r1) == opt_str(r2) && hook_calls_view(t2@) == match t1 {
            Some(v) => calls_view(v@).map_values(|c: ToolCallView| hook_call_of(c)),
            None => Seq::empty(),
        },
        (CallModelEvent::Error(a), HookModelEvent::Error { message: b }) => a@ == b@,
        _ => false,
    }
}

impl HookModelEvent {
    /// `event` as public hooks see it; a completion without tool calls has none.
    pub fn from_event(event: &CallModelEvent) -> (r: HookModelEvent)
        ensures
            hook_event_matches(*event, r),
    {
        match event {
            CallModelEvent::TextChunk(text) => HookModelEvent::TextChunk(text.clone()),
            CallModelEvent::ReasoningChunk(text) => HookModelEvent::ReasoningChunk(text.clone()),
            CallModelEvent::Completed { content, reasoning_content, tool_calls } => {
                let calls = match tool_calls {
                    Some(v) => hook_calls_from(v),
                    None => {
                        let v: Vec<HookToolCall> = Vec::new();
                        proof { assert(hook_calls_view(v@) =~= Seq::<HookCallView>::empty()); }
                        v
                    },
                };
                HookModelEvent::Completed {
                    content: content.clone(),
                    reasoning_content: copy_opt_string(reasoning_content),
                    tool_calls: calls,
                }
            },
            CallModelEvent::Error(message) => HookModelEvent::Error { message: message.clone() },
        }
    }
}


/// `h` as a tool call and back is `h` again.
pub proof fn law_hook_call_round_trip(h: HookCallView)
    ensures
        hook_call_of(tool_call_of(h)) == h,
{
}

/// A tool call that already has a type and a function part, and no flat name
/// or arguments, comes back unchanged from the form hooks see.
pub proof fn law_tool_call_round_trip(c: ToolCallView)
    requires
        c.call_type is Some,
        c.function is Some,
        c.name is None,
        c.arguments is None,
    ensures
        tool_call_of(hook_call_of(c)) == c,
{
}

/// A draft that ends or goes on, whose tool calls each have a type and a
/// function part and no flat name or arguments, comes back unchanged when a
/// hook hands back, as its update, the result that it was shown.
pub proof fn law_draft_round_trip(d: StepView)
    requires
        d !is Error,
        d matches StepView::Continue { tool_calls, .. } ==> forall|i: int| 0 <= i < tool_calls.len() ==> {
            &&& (#[trigger] tool_calls[i]).call_type is Some
            &&& tool_calls[i].function is Some
            &&& tool_calls[i].name is None
            &&& tool_calls[i].arguments is None
        },
    ensures
        match hook_result_of(d) {
            HookResultView::Continue { content, reasoning_content, tool_calls, tool_results } =>
                draft_of(HookUpdateView::Continue { content, reasoning_content, tool_calls, tool_results }) == d,
            HookResultView::Done { content, reasoning_content } =>
                draft_of(HookUpdateView::Done { content, reasoning_content }) == d,
            HookResultView::Error { .. } => d is Error,
        },
{
    if let StepView::Continue { content, reasoning_content, tool_calls, tool_results } = d {
        let hs = tool_calls.map_values(|c: ToolCallView| hook_call_of(c));
        let back = hs.map_values(|h: HookCallView| tool_call_of(h));
        assert forall|i: int| 0 <= i < tool_calls.len() implies #[trigger] back[i] == tool_calls[i] by {
            law_tool_call_round_trip(tool_calls[i]);
        }
        assert(back =~= tool_calls);
    }
}

// ---------------------------------------------------------------------------
// Effects
// ---------------------------------------------------------------------------

/// A custom event that a public hook emits.
#[derive(Debug)]
pub struct HookEvent {
    pub kind: String,
    pub payload: JsonValue,
}

/// What a public hook asks for.
#[derive(Debug)]
pub enum HookEffect {
    EmitEvent(HookEvent),
    ReplaceResult(HookStepUpdate),
    Abort { reason: String },
    SetMetadata { key: String, value: JsonValue },
    RemoveMetadata { key: String },
}

pub enum HookEffectView {
    EmitEvent { kind: Seq<char>, payload: JsonView },
    ReplaceResult(HookUpdateView),
    Abort { reason: Seq<char> },
    SetMetadata { key: Seq<char>, value: JsonView },
    RemoveMetadata { key: Seq<char> },
}

impl View for HookEffect {
    type V = HookEffectView;

    open spec fn view(&self) -> HookEffectView {
        match self {
            HookEffect::EmitEvent(e) => HookEffectView::EmitEvent { kind: e.kind@, payload: e.payload@ },
            HookEffect::ReplaceResult(u) => HookEffectView::ReplaceResult(u@),
            HookEffect::Abort { reason } => HookEffectView::Abort { reason: reason@ },
            HookEffect::SetMetadata { key, value } => HookEffectView::SetMetadata { key: key@, value: value@ },
            HookEffect::RemoveMetadata { key } => HookEffectView::RemoveMetadata { key: key@ },
        }
    }
}

/// What the agent reports to whoever runs it.
#[derive(Debug)]
pub enum AgentActorEvent {
    ContentChunk(String),
    ReasoningChunk(String),
    StepCompleted { content: String, reasoning_content: Option<String>, tool_calls: Option<Vec<ToolCall>> },
    ToolCalls(Vec<ToolCall>),
    ToolResult { call_id: String, success: bool, output: String },
    StepFinalized { result: StepResult },
    Iteration { iteration: usize, message_count: usize },
    HookEvent { hook: String, kind: String, payload: JsonValue },
    MaxIterations { iteration: usize },
    Completed,
    Cancelled,
    Error(AgentError),
}

pub enum EventView {
    ContentChunk(Seq<char>),
    ReasoningChunk(Seq<char>),
    StepCompleted { content: Seq<char>, reasoning_content: Option<Seq<char>>, tool_calls: Option<Seq<ToolCallView>> },
    ToolCalls(Seq<ToolCallView>),
    ToolResult { call_id: Seq<char>, success: bool, output: Seq<char> },
    StepFinalized { result: StepView },
    Iteration { iteration: usize, message_count: usize },
    HookEvent { hook: Seq<char>, kind: Seq<char>, payload: JsonView },
    MaxIterations { iteration: usize },
    Completed,
    Cancelled,
    Error(AgentErrorView),
}

impl View for AgentActorEvent {
    type V = EventView;

    open spec fn view(&self) -> EventView {
        match self {
            AgentActorEvent::ContentChunk(s) => EventView::ContentChunk(s@),
            AgentActorEvent::ReasoningChunk(s) => EventView::ReasoningChunk(s@),
            AgentActorEvent::StepCompleted { content, reasoning_content, tool_calls } => EventView::StepCompleted {
                content: content@,
                reasoning_content: opt_str(*reasoning_content),
                tool_calls: opt_calls(*tool_calls),
            },
            AgentActorEvent::ToolCalls(v) => EventView::ToolCalls(calls_view(v@)),
            AgentActorEvent::ToolResult { call_id, success, output } => EventView::ToolResult {
                call_id: call_id@,
                success: *success,
                output: output@,
            },
            AgentActorEvent::StepFinalized { result } => EventView::StepFinalized { result: result@ },
            AgentActorEvent::Iteration { iteration, message_count } => EventView::Iteration {
                iteration: *iteration,
                message_count: *message_count,
            },
            AgentActorEvent::HookEvent { hook, kind, payload } => EventView::HookEvent { hook: hook@, kind: kind@, payload: payload@ },
            AgentActorEvent::MaxIterations { iteration } => EventView::MaxIterations { iteration: *iteration },
            AgentActorEvent::Completed => EventView::Completed,
            AgentActorEvent::Cancelled => EventView::Cancelled,
            AgentActorEvent::Error(e) => EventView::Error(e@),
        }
    }
}

pub open spec fn events_view(s: Seq<AgentActorEvent>) -> Seq<EventView> {
    s.map_values(|e: AgentActorEvent| e@)
}

/// What a hook's answer does to the step.
#[derive(Debug)]
pub enum Effect {
    EmitNow(AgentActorEvent),
    SetMetadata { key: String, value: JsonValue },
    RemoveMetadata { key: String },
    SetResult(StepResultDraft),
    Abort(AgentError),
}

pub enum EffectView {
    EmitNow(EventView),
    SetMetadata { key: Seq<char>, value: JsonView },
    RemoveMetadata { key: Seq<char> },
    SetResult(StepView),
    Abort(AgentErrorView),
}

impl View for Effect {
    type V = EffectView;

    open spec fn view(&self) -> EffectView {
        match self {
            Effect::EmitNow(e) => EffectView::EmitNow(e@),
            Effect::SetMetadata { key, value } => EffectView::SetMetadata { key: key@, value: value@ },
            Effect::RemoveMetadata { key } => EffectView::RemoveMetadata { key: key@ },
            Effect::SetResult(r) => EffectView::SetResult(r@),
            Effect::Abort(e) => EffectView::Abort(e@),
        }
    }
}

/// Whether the hooks of a phase go on after an effect.
#[derive(Debug, Clone, Copy, PartialEq, Eq, Structural)]
pub enum EffectSignal {
    Continue,
    ResultSet,
    Aborted,
}

/// What the model answered in a step.
#[derive(Debug)]
pub struct ModelCallOutput {
    pub content: String,
    pub reasoning_content: Option<String>,
    pub tool_calls: Vec<ToolCall>,
}

impl ModelCallOutput {
    pub fn new() -> (r: ModelCallOutput)
        ensures
            r.content@ == Seq::<char>::empty(),
            r.reasoning_content is None,
            r.tool_calls@.len() == 0,
    {
        ModelCallOutput { content: String::new(), reasoning_content: None, tool_calls: Vec::new() }
    }

    /// The tool calls, none when there are none.
    pub fn tool_calls_option(&self) -> (r: Option<Vec<ToolCall>>)
        ensures
            opt_calls(r) == calls_view_opt(self.tool_calls@),
    {
        if self.tool_calls.len() == 0 {
            None
        } else {
            Some(copy_calls(&self.tool_calls))
        }
    }
}

/// The calls, none when there are none.
pub open spec fn calls_view_opt(s: Seq<ToolCall>) -> Option<Seq<ToolCallView>> {
    if s.len() == 0 { None } else { Some(calls_view(s)) }
}

/// What a step carries while its hooks run.
#[derive(Debug)]
pub struct StepFrame {
    pub metadata: Vec<(String, JsonValue)>,
    pub model_output: ModelCallOutput,
    pub tool_calls: Vec<ToolCall>,
    pub tool_results: Vec<CallToolResult>,
    pub final_result: Option<StepResultDraft>,
}

pub struct FrameView {
    pub metadata: Seq<(Seq<char>, JsonView)>,
    pub output: (Seq<char>, Option<Seq<char>>, Seq<ToolCallView>),
    pub tool_calls: Seq<ToolCallView>,
    pub tool_results: Seq<CallToolResultView>,
    pub final_result: Option<StepView>,
}

pub open spec fn opt_step(o: Option<StepResultDraft>) -> Option<StepView> {
    match o {
        Some(r) => Some(r@),
        None => None,
    }
}

impl View for StepFrame {
    type V = FrameView;

    open spec fn view(&self) -> FrameView {
        FrameView {
            metadata: members_view(self.metadata@),
            output: (self.model_output.content@, opt_str(self.model_output.reasoning_content), calls_view(self.model_output.tool_calls@)),
            tool_calls: calls_view(self.tool_calls@),
            tool_results: results_view(self.tool_results@),
            final_result: opt_step(self.final_result),
        }
    }
}

impl StepFrame {
    pub fn new() -> (r: StepFrame)
        ensures
            r@.metadata.len() == 0,
            r@.output == (Seq::<char>::empty(), None::<Seq<char>>, Seq::<ToolCallView>::empty()),
            r@.tool_calls.len() == 0,
            r@.tool_results.len() == 0,
            r@.final_result is None,
    {
        let r = StepFrame {
            metadata: Vec::new(),
            model_output: ModelCallOutput::new(),
            tool_calls: Vec::new(),
            tool_results: Vec::new(),
            final_result: None,
        };
        proof {
            assert(members_view(r.metadata@) =~= Seq::<(Seq<char>, JsonView)>::empty());
            assert(calls_view(r.tool_calls@) =~= Seq::<ToolCallView>::empty());
            assert(results_view(r.tool_results@) =~= Seq::<CallToolResultView>::empty());
            assert(calls_view(r.model_output.tool_calls@) =~= Seq::<ToolCallView>::empty());
            assert(r.model_output.content@ =~= Seq::<char>::empty());
        }
        r
    }

    pub fn result(&self) -> (r: Option<&StepResultDraft>)
        ensures
            match self.final_result {
                Some(d) => r is Some && r->0@ == d@,
                None => r is None,
            },
    {
        match &self.final_result {
            Some(d) => Some(d),
            None => None,
        }
    }

    pub fn set_result(&mut self, result: StepResultDraft)
        ensures
            final(self)@ == (FrameView { final_result: Some(result@), ..old(self)@ }),
    {
        self.final_result = Some(result);
    }
}

/// The members without those named `key`.
pub open spec fn obj_remove(ms: Seq<(Seq<char>, JsonView)>, key: Seq<char>) -> Seq<(Seq<char>, JsonView)> {
    ms.filter(|p: (Seq<char>, JsonView)| p.0 != key)
}

fn object_remove(ms: &mut Vec<(String, JsonValue)>, key: &String)
    ensures
        members_view(final(ms)@) == obj_remove(members_view(old(ms)@), key@),
{
    let ghost mv = members_view(ms@);
    let ghost pred = |p: (Seq<char>, JsonView)| p.0 != key@;
    proof { crate::json::lemma_members_view(ms@); }
    let mut out: Vec<(String, JsonValue)> = Vec::new();
    let mut i: usize = 0;
    proof {
        reveal(Seq::filter);
        assert(members_view(out@) =~= mv.subrange(0, 0).filter(pred));
    }
    while i < ms.len()
        invariant
            i <= ms.len(),
            mv == members_view(ms@),
            mv.len() == ms@.len(),
            forall|j: int| 0 <= j < ms@.len() ==> #[trigger] mv[j] == (ms@[j].0@, ms@[j].1@),
            pred == (|p: (Seq<char>, JsonView)| p.0 != key@),
            members_view(out@) == mv.subrange(0, i as int).filter(pred),
        decreases ms.len() - i,
    {
        let ghost before = out@;
        if ms[i].0 != *key {
            let k = ms[i].0.clone();
            let v = ms[i].1.clone();
            out.push((k, v));
            proof { assert(out@.drop_last() =~= before); }
        }
        proof {
            let sub = mv.subrange(0, i as int + 1);
            assert(sub.drop_last() =~= mv.subrange(0, i as int));
            reveal(Seq::filter);
            assert(sub.last() == mv[i as int]);
            assert(members_view(out@) =~= sub.filter(pred));
        }
        i = i + 1;
    }
    proof { assert(mv.subrange(0, mv.len() as int) =~= mv); }
    *ms = out;
}

/// What one effect does to the frame: the frame after it, whether the phase
/// goes on, and the event to emit.
pub open spec fn effect_step(f: FrameView, e: EffectView) -> (FrameView, EffectSignal, Option<EventView>) {
    match e {
        EffectView::EmitNow(ev) => (f, EffectSignal::Continue, Some(ev)),
        EffectView::SetMetadata { key, value } => (FrameView { metadata: obj_insert(f.metadata, key, value), ..f }, EffectSignal::Continue, None),
        EffectView::RemoveMetadata { key } => (FrameView { metadata: obj_remove(f.metadata, key), ..f }, EffectSignal::Continue, None),
        EffectView::SetResult(r) => (FrameView { final_result: Some(r), ..f }, EffectSignal::ResultSet, None),
        EffectView::Abort(err) => (FrameView { final_result: Some(StepView::Error(err)), ..f }, EffectSignal::Aborted, None),
    }
}

/// Applies `effect` to the frame; returns whether the phase goes on, and the
/// event the caller is to send.
pub fn apply_effect(frame: &mut StepFrame, effect: Effect) -> (r: (EffectSignal, Option<AgentActorEvent>))
    ensures
        (final(frame)@, r.0, match r.1 { Some(e) => Some(e@), None => None::<EventView> }) == effect_step(old(frame)@, effect@),
{
    match effect {
        Effect::EmitNow(event) => (EffectSignal::Continue, Some(event)),
        Effect::SetMetadata { key, value } => {
            object_insert(&mut frame.metadata, key, value);
            (EffectSignal::Continue, None)
        },
        Effect::RemoveMetadata { key } => {
            object_remove(&mut frame.metadata, &key);
            (EffectSignal::Continue, None)
        },
        Effect::SetResult(result) => {
            frame.set_result(result);
            (EffectSignal::ResultSet, None)
        },
        Effect::Abort(err) => {
            frame.set_result(StepResultDraft::Error(err));
            (EffectSignal::Aborted, None)
        },
    }
}

pub open spec fn hook_error_view(plugin: Seq<char>, phase: HookPhase, message: Seq<char>) -> AgentErrorView {
    AgentErrorView::Hook { plugin, phase, message }
}

/// The effect a public hook's request becomes: a result may only be
/// replaced after the step.
pub open spec fn public_effect(name: Seq<char>, phase: HookPhase, e: HookEffectView) -> Result<EffectView, AgentErrorView> {
    match e {
        HookEffectView::EmitEvent { kind, payload } => Ok(EffectView::EmitNow(EventView::HookEvent { hook: name, kind, payload })),
        HookEffectView::ReplaceResult(u) => if phase != HookPhase::AfterStep {
            Err(hook_error_view(name, phase, "ReplaceResult is only supported during after_step"@))
        } else {
            Ok(EffectView::SetResult(draft_of(u)))
        },
        HookEffectView::Abort { reason } => Ok(EffectView::Abort(hook_error_view(name, phase, reason))),
        HookEffectView::SetMetadata { key, value } => Ok(EffectView::SetMetadata { key, value }),
        HookEffectView::RemoveMetadata { key } => Ok(EffectView::RemoveMetadata { key }),
    }
}

/// The effect `effect` of the public hook `hook_name` becomes; see
/// `public_effect`.
pub fn into_public_effect(hook_name: &str, phase: HookPhase, effect: HookEffect) -> (r: Result<Effect, AgentError>)
    ensures
        match (r, public_effect(hook_name@, phase, effect@)) {
            (Ok(a), Ok(b)) => a@ == b,
            (Err(a), Err(b)) => a@ == b,
            _ => false,
        },
{
    match effect {
        HookEffect::EmitEvent(event) => Ok(Effect::EmitNow(AgentActorEvent::HookEvent {
            hook: String::from_str(hook_name),
            kind: event.kind,
            payload: event.payload,
        })),
        HookEffect::ReplaceResult(next) => {
            if phase != HookPhase::AfterStep {
                return Err(AgentError::Hook {
                    plugin: String::from_str(hook_name),
                    phase,
                    message: String::from_str("ReplaceResult is only supported during after_step"),
                });
            }
            Ok(Effect::SetResult(next.into_draft()))
        },
        HookEffect::Abort { reason } => Ok(Effect::Abort(AgentError::Hook {
            plugin: String::from_str(hook_name),
            phase,
            message: reason,
        })),
        HookEffect::SetMetadata { key, value } => Ok(Effect::SetMetadata { key, value }),
        HookEffect::RemoveMetadata { key } => Ok(Effect::RemoveMetadata { key }),
    }
}


// ---------------------------------------------------------------------------
// Running the answers of hooks
// ---------------------------------------------------------------------------

pub open spec fn opt_event(o: Option<EventView>) -> Seq<EventView> {
    match o {
        Some(e) => seq![e],
        None => Seq::empty(),
    }
}

pub open spec fn hook_effects_view(s: Seq<HookEffect>) -> Seq<HookEffectView> {
    s.map_values(|e: HookEffect| e@)
}

pub open spec fn effects_view(s: Seq<Effect>) -> Seq<EffectView> {
    s.map_values(|e: Effect| e@)
}

/// The effects of a public hook's answer, in order, until one fails to
/// convert or one stops the phase: the frame after them, how it ended, and
/// the events to emit.
pub open spec fn public_run(f: FrameView, name: Seq<char>, phase: HookPhase, es: Seq<HookEffectView>) -> (FrameView, Result<EffectSignal, AgentErrorView>, Seq<EventView>)
    decreases es.len(),
{
    if es.len() == 0 {
        (f, Ok(EffectSignal::Continue), Seq::empty())
    } else {
        match public_effect(name, phase, es[0]) {
            Err(e) => (f, Err(e), Seq::empty()),
            Ok(eff) => {
                let st = effect_step(f, eff);
                if st.1 != EffectSignal::Continue {
                    (st.0, Ok(st.1), opt_event(st.2))
                } else {
                    let rest = public_run(st.0, name, phase, es.drop_first());
                    (rest.0, rest.1, opt_event(st.2) + rest.2)
                }
            },
        }
    }
}

/// The effects of a runtime hook's answer, in order, until one stops the
/// phase.
pub open spec fn runtime_run(f: FrameView, es: Seq<EffectView>) -> (FrameView, EffectSignal, Seq<EventView>)
    decreases es.len(),
{
    if es.len() == 0 {
        (f, EffectSignal::Continue, Seq::empty())
    } else {
        let st = effect_step(f, es[0]);
        if st.1 != EffectSignal::Continue {
            (st.0, st.1, opt_event(st.2))
        } else {
            let rest = runtime_run(st.0, es.drop_first());
            (rest.0, rest.1, opt_event(st.2) + rest.2)
        }
    }
}

fn push_event(events: &mut Vec<AgentActorEvent>, e: Option<AgentActorEvent>)
    ensures
        events_view(final(events)@) == events_view(old(events)@) + opt_event(match e { Some(x) => Some(x@), None => None::<EventView> }),
{
    let ghost before = events@;
    match e {
        Some(x) => {
            events.push(x);
            proof { assert(events_view(events@) =~= events_view(before) + opt_event(Some(events@.last()@))); }
        },
        None => {
            proof { assert(events_view(events@) =~= events_view(before) + Seq::<EventView>::empty()); }
        },
    }
}

/// Applies the effects a public hook asked for; see `public_run`. The events
/// are for the caller to send, in order.
pub fn apply_public_effects(hook_name: &str, phase: HookPhase, frame: &mut StepFrame, effects: Vec<HookEffect>) -> (r: (Result<EffectSignal, AgentError>, Vec<AgentActorEvent>))
    ensures
        ({
            let run = public_run(old(frame)@, hook_name@, phase, hook_effects_view(effects@));
            &&& final(frame)@ == run.0
            &&& events_view(r.1@) == run.2
            &&& match (r.0, run.1) {
                (Ok(a), Ok(b)) => a == b,
                (Err(a), Err(b)) => a@ == b,
                _ => false,
            }
        }),
{
    let ghost f0 = frame@;
    let ghost es0 = hook_effects_view(effects@);
    let mut rest = effects;
    let mut events: Vec<AgentActorEvent> = Vec::new();
    proof { assert(events_view(events@) =~= Seq::<EventView>::empty()); }
    loop
        invariant
            f0 == old(frame)@,
            es0 == hook_effects_view(effects@),
            ({
                let tail = public_run(frame@, hook_name@, phase, hook_effects_view(rest@));
                public_run(f0, hook_name@, phase, es0) == (tail.0, tail.1, events_view(events@) + tail.2)
            }),
        decreases rest@.len(),
    {
        if rest.len() == 0 {
            proof {
                assert(hook_effects_view(rest@) =~= Seq::<HookEffectView>::empty());
                assert(events_view(events@) + Seq::<EventView>::empty() =~= events_view(events@));
            }
            return (Ok(EffectSignal::Continue), events);
        }
        let ghost rv = hook_effects_view(rest@);
        let ghost fr = frame@;
        let e = rest.remove(0);
        proof {
            assert(rv[0] == e@);
            assert(rv.drop_first() =~= hook_effects_view(rest@));
        }
        let eff = match into_public_effect(hook_name, phase, e) {
            Ok(x) => x,
            Err(err) => {
                proof { assert(events_view(events@) + Seq::<EventView>::empty() =~= events_view(events@)); }
                return (Err(err), events);
            },
        };
        let ghost ev_before = events_view(events@);
        let (sig, ev) = apply_effect(frame, eff);
        push_event(&mut events, ev);
        if sig != EffectSignal::Continue {
            proof { assert(events_view(events@) + Seq::<EventView>::empty() =~= events_view(events@)); }
            return (Ok(sig), events);
        }
        proof {
            let st = effect_step(fr, eff@);
            let tail = public_run(frame@, hook_name@, phase, hook_effects_view(rest@));
            assert(ev_before + (opt_event(st.2) + tail.2) =~= events_view(events@) + tail.2);
        }
    }
}

/// Applies the effects a runtime hook asked for; see `runtime_run`.
pub fn apply_runtime_effects(frame: &mut StepFrame, effects: Vec<Effect>) -> (r: (EffectSignal, Vec<AgentActorEvent>))
    ensures
        ({
            let run = runtime_run(old(frame)@, effects_view(effects@));
            &&& final(frame)@ == run.0
            &&& r.0 == run.1
            &&& events_view(r.1@) == run.2
        }),
{
    let ghost f0 = frame@;
    let ghost es0 = effects_view(effects@);
    let mut rest = effects;
    let mut events: Vec<AgentActorEvent> = Vec::new();
    proof { assert(events_view(events@) =~= Seq::<EventView>::empty()); }
    loop
        invariant
            f0 == old(frame)@,
            es0 == effects_view(effects@),
            ({
                let tail = runtime_run(frame@, effects_view(rest@));
                runtime_run(f0, es0) == (tail.0, tail.1, events_view(events@) + tail.2)
            }),
        decreases rest@.len(),
    {
        if rest.len() == 0 {
            proof {
                assert(effects_view(rest@) =~= Seq::<EffectView>::empty());
                assert(events_view(events@) + Seq::<EventView>::empty() =~= events_view(events@));
            }
            return (EffectSignal::Continue, events);
        }
        let ghost rv = effects_view(rest@);
        let ghost fr = frame@;
        let e = rest.remove(0);
        proof {
            assert(rv[0] == e@);
            assert(rv.drop_first() =~= effects_view(rest@));
        }
        let ghost ev_before = events_view(events@);
        let ghost ee = e@;
        let (sig, ev) = apply_effect(frame, e);
        push_event(&mut events, ev);
        if sig != EffectSignal::Continue {
            proof { assert(events_view(events@) + Seq::<EventView>::empty() =~= events_view(events@)); }
            return (sig, events);
        }
        proof {
            let st = effect_step(fr, ee);
            let tail = runtime_run(frame@, effects_view(rest@));
            assert(ev_before + (opt_event(st.2) + tail.2) =~= events_view(events@) + tail.2);
        }
    }
}

pub open spec fn reply_view(r: Result<Vec<HookEffect>, HookError>) -> Result<Seq<HookEffectView>, Seq<char>> {
    match r {
        Ok(v) => Ok(hook_effects_view(v@)),
        Err(e) => Err(e.message@),
    }
}

pub open spec fn runtime_reply_view(r: Result<Vec<Effect>, HookError>) -> Result<Seq<EffectView>, Seq<char>> {
    match r {
        Ok(v) => Ok(effects_view(v@)),
        Err(e) => Err(e.message@),
    }
}

/// After the step, what a public hook's answer does: a failed hook or a
/// refused effect makes the step's result an error and ends the public hooks;
/// an abort ends them; otherwise the next hook runs.
pub open spec fn after_step_public(f: FrameView, name: Seq<char>, reply: Result<Seq<HookEffectView>, Seq<char>>) -> (FrameView, bool, Seq<EventView>) {
    match reply {
        Err(msg) => (
            FrameView { final_result: Some(StepView::Error(hook_error_view(name, HookPhase::AfterStep, msg))), ..f },
            true,
            Seq::empty(),
        ),
        Ok(es) => {
            let run = public_run(f, name, HookPhase::AfterStep, es);
            match run.1 {
                Ok(EffectSignal::Aborted) => (run.0, true, run.2),
                Ok(_) => (run.0, false, run.2),
                Err(err) => (FrameView { final_result: Some(StepView::Error(err)), ..run.0 }, true, run.2),
            }
        },
    }
}

/// Handles the answer of the public hook `hook_name` after the step; see
/// `after_step_public`. Returns whether the public hooks stop, and the events
/// to send.
pub fn after_step_public_reply(frame: &mut StepFrame, hook_name: &str, reply: Result<Vec<HookEffect>, HookError>) -> (r: (bool, Vec<AgentActorEvent>))
    ensures
        (final(frame)@, r.0, events_view(r.1@)) == after_step_public(old(frame)@, hook_name@, reply_view(reply)),
{
    match reply {
        Err(e) => {
            frame.set_result(StepResultDraft::Error(AgentError::Hook {
                plugin: String::from_str(hook_name),
                phase: HookPhase::AfterStep,
                message: e.message,
            }));
            let v: Vec<AgentActorEvent> = Vec::new();
            proof { assert(events_view(v@) =~= Seq::<EventView>::empty()); }
            (true, v)
        },
        Ok(effects) => {
            let (res, events) = apply_public_effects(hook_name, HookPhase::AfterStep, frame, effects);
            match res {
                Ok(EffectSignal::Aborted) => (true, events),
                Ok(_) => (false, events),
                Err(err) => {
                    frame.set_result(StepResultDraft::Error(err));
                    (true, events)
                },
            }
        },
    }
}

/// After the step, what a runtime hook's answer does: a failed hook makes the
/// result an error; its effects apply; the next hook runs either way.
pub open spec fn after_step_runtime(f: FrameView, name: Seq<char>, reply: Result<Seq<EffectView>, Seq<char>>) -> (FrameView, Seq<EventView>) {
    match reply {
        Err(msg) => (FrameView { final_result: Some(StepView::Error(hook_error_view(name, HookPhase::AfterStep, msg))), ..f }, Seq::empty()),
        Ok(es) => {
            let run = runtime_run(f, es);
            (run.0, run.2)
        },
    }
}

/// Handles the answer of the runtime hook `hook_name` after the step; see
/// `after_step_runtime`.
pub fn after_step_runtime_reply(frame: &mut StepFrame, hook_name: &str, reply: Result<Vec<Effect>, HookError>) -> (r: Vec<AgentActorEvent>)
    ensures
        (final(frame)@, events_view(r@)) == after_step_runtime(old(frame)@, hook_name@, runtime_reply_view(reply)),
{
    match reply {
        Err(e) => {
            frame.set_result(StepResultDraft::Error(AgentError::Hook {
                plugin: String::from_str(hook_name),
                phase: HookPhase::AfterStep,
                message: e.message,
            }));
            let v: Vec<AgentActorEvent> = Vec::new();
            proof { assert(events_view(v@) =~= Seq::<EventView>::empty()); }
            v
        },
        Ok(effects) => {
            let (_sig, events) = apply_runtime_effects(frame, effects);
            events
        },
    }
}

/// In the other phases, what a public hook's answer does: a failed hook or a
/// refused effect fails the phase; an effect that stops it ends the phase's
/// hooks (`Ok(true)`); otherwise the next hook runs (`Ok(false)`).
pub open spec fn phase_public(f: FrameView, name: Seq<char>, phase: HookPhase, reply: Result<Seq<HookEffectView>, Seq<char>>) -> (FrameView, Result<bool, AgentErrorView>, Seq<EventView>) {
    match reply {
        Err(msg) => (f, Err(hook_error_view(name, phase, msg)), Seq::empty()),
        Ok(es) => {
            let run = public_run(f, name, phase, es);
            match run.1 {
                Ok(sig) => (run.0, Ok(sig != EffectSignal::Continue), run.2),
                Err(e) => (run.0, Err(e), run.2),
            }
        },
    }
}

/// Handles a public hook's answer in `phase`; see `phase_public`.
pub fn phase_public_reply(frame: &mut StepFrame, hook_name: &str, phase: HookPhase, reply: Result<Vec<HookEffect>, HookError>) -> (r: (Result<bool, AgentError>, Vec<AgentActorEvent>))
    ensures
        ({
            let p = phase_public(old(frame)@, hook_name@, phase, reply_view(reply));
            &&& final(frame)@ == p.0
            &&& events_view(r.1@) == p.2
            &&& match (r.0, p.1) {
                (Ok(a), Ok(b)) => a == b,
                (Err(a), Err(b)) => a@ == b,
                _ => false,
            }
        }),
{
    match reply {
        Err(e) => {
            let v: Vec<AgentActorEvent> = Vec::new();
            proof { assert(events_view(v@) =~= Seq::<EventView>::empty()); }
            (Err(AgentError::Hook { plugin: String::from_str(hook_name), phase, message: e.message }), v)
        },
        Ok(effects) => {
            let (res, events) = apply_public_effects(hook_name, phase, frame, effects);
            match res {
                Ok(sig) => (Ok(sig != EffectSignal::Continue), events),
                Err(err) => (Err(err), events),
            }
        },
    }
}

/// In the other phases, what a runtime hook's answer does: a failed hook fails
/// the phase; an effect that stops it ends the phase's hooks.
pub open spec fn phase_runtime(f: FrameView, name: Seq<char>, phase: HookPhase, reply: Result<Seq<EffectView>, Seq<char>>) -> (FrameView, Result<bool, AgentErrorView>, Seq<EventView>) {
    match reply {
        Err(msg) => (f, Err(hook_error_view(name, phase, msg)), Seq::empty()),
        Ok(es) => {
            let run = runtime_run(f, es);
            (run.0, Ok(run.1 != EffectSignal::Continue), run.2)
        },
    }
}

/// Handles a runtime hook's answer in `phase`; see `phase_runtime`.
pub fn phase_runtime_reply(frame: &mut StepFrame, hook_name: &str, phase: HookPhase, reply: Result<Vec<Effect>, HookError>) -> (r: (Result<bool, AgentError>, Vec<AgentActorEvent>))
    ensures
        ({
            let p = phase_runtime(old(frame)@, hook_name@, phase, runtime_reply_view(reply));
            &&& final(frame)@ == p.0
            &&& events_view(r.1@) == p.2
            &&& match (r.0, p.1) {
                (Ok(a), Ok(b)) => a == b,
                (Err(a), Err(b)) => a@ == b,
                _ => false,
            }
        }),
{
    match reply {
        Err(e) => {
            let v: Vec<AgentActorEvent> = Vec::new();
            proof { assert(events_view(v@) =~= Seq::<EventView>::empty()); }
            (Err(AgentError::Hook { plugin: String::from_str(hook_name), phase, message: e.message }), v)
        },
        Ok(effects) => {
            let (sig, events) = apply_runtime_effects(frame, effects);
            (Ok(sig != EffectSignal::Continue), events)
        },
    }
}

} // verus!
