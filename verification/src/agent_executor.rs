use vstd::prelude::*;

use crate::json::{json_text, json_to_text, lemma_members_view, members_view, JsonValue, JsonView};
use crate::message::{call_name, calls_view, tool_error_text, ToolCall, ToolCallView, ToolExecutorError, ToolResult};
use crate::models::{chat_error_text, ChatChunk, ChatError};
use crate::stream::{merge_all, merge_tool_calls};

verus! {

/// A piece of a streamed answer, as the executor passes it on.
#[derive(Debug)]
pub enum StreamChunk {
    Text(String),
    Reasoning(String),
    Completed { content: String, reasoning_content: Option<String>, tool_calls: Option<Vec<ToolCall>> },
}

pub enum StreamChunkView {
    Text(Seq<char>),
    Reasoning(Seq<char>),
    Completed { content: Seq<char>, reasoning_content: Option<Seq<char>>, tool_calls: Option<Seq<ToolCallView>> },
}

impl View for StreamChunk {
    type V = StreamChunkView;

    open spec fn view(&self) -> StreamChunkView {
        match self {
            StreamChunk::Text(s) => StreamChunkView::Text(s@),
            StreamChunk::Reasoning(s) => StreamChunkView::Reasoning(s@),
            StreamChunk::Completed { content, reasoning_content, tool_calls } => StreamChunkView::Completed {
                content: content@,
                reasoning_content: crate::message::opt_str(*reasoning_content),
                tool_calls: crate::message::opt_calls(*tool_calls),
            },
        }
    }
}

pub open spec fn chunks_view(s: Seq<StreamChunk>) -> Seq<StreamChunkView> {
    s.map_values(|c: StreamChunk| c@)
}

/// What running a tool gave, with its output as JSON text.
#[derive(Debug)]
pub struct ToolExecutionResult {
    pub call_id: String,
    pub tool_name: String,
    pub success: bool,
    pub output: String,
}

/// The result of one step of the executor.
#[derive(Debug)]
pub enum StepResult {
    Continue {
        content: String,
        reasoning_content: Option<String>,
        tool_calls: Vec<ToolCall>,
        tool_results: Vec<ToolExecutionResult>,
    },
    Done { content: String, reasoning_content: Option<String> },
    Error(String),
}

/// A streamed answer as it accumulates: its text, its reasoning, and the
/// tool calls merged from their pieces.
#[derive(Debug)]
pub struct StreamAccumulator {
    pub content: String,
    pub reasoning_content: String,
    pub tool_calls: Vec<ToolCall>,
}

impl StreamAccumulator {
    pub fn new() -> (r: StreamAccumulator)
        ensures
            r.content@.len() == 0,
            r.reasoning_content@.len() == 0,
            r.tool_calls@.len() == 0,
    {
        StreamAccumulator { content: String::new(), reasoning_content: String::new(), tool_calls: Vec::new() }
    }

    /// Adds one chunk: its text and its reasoning are appended and passed on,
    /// in that order, each when there is any; its tool-call pieces are merged.
    pub fn push(&mut self, chunk: ChatChunk) -> (r: Vec<StreamChunk>)
        ensures
            final(self).content@ == old(self).content@ + chunk.content@,
            final(self).reasoning_content@ == old(self).reasoning_content@ + chunk.reasoning_content@,
            calls_view(final(self).tool_calls@) == match chunk.tool_calls {
                Some(v) => merge_all(calls_view(old(self).tool_calls@), calls_view(v@)),
                None => calls_view(old(self).tool_calls@),
            },
            chunks_view(r@) == (if chunk.content@.len() > 0 { seq![StreamChunkView::Text(chunk.content@)] } else { Seq::empty() })
                + (if chunk.reasoning_content@.len() > 0 {
                    seq![StreamChunkView::Reasoning(chunk.reasoning_content@)]
                } else {
                    Seq::empty()
                }),
    {
        let ChatChunk { content: text, reasoning_content: reasoning, tool_calls: pieces, .. } = chunk;
        let mut out: Vec<StreamChunk> = Vec::new();
        let ghost t = text@;
        let ghost rs = reasoning@;
        if text.as_str().unicode_len() > 0 {
            self.content.append(text.as_str());
            out.push(StreamChunk::Text(text));
        } else {
            proof { assert(old(self).content@ + t =~= old(self).content@); }
        }
        let ghost first = chunks_view(out@);
        if reasoning.as_str().unicode_len() > 0 {
            self.reasoning_content.append(reasoning.as_str());
            out.push(StreamChunk::Reasoning(reasoning));
        } else {
            proof { assert(old(self).reasoning_content@ + rs =~= old(self).reasoning_content@); }
        }
        proof {
            assert(chunks_view(out@) =~= (if t.len() > 0 { seq![StreamChunkView::Text(t)] } else { Seq::empty() })
                + (if rs.len() > 0 { seq![StreamChunkView::Reasoning(rs)] } else { Seq::empty() }));
        }
        if let Some(pieces) = pieces {
            merge_tool_calls(&mut self.tool_calls, pieces);
        }
        out
    }

    /// The answer: its text, its reasoning (none when empty) and its calls
    /// (none when no pieces came).
    pub fn finish(self) -> (r: (String, Option<String>, Option<Vec<ToolCall>>))
        ensures
            r.0@ == self.content@,
            self.reasoning_content@.len() == 0 ==> r.1 is None,
            self.reasoning_content@.len() > 0 ==> r.1 is Some && r.1->0@ == self.reasoning_content@,
            self.tool_calls@.len() == 0 ==> r.2 is None,
            self.tool_calls@.len() > 0 ==> r.2 is Some && calls_view(r.2->0@) == calls_view(self.tool_calls@),
    {
        let StreamAccumulator { content, reasoning_content, tool_calls } = self;
        let reasoning = if reasoning_content.as_str().unicode_len() == 0 { None } else { Some(reasoning_content) };
        let calls = if tool_calls.len() == 0 { None } else { Some(tool_calls) };
        (content, reasoning, calls)
    }
}

/// The chunk that says the model's answer is complete.
pub fn completed_chunk(content: &String, reasoning_content: &Option<String>, tool_calls: &Option<Vec<ToolCall>>) -> (r: StreamChunk)
    ensures
        r@ == (StreamChunkView::Completed {
            content: content@,
            reasoning_content: crate::message::opt_str(*reasoning_content),
            tool_calls: crate::message::opt_calls(*tool_calls),
        }),
{
    StreamChunk::Completed {
        content: content.clone(),
        reasoning_content: crate::message::copy_opt_string(reasoning_content),
        tool_calls: crate::message::copy_opt_calls(tool_calls),
    }
}

/// The JSON text `{"error": e}`.
pub open spec fn error_json_text(e: JsonView) -> Seq<char> {
    json_text(JsonView::Object(seq![("error"@, e)]))
}

/// What a tool's outcome is recorded as: the output's JSON text on success;
/// otherwise a failure whose text is `{"error": ..}` around the output or
/// around the error's text.
pub open spec fn execution_report(outcome: Result<ToolResult, ToolExecutorError>) -> (bool, Seq<char>) {
    match outcome {
        Ok(r) => if r.success {
            (true, json_text(r.output@))
        } else {
            (false, error_json_text(r.output@))
        },
        Err(e) => (false, error_json_text(JsonView::Str(tool_error_text(e@)))),
    }
}

fn error_object(e: JsonValue) -> (r: JsonValue)
    ensures
        r@ == JsonView::Object(seq![("error"@, e@)]),
{
    let mut ms: Vec<(String, JsonValue)> = Vec::new();
    ms.push((String::from_str("error"), e));
    proof {
        lemma_members_view(ms@);
        assert(members_view(ms@) =~= seq![("error"@, ms@[0].1@)]);
    }
    JsonValue::Object(ms)
}

/// Records a tool's outcome for the call it answers; see `execution_report`.
pub fn tool_execution_result(call: &ToolCall, outcome: Result<ToolResult, ToolExecutorError>) -> (r: ToolExecutionResult)
    ensures
        r.call_id@ == call.id@,
        r.tool_name@ == call_name(call@),
        (r.success, r.output@) == execution_report(outcome),
{
    let ghost o = outcome;
    let (success, output) = match outcome {
        Ok(r) => {
            if r.success {
                (true, json_to_text(&r.output))
            } else {
                let wrapped = error_object(r.output);
                (false, json_to_text(&wrapped))
            }
        },
        Err(e) => {
            let wrapped = error_object(JsonValue::Str(e.to_text()));
            (false, json_to_text(&wrapped))
        },
    };
    ToolExecutionResult { call_id: call.id.clone(), tool_name: call.get_name(), success, output }
}

/// The step that a failed chat ends in: the error's text.
pub fn chat_failure(e: &ChatError) -> (r: StepResult)
    ensures
        r matches StepResult::Error(m) && m@ == chat_error_text(*e),
{
    StepResult::Error(e.to_text())
}

/// The step the answer makes: it goes on with the tools' results when the
/// model called tools, and is done otherwise.
pub fn answer_step(
    content: String,
    reasoning_content: Option<String>,
    tool_calls: Option<Vec<ToolCall>>,
    tool_results: Vec<ToolExecutionResult>,
) -> (r: StepResult)
    ensures
        match tool_calls {
            Some(calls) => r matches StepResult::Continue { content: c, reasoning_content: rc, tool_calls: tc, tool_results: tr }
                && c == content && rc == reasoning_content && calls_view(tc@) == calls_view(calls@) && tr == tool_results,
            None => r matches StepResult::Done { content: c, reasoning_content: rc } && c == content && rc == reasoning_content,
        },
{
    match tool_calls {
        Some(tool_calls) => StepResult::Continue { content, reasoning_content, tool_calls, tool_results },
        None => StepResult::Done { content, reasoning_content },
    }
}

} // verus!
