use vstd::prelude::*;

use crate::context::conversation_of;
use crate::json::{json_text, json_to_text};
use crate::message::{
    calls_view, copy_calls, messages_view, tool_error_text, Message, MessageView, ToolCall, ToolCallView, ToolExecutorError,
    ToolResult,
};
use crate::models::ChatChunk;
use crate::reducer::{AgentState, JobState};
use crate::context::with_message;
use crate::stream::{merge_all, merge_tool_calls};

verus! {

/// What an actor reports as it runs.
#[derive(Debug)]
pub enum ActorEvent {
    Chunk(String),
    ToolCalls(Vec<ToolCall>),
    ToolResult { call_id: String, success: bool, output: String },
    Iteration { iteration: usize, message_count: usize },
    Completed,
    Error(String),
}

pub enum ActorEventView {
    Chunk(Seq<char>),
    ToolCalls(Seq<ToolCallView>),
    ToolResult { call_id: Seq<char>, success: bool, output: Seq<char> },
    Iteration { iteration: usize, message_count: usize },
    Completed,
    Error(Seq<char>),
}

impl View for ActorEvent {
    type V = ActorEventView;

    open spec fn view(&self) -> ActorEventView {
        match self {
            ActorEvent::Chunk(s) => ActorEventView::Chunk(s@),
            ActorEvent::ToolCalls(v) => ActorEventView::ToolCalls(calls_view(v@)),
            ActorEvent::ToolResult { call_id, success, output } => ActorEventView::ToolResult {
                call_id: call_id@,
                success: *success,
                output: output@,
            },
            ActorEvent::Iteration { iteration, message_count } => ActorEventView::Iteration {
                iteration: *iteration,
                message_count: *message_count,
            },
            ActorEvent::Completed => ActorEventView::Completed,
            ActorEvent::Error(s) => ActorEventView::Error(s@),
        }
    }
}

/// A command sent to an actor.
#[derive(Debug, Clone, Copy, PartialEq, Eq, Structural)]
pub enum ActorCommand {
    Pause,
    Continue,
    Cancel,
}

/// Whether an actor is paused, and whether it was cancelled.
#[derive(Debug, Clone, Copy, PartialEq, Eq, Structural)]
pub struct ActorControl {
    pub paused: bool,
    pub cancelled: bool,
}

impl ActorControl {
    pub fn new() -> (r: ActorControl)
        ensures
            !r.paused,
            !r.cancelled,
    {
        ActorControl { paused: false, cancelled: false }
    }

    /// Takes a command that arrived while the actor runs: a pause pauses the
    /// job, a continue unpauses it (and resumes a paused job), a cancel
    /// cancels it.
    pub fn apply(&mut self, job: &mut JobState, cmd: ActorCommand)
        ensures
            match cmd {
                ActorCommand::Pause => final(self).paused && final(self).cancelled == old(self).cancelled
                    && *final(job) == JobState::Paused,
                ActorCommand::Continue => !final(self).paused && final(self).cancelled == old(self).cancelled
                    && *final(job) == (if *old(job) == JobState::Paused { JobState::Running } else { *old(job) }),
                ActorCommand::Cancel => final(self).cancelled && final(self).paused == old(self).paused
                    && *final(job) == JobState::Cancelled,
            },
    {
        match cmd {
            ActorCommand::Pause => {
                self.paused = true;
                *job = JobState::Paused;
            },
            ActorCommand::Continue => {
                self.paused = false;
                if *job == JobState::Paused {
                    *job = JobState::Running;
                }
            },
            ActorCommand::Cancel => {
                self.cancelled = true;
                *job = JobState::Cancelled;
            },
        }
    }

    /// Takes what a paused actor waited for: a continue resumes the job; any
    /// other command, or none, leaves it paused.
    pub fn wake(&mut self, job: &mut JobState, received: Option<ActorCommand>)
        ensures
            received == Some(ActorCommand::Continue) ==> !final(self).paused && *final(job) == JobState::Running
                && final(self).cancelled == old(self).cancelled,
            received != Some(ActorCommand::Continue) ==> *final(self) == *old(self) && *final(job) == *old(job),
    {
        if let Some(ActorCommand::Continue) = received {
            self.paused = false;
            *job = JobState::Running;
        }
    }
}

/// The event a cancelled actor ends with.
pub fn cancelled_event() -> (r: ActorEvent)
    ensures
        r@ == ActorEventView::Error("Cancelled"@),
{
    ActorEvent::Error(String::from_str("Cancelled"))
}

/// Starts a step: counts it, and says whether it may run (the iteration is
/// within the limit).
pub fn begin_step(state: &mut AgentState) -> (r: bool)
    requires
        old(state).iteration < usize::MAX,
    ensures
        final(state).iteration == old(state).iteration + 1,
        r == (final(state).iteration <= final(state).max_iterations),
        final(state).max_iterations == old(state).max_iterations,
        final(state).state == old(state).state,
        final(state).context@ == old(state).context@,
{
    state.iteration = state.iteration + 1;
    state.iteration <= state.max_iterations
}

/// Adds one streamed chunk to the answer: its text is appended and reported
/// when there is any, its tool-call pieces are merged.
pub fn collect_chunk(content: &mut String, tool_calls: &mut Vec<ToolCall>, chunk: ChatChunk) -> (r: Option<ActorEvent>)
    ensures
        final(content)@ == old(content)@ + chunk.content@,
        chunk.content@.len() > 0 ==> r is Some && r->0@ == ActorEventView::Chunk(chunk.content@),
        chunk.content@.len() == 0 ==> r is None,
        calls_view(final(tool_calls)@) == match chunk.tool_calls {
            Some(v) => merge_all(calls_view(old(tool_calls)@), calls_view(v@)),
            None => calls_view(old(tool_calls)@),
        },
{
    let ChatChunk { content: text, tool_calls: pieces, .. } = chunk;
    let event = if text.as_str().unicode_len() > 0 {
        content.append(text.as_str());
        Some(ActorEvent::Chunk(text))
    } else {
        proof { assert(old(content)@ + text@ =~= old(content)@); }
        None
    };
    if let Some(pieces) = pieces {
        merge_tool_calls(tool_calls, pieces);
    }
    event
}

/// The calls a streamed answer made: none when no pieces came.
pub fn finish_tool_calls(tool_calls: Vec<ToolCall>) -> (r: Option<Vec<ToolCall>>)
    ensures
        tool_calls@.len() == 0 ==> r is None,
        tool_calls@.len() > 0 ==> r is Some && calls_view(r->0@) == calls_view(tool_calls@),
{
    if tool_calls.len() == 0 {
        None
    } else {
        Some(tool_calls)
    }
}

/// Ends the model's part of a step: the answer goes into the conversation as
/// an assistant message with its calls (none when it made none), and the
/// calls to run come back; none means the step, and the run, are done.
pub fn commit_answer(state: &mut AgentState, content: String, tool_calls: Vec<ToolCall>) -> (r: Option<Vec<ToolCall>>)
    ensures
        final(state).context@ == with_message(old(state).context@, MessageView::Assistant {
            content: content@,
            reasoning_content: None,
            tool_calls: if tool_calls@.len() == 0 { None } else { Some(calls_view(tool_calls@)) },
        }),
        (tool_calls@.len() == 0) == (r is None),
        r is Some ==> calls_view(r->0@) == calls_view(tool_calls@),
        final(state).same_record(&*old(state)),
        final(state).state == old(state).state,
{
    let calls = finish_tool_calls(tool_calls);
    let recorded = match &calls {
        Some(v) => Some(copy_calls(v)),
        None => None,
    };
    state.add_message(Message::Assistant { content, reasoning_content: None, tool_calls: recorded });
    calls
}

/// What a tool's outcome is reported as: its success and its output as JSON
/// text, or a failure with the error's text.
pub open spec fn outcome_report(outcome: Result<ToolResult, ToolExecutorError>) -> (bool, Seq<char>) {
    match outcome {
        Ok(r) => (r.success, json_text(r.output@)),
        Err(e) => (false, tool_error_text(e@)),
    }
}

/// Records a tool's outcome: adds it to the conversation as the call's tool
/// message, and returns the event that reports it.
pub fn record_tool_outcome(state: &mut AgentState, call_id: &str, outcome: Result<ToolResult, ToolExecutorError>) -> (r: ActorEvent)
    ensures
        final(state).context@ == with_message(
            old(state).context@,
            MessageView::Tool { tool_call_id: call_id@, content: outcome_report(outcome).1 },
        ),
        r@ == (ActorEventView::ToolResult {
            call_id: call_id@,
            success: outcome_report(outcome).0,
            output: outcome_report(outcome).1,
        }),
        final(state).iteration == old(state).iteration,
        final(state).state == old(state).state,
{
    let (success, output) = match &outcome {
        Ok(r) => (r.success, json_to_text(&r.output)),
        Err(e) => (false, e.to_text()),
    };
    state.add_message(Message::Tool { tool_call_id: String::from_str(call_id), content: output.clone() });
    ActorEvent::ToolResult { call_id: String::from_str(call_id), success, output }
}

/// The event that closes a step with tool calls.
pub fn iteration_event(state: &AgentState) -> (r: ActorEvent)
    ensures
        r@ == (ActorEventView::Iteration {
            iteration: state.iteration,
            message_count: conversation_of(state.context@).len() as usize,
        }),
{
    let conversation = state.context.conversation();
    proof { assert(messages_view(conversation@).len() == conversation@.len()); }
    ActorEvent::Iteration { iteration: state.iteration, message_count: conversation.len() }
}

} // verus!
