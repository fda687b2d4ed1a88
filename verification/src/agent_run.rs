use vstd::prelude::*;

use crate::json::{json_text, json_to_text, JsonValue, JsonView};
use crate::message::{
    calls_view, copy_calls, tool_error_text, Message, MessageView, ToolCall, ToolCallView, ToolErrorView,
    ToolExecutorError, ToolResult, ToolResultView,
};
use crate::models::{chat_error_text, ChatError};
use crate::text::concat2;

verus! {

/// What a run of the agent reports as it goes.
#[derive(Debug)]
pub enum AgentEvent {
    AssistantMessage(Message),
    ToolCalls(Vec<ToolCall>),
    ToolResult { call_id: String, success: bool, output: JsonValue },
    Iteration { iteration: usize, message_count: usize },
    Complete(Vec<Message>),
}

/// Why a run of the agent failed.
#[derive(Debug)]
pub enum AgentError {
    Chat(ChatError),
    Tool { call_id: String, error: ToolExecutorError },
    MaxIterationsReached(usize),
    InvalidMessage(String),
    AllToolsFailed,
}

pub open spec fn run_error_text(e: AgentError) -> Seq<char> {
    match e {
        AgentError::Chat(c) => "Chat error: "@ + chat_error_text(c),
        AgentError::Tool { call_id, error } => "Tool execution error: "@ + call_id@ + ": "@ + tool_error_text(error@),
        AgentError::MaxIterationsReached(n) => "Max iterations reached: "@ + crate::json::decimal(n as nat),
        AgentError::InvalidMessage(m) => "Invalid message: "@ + m@,
        AgentError::AllToolsFailed => "All tools failed in iteration"@,
    }
}

impl AgentError {
    /// The text of this error, as its `Display` writes it.
    pub fn to_text(&self) -> (r: String)
        ensures
            r@ == run_error_text(*self),
    {
        match self {
            AgentError::Chat(c) => {
                let t = c.to_text();
                concat2("Chat error: ", t.as_str())
            },
            AgentError::Tool { call_id, error } => {
                let mut r = concat2("Tool execution error: ", call_id.as_str());
                r.append(": ");
                let t = error.to_text();
                r.append(t.as_str());
                r
            },
            AgentError::MaxIterationsReached(n) => {
                let d = crate::json::decimal_string(*n as u64);
                concat2("Max iterations reached: ", d.as_str())
            },
            AgentError::InvalidMessage(m) => concat2("Invalid message: ", m.as_str()),
            AgentError::AllToolsFailed => String::from_str("All tools failed in iteration"),
        }
    }
}

/// Where a run stands: ready for the next iteration, waiting for the model,
/// waiting for the tools, or over.
#[derive(Debug, Clone, Copy, PartialEq, Eq, Structural)]
pub enum RunStage {
    Ready { iteration: usize },
    AwaitingReply { iteration: usize },
    AwaitingTools { iteration: usize },
    Finished,
}

/// What the caller reports to the run.
#[derive(Debug)]
pub enum RunInput {
    /// Go on.
    Next,
    /// The model answered, or failed.
    Reply(Result<Message, ChatError>),
    /// The tools ran; one outcome per call, in order.
    ToolResults(Vec<Result<ToolResult, ToolExecutorError>>),
}

/// What the run asks of its caller, in order.
#[derive(Debug)]
pub enum RunCommand {
    /// Report this to the caller's caller.
    Emit(Result<AgentEvent, AgentError>),
    /// Add this message to the memory.
    Remember(Message),
    /// Ask the model, with the whole memory and the tools.
    AskModel,
    /// Run these tool calls.
    RunTools(Vec<ToolCall>),
    /// Report the iteration, with the number of messages in memory.
    EmitIteration(usize),
    /// Report completion, with the messages in memory.
    EmitComplete,
}

pub enum EventView {
    AssistantMessage(MessageView),
    ToolCalls(Seq<ToolCallView>),
    ToolResult { call_id: Seq<char>, success: bool, output: JsonView },
    Iteration { iteration: usize, message_count: usize },
    Complete(Seq<MessageView>),
}

impl View for AgentEvent {
    type V = EventView;

    open spec fn view(&self) -> EventView {
        match self {
            AgentEvent::AssistantMessage(m) => EventView::AssistantMessage(m@),
            AgentEvent::ToolCalls(v) => EventView::ToolCalls(calls_view(v@)),
            AgentEvent::ToolResult { call_id, success, output } => EventView::ToolResult {
                call_id: call_id@,
                success: *success,
                output: output@,
            },
            AgentEvent::Iteration { iteration, message_count } => EventView::Iteration {
                iteration: *iteration,
                message_count: *message_count,
            },
            AgentEvent::Complete(v) => EventView::Complete(crate::message::messages_view(v@)),
        }
    }
}

pub enum CommandView {
    Event(EventView),
    Failure(Seq<char>),
    Remember(MessageView),
    AskModel,
    RunTools(Seq<ToolCallView>),
    EmitIteration(usize),
    EmitComplete,
}

impl View for RunCommand {
    type V = CommandView;

    /// A failure is seen by its text.
    open spec fn view(&self) -> CommandView {
        match self {
            RunCommand::Emit(Ok(e)) => CommandView::Event(e@),
            RunCommand::Emit(Err(e)) => CommandView::Failure(run_error_text(*e)),
            RunCommand::Remember(m) => CommandView::Remember(m@),
            RunCommand::AskModel => CommandView::AskModel,
            RunCommand::RunTools(v) => CommandView::RunTools(calls_view(v@)),
            RunCommand::EmitIteration(i) => CommandView::EmitIteration(*i),
            RunCommand::EmitComplete => CommandView::EmitComplete,
        }
    }
}

pub open spec fn commands_view(s: Seq<RunCommand>) -> Seq<CommandView> {
    s.map_values(|c: RunCommand| c@)
}

pub open spec fn outcome_view(r: Result<ToolResult, ToolExecutorError>) -> Result<ToolResultView, ToolErrorView> {
    match r {
        Ok(t) => Ok(t@),
        Err(e) => Err(e@),
    }
}

/// What one tool outcome gives: its report, and the tool message remembered.
pub open spec fn tool_outcome_commands(call: ToolCallView, outcome: Result<ToolResultView, ToolErrorView>) -> Seq<CommandView> {
    match outcome {
        Ok(t) => seq![
            CommandView::Event(EventView::ToolResult { call_id: t.id, success: t.success, output: t.output }),
            CommandView::Remember(MessageView::Tool { tool_call_id: t.id, content: json_text(t.output) }),
        ],
        Err(e) => seq![
            CommandView::Event(EventView::ToolResult {
                call_id: call.id,
                success: false,
                output: JsonView::Str("Error: "@ + tool_error_text(e)),
            }),
            CommandView::Remember(MessageView::Tool { tool_call_id: call.id, content: "Error: "@ + tool_error_text(e) }),
        ],
    }
}

/// The reports and messages of the outcomes, each paired with its call.
pub open spec fn outcomes_commands(calls: Seq<ToolCallView>, outcomes: Seq<Result<ToolResultView, ToolErrorView>>) -> Seq<CommandView>
    decreases outcomes.len(),
{
    if outcomes.len() == 0 || calls.len() == 0 {
        Seq::empty()
    } else if outcomes.len() <= calls.len() {
        outcomes_commands(calls, outcomes.drop_last()) + tool_outcome_commands(calls[outcomes.len() - 1], outcomes.last())
    } else {
        outcomes_commands(calls, outcomes.take(calls.len() as int))
    }
}

/// The run of an agent: at most `max_iterations` rounds of asking the model
/// and running the tools it calls.
#[derive(Debug)]
pub struct AgentRun {
    pub stage: RunStage,
    pub max_iterations: usize,
    pub pending_calls: Vec<ToolCall>,
}

fn push_command(out: &mut Vec<RunCommand>, c: RunCommand)
    ensures
        commands_view(final(out)@) == commands_view(old(out)@).push(c@),
{
    let ghost before = out@;
    out.push(c);
    proof { assert(commands_view(out@) =~= commands_view(before).push(c@)); }
}

fn tool_outcome(out: &mut Vec<RunCommand>, call: &ToolCall, outcome: Result<ToolResult, ToolExecutorError>)
    ensures
        commands_view(final(out)@) == commands_view(old(out)@) + tool_outcome_commands(call@, outcome_view(outcome)),
{
    let ghost before = commands_view(out@);
    let ghost ov = outcome_view(outcome);
    match outcome {
        Ok(t) => {
            let text = json_to_text(&t.output);
            let id = t.id.clone();
            push_command(out, RunCommand::Emit(Ok(AgentEvent::ToolResult { call_id: t.id, success: t.success, output: t.output })));
            push_command(out, RunCommand::Remember(Message::Tool { tool_call_id: id, content: text }));
        },
        Err(e) => {
            let t = e.to_text();
            let msg = concat2("Error: ", t.as_str());
            push_command(out, RunCommand::Emit(Ok(AgentEvent::ToolResult {
                call_id: call.id.clone(),
                success: false,
                output: JsonValue::Str(msg.clone()),
            })));
            push_command(out, RunCommand::Remember(Message::Tool { tool_call_id: call.id.clone(), content: msg }));
        },
    }
    proof { assert(commands_view(out@) =~= before + tool_outcome_commands(call@, ov)); }
}

pub open spec fn outcomes_view(s: Seq<Result<ToolResult, ToolExecutorError>>) -> Seq<Result<ToolResultView, ToolErrorView>> {
    s.map_values(|r: Result<ToolResult, ToolExecutorError>| outcome_view(r))
}

impl AgentRun {
    /// A run never counts past its limit: it is ready at most at the limit,
    /// and waits for the model or the tools only below it.
    pub open spec fn wf(&self) -> bool {
        match self.stage {
            RunStage::Ready { iteration } => iteration <= self.max_iterations,
            RunStage::AwaitingReply { iteration } => iteration < self.max_iterations,
            RunStage::AwaitingTools { iteration } => iteration < self.max_iterations,
            RunStage::Finished => true,
        }
    }

    pub fn new(max_iterations: usize) -> (r: AgentRun)
        ensures
            r.wf(),
            r.stage == (RunStage::Ready { iteration: 0 }),
            r.max_iterations == max_iterations,
            r.pending_calls@.len() == 0,
    {
        AgentRun { stage: RunStage::Ready { iteration: 0 }, max_iterations, pending_calls: Vec::new() }
    }

    /// Moves the run on by what the caller reports; returns what to do, in
    /// order. An input the stage does not wait for changes nothing.
    ///
    /// Each round asks the model; its reply is reported and remembered; a
    /// reply that is not the assistant's ends the run with an error; one
    /// without tool calls completes it; otherwise the calls are reported and
    /// run. Each outcome is reported and remembered as a tool message, then
    /// the iteration; the round that reaches the limit ends the run with an
    /// error. With no rounds allowed, the run completes at once.
    pub fn advance(&mut self, input: RunInput) -> (r: Vec<RunCommand>)
        ensures
            final(self).max_iterations == old(self).max_iterations,
            old(self).wf() ==> final(self).wf(),
            old(self).stage == RunStage::Finished ==> r@.len() == 0 && final(self).stage == RunStage::Finished,
            match (old(self).stage, input) {
                (RunStage::Ready { iteration }, RunInput::Next) => if iteration < old(self).max_iterations {
                    final(self).stage == (RunStage::AwaitingReply { iteration }) && commands_view(r@) == seq![CommandView::AskModel]
                } else {
                    final(self).stage == RunStage::Finished && commands_view(r@) == seq![CommandView::EmitComplete]
                },
                (RunStage::AwaitingReply { .. }, RunInput::Reply(Err(e))) => final(self).stage == RunStage::Finished
                    && commands_view(r@) == seq![CommandView::Failure(run_error_text(AgentError::Chat(e)))],
                (RunStage::AwaitingReply { iteration }, RunInput::Reply(Ok(m))) => {
                    let head = seq![CommandView::Event(EventView::AssistantMessage(m@)), CommandView::Remember(m@)];
                    match m@ {
                        MessageView::Assistant { tool_calls: Some(calls), .. } => if calls.len() > 0 {
                            &&& final(self).stage == (RunStage::AwaitingTools { iteration })
                            &&& calls_view(final(self).pending_calls@) == calls
                            &&& commands_view(r@) == head + seq![
                                CommandView::Event(EventView::ToolCalls(calls)),
                                CommandView::RunTools(calls),
                            ]
                        } else {
                            final(self).stage == RunStage::Finished && commands_view(r@) == head.push(CommandView::EmitComplete)
                        },
                        MessageView::Assistant { tool_calls: None, .. } => final(self).stage == RunStage::Finished
                            && commands_view(r@) == head.push(CommandView::EmitComplete),
                        _ => final(self).stage == RunStage::Finished && commands_view(r@) == head.push(
                            CommandView::Failure("Invalid message: "@ + "Expected assistant message"@),
                        ),
                    }
                },
                (RunStage::AwaitingTools { iteration }, RunInput::ToolResults(rs)) => {
                    let body = outcomes_commands(calls_view(old(self).pending_calls@), outcomes_view(rs@))
                        .push(CommandView::EmitIteration(iteration));
                    if iteration + 1 >= old(self).max_iterations {
                        final(self).stage == RunStage::Finished && commands_view(r@) == body.push(
                            CommandView::Failure(run_error_text(AgentError::MaxIterationsReached(old(self).max_iterations))),
                        )
                    } else {
                        final(self).stage == (RunStage::Ready { iteration: (iteration + 1) as usize }) && commands_view(r@) == body
                    }
                },
                (RunStage::Finished, _) => true,
                _ => r@.len() == 0 && final(self).stage == old(self).stage,
            },
    {
        let mut out: Vec<RunCommand> = Vec::new();
        proof { assert(commands_view(out@) =~= Seq::<CommandView>::empty()); }
        match (self.stage, input) {
            (RunStage::Ready { iteration }, RunInput::Next) => {
                if iteration < self.max_iterations {
                    self.stage = RunStage::AwaitingReply { iteration };
                    push_command(&mut out, RunCommand::AskModel);
                } else {
                    self.stage = RunStage::Finished;
                    push_command(&mut out, RunCommand::EmitComplete);
                }
            },
            (RunStage::AwaitingReply { .. }, RunInput::Reply(Err(e))) => {
                self.stage = RunStage::Finished;
                push_command(&mut out, RunCommand::Emit(Err(AgentError::Chat(e))));
            },
            (RunStage::AwaitingReply { iteration }, RunInput::Reply(Ok(m))) => {
                push_command(&mut out, RunCommand::Emit(Ok(AgentEvent::AssistantMessage(m.clone()))));
                let calls = match &m {
                    Message::Assistant { tool_calls, .. } => match tool_calls {
                        Some(v) => Some(Some(copy_calls(v))),
                        None => Some(None),
                    },
                    _ => None,
                };
                push_command(&mut out, RunCommand::Remember(m));
                match calls {
                    None => {
                        self.stage = RunStage::Finished;
                        push_command(
                            &mut out,
                            RunCommand::Emit(Err(AgentError::InvalidMessage(String::from_str("Expected assistant message")))),
                        );
                    },
                    Some(None) => {
                        self.stage = RunStage::Finished;
                        push_command(&mut out, RunCommand::EmitComplete);
                    },
                    Some(Some(v)) => {
                        if v.len() == 0 {
                            self.stage = RunStage::Finished;
                            push_command(&mut out, RunCommand::EmitComplete);
                        } else {
                            self.pending_calls = copy_calls(&v);
                            self.stage = RunStage::AwaitingTools { iteration };
                            push_command(&mut out, RunCommand::Emit(Ok(AgentEvent::ToolCalls(copy_calls(&v)))));
                            push_command(&mut out, RunCommand::RunTools(v));
                        }
                    },
                }
            },
            (RunStage::AwaitingTools { iteration }, RunInput::ToolResults(rs)) => {
                let ghost cv = calls_view(self.pending_calls@);
                let ghost ov = outcomes_view(rs@);
                let n = rs.len();
                let mut rest = rs;
                let mut k: usize = 0;
                let ghost rs0 = rest@;
                proof {
                    assert(ov.take(0) =~= Seq::<Result<ToolResultView, ToolErrorView>>::empty());
                }
                while k < n && k < self.pending_calls.len()
                    invariant
                        k <= n,
                        n == rs0.len(),
                        cv == calls_view(self.pending_calls@),
                        ov == outcomes_view(rs0),
                        rest@ == rs0.skip(k as int),
                        commands_view(out@) == outcomes_commands(cv, ov.take(k as int)),
                        k <= self.pending_calls@.len(),
                    decreases n - k,
                {
                    let outcome = rest.remove(0);
                    proof {
                        assert(outcome == rs0[k as int]);
                        assert(rest@ =~= rs0.skip(k as int + 1));
                        let t = ov.take(k as int + 1);
                        assert(t.drop_last() =~= ov.take(k as int));
                        assert(t.last() == outcome_view(outcome));
                        assert(cv[k as int] == self.pending_calls@[k as int]@);
                    }
                    tool_outcome(&mut out, &self.pending_calls[k], outcome);
                    k = k + 1;
                }
                proof {
                    if k == n {
                        assert(ov.take(k as int) =~= ov);
                    } else {
                        assert(k == cv.len());
                        assert(ov.take(k as int) =~= ov.take(cv.len() as int));
                        assert(outcomes_commands(cv, ov) == outcomes_commands(cv, ov.take(cv.len() as int)));
                    }
                }
                push_command(&mut out, RunCommand::EmitIteration(iteration));
                if self.max_iterations == 0 || iteration >= self.max_iterations - 1 {
                    self.stage = RunStage::Finished;
                    push_command(&mut out, RunCommand::Emit(Err(AgentError::MaxIterationsReached(self.max_iterations))));
                } else {
                    self.stage = RunStage::Ready { iteration: iteration + 1 };
                }
            },
            (_, _) => {},
        }
        out
    }
}

/// What a caller that waits for the end makes of a run's events: the messages
/// of the first completion; failing that, the last error; `None` where the
/// events hold neither.
pub open spec fn collected_outcome(
    events: Seq<Result<AgentEvent, AgentError>>,
    last_error: Option<AgentError>,
) -> Option<Result<Vec<Message>, AgentError>>
    decreases events.len(),
{
    if events.len() == 0 {
        match last_error {
            Some(e) => Some(Err(e)),
            None => None,
        }
    } else {
        match events[0] {
            Ok(AgentEvent::Complete(ms)) => Some(Ok(ms)),
            Err(e) => collected_outcome(events.drop_first(), Some(e)),
            _ => collected_outcome(events.drop_first(), last_error),
        }
    }
}

/// What a run's events make of it for a caller that waits for the end: the
/// messages it completed with; otherwise its last error; otherwise an error
/// that the stream ended without completing.
pub fn run_result(events: Vec<Result<AgentEvent, AgentError>>) -> (r: Result<Vec<Message>, AgentError>)
    ensures
        match collected_outcome(events@, None) {
            Some(x) => r == x,
            None => r matches Err(AgentError::InvalidMessage(m)) && m@ == "Stream ended without Complete event"@,
        },
{
    let mut last_error: Option<AgentError> = None;
    let mut rest = events;
    let ghost all = rest@;
    while rest.len() > 0
        invariant
            all == events@,
            collected_outcome(all, None) == collected_outcome(rest@, last_error),
        decreases rest@.len(),
    {
        let ghost before = rest@;
        let e = rest.remove(0);
        proof {
            assert(rest@ =~= before.drop_first());
            assert(e == before[0]);
        }
        match e {
            Ok(AgentEvent::Complete(messages)) => {
                return Ok(messages);
            },
            Err(err) => {
                last_error = Some(err);
            },
            _ => {},
        }
    }
    match last_error {
        Some(e) => Err(e),
        None => Err(AgentError::InvalidMessage(String::from_str("Stream ended without Complete event"))),
    }
}

} // verus!
