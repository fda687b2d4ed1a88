use vstd::prelude::*;

use crate::hooks::{copy_results, results_view, step_result_from_draft, AgentActorEvent, AgentError, AgentErrorView, CallModelEvent, CallToolResult, EventView, HookPhase, ModelCallOutput, StepResult, StepResultDraft, StepView};
use crate::message::{calls_view, copy_calls, copy_opt_string, opt_str, ToolCall, ToolCallView};
use crate::reducer::JobState;

verus! {

// ---------------------------------------------------------------------------
// One step of the agent, as a machine driven by its caller
// ---------------------------------------------------------------------------

/// Where a step stands.
#[derive(Debug, Clone, Copy, PartialEq, Eq, Structural)]
pub enum StepStage {
    Start,
    BeforeStep,
    BeforeCallModel,
    Streaming,
    OnModelEvent,
    AfterCallModel,
    BeforeCallTools,
    CallingTools,
    AfterCallTools,
    Done,
}

/// What the caller reports to the step.
#[derive(Debug)]
pub enum StepInput {
    /// Start the step.
    Begin,
    /// The hooks of the current phase ran; a result ends the step with it.
    Phase(Option<StepResultDraft>),
    /// The model reported an event.
    ModelEvent(CallModelEvent),
    /// The model's stream ended.
    StreamEnded,
    /// The tools ran, or timed out.
    Tools(Result<Vec<CallToolResult>, AgentError>),
}

/// What the step asks of its caller next.
#[derive(Debug)]
pub enum StepCommand {
    /// Run the hooks of this phase.
    RunPhase(HookPhase),
    /// Hand over the model's next event, or report that its stream ended.
    NextModelEvent,
    /// Run the step's tool calls.
    ExecuteTools,
    /// The step is over with this result.
    Finish(StepResultDraft),
}

/// A step in progress: its stage, what the model answered, the tool calls to
/// make and their results. Hooks may change these between two inputs.
#[derive(Debug)]
pub struct StepRun {
    pub stage: StepStage,
    pub output: ModelCallOutput,
    pub tool_calls: Vec<ToolCall>,
    pub tool_results: Vec<CallToolResult>,
    pub model_error: Option<AgentError>,
}

pub open spec fn opt_error(o: Option<AgentError>) -> Option<AgentErrorView> {
    match o {
        Some(e) => Some(e@),
        None => None,
    }
}

/// The answer so far, after one more event of the model: text and reasoning
/// are appended, a completion replaces the answer, an error is kept aside.
pub open spec fn absorbed(
    content: Seq<char>,
    reasoning: Option<Seq<char>>,
    calls: Seq<ToolCallView>,
    e: CallModelEvent,
) -> (Seq<char>, Option<Seq<char>>, Seq<ToolCallView>) {
    match e {
        CallModelEvent::TextChunk(t) => (content + t@, reasoning, calls),
        CallModelEvent::ReasoningChunk(t) => (
            content,
            Some(match reasoning { Some(r) => r, None => Seq::empty() } + t@),
            calls,
        ),
        CallModelEvent::Completed { content: c, reasoning_content: r, tool_calls: t } => (
            c@,
            opt_str(r),
            match t { Some(v) => calls_view(v@), None => Seq::empty() },
        ),
        CallModelEvent::Error(_) => (content, reasoning, calls),
    }
}

/// Adds one event of the model to the answer so far; an error event is
/// returned, the others give none.
pub fn absorb_model_event(output: &mut ModelCallOutput, event: CallModelEvent) -> (r: Option<AgentError>)
    ensures
        (final(output).content@, opt_str(final(output).reasoning_content), calls_view(final(output).tool_calls@))
            == absorbed(old(output).content@, opt_str(old(output).reasoning_content), calls_view(old(output).tool_calls@), event),
        match event {
            CallModelEvent::Error(m) => r is Some && r->0@ == AgentErrorView::Model(m@),
            _ => r is None,
        },
{
    match event {
        CallModelEvent::TextChunk(text) => {
            output.content.append(text.as_str());
            None
        },
        CallModelEvent::ReasoningChunk(text) => {
            let mut r = match output.reasoning_content.take() {
                Some(r) => r,
                None => String::new(),
            };
            r.append(text.as_str());
            output.reasoning_content = Some(r);
            None
        },
        CallModelEvent::Completed { content, reasoning_content, tool_calls } => {
            output.content = content;
            output.reasoning_content = reasoning_content;
            output.tool_calls = match tool_calls {
                Some(v) => v,
                None => {
                    let v: Vec<ToolCall> = Vec::new();
                    proof { assert(calls_view(v@) =~= Seq::<ToolCallView>::empty()); }
                    v
                },
            };
            None
        },
        CallModelEvent::Error(message) => Some(AgentError::Model(message)),
    }
}

/// The result a phase's hooks leave: their result, or their failure as one.
pub fn phase_result(result: Result<Option<StepResultDraft>, AgentError>) -> (r: Option<StepResultDraft>)
    ensures
        match result {
            Ok(o) => match (o, r) {
                (Some(a), Some(b)) => a@ == b@,
                (None, None) => true,
                _ => false,
            },
            Err(e) => r is Some && r->0@ == StepView::Error(e@),
        },
{
    match result {
        Ok(o) => o,
        Err(err) => Some(StepResultDraft::Error(err)),
    }
}

pub open spec fn done_view(out: (Seq<char>, Option<Seq<char>>, Seq<ToolCallView>)) -> StepView {
    StepView::Done { content: out.0, reasoning_content: out.1 }
}

pub open spec fn output_view(o: ModelCallOutput) -> (Seq<char>, Option<Seq<char>>, Seq<ToolCallView>) {
    (o.content@, opt_str(o.reasoning_content), calls_view(o.tool_calls@))
}

fn done_result(output: &ModelCallOutput) -> (r: StepResultDraft)
    ensures
        r@ == done_view(output_view(*output)),
{
    StepResultDraft::Done { content: output.content.clone(), reasoning_content: copy_opt_string(&output.reasoning_content) }
}

impl StepRun {
    pub fn new() -> (r: StepRun)
        ensures
            r.stage == StepStage::Start,
            r.output.content@.len() == 0,
            r.output.reasoning_content is None,
            r.output.tool_calls@.len() == 0,
            r.tool_calls@.len() == 0,
            r.tool_results@.len() == 0,
            r.model_error is None,
    {
        StepRun {
            stage: StepStage::Start,
            output: ModelCallOutput::new(),
            tool_calls: Vec::new(),
            tool_results: Vec::new(),
            model_error: None,
        }
    }

    /// Moves the step on by what the caller reports, and says what to do next;
    /// an input the stage does not wait for changes nothing and asks nothing.
    ///
    /// The step runs the hooks before it, then those before the model; starts
    /// the model's answer afresh and takes the model's events one by one,
    /// running the hooks on each, and ends in
    /// an error when the model reported one; runs the hooks after the model;
    /// is done when the model called no tools; runs the hooks before the tools
    /// and is done when they left no calls; runs the tools; runs the hooks
    /// after them and goes on with the answer, the calls and their results.
    /// A result from any hooks ends it at once.
    pub fn advance(&mut self, input: StepInput) -> (r: Option<StepCommand>)
        ensures
            old(self).stage == StepStage::Done ==> r is None && final(self).stage == StepStage::Done,
            match r {
                Some(StepCommand::Finish(_)) => final(self).stage == StepStage::Done,
                Some(StepCommand::RunPhase(p)) => final(self).stage == match p {
                    HookPhase::BeforeStep => StepStage::BeforeStep,
                    HookPhase::BeforeCallModel => StepStage::BeforeCallModel,
                    HookPhase::OnModelEvent => StepStage::OnModelEvent,
                    HookPhase::AfterCallModel => StepStage::AfterCallModel,
                    HookPhase::BeforeCallTools => StepStage::BeforeCallTools,
                    HookPhase::AfterCallTools => StepStage::AfterCallTools,
                    HookPhase::AfterStep => StepStage::Done,
                },
                Some(StepCommand::NextModelEvent) => final(self).stage == StepStage::Streaming,
                Some(StepCommand::ExecuteTools) => final(self).stage == StepStage::CallingTools
                    && final(self).tool_calls@.len() > 0,
                None => final(self).stage == old(self).stage,
            },
            // The step starts with the hooks before it, then those before the
            // model, then asks the model, with an empty answer so far.
            (old(self).stage == StepStage::Start && (input is Begin))
                ==> (r matches Some(StepCommand::RunPhase(HookPhase::BeforeStep))),
            (old(self).stage == StepStage::BeforeStep && (input matches StepInput::Phase(None)))
                ==> (r matches Some(StepCommand::RunPhase(HookPhase::BeforeCallModel))),
            (old(self).stage == StepStage::BeforeCallModel && (input matches StepInput::Phase(None))) ==> {
                &&& (r matches Some(StepCommand::NextModelEvent))
                &&& final(self).output.content@.len() == 0
                &&& final(self).output.reasoning_content is None
                &&& final(self).output.tool_calls@.len() == 0
                &&& final(self).model_error is None
                &&& calls_view(final(self).tool_calls@) == calls_view(old(self).tool_calls@)
                &&& results_view(final(self).tool_results@) == results_view(old(self).tool_results@)
            },
            // What a phase's result does.
            (old(self).stage != StepStage::Start && old(self).stage != StepStage::Streaming
                && old(self).stage != StepStage::CallingTools && old(self).stage != StepStage::Done)
                ==> match input {
                    StepInput::Phase(Some(res)) => match r {
                        Some(StepCommand::Finish(f)) => f@ == res@,
                        _ => false,
                    },
                    _ => true,
                },
            // The model's answer without tool calls ends the step.
            (old(self).stage == StepStage::AfterCallModel && (input matches StepInput::Phase(None)))
                ==> if old(self).output.tool_calls@.len() == 0 {
                    match r {
                        Some(StepCommand::Finish(f)) => f@ == done_view(output_view(old(self).output)),
                        _ => false,
                    }
                } else {
                    (r matches Some(StepCommand::RunPhase(HookPhase::BeforeCallTools)))
                        && calls_view(final(self).tool_calls@) == calls_view(old(self).output.tool_calls@)
                },
            // Hooks that leave no tool calls end the step.
            (old(self).stage == StepStage::BeforeCallTools && (input matches StepInput::Phase(None)))
                ==> if old(self).tool_calls@.len() == 0 {
                    match r {
                        Some(StepCommand::Finish(f)) => f@ == done_view(output_view(old(self).output)),
                        _ => false,
                    }
                } else {
                    (r matches Some(StepCommand::ExecuteTools))
                },
            // The tools' failure ends the step; their results are kept.
            old(self).stage == StepStage::CallingTools ==> match input {
                StepInput::Tools(Err(e)) => match r {
                    Some(StepCommand::Finish(f)) => f@ == StepView::Error(e@),
                    _ => false,
                },
                StepInput::Tools(Ok(rs)) => (r matches Some(StepCommand::RunPhase(HookPhase::AfterCallTools)))
                    && results_view(final(self).tool_results@) == results_view(rs@),
                _ => r is None,
            },
            // After the tools' hooks, the step goes on.
            (old(self).stage == StepStage::AfterCallTools && (input matches StepInput::Phase(None))) ==> match r {
                Some(StepCommand::Finish(f)) => f@ == StepView::Continue {
                    content: old(self).output.content@,
                    reasoning_content: opt_str(old(self).output.reasoning_content),
                    tool_calls: calls_view(old(self).tool_calls@),
                    tool_results: results_view(old(self).tool_results@),
                },
                _ => false,
            },
            // Each event of the model is added to the answer, then the hooks run.
            old(self).stage == StepStage::Streaming ==> match input {
                StepInput::ModelEvent(e) => (r matches Some(StepCommand::RunPhase(HookPhase::OnModelEvent)))
                    && output_view(final(self).output) == absorbed(
                        old(self).output.content@,
                        opt_str(old(self).output.reasoning_content),
                        calls_view(old(self).output.tool_calls@),
                        e,
                    )
                    && opt_error(final(self).model_error) == match e {
                        CallModelEvent::Error(m) => Some(AgentErrorView::Model(m@)),
                        _ => None,
                    },
                StepInput::StreamEnded => (r matches Some(StepCommand::RunPhase(HookPhase::AfterCallModel))),
                _ => r is None,
            },
            // A model error ends the step once its hooks ran.
            (old(self).stage == StepStage::OnModelEvent && (input matches StepInput::Phase(None))) ==> match old(self).model_error {
                Some(e) => match r {
                    Some(StepCommand::Finish(f)) => f@ == StepView::Error(e@),
                    _ => false,
                },
                None => (r matches Some(StepCommand::NextModelEvent)),
            },
    {
        match (self.stage, input) {
            (StepStage::Start, StepInput::Begin) => {
                self.stage = StepStage::BeforeStep;
                Some(StepCommand::RunPhase(HookPhase::BeforeStep))
            },
            (StepStage::Done, _) => None,
            (StepStage::Start, _) => None,
            (StepStage::Streaming, StepInput::ModelEvent(event)) => {
                let err = absorb_model_event(&mut self.output, event);
                self.model_error = err;
                self.stage = StepStage::OnModelEvent;
                Some(StepCommand::RunPhase(HookPhase::OnModelEvent))
            },
            (StepStage::Streaming, StepInput::StreamEnded) => {
                self.stage = StepStage::AfterCallModel;
                Some(StepCommand::RunPhase(HookPhase::AfterCallModel))
            },
            (StepStage::Streaming, _) => None,
            (StepStage::CallingTools, StepInput::Tools(Err(err))) => {
                self.stage = StepStage::Done;
                Some(StepCommand::Finish(StepResultDraft::Error(err)))
            },
            (StepStage::CallingTools, StepInput::Tools(Ok(results))) => {
                self.tool_results = results;
                self.stage = StepStage::AfterCallTools;
                Some(StepCommand::RunPhase(HookPhase::AfterCallTools))
            },
            (StepStage::CallingTools, _) => None,
            (_, StepInput::Phase(Some(result))) => {
                self.stage = StepStage::Done;
                Some(StepCommand::Finish(result))
            },
            (StepStage::BeforeStep, StepInput::Phase(None)) => {
                self.stage = StepStage::BeforeCallModel;
                Some(StepCommand::RunPhase(HookPhase::BeforeCallModel))
            },
            (StepStage::BeforeCallModel, StepInput::Phase(None)) => {
                self.output = ModelCallOutput::new();
                self.model_error = None;
                self.stage = StepStage::Streaming;
                Some(StepCommand::NextModelEvent)
            },
            (StepStage::OnModelEvent, StepInput::Phase(None)) => {
                match self.model_error.take() {
                    Some(err) => {
                        self.stage = StepStage::Done;
                        Some(StepCommand::Finish(StepResultDraft::Error(err)))
                    },
                    None => {
                        self.stage = StepStage::Streaming;
                        Some(StepCommand::NextModelEvent)
                    },
                }
            },
            (StepStage::AfterCallModel, StepInput::Phase(None)) => {
                if self.output.tool_calls.len() == 0 {
                    self.stage = StepStage::Done;
                    Some(StepCommand::Finish(done_result(&self.output)))
                } else {
                    self.tool_calls = copy_calls(&self.output.tool_calls);
                    self.stage = StepStage::BeforeCallTools;
                    Some(StepCommand::RunPhase(HookPhase::BeforeCallTools))
                }
            },
            (StepStage::BeforeCallTools, StepInput::Phase(None)) => {
                if self.tool_calls.len() == 0 {
                    self.stage = StepStage::Done;
                    Some(StepCommand::Finish(done_result(&self.output)))
                } else {
                    self.stage = StepStage::CallingTools;
                    Some(StepCommand::ExecuteTools)
                }
            },
            (StepStage::AfterCallTools, StepInput::Phase(None)) => {
                self.stage = StepStage::Done;
                Some(StepCommand::Finish(StepResultDraft::Continue {
                    content: self.output.content.clone(),
                    reasoning_content: copy_opt_string(&self.output.reasoning_content),
                    tool_calls: copy_calls(&self.tool_calls),
                    tool_results: copy_results(&self.tool_results),
                }))
            },
            (_, _) => None,
        }
    }
}

/// What the hooks after a step make of its result: a replacement takes its
/// place; their failure fails the job and is reported.
pub fn finish_step(job: &mut JobState, result: StepResultDraft, after_step: Result<Option<StepResultDraft>, AgentError>) -> (r: (StepResult, Option<AgentActorEvent>))
    ensures
        match after_step {
            Ok(Some(next)) => r.0@ == next@ && r.1 is None && *final(job) == *old(job),
            Ok(None) => r.0@ == result@ && r.1 is None && *final(job) == *old(job),
            Err(e) => r.0@ == StepView::Error(e@) && *final(job) == JobState::Failed
                && r.1 is Some && r.1->0@ == EventView::Error(e@),
        },
{
    match after_step {
        Ok(Some(next)) => (step_result_from_draft(next), None),
        Ok(None) => (step_result_from_draft(result), None),
        Err(err) => {
            *job = JobState::Failed;
            let event = AgentActorEvent::Error(err.clone());
            (StepResult::Error(err), Some(event))
        },
    }
}

/// A step that ran past its time limit fails with a timeout.
pub fn timed_step(result: Option<StepResultDraft>) -> (r: StepResultDraft)
    ensures
        match result {
            Some(d) => r@ == d@,
            None => r@ == StepView::Error(AgentErrorView::Timeout),
        },
{
    match result {
        Some(d) => d,
        None => StepResultDraft::Error(AgentError::Timeout),
    }
}

} // verus!
