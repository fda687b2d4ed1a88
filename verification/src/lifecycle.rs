use vstd::prelude::*;

use crate::context::Context;
use crate::hooks::{calls_view_opt, AgentActorEvent, AgentError, CallModelEvent, CallToolResult, Effect, EffectView, EventView, ModelCallOutput, StepResultDraft, StepView, effects_view, results_view};
use crate::json::{decimal, decimal_string, JsonNumber, JsonValue, JsonView, NumberView};
use crate::message::{calls_view, copy_calls, copy_opt_string, opt_str, Message, MessageView, ToolCall};
use crate::reducer::{with_messages, AgentState, JobState};
use crate::text::concat3;

verus! {

// ---------------------------------------------------------------------------
// Stages of a step
// ---------------------------------------------------------------------------

/// The stages of a step at which lifecycle hooks run.
#[derive(Debug, Clone, Copy, PartialEq, Eq, Structural)]
pub enum LifeCycle {
    BeforeStep,
    BeforeCallModel,
    OnModelEvent,
    AfterCallModel,
    BeforeCallTools,
    AfterCallTools,
    AfterStep,
}

/// What a lifecycle hook does when the step goes on.
#[derive(Debug, Clone, Copy, PartialEq, Eq, Structural)]
pub enum LifeCycleEffect {
    NoEffect,
}

impl Default for LifeCycleEffect {
    fn default() -> (r: LifeCycleEffect)
        ensures
            r == LifeCycleEffect::NoEffect,
    {
        LifeCycleEffect::NoEffect
    }
}

/// Why a lifecycle hook stopped the step: the stage, the hook and the message.
#[derive(Debug)]
pub enum LifeCycleError {
    HookError(LifeCycle, String, String),
}

impl LifeCycleError {
    pub fn hook_error(stage: &LifeCycle, hook_name: &str, msg: String) -> (r: LifeCycleError)
        ensures
            match r {
                LifeCycleError::HookError(s, n, m) => s == *stage && n@ == hook_name@ && m@ == msg@,
            },
    {
        LifeCycleError::HookError(*stage, String::from_str(hook_name), msg)
    }
}

/// Whether the step goes on after a lifecycle hook.
#[derive(Debug)]
pub enum LifeCycleFlow {
    Continue(LifeCycleEffect),
    Break(LifeCycleError),
}

/// The message of a hook that stops at the iteration limit.
pub open spec fn limit_message(limit: u32) -> Seq<char> {
    "max iter limit "@ + decimal(limit as nat) + " exceeded"@
}

fn limit_message_string(limit: u32) -> (r: String)
    ensures
        r@ == limit_message(limit),
{
    let d = decimal_string(limit as u64);
    concat3("max iter limit ", d.as_str(), " exceeded")
}

/// Whether a hook that counts steps runs at `stage`.
pub open spec fn counts_at(stage: LifeCycle) -> bool {
    stage == LifeCycle::BeforeStep || stage == LifeCycle::AfterStep
}

/// A hook that stops a step once more steps than the limit have ended.
pub struct MaxIterLimitHook {
    pub iter_num: u32,
    pub max_iter_limit: u32,
}

impl MaxIterLimitHook {
    pub fn new(max_iter_limit: u32) -> (r: MaxIterLimitHook)
        ensures
            r.iter_num == 0,
            r.max_iter_limit == max_iter_limit,
    {
        MaxIterLimitHook { iter_num: 0, max_iter_limit }
    }

    pub fn name(&self) -> (r: &'static str)
        ensures
            r@ == "max_iter_limit"@,
    {
        "max_iter_limit"
    }

    pub fn priority(&self) -> (r: i32)
        ensures
            r == 0,
    {
        0
    }

    pub fn on(&self, stage: LifeCycle) -> (r: bool)
        ensures
            r == counts_at(stage),
    {
        stage == LifeCycle::BeforeStep || stage == LifeCycle::AfterStep
    }

    /// Before a step, stops it when the count is past the limit; after a
    /// step, counts it (in the hook it consumes).
    pub fn handle(self, stage: LifeCycle) -> (r: LifeCycleFlow)
        ensures
            match r {
                LifeCycleFlow::Break(LifeCycleError::HookError(s, n, m)) => stage == LifeCycle::BeforeStep
                    && self.iter_num > self.max_iter_limit && s == stage && n@ == "max_iter_limit"@
                    && m@ == limit_message(self.max_iter_limit),
                LifeCycleFlow::Continue(e) => e == LifeCycleEffect::NoEffect
                    && !(stage == LifeCycle::BeforeStep && self.iter_num > self.max_iter_limit),
            },
    {
        let mut hook = self;
        if stage == LifeCycle::BeforeStep && hook.iter_num > hook.max_iter_limit {
            LifeCycleFlow::Break(LifeCycleError::hook_error(&stage, hook.name(), limit_message_string(hook.max_iter_limit)))
        } else if stage == LifeCycle::AfterStep {
            hook.iter_num = hook.iter_num.saturating_add(1);
            LifeCycleFlow::Continue(LifeCycleEffect::NoEffect)
        } else {
            LifeCycleFlow::Continue(LifeCycleEffect::NoEffect)
        }
    }
}

/// The milliseconds from `start` to `now` on a monotonic clock, as
/// `Instant::elapsed` gives them (none when `now` is earlier), cut to 32 bits.
pub open spec fn elapsed_ms(start: u64, now: u64) -> u32 {
    if now >= start { (now - start) as u32 } else { 0 }
}

fn elapsed(start: u64, now: u64) -> (r: u32)
    ensures
        r == elapsed_ms(start, now),
{
    if now >= start {
        #[verifier::truncate]
        ((now - start) as u32)
    } else {
        0
    }
}

/// Whether the timing hook runs at `stage`: around the model call and around
/// the tool calls.
pub open spec fn timed_at(stage: LifeCycle) -> bool {
    stage == LifeCycle::BeforeCallModel || stage == LifeCycle::AfterCallModel || stage == LifeCycle::BeforeCallTools
        || stage == LifeCycle::AfterCallTools
}

/// A hook that times a step's model call and tool calls, from readings of a
/// monotonic clock in milliseconds.
#[derive(Debug, Clone, Copy, PartialEq, Eq, Structural)]
pub struct MetricsHook {
    pub step_call_model_duration: u32,
    pub step_tools_call_duration: u32,
    pub step_call_model_instant: Option<u64>,
    pub step_call_tools_instant: Option<u64>,
}

impl MetricsHook {
    pub fn new() -> (r: MetricsHook)
        ensures
            r == (MetricsHook {
                step_call_model_duration: 0,
                step_tools_call_duration: 0,
                step_call_model_instant: None,
                step_call_tools_instant: None,
            }),
    {
        MetricsHook {
            step_call_model_duration: 0,
            step_tools_call_duration: 0,
            step_call_model_instant: None,
            step_call_tools_instant: None,
        }
    }

    pub fn name(&self) -> (r: &'static str)
        ensures
            r@ == "metrics"@,
    {
        "metrics"
    }

    pub fn priority(&self) -> (r: i32)
        ensures
            r == 0,
    {
        0
    }

    pub fn on(&self, stage: LifeCycle) -> (r: bool)
        ensures
            r == timed_at(stage),
    {
        stage == LifeCycle::BeforeCallModel || stage == LifeCycle::AfterCallModel || stage == LifeCycle::BeforeCallTools
            || stage == LifeCycle::AfterCallTools
    }

    /// Notes when the model call starts.
    pub fn set_step_call_model_instant(&mut self, now_ms: u64)
        ensures
            *final(self) == (MetricsHook { step_call_model_instant: Some(now_ms), ..*old(self) }),
    {
        self.step_call_model_instant = Some(now_ms);
    }

    /// Records how long the model call took, when its start was noted.
    pub fn record_step_call_model_duration(&mut self, now_ms: u64)
        ensures
            *final(self) == match old(self).step_call_model_instant {
                Some(start) => MetricsHook { step_call_model_duration: elapsed_ms(start, now_ms), ..*old(self) },
                None => *old(self),
            },
    {
        if let Some(start) = self.step_call_model_instant {
            self.step_call_model_duration = elapsed(start, now_ms);
        }
    }

    /// Notes when the tool calls start.
    pub fn set_step_call_tools_instant(&mut self, now_ms: u64)
        ensures
            *final(self) == (MetricsHook { step_call_tools_instant: Some(now_ms), ..*old(self) }),
    {
        self.step_call_tools_instant = Some(now_ms);
    }

    /// Records how long the tool calls took, when their start was noted.
    pub fn record_step_call_tools_duration(&mut self, now_ms: u64)
        ensures
            *final(self) == match old(self).step_call_tools_instant {
                Some(start) => MetricsHook { step_tools_call_duration: elapsed_ms(start, now_ms), ..*old(self) },
                None => *old(self),
            },
    {
        if let Some(start) = self.step_call_tools_instant {
            self.step_tools_call_duration = elapsed(start, now_ms);
        }
    }

    /// Notes a start or records a duration by the stage (in the hook it
    /// consumes); the step always goes on.
    pub fn handle(self, stage: LifeCycle, now_ms: u64) -> (r: LifeCycleFlow)
        ensures
            r matches LifeCycleFlow::Continue(LifeCycleEffect::NoEffect),
    {
        let mut hook = self;
        match stage {
            LifeCycle::BeforeCallModel => hook.set_step_call_model_instant(now_ms),
            LifeCycle::AfterCallModel => hook.record_step_call_model_duration(now_ms),
            LifeCycle::BeforeCallTools => hook.set_step_call_tools_instant(now_ms),
            LifeCycle::AfterCallTools => hook.record_step_call_tools_duration(now_ms),
            _ => {},
        }
        LifeCycleFlow::Continue(LifeCycleEffect::NoEffect)
    }
}

/// A hook that holds a step to an iteration limit.
pub struct ExecutionPolicyHook {
    pub iter_num: u32,
    pub max_iter_limit: u32,
}

impl ExecutionPolicyHook {
    pub fn new(max_iter_limit: u32) -> (r: ExecutionPolicyHook)
        ensures
            r.iter_num == 0,
            r.max_iter_limit == max_iter_limit,
    {
        ExecutionPolicyHook { iter_num: 0, max_iter_limit }
    }

    pub fn name(&self) -> (r: &'static str)
        ensures
            r@ == "execution_policy"@,
    {
        "execution_policy"
    }

    /// Counts one more step.
    pub fn add_iter_num(&mut self)
        requires
            old(self).iter_num < u32::MAX,
        ensures
            final(self).iter_num == old(self).iter_num + 1,
            final(self).max_iter_limit == old(self).max_iter_limit,
    {
        self.iter_num = self.iter_num + 1;
    }

    /// Whether more steps than the limit have been counted.
    pub fn check_max_iter_limit(&self) -> (r: bool)
        ensures
            r == (self.iter_num > self.max_iter_limit),
    {
        self.iter_num > self.max_iter_limit
    }

    /// Before a step, stops it past the limit; after a step, counts it (in
    /// the hook it consumes).
    pub fn handle(self, stage: LifeCycle) -> (r: LifeCycleFlow)
        requires
            stage == LifeCycle::AfterStep ==> self.iter_num < u32::MAX,
        ensures
            match r {
                LifeCycleFlow::Break(LifeCycleError::HookError(s, n, m)) => stage == LifeCycle::BeforeStep
                    && self.iter_num > self.max_iter_limit && s == stage && n@ == "execution_policy"@
                    && m@ == limit_message(self.max_iter_limit),
                LifeCycleFlow::Continue(e) => e == LifeCycleEffect::NoEffect
                    && !(stage == LifeCycle::BeforeStep && self.iter_num > self.max_iter_limit),
            },
    {
        let mut hook = self;
        match stage {
            LifeCycle::BeforeStep => {
                if hook.check_max_iter_limit() {
                    return LifeCycleFlow::Break(
                        LifeCycleError::hook_error(&stage, hook.name(), limit_message_string(hook.max_iter_limit)),
                    );
                }
            },
            LifeCycle::AfterStep => hook.add_iter_num(),
            _ => {},
        }
        LifeCycleFlow::Continue(LifeCycleEffect::NoEffect)
    }
}

/// A hook that counts tokens.
pub struct TokenStatisticsHook {}

impl TokenStatisticsHook {
    pub fn new() -> (r: TokenStatisticsHook) {
        TokenStatisticsHook {}
    }

    pub fn name(&self) -> (r: &'static str)
        ensures
            r@ == "token_statistics"@,
    {
        "token_statistics"
    }
}

// ---------------------------------------------------------------------------
// Time limits
// ---------------------------------------------------------------------------

/// The time limits of a step and of its tool calls, in milliseconds.
#[derive(Debug, Clone, Copy, PartialEq, Eq, Structural)]
pub struct ExecutionPolicy {
    pub step_timeout_ms: Option<u64>,
    pub tool_timeout_ms: Option<u64>,
}

impl Default for ExecutionPolicy {
    fn default() -> (r: ExecutionPolicy)
        ensures
            r.step_timeout_ms is None,
            r.tool_timeout_ms is None,
    {
        ExecutionPolicy { step_timeout_ms: None, tool_timeout_ms: None }
    }
}

/// A hook that sets time limits, in milliseconds.
#[derive(Debug, Clone, Copy, PartialEq, Eq, Structural)]
pub struct TimeoutPolicyHook {
    pub step_timeout_ms: Option<u64>,
    pub tool_timeout_ms: Option<u64>,
}

pub open spec fn opt_ms_json(o: Option<u64>) -> JsonView {
    match o {
        Some(ms) => JsonView::Number(NumberView::PosInt(ms)),
        None => JsonView::Null,
    }
}

fn opt_ms_value(o: Option<u64>) -> (r: JsonValue)
    ensures
        r@ == opt_ms_json(o),
{
    match o {
        Some(ms) => JsonValue::Number(JsonNumber::PosInt(ms)),
        None => JsonValue::Null,
    }
}

impl TimeoutPolicyHook {
    pub fn new() -> (r: TimeoutPolicyHook)
        ensures
            r.step_timeout_ms is None,
            r.tool_timeout_ms is None,
    {
        TimeoutPolicyHook { step_timeout_ms: None, tool_timeout_ms: None }
    }

    pub fn step_timeout(self, timeout_ms: u64) -> (r: TimeoutPolicyHook)
        ensures
            r == (TimeoutPolicyHook { step_timeout_ms: Some(timeout_ms), ..self }),
    {
        TimeoutPolicyHook { step_timeout_ms: Some(timeout_ms), tool_timeout_ms: self.tool_timeout_ms }
    }

    pub fn tool_timeout(self, timeout_ms: u64) -> (r: TimeoutPolicyHook)
        ensures
            r == (TimeoutPolicyHook { tool_timeout_ms: Some(timeout_ms), ..self }),
    {
        TimeoutPolicyHook { step_timeout_ms: self.step_timeout_ms, tool_timeout_ms: Some(timeout_ms) }
    }

    pub fn name(&self) -> (r: &'static str)
        ensures
            r@ == "timeout_policy"@,
    {
        "timeout_policy"
    }

    /// Sets the limits this hook has into `policy`; leaves the others.
    pub fn configure_execution_policy(&self, policy: &mut ExecutionPolicy)
        ensures
            final(policy).step_timeout_ms == (if self.step_timeout_ms is Some { self.step_timeout_ms } else { old(policy).step_timeout_ms }),
            final(policy).tool_timeout_ms == (if self.tool_timeout_ms is Some { self.tool_timeout_ms } else { old(policy).tool_timeout_ms }),
    {
        if let Some(t) = self.step_timeout_ms {
            policy.step_timeout_ms = Some(t);
        }
        if let Some(t) = self.tool_timeout_ms {
            policy.tool_timeout_ms = Some(t);
        }
    }

    /// The limits as a JSON object, null where unset.
    pub fn snapshot(&self) -> (r: Option<JsonValue>)
        ensures
            r is Some && r->0@ == JsonView::Object(seq![
                ("step_timeout_ms"@, opt_ms_json(self.step_timeout_ms)),
                ("tool_timeout_ms"@, opt_ms_json(self.tool_timeout_ms)),
            ]),
    {
        let mut ms: Vec<(String, JsonValue)> = Vec::new();
        ms.push((String::from_str("step_timeout_ms"), opt_ms_value(self.step_timeout_ms)));
        ms.push((String::from_str("tool_timeout_ms"), opt_ms_value(self.tool_timeout_ms)));
        proof {
            crate::json::lemma_members_view(ms@);
            assert(crate::json::members_view(ms@) =~= seq![
                ("step_timeout_ms"@, opt_ms_json(self.step_timeout_ms)),
                ("tool_timeout_ms"@, opt_ms_json(self.tool_timeout_ms)),
            ]);
        }
        Some(JsonValue::Object(ms))
    }
}

// ---------------------------------------------------------------------------
// Built-in step hooks
// ---------------------------------------------------------------------------

/// The state a job is in after a step with `result`.
pub open spec fn state_after(result: StepView) -> JobState {
    match result {
        StepView::Continue { .. } => JobState::WaitingInput,
        StepView::Done { .. } => JobState::Completed,
        StepView::Error(_) => JobState::Failed,
    }
}

/// The messages a step adds to the conversation: the assistant's answer, and
/// the output of each tool it called; nothing for a failed step.
pub open spec fn step_messages(result: StepView) -> Seq<MessageView> {
    match result {
        StepView::Continue { content, reasoning_content, tool_calls, tool_results } => seq![
            MessageView::Assistant { content, reasoning_content, tool_calls: Some(tool_calls) },
        ] + tool_results.map_values(|r: crate::hooks::CallToolResultView| MessageView::Tool { tool_call_id: r.call_id, content: r.output }),
        StepView::Done { content, reasoning_content } => seq![MessageView::Assistant { content, reasoning_content, tool_calls: None }],
        StepView::Error(_) => Seq::empty(),
    }
}

/// Counts the iterations and keeps the job's state in step with each result.
#[derive(Debug, Default)]
pub struct LifecycleHook;

impl LifecycleHook {
    pub fn name(&self) -> (r: &'static str)
        ensures
            r@ == "lifecycle"@,
    {
        "lifecycle"
    }

    /// Before a step: one more iteration, and the job runs.
    pub fn before_step(&self, state: &mut AgentState)
        requires
            old(state).iteration < usize::MAX,
        ensures
            final(state).iteration == old(state).iteration + 1,
            final(state).state == JobState::Running,
            final(state).context@ == old(state).context@,
            final(state).max_iterations == old(state).max_iterations,
    {
        state.iteration = state.iteration + 1;
        state.state = JobState::Running;
    }

    /// After a step: the job waits, is done or failed, by the step's result.
    pub fn after_step(&self, state: &mut AgentState, result: &StepResultDraft)
        ensures
            final(state).state == state_after(result@),
            final(state).iteration == old(state).iteration,
            final(state).context@ == old(state).context@,
    {
        state.state = match result {
            StepResultDraft::Continue { .. } => JobState::WaitingInput,
            StepResultDraft::Done { .. } => JobState::Completed,
            StepResultDraft::Error(_) => JobState::Failed,
        };
    }
}

/// Ends a step before it starts once the iteration limit is reached.
#[derive(Debug, Default)]
pub struct MaxIterationsHook;

impl MaxIterationsHook {
    pub fn name(&self) -> (r: &'static str)
        ensures
            r@ == "max_iterations"@,
    {
        "max_iterations"
    }

    /// Before a step: at the iteration limit, the event to send and the result
    /// that ends the step.
    pub fn before_step(&self, state: &AgentState) -> (r: Option<(AgentActorEvent, StepResultDraft)>)
        ensures
            state.iteration >= state.max_iterations ==> match r {
                Some((e, d)) => e@ == (EventView::MaxIterations { iteration: state.iteration })
                    && d@ == StepView::Error(crate::hooks::AgentErrorView::MaxIterations(state.iteration)),
                None => false,
            },
            state.iteration < state.max_iterations ==> r is None,
    {
        if state.iteration >= state.max_iterations {
            let iteration = state.iteration;
            Some((AgentActorEvent::MaxIterations { iteration }, StepResultDraft::Error(AgentError::MaxIterations(iteration))))
        } else {
            None
        }
    }
}

/// Writes each step's answer and tool outputs to the conversation.
#[derive(Debug, Default)]
pub struct ContextPersistenceHook;

impl ContextPersistenceHook {
    pub fn name(&self) -> (r: &'static str)
        ensures
            r@ == "context_persistence"@,
    {
        "context_persistence"
    }

    /// After a step, writes what it said to the conversation; see `step_messages`.
    pub fn after_step(&self, context: &mut Context, result: &StepResultDraft)
        ensures
            final(context)@ == with_messages(old(context)@, step_messages(result@)),
    {
        let ghost ls0 = context@;
        match result {
            StepResultDraft::Continue { content, reasoning_content, tool_calls, tool_results } => {
                let ghost ms = step_messages(result@);
                context.add_message(Message::Assistant {
                    content: content.clone(),
                    reasoning_content: copy_opt_string(reasoning_content),
                    tool_calls: Some(copy_calls(tool_calls)),
                });
                proof {
                    assert(ms.take(1).drop_last() =~= Seq::<MessageView>::empty());
                    assert(with_messages(ls0, ms.take(1).drop_last()) == ls0);
                    assert(ms.take(1).last() == ms[0]);
                    assert(ms[0] == MessageView::Assistant { content: content@, reasoning_content: opt_str(*reasoning_content), tool_calls: Some(calls_view(tool_calls@)) });
                    assert(context@ == with_messages(ls0, ms.take(1)));
                }
                let mut i: usize = 0;
                while i < tool_results.len()
                    invariant
                        i <= tool_results@.len(),
                        ms == step_messages(result@),
                        ls0 == old(context)@,
                        ms.len() == tool_results@.len() + 1,
                        *result == (StepResultDraft::Continue { content: *content, reasoning_content: *reasoning_content, tool_calls: *tool_calls, tool_results: *tool_results }),
                        context@ == with_messages(ls0, ms.take(i + 1)),
                    decreases tool_results@.len() - i,
                {
                    proof {
                        assert(ms.take(i + 2).drop_last() =~= ms.take(i + 1));
                        assert(ms.take(i + 2).last() == ms[i + 1]);
                        assert(ms[i + 1] == MessageView::Tool { tool_call_id: tool_results@[i as int].call_id@, content: tool_results@[i as int].output@ });
                    }
                    context.add_message(Message::Tool {
                        tool_call_id: tool_results[i].call_id.clone(),
                        content: tool_results[i].output.clone(),
                    });
                    i = i + 1;
                }
                proof {
                    assert(i as int + 1 == ms.len());
                    assert(ms.take(i as int + 1) =~= ms);
                    assert(context@ == with_messages(ls0, ms));
                    assert(ls0 == old(context)@);
                    assert(ms == step_messages(result@));
                }
            },
            StepResultDraft::Done { content, reasoning_content } => {
                context.add_message(Message::Assistant {
                    content: content.clone(),
                    reasoning_content: copy_opt_string(reasoning_content),
                    tool_calls: None,
                });
                proof {
                    let ms = step_messages(result@);
                    assert(ms.drop_last() =~= Seq::<MessageView>::empty());
                    assert(with_messages(ls0, ms.drop_last()) == ls0);
                    assert(context@ == with_messages(ls0, ms));
                }
            },
            StepResultDraft::Error(_) => {
                proof { assert(step_messages(result@) =~= Seq::<MessageView>::empty()); }
            },
        }
    }
}

/// Reports each step that did not fail as an iteration.
#[derive(Debug, Default)]
pub struct IterationEventHook;

impl IterationEventHook {
    pub fn name(&self) -> (r: &'static str)
        ensures
            r@ == "iteration_events"@,
    {
        "iteration_events"
    }

    /// After a step that did not fail, the iteration event.
    pub fn after_step(&self, state: &AgentState, result: &StepResultDraft) -> (r: Option<AgentActorEvent>)
        ensures
            result@ is Error ==> r is None,
            !(result@ is Error) ==> r is Some && r->0@ == (EventView::Iteration {
                iteration: state.iteration,
                message_count: crate::context::conversation_of(state.context@).len() as usize,
            }),
    {
        match result {
            StepResultDraft::Error(_) => None,
            _ => {
                let conversation = state.context.conversation();
                Some(AgentActorEvent::Iteration { iteration: state.iteration, message_count: conversation.len() })
            },
        }
    }
}

/// Reports each failed step.
#[derive(Debug, Default)]
pub struct ErrorEventHook;

impl ErrorEventHook {
    pub fn name(&self) -> (r: &'static str)
        ensures
            r@ == "error_events"@,
    {
        "error_events"
    }

    /// After a failed step, the error event.
    pub fn after_step(&self, result: &StepResultDraft) -> (r: Option<AgentActorEvent>)
        ensures
            match result@ {
                StepView::Error(e) => r is Some && r->0@ == EventView::Error(e),
                _ => r is None,
            },
    {
        match result {
            StepResultDraft::Error(err) => Some(AgentActorEvent::Error(err.clone())),
            _ => None,
        }
    }
}

/// Streams what the model and the tools produce as events.
#[derive(Debug, Default)]
pub struct StreamingEventHook;

impl StreamingEventHook {
    pub fn name(&self) -> (r: &'static str)
        ensures
            r@ == "streaming_events"@,
    {
        "streaming_events"
    }

    /// While the model streams, text and reasoning go out as chunks.
    pub fn on_model_event(&self, event: &CallModelEvent) -> (r: Vec<Effect>)
        ensures
            effects_view(r@) == match *event {
                CallModelEvent::TextChunk(t) => seq![EffectView::EmitNow(EventView::ContentChunk(t@))],
                CallModelEvent::ReasoningChunk(t) => seq![EffectView::EmitNow(EventView::ReasoningChunk(t@))],
                _ => Seq::empty(),
            },
    {
        let mut v: Vec<Effect> = Vec::new();
        match event {
            CallModelEvent::TextChunk(text) => v.push(Effect::EmitNow(AgentActorEvent::ContentChunk(text.clone()))),
            CallModelEvent::ReasoningChunk(text) => v.push(Effect::EmitNow(AgentActorEvent::ReasoningChunk(text.clone()))),
            _ => {},
        }
        proof { assert(effects_view(v@) =~= match *event {
            CallModelEvent::TextChunk(t) => seq![EffectView::EmitNow(EventView::ContentChunk(t@))],
            CallModelEvent::ReasoningChunk(t) => seq![EffectView::EmitNow(EventView::ReasoningChunk(t@))],
            _ => Seq::empty(),
        }); }
        v
    }

    /// After the model answered, its whole answer goes out.
    pub fn after_call_model(&self, output: &ModelCallOutput) -> (r: Vec<Effect>)
        ensures
            effects_view(r@) == seq![EffectView::EmitNow(EventView::StepCompleted {
                content: output.content@,
                reasoning_content: opt_str(output.reasoning_content),
                tool_calls: calls_view_opt(output.tool_calls@),
            })],
    {
        let mut v: Vec<Effect> = Vec::new();
        v.push(Effect::EmitNow(AgentActorEvent::StepCompleted {
            content: output.content.clone(),
            reasoning_content: copy_opt_string(&output.reasoning_content),
            tool_calls: output.tool_calls_option(),
        }));
        proof { assert(effects_view(v@) =~= seq![v@[0]@]); }
        v
    }

    /// Before tools run, the calls go out, when there are any.
    pub fn before_call_tools(&self, tool_calls: &Vec<ToolCall>) -> (r: Vec<Effect>)
        ensures
            tool_calls@.len() == 0 ==> r@.len() == 0,
            tool_calls@.len() > 0 ==> effects_view(r@) == seq![EffectView::EmitNow(EventView::ToolCalls(calls_view(tool_calls@)))],
    {
        let mut v: Vec<Effect> = Vec::new();
        if tool_calls.len() > 0 {
            v.push(Effect::EmitNow(AgentActorEvent::ToolCalls(copy_calls(tool_calls))));
            proof { assert(effects_view(v@) =~= seq![v@[0]@]); }
        }
        v
    }

    /// After tools ran, each result goes out.
    pub fn after_call_tools(&self, tool_results: &Vec<CallToolResult>) -> (r: Vec<Effect>)
        ensures
            effects_view(r@) == results_view(tool_results@).map_values(|t: crate::hooks::CallToolResultView| EffectView::EmitNow(
                EventView::ToolResult { call_id: t.call_id, success: t.success, output: t.output },
            )),
    {
        let mut v: Vec<Effect> = Vec::new();
        let mut i: usize = 0;
        while i < tool_results.len()
            invariant
                i <= tool_results@.len(),
                v@.len() == i,
                forall|j: int| 0 <= j < i ==> (#[trigger] v@[j])@ == EffectView::EmitNow(EventView::ToolResult {
                    call_id: tool_results@[j].call_id@,
                    success: tool_results@[j].success,
                    output: tool_results@[j].output@,
                }),
            decreases tool_results@.len() - i,
        {
            v.push(Effect::EmitNow(AgentActorEvent::ToolResult {
                call_id: tool_results[i].call_id.clone(),
                success: tool_results[i].success,
                output: tool_results[i].output.clone(),
            }));
            i = i + 1;
        }
        proof {
            assert(effects_view(v@) =~= results_view(tool_results@).map_values(|t: crate::hooks::CallToolResultView| EffectView::EmitNow(
                EventView::ToolResult { call_id: t.call_id, success: t.success, output: t.output },
            )));
        }
        v
    }
}

} // verus!
