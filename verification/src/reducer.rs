use vstd::prelude::*;

use crate::context::{context_messages, conversation_of, with_message, Context, LayerView};
use crate::json::{decimal, decimal_string, json_text, json_to_text};
use crate::message::{calls_view, copy_defs, defs_view, opt_str, tool_error_text, Message, MessageView, ToolCall, ToolCallView, ToolDef, ToolDefView, ToolExecutorError, ToolResult};
use crate::money::{common_scale, max_mantissa, money_add, money_le, money_le_exec, sum_at_common_scale, Money};
use crate::text::concat2;
use vstd::arithmetic::power::pow;

verus! {

/// Where a job stands.
#[derive(Debug, Clone, Copy, PartialEq, Eq, Structural)]
pub enum JobState {
    Pending,
    Running,
    WaitingInput,
    Paused,
    Completed,
    Failed,
    Cancelled,
}

impl Default for JobState {
    fn default() -> (r: JobState)
        ensures
            r == JobState::Pending,
    {
        JobState::Pending
    }
}

/// One change of a job's state.
#[derive(Debug)]
pub struct StateTransition {
    pub from: JobState,
    pub to: JobState,
    /// When it happened, in milliseconds since the Unix epoch.
    pub timestamp_millis: i64,
    pub reason: Option<String>,
    pub triggered_by: Option<String>,
}

pub struct TransitionView {
    pub from: JobState,
    pub to: JobState,
    pub timestamp_millis: i64,
    pub reason: Option<Seq<char>>,
    pub triggered_by: Option<Seq<char>>,
}

impl View for StateTransition {
    type V = TransitionView;

    open spec fn view(&self) -> TransitionView {
        TransitionView {
            from: self.from,
            to: self.to,
            timestamp_millis: self.timestamp_millis,
            reason: opt_str(self.reason),
            triggered_by: opt_str(self.triggered_by),
        }
    }
}

pub open spec fn transitions_view(s: Seq<StateTransition>) -> Seq<TransitionView> {
    s.map_values(|t: StateTransition| t@)
}

/// A job: who it is for, where it stands, what it may spend, its context and
/// how many steps it has taken.
#[derive(Debug)]
pub struct AgentState {
    pub job_id: u128,
    pub user_id: String,
    pub conversation_id: Option<u128>,
    pub title: String,
    pub description: String,
    pub category: Option<String>,
    pub state: JobState,
    pub transitions: Vec<StateTransition>,
    pub budget: Option<Money>,
    pub actual_cost: Money,
    pub context: Context,
    pub iteration: usize,
    pub max_iterations: usize,
}

/// A fresh random job id (a version 4 UUID as a number).
#[verifier::external_body]
fn new_job_id() -> (r: u128) {
    uuid::Uuid::new_v4().as_u128()
}

/// The current time, in milliseconds since the Unix epoch.
#[verifier::external_body]
fn now_millis() -> (r: i64) {
    chrono::Utc::now().timestamp_millis()
}

impl AgentState {
    /// Amounts are valid decimals.
    pub open spec fn wf(&self) -> bool {
        &&& self.actual_cost.wf()
        &&& match self.budget {
            Some(b) => b.wf(),
            None => true,
        }
    }

    /// Everything but the state, the transitions and the context.
    pub open spec fn same_record(&self, other: &AgentState) -> bool {
        &&& self.job_id == other.job_id
        &&& self.user_id@ == other.user_id@
        &&& self.conversation_id == other.conversation_id
        &&& self.title@ == other.title@
        &&& self.description@ == other.description@
        &&& opt_str(self.category) == opt_str(other.category)
        &&& self.budget == other.budget
        &&& self.actual_cost == other.actual_cost
        &&& self.iteration == other.iteration
        &&& self.max_iterations == other.max_iterations
    }

    /// Whether spending stays within the budget (always, without one).
    pub open spec fn within_budget(&self) -> bool {
        match self.budget {
            Some(b) => money_le(self.actual_cost, b),
            None => true,
        }
    }

    /// `new` is `self` moved to `to` for `reason`, with one transition recorded.
    pub open spec fn moved_to(&self, new: &AgentState, to: JobState, reason: Option<Seq<char>>) -> bool {
        &&& new.state == to
        &&& new.transitions@.len() == self.transitions@.len() + 1
        &&& transitions_view(new.transitions@).subrange(0, self.transitions@.len() as int)
            == transitions_view(self.transitions@)
        &&& new.transitions@.last().from == self.state
        &&& new.transitions@.last().to == to
        &&& opt_str(new.transitions@.last().reason) == reason
        &&& new.transitions@.last().triggered_by is None
    }

    /// A new pending job for `user_id`, with a fresh id, no budget, zero cost,
    /// an empty context and at most ten iterations.
    pub fn new(user_id: &str) -> (r: AgentState)
        ensures
            r.wf(),
            r.user_id@ == user_id@,
            r.conversation_id is None,
            r.title@ == Seq::<char>::empty(),
            r.description@ == Seq::<char>::empty(),
            r.category is None,
            r.state == JobState::Pending,
            r.transitions@.len() == 0,
            r.budget is None,
            r.actual_cost == Money::zero_value(),
            r.context@ == Seq::<LayerView>::empty(),
            r.iteration == 0,
            r.max_iterations == 10,
    {
        AgentState {
            job_id: new_job_id(),
            user_id: user_id.to_owned(),
            conversation_id: None,
            title: String::new(),
            description: String::new(),
            category: None,
            state: JobState::Pending,
            transitions: Vec::new(),
            budget: None,
            actual_cost: Money::zero(),
            context: Context::new(),
            iteration: 0,
            max_iterations: 10,
        }
    }

    pub fn with_title(self, title: &str) -> (r: AgentState)
        ensures
            r.title@ == title@,
            r.job_id == self.job_id && r.user_id@ == self.user_id@ && r.state == self.state
                && r.context@ == self.context@ && r.budget == self.budget,
    {
        let mut s = self;
        s.title = title.to_owned();
        s
    }

    pub fn with_description(self, description: &str) -> (r: AgentState)
        ensures
            r.description@ == description@,
            r.job_id == self.job_id && r.user_id@ == self.user_id@ && r.title@ == self.title@
                && r.state == self.state && r.context@ == self.context@,
    {
        let mut s = self;
        s.description = description.to_owned();
        s
    }

    pub fn with_budget(self, budget: Money) -> (r: AgentState)
        ensures
            r.budget == Some(budget),
            r.job_id == self.job_id && r.user_id@ == self.user_id@ && r.title@ == self.title@
                && r.state == self.state && r.context@ == self.context@ && r.actual_cost == self.actual_cost,
    {
        let mut s = self;
        s.budget = Some(budget);
        s
    }

    pub fn with_max_iterations(self, max: usize) -> (r: AgentState)
        ensures
            r.max_iterations == max,
            r.job_id == self.job_id && r.user_id@ == self.user_id@ && r.state == self.state
                && r.context@ == self.context@ && r.iteration == self.iteration,
    {
        let mut s = self;
        s.max_iterations = max;
        s
    }

    pub fn with_context(self, context: Context) -> (r: AgentState)
        ensures
            r.context@ == context@,
            r.job_id == self.job_id && r.user_id@ == self.user_id@ && r.state == self.state
                && r.iteration == self.iteration,
    {
        let mut s = self;
        s.context = context;
        s
    }

    /// The job with a user message added to its conversation.
    pub fn with_user_message(self, content: &str) -> (r: AgentState)
        ensures
            r.context@ == with_message(self.context@, MessageView::User { content: content@ }),
            r.same_record(&self),
            r.state == self.state,
    {
        let mut s = self;
        s.context.add_message(Message::user(content));
        s
    }

    /// Moves the job to `to`, recording the change.
    pub fn transition(&mut self, to: JobState, reason: Option<String>)
        ensures
            old(self).moved_to(&*final(self), to, opt_str(reason)),
            final(self).same_record(&*old(self)),
            final(self).context@ == old(self).context@,
    {
        let from = self.state;
        let ghost before = transitions_view(self.transitions@);
        self.transitions.push(StateTransition { from, to, timestamp_millis: now_millis(), reason, triggered_by: None });
        proof {
            assert(transitions_view(self.transitions@).subrange(0, before.len() as int) =~= before);
        }
        self.state = to;
    }

    /// Pending, running or waiting for input.
    pub fn is_runnable(&self) -> (r: bool)
        ensures
            r == (self.state == JobState::Pending || self.state == JobState::Running
                || self.state == JobState::WaitingInput),
    {
        match self.state {
            JobState::Pending | JobState::Running | JobState::WaitingInput => true,
            _ => false,
        }
    }

    /// Completed, failed or cancelled.
    pub fn is_finished(&self) -> (r: bool)
        ensures
            r == is_final_state(self.state),
    {
        match self.state {
            JobState::Completed | JobState::Failed | JobState::Cancelled => true,
            _ => false,
        }
    }

    /// Whether spending stays within the budget.
    pub fn check_budget(&self) -> (r: bool)
        requires
            self.wf(),
        ensures
            r == self.within_budget(),
    {
        match &self.budget {
            Some(b) => money_le_exec(&self.actual_cost, b),
            None => true,
        }
    }

    /// Adds `cost` to what the job has spent.
    pub fn add_cost(&mut self, cost: Money)
        requires
            old(self).wf(),
            cost.wf(),
            -max_mantissa() * pow(10, common_scale(old(self).actual_cost, cost) as nat)
                <= sum_at_common_scale(old(self).actual_cost, cost)
                <= max_mantissa() * pow(10, common_scale(old(self).actual_cost, cost) as nat),
        ensures
            final(self).wf(),
            -max_mantissa() <= sum_at_common_scale(old(self).actual_cost, cost) <= max_mantissa()
                ==> final(self).actual_cost.mantissa * pow(10, common_scale(old(self).actual_cost, cost) as nat)
                == sum_at_common_scale(old(self).actual_cost, cost) * pow(10, final(self).actual_cost.scale as nat),
            final(self).budget == old(self).budget,
            final(self).state == old(self).state,
            final(self).context@ == old(self).context@,
    {
        self.actual_cost = money_add(&self.actual_cost, &cost);
    }

    /// The messages the context gives a model.
    pub fn messages(&self) -> (r: Vec<Message>)
        ensures
            crate::message::messages_view(r@) == context_messages(self.context@),
    {
        self.context.to_messages()
    }

    /// The messages the context gives a model.
    pub fn get_message(&self) -> (r: Vec<Message>)
        ensures
            crate::message::messages_view(r@) == context_messages(self.context@),
    {
        self.context.to_messages()
    }

    /// The last message of the conversation.
    pub fn last_message(&self) -> (r: Option<Message>)
        ensures
            crate::message::opt_message(r) == last_of(conversation_of(self.context@)),
    {
        let mut conv = self.context.conversation();
        conv.pop()
    }

    /// Adds a message to the conversation.
    pub fn add_message(&mut self, message: Message)
        ensures
            final(self).context@ == with_message(old(self).context@, message@),
            final(self).same_record(&*old(self)),
            final(self).state == old(self).state,
            transitions_view(final(self).transitions@) == transitions_view(old(self).transitions@),
    {
        self.context.add_message(message);
    }
}

impl Money {
    pub open spec fn zero_value() -> Money {
        Money { mantissa: 0, scale: 0 }
    }
}

pub open spec fn is_final_state(s: JobState) -> bool {
    s == JobState::Completed || s == JobState::Failed || s == JobState::Cancelled
}

pub open spec fn last_of(s: Seq<MessageView>) -> Option<MessageView> {
    if s.len() == 0 { None } else { Some(s.last()) }
}


// ---------------------------------------------------------------------------
// The reducer: state and input to new state and instruction
// ---------------------------------------------------------------------------

/// What drives the reducer.
#[derive(Debug)]
pub enum AgentInput {
    UserMessage(Message),
    Continue,
}

/// What the reducer asks the runner to do.
#[derive(Debug)]
pub enum AgentOutput {
    ChatRequest { messages: Vec<Message>, tools: Vec<ToolDef> },
    ToolCalls(Vec<ToolCall>),
    Complete,
    MaxIterationsReached,
    BudgetExceeded,
}

pub enum OutputView {
    ChatRequest { messages: Seq<MessageView>, tools: Seq<ToolDefView> },
    ToolCalls(Seq<ToolCallView>),
    Complete,
    MaxIterationsReached,
    BudgetExceeded,
}

impl View for AgentOutput {
    type V = OutputView;

    open spec fn view(&self) -> OutputView {
        match self {
            AgentOutput::ChatRequest { messages, tools } => OutputView::ChatRequest {
                messages: crate::message::messages_view(messages@),
                tools: defs_view(tools@),
            },
            AgentOutput::ToolCalls(calls) => OutputView::ToolCalls(calls_view(calls@)),
            AgentOutput::Complete => OutputView::Complete,
            AgentOutput::MaxIterationsReached => OutputView::MaxIterationsReached,
            AgentOutput::BudgetExceeded => OutputView::BudgetExceeded,
        }
    }
}

/// What the runner did.
#[derive(Debug)]
pub enum AgentEffectResult {
    ChatResponse(Message),
    ToolResults(Vec<(ToolCall, Result<ToolResult, ToolExecutorError>)>),
}

/// The tools a job may use and how many steps it may take.
#[derive(Debug)]
pub struct AgentConfig {
    pub tools: Vec<ToolDef>,
    pub max_iterations: usize,
}

impl AgentConfig {
    /// No tools, at most ten iterations.
    pub fn new() -> (r: AgentConfig)
        ensures
            r.tools@.len() == 0,
            r.max_iterations == 10,
    {
        AgentConfig { tools: Vec::new(), max_iterations: 10 }
    }

    pub fn with_tool(self, tool: ToolDef) -> (r: AgentConfig)
        ensures
            defs_view(r.tools@) == defs_view(self.tools@).push(tool@),
            r.max_iterations == self.max_iterations,
    {
        let mut c = self;
        let ghost before = c.tools@;
        c.tools.push(tool);
        proof { assert(defs_view(c.tools@) =~= defs_view(before).push(tool@)); }
        c
    }

    pub fn with_tools(self, tools: Vec<ToolDef>) -> (r: AgentConfig)
        ensures
            defs_view(r.tools@) == defs_view(tools@),
            r.max_iterations == self.max_iterations,
    {
        let mut c = self;
        c.tools = tools;
        c
    }

    pub fn with_max_iterations(self, max: usize) -> (r: AgentConfig)
        ensures
            defs_view(r.tools@) == defs_view(self.tools@),
            r.max_iterations == max,
    {
        let mut c = self;
        c.max_iterations = max;
        c
    }
}

impl Default for AgentConfig {
    fn default() -> (r: AgentConfig)
        ensures
            r.tools@.len() == 0,
            r.max_iterations == 0,
    {
        AgentConfig { tools: Vec::new(), max_iterations: 0 }
    }
}

/// `ns` moved from `from` to `to` for `reason`: one transition appended to `trans`.
pub open spec fn moved(from: JobState, trans: Seq<TransitionView>, ns: &AgentState, to: JobState, reason: Seq<char>) -> bool {
    &&& ns.state == to
    &&& transitions_view(ns.transitions@).len() == trans.len() + 1
    &&& transitions_view(ns.transitions@).subrange(0, trans.len() as int) == trans
    &&& ns.transitions@.last().from == from
    &&& ns.transitions@.last().to == to
    &&& opt_str(ns.transitions@.last().reason) == Some(reason)
    &&& ns.transitions@.last().triggered_by is None
}

/// `ns` kept the job state and the transitions.
pub open spec fn stayed(from: JobState, trans: Seq<TransitionView>, ns: &AgentState) -> bool {
    &&& ns.state == from
    &&& transitions_view(ns.transitions@) == trans
}

/// The decision on how to go on, for a job in state `from` after `iteration`
/// steps, with context `ctx`: finished jobs are complete; the step limit and
/// the budget fail the job; an assistant reply with tool calls asks for them,
/// one without completes the job; anything else asks the model.
pub open spec fn continue_step(
    from: JobState,
    iteration: usize,
    within_budget: bool,
    ctx: Seq<LayerView>,
    trans: Seq<TransitionView>,
    tools: Seq<ToolDefView>,
    max_iterations: usize,
    ns: &AgentState,
    out: OutputView,
) -> bool {
    if is_final_state(from) {
        stayed(from, trans, ns) && out == OutputView::Complete
    } else if iteration >= max_iterations {
        moved(from, trans, ns, JobState::Failed, "达到最大迭代次数: "@ + decimal(max_iterations as nat))
            && out == OutputView::MaxIterationsReached
    } else if !within_budget {
        moved(from, trans, ns, JobState::Failed, "预算超限"@) && out == OutputView::BudgetExceeded
    } else {
        match last_of(conversation_of(ctx)) {
            Some(MessageView::Assistant { tool_calls: Some(calls), .. }) if calls.len() > 0 =>
                stayed(from, trans, ns) && out == OutputView::ToolCalls(calls),
            Some(MessageView::Assistant { .. }) =>
                moved(from, trans, ns, JobState::Completed, "任务完成"@) && out == OutputView::Complete,
            _ => stayed(from, trans, ns) && out == (OutputView::ChatRequest {
                messages: context_messages(ctx),
                tools,
            }),
        }
    }
}

/// A finished job stays as it is: going on with it changes neither its state
/// nor its history, and reports it complete.
pub proof fn law_finished_job_stays_finished(
    from: JobState,
    iteration: usize,
    within_budget: bool,
    ctx: Seq<LayerView>,
    trans: Seq<TransitionView>,
    tools: Seq<ToolDefView>,
    max_iterations: usize,
    ns: &AgentState,
    out: OutputView,
)
    requires
        is_final_state(from),
        continue_step(from, iteration, within_budget, ctx, trans, tools, max_iterations, ns, out),
    ensures
        ns.state == from,
        transitions_view(ns.transitions@) == trans,
        out == OutputView::Complete,
{
}

/// A job that has used up its steps fails, whatever its conversation says,
/// unless it was already finished.
pub proof fn law_step_limit_fails_the_job(
    from: JobState,
    iteration: usize,
    within_budget: bool,
    ctx: Seq<LayerView>,
    trans: Seq<TransitionView>,
    tools: Seq<ToolDefView>,
    max_iterations: usize,
    ns: &AgentState,
    out: OutputView,
)
    requires
        !is_final_state(from),
        iteration >= max_iterations,
        continue_step(from, iteration, within_budget, ctx, trans, tools, max_iterations, ns, out),
    ensures
        ns.state == JobState::Failed,
        out == OutputView::MaxIterationsReached,
{
}

fn reduce_continue(state: AgentState, config: &AgentConfig) -> (r: (AgentState, AgentOutput))
    requires
        state.wf(),
    ensures
        r.0.wf(),
        r.0.same_record(&state),
        r.0.context@ == state.context@,
        continue_step(state.state, state.iteration, state.within_budget(), state.context@,
            transitions_view(state.transitions@), defs_view(config.tools@), config.max_iterations, &r.0, r.1@),
{
    let mut state = state;
    if state.is_finished() {
        return (state, AgentOutput::Complete);
    }
    if state.iteration >= config.max_iterations {
        let n = decimal_string(config.max_iterations as u64);
        let reason = concat2("达到最大迭代次数: ", n.as_str());
        state.transition(JobState::Failed, Some(reason));
        return (state, AgentOutput::MaxIterationsReached);
    }
    if !state.check_budget() {
        state.transition(JobState::Failed, Some(String::from_str("预算超限")));
        return (state, AgentOutput::BudgetExceeded);
    }
    match state.last_message() {
        Some(Message::Assistant { tool_calls: Some(calls), .. }) if calls.len() > 0 => {
            (state, AgentOutput::ToolCalls(calls))
        },
        Some(Message::Assistant { .. }) => {
            state.transition(JobState::Completed, Some(String::from_str("任务完成")));
            (state, AgentOutput::Complete)
        },
        _ => {
            let messages = state.messages();
            (state, AgentOutput::ChatRequest { messages, tools: copy_defs(&config.tools) })
        },
    }
}

/// The reducer: from a job and an input to the next job and the next
/// instruction.  It performs no I/O.
pub fn reduce(state: AgentState, input: AgentInput, config: &AgentConfig) -> (r: (AgentState, AgentOutput))
    requires
        state.wf(),
    ensures
        r.0.wf(),
        r.0.same_record(&state),
        match input {
            AgentInput::UserMessage(m) => {
                &&& r.0.context@ == with_message(state.context@, m@)
                &&& if state.within_budget() {
                    &&& stayed(state.state, transitions_view(state.transitions@), &r.0)
                    &&& r.1@ == (OutputView::ChatRequest {
                        messages: context_messages(with_message(state.context@, m@)),
                        tools: defs_view(config.tools@),
                    })
                } else {
                    &&& moved(state.state, transitions_view(state.transitions@), &r.0, JobState::Failed, "预算超限"@)
                    &&& r.1@ == OutputView::BudgetExceeded
                }
            },
            AgentInput::Continue => {
                &&& r.0.context@ == state.context@
                &&& continue_step(state.state, state.iteration, state.within_budget(), state.context@,
                    transitions_view(state.transitions@), defs_view(config.tools@), config.max_iterations, &r.0, r.1@)
            },
        },
{
    match input {
        AgentInput::UserMessage(msg) => {
            let mut state = state;
            state.context.add_message(msg);
            if !state.check_budget() {
                state.transition(JobState::Failed, Some(String::from_str("预算超限")));
                return (state, AgentOutput::BudgetExceeded);
            }
            let messages = state.messages();
            (state, AgentOutput::ChatRequest { messages, tools: copy_defs(&config.tools) })
        },
        AgentInput::Continue => reduce_continue(state, config),
    }
}


pub enum ToolOutcomeView {
    Succeeded(crate::message::ToolResultView),
    Failed(crate::message::ToolErrorView),
}

pub open spec fn outcome_view(r: Result<ToolResult, ToolExecutorError>) -> ToolOutcomeView {
    match r {
        Ok(t) => ToolOutcomeView::Succeeded(t@),
        Err(e) => ToolOutcomeView::Failed(e@),
    }
}

/// The tool message recorded for one executed call: the result's JSON text
/// under the result's id, or "Error: " and the error under the call's id.
pub open spec fn tool_message(call: ToolCallView, outcome: ToolOutcomeView) -> MessageView {
    match outcome {
        ToolOutcomeView::Succeeded(r) => MessageView::Tool { tool_call_id: r.id, content: json_text(r.output) },
        ToolOutcomeView::Failed(e) => MessageView::Tool {
            tool_call_id: call.id,
            content: "Error: "@ + tool_error_text(e),
        },
    }
}

pub open spec fn results_messages(rs: Seq<(ToolCall, Result<ToolResult, ToolExecutorError>)>) -> Seq<MessageView> {
    rs.map_values(|p: (ToolCall, Result<ToolResult, ToolExecutorError>)| tool_message(p.0@, outcome_view(p.1)))
}

/// `ls` with each of `ms` added to the conversation in turn.
pub open spec fn with_messages(ls: Seq<LayerView>, ms: Seq<MessageView>) -> Seq<LayerView>
    decreases ms.len(),
{
    if ms.len() == 0 {
        ls
    } else {
        with_message(with_messages(ls, ms.drop_last()), ms.last())
    }
}

fn tool_result_message(call: &ToolCall, result: &Result<ToolResult, ToolExecutorError>) -> (r: Message)
    ensures
        r@ == tool_message(call@, outcome_view(*result)),
{
    match result {
        Ok(t) => Message::Tool { tool_call_id: t.id.clone(), content: json_to_text(&t.output) },
        Err(e) => {
            let text = e.to_text();
            Message::Tool { tool_call_id: call.id.clone(), content: concat2("Error: ", text.as_str()) }
        },
    }
}

/// Feeds what the runner did back into the job, then decides the next step
/// as `reduce` does for `Continue`: a model reply is added to the
/// conversation and counts one iteration; tool results are added as tool
/// messages.
pub fn apply_effect(state: AgentState, effect: AgentEffectResult, config: &AgentConfig) -> (r: (AgentState, AgentOutput))
    requires
        state.wf(),
        effect is ChatResponse ==> state.iteration < usize::MAX,
    ensures
        r.0.wf(),
        match effect {
            AgentEffectResult::ChatResponse(m) => {
                let ctx = with_message(state.context@, m@);
                &&& r.0.context@ == ctx
                &&& r.0.iteration == state.iteration + 1
                &&& continue_step(state.state, (state.iteration + 1) as usize, state.within_budget(), ctx,
                    transitions_view(state.transitions@), defs_view(config.tools@), config.max_iterations, &r.0, r.1@)
            },
            AgentEffectResult::ToolResults(rs) => {
                let ctx = with_messages(state.context@, results_messages(rs@));
                &&& r.0.context@ == ctx
                &&& r.0.same_record(&state)
                &&& continue_step(state.state, state.iteration, state.within_budget(), ctx,
                    transitions_view(state.transitions@), defs_view(config.tools@), config.max_iterations, &r.0, r.1@)
            },
        },
{
    match effect {
        AgentEffectResult::ChatResponse(response) => {
            let mut state = state;
            state.context.add_message(response);
            state.iteration = state.iteration + 1;
            reduce_continue(state, config)
        },
        AgentEffectResult::ToolResults(results) => {
            let mut state = state;
            let ghost ms = results_messages(results@);
            let ghost ctx0 = state.context@;
            let ghost st0 = state;
            let mut i: usize = 0;
            while i < results.len()
                invariant
                    i <= results.len(),
                    ms == results_messages(results@),
                    state.context@ == with_messages(ctx0, ms.subrange(0, i as int)),
                    state.wf(),
                    state.same_record(&st0),
                    state.state == st0.state,
                    transitions_view(state.transitions@) == transitions_view(st0.transitions@),
                decreases results.len() - i,
            {
                let m = tool_result_message(&results[i].0, &results[i].1);
                state.add_message(m);
                proof {
                    assert(ms.subrange(0, i as int + 1).drop_last() =~= ms.subrange(0, i as int));
                    assert(ms.subrange(0, i as int + 1).last() == ms[i as int]);
                }
                i = i + 1;
            }
            proof { assert(ms.subrange(0, ms.len() as int) =~= ms); }
            reduce_continue(state, config)
        },
    }
}

} // verus!
