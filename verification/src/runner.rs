use vstd::prelude::*;

use crate::agent_run::{AgentError, AgentEvent, EventView};
use crate::context::conversation_of;
use crate::json::{JsonValue, JsonView};
use crate::message::{
    calls_view, copy_calls, defs_view, messages_view, tool_error_text, Message, MessageView, ToolCall, ToolCallView,
    ToolDefView, ToolExecutorError, ToolResult,
};
use crate::models::ChatError;
use crate::reducer::{
    apply_effect, continue_step, reduce, transitions_view, with_messages, results_messages, AgentConfig, AgentEffectResult,
    AgentInput, AgentOutput, AgentState, JobState, OutputView,
};
use crate::text::concat2;

verus! {

// ---------------------------------------------------------------------------
// Running the reducer: what to do after each answer
// ---------------------------------------------------------------------------

/// What the runner asks of its caller, in order.
#[derive(Debug)]
pub enum RunnerCommand {
    /// Ask the model about these messages, offering these tools.
    AskModel { messages: Vec<Message>, tools: Option<Vec<crate::message::ToolDef>> },
    /// Run these tool calls.
    RunTools(Vec<ToolCall>),
    /// Report this, and go on.
    Emit(AgentEvent),
    /// Report this failure; the run is over.
    Fail(AgentError),
}

/// The failures a run reports.
pub enum FailView {
    Chat(ChatError),
    MaxIterationsReached(usize),
    InvalidMessage(Seq<char>),
    Other,
}

pub enum RunnerView {
    AskModel { messages: Seq<MessageView>, tools: Option<Seq<ToolDefView>> },
    RunTools(Seq<ToolCallView>),
    Emit(EventView),
    Fail(FailView),
}

pub open spec fn fail_view(e: AgentError) -> FailView {
    match e {
        AgentError::Chat(c) => FailView::Chat(c),
        AgentError::MaxIterationsReached(n) => FailView::MaxIterationsReached(n),
        AgentError::InvalidMessage(m) => FailView::InvalidMessage(m@),
        _ => FailView::Other,
    }
}

impl View for RunnerCommand {
    type V = RunnerView;

    open spec fn view(&self) -> RunnerView {
        match self {
            RunnerCommand::AskModel { messages, tools } => RunnerView::AskModel {
                messages: messages_view(messages@),
                tools: match tools {
                    Some(ts) => Some(defs_view(ts@)),
                    None => None,
                },
            },
            RunnerCommand::RunTools(calls) => RunnerView::RunTools(calls_view(calls@)),
            RunnerCommand::Emit(e) => RunnerView::Emit(e@),
            RunnerCommand::Fail(e) => RunnerView::Fail(fail_view(*e)),
        }
    }
}

pub open spec fn commands_view(cs: Seq<RunnerCommand>) -> Seq<RunnerView> {
    cs.map_values(|c: RunnerCommand| c@)
}

/// `ns` is `s` moved to `to` for `reason`, and nothing else changed.
pub open spec fn runner_moved(s: AgentState, ns: AgentState, to: JobState, reason: Seq<char>) -> bool {
    &&& s.moved_to(&ns, to, Some(reason))
    &&& ns.same_record(&s)
    &&& ns.context@ == s.context@
}

/// What the runner does with an instruction of the reducer: asks the model
/// (offering no tools when there are none), reports and runs tool calls, or
/// ends the run (complete, or failed at the step limit or the budget),
/// recording the end in the job.
pub open spec fn next_decision(s: AgentState, out: OutputView, max: usize, ns: AgentState, cmds: Seq<RunnerView>) -> bool {
    match out {
        OutputView::ChatRequest { messages, tools } => ns == s && cmds == seq![RunnerView::AskModel {
            messages,
            tools: if tools.len() == 0 { None } else { Some(tools) },
        }],
        OutputView::ToolCalls(calls) => ns == s && cmds == seq![
            RunnerView::Emit(EventView::ToolCalls(calls)),
            RunnerView::RunTools(calls),
        ],
        OutputView::Complete => runner_moved(s, ns, JobState::Completed, "任务完成"@)
            && cmds == seq![RunnerView::Emit(EventView::Complete(conversation_of(s.context@)))],
        OutputView::MaxIterationsReached => runner_moved(s, ns, JobState::Failed, "达到最大迭代次数"@)
            && cmds == seq![RunnerView::Fail(FailView::MaxIterationsReached(max))],
        OutputView::BudgetExceeded => runner_moved(s, ns, JobState::Failed, "预算超限"@)
            && cmds == seq![RunnerView::Fail(FailView::InvalidMessage("预算超限"@))],
    }
}

/// `ns` and `out` are what the reducer gives when asked to go on with `s`.
pub open spec fn continued(s: AgentState, config: &AgentConfig, ns: AgentState, out: OutputView) -> bool {
    &&& ns.wf()
    &&& ns.same_record(&s)
    &&& ns.context@ == s.context@
    &&& continue_step(s.state, s.iteration, s.within_budget(), s.context@, transitions_view(s.transitions@),
        defs_view(config.tools@), config.max_iterations, &ns, out)
}

/// Going on with `s`: the reducer's next instruction, and what the runner
/// does with it.
pub open spec fn go_on(s: AgentState, config: &AgentConfig, ns: AgentState, cmds: Seq<RunnerView>) -> bool {
    exists|s1: AgentState, o: OutputView| #[trigger] continued(s, config, s1, o) && next_decision(s1, o, config.max_iterations, ns, cmds)
}

/// Acts on the reducer's instruction `output` for job `state`; see
/// `next_decision`.
pub fn runner_next(state: AgentState, output: AgentOutput, config: &AgentConfig) -> (r: (AgentState, Vec<RunnerCommand>))
    requires
        state.wf(),
    ensures
        r.0.wf(),
        next_decision(state, output@, config.max_iterations, r.0, commands_view(r.1@)),
{
    let mut state = state;
    let mut cmds: Vec<RunnerCommand> = Vec::new();
    match output {
        AgentOutput::ChatRequest { messages, tools } => {
            let offered = if tools.len() == 0 { None } else { Some(tools) };
            cmds.push(RunnerCommand::AskModel { messages, tools: offered });
        },
        AgentOutput::ToolCalls(calls) => {
            let shown = copy_calls(&calls);
            cmds.push(RunnerCommand::Emit(AgentEvent::ToolCalls(shown)));
            cmds.push(RunnerCommand::RunTools(calls));
        },
        AgentOutput::Complete => {
            let conversation = state.context.conversation();
            state.transition(JobState::Completed, Some(String::from_str("任务完成")));
            cmds.push(RunnerCommand::Emit(AgentEvent::Complete(conversation)));
        },
        AgentOutput::MaxIterationsReached => {
            state.transition(JobState::Failed, Some(String::from_str("达到最大迭代次数")));
            cmds.push(RunnerCommand::Fail(AgentError::MaxIterationsReached(config.max_iterations)));
        },
        AgentOutput::BudgetExceeded => {
            state.transition(JobState::Failed, Some(String::from_str("预算超限")));
            cmds.push(RunnerCommand::Fail(AgentError::InvalidMessage(String::from_str("预算超限"))));
        },
    }
    proof {
        assert(commands_view(cmds@) =~= seq![cmds@[0]@] + commands_view(cmds@.drop_first()));
        if cmds@.len() == 2 {
            assert(commands_view(cmds@) =~= seq![cmds@[0]@, cmds@[1]@]);
        } else {
            assert(commands_view(cmds@) =~= seq![cmds@[0]@]);
        }
    }
    (state, cmds)
}

/// Goes on with `state`: asks the reducer for its next instruction and acts
/// on it; see `go_on`.
pub fn runner_continue(state: AgentState, config: &AgentConfig) -> (r: (AgentState, Vec<RunnerCommand>))
    requires
        state.wf(),
    ensures
        r.0.wf(),
        go_on(state, config, r.0, commands_view(r.1@)),
{
    let ghost s0 = state;
    let (s1, out) = reduce(state, AgentInput::Continue, config);
    let ghost o = out@;
    let r = runner_next(s1, out, config);
    proof {
        assert(continued(s0, config, s1, o));
    }
    r
}

/// Starts a run: a pending job starts running; any other stays as it is.
pub fn runner_start(state: AgentState) -> (r: AgentState)
    requires
        state.wf(),
    ensures
        r.wf(),
        if state.state == JobState::Pending {
            runner_moved(state, r, JobState::Running, "开始执行"@)
        } else {
            r == state
        },
{
    let mut state = state;
    if state.state == JobState::Pending {
        state.transition(JobState::Running, Some(String::from_str("开始执行")));
    }
    state
}

/// Whether the reducer's answer to a reply is acted on as it is: tool calls
/// or completion; anything else makes the runner go on.
pub open spec fn acted_on_reply(o: OutputView) -> bool {
    o is ToolCalls || o is Complete
}

/// What the runner does with the model's answer: a failure ends the run;
/// a reply is reported and added to the job, and the reducer's answer acted
/// on when it calls tools or completes, else the runner goes on.
pub fn runner_after_reply(state: AgentState, reply: Result<Message, ChatError>, config: &AgentConfig) -> (r: (AgentState, Vec<RunnerCommand>))
    requires
        state.wf(),
        reply is Ok ==> state.iteration < usize::MAX,
    ensures
        r.0.wf(),
        match reply {
            Err(e) => r.0 == state && commands_view(r.1@) == seq![RunnerView::Fail(FailView::Chat(e))],
            Ok(m) => commands_view(r.1@).len() > 0 && commands_view(r.1@)[0] == RunnerView::Emit(EventView::AssistantMessage(m@))
                && exists|s1: AgentState, o: OutputView| {
                    &&& #[trigger] replied(state, m@, config, s1, o)
                    &&& if acted_on_reply(o) {
                        next_decision(s1, o, config.max_iterations, r.0, commands_view(r.1@).drop_first())
                    } else {
                        go_on(s1, config, r.0, commands_view(r.1@).drop_first())
                    }
                },
        },
{
    match reply {
        Err(e) => {
            let mut cmds: Vec<RunnerCommand> = Vec::new();
            cmds.push(RunnerCommand::Fail(AgentError::Chat(e)));
            proof { assert(commands_view(cmds@) =~= seq![cmds@[0]@]); }
            (state, cmds)
        },
        Ok(m) => {
            let ghost s0 = state;
            let ghost mv = m@;
            let shown = m.clone();
            let (s1, out) = apply_effect(state, AgentEffectResult::ChatResponse(m), config);
            let ghost o = out@;
            proof { assert(replied(s0, mv, config, s1, o)); }
            let acted = match &out {
                AgentOutput::ToolCalls(_) => true,
                AgentOutput::Complete => true,
                _ => false,
            };
            let (ns, rest) = if acted { runner_next(s1, out, config) } else { runner_continue(s1, config) };
            let mut cmds: Vec<RunnerCommand> = Vec::new();
            cmds.push(RunnerCommand::Emit(AgentEvent::AssistantMessage(shown)));
            let ghost tail = commands_view(rest@);
            let mut rest = rest;
            cmds.append(&mut rest);
            proof {
                assert(commands_view(cmds@).drop_first() =~= tail);
            }
            (ns, cmds)
        },
    }
}

/// `ns` and `out` are what the reducer gives after the reply `m` to `s`.
pub open spec fn replied(s: AgentState, m: MessageView, config: &AgentConfig, ns: AgentState, out: OutputView) -> bool {
    let ctx = crate::context::with_message(s.context@, m);
    &&& ns.wf()
    &&& ns.context@ == ctx
    &&& ns.iteration == s.iteration + 1
    &&& continue_step(s.state, (s.iteration + 1) as usize, s.within_budget(), ctx, transitions_view(s.transitions@),
        defs_view(config.tools@), config.max_iterations, &ns, out)
}

/// `ns` and `out` are what the reducer gives after the tool outcomes `rs`.
pub open spec fn tools_ran(
    s: AgentState,
    rs: Seq<(ToolCall, Result<ToolResult, ToolExecutorError>)>,
    config: &AgentConfig,
    ns: AgentState,
    out: OutputView,
) -> bool {
    let ctx = with_messages(s.context@, results_messages(rs));
    &&& ns.wf()
    &&& ns.context@ == ctx
    &&& ns.same_record(&s)
    &&& continue_step(s.state, s.iteration, s.within_budget(), ctx, transitions_view(s.transitions@),
        defs_view(config.tools@), config.max_iterations, &ns, out)
}

/// The report of one tool outcome: its result, or a failure with no call id
/// and the error's text.
pub open spec fn outcome_event(o: Result<ToolResult, ToolExecutorError>) -> EventView {
    match o {
        Ok(t) => EventView::ToolResult { call_id: t.id@, success: t.success, output: t.output@ },
        Err(e) => EventView::ToolResult {
            call_id: Seq::empty(),
            success: false,
            output: JsonView::Str("Error: "@ + tool_error_text(e@)),
        },
    }
}

pub open spec fn outcome_events(rs: Seq<(ToolCall, Result<ToolResult, ToolExecutorError>)>) -> Seq<RunnerView> {
    rs.map_values(|p: (ToolCall, Result<ToolResult, ToolExecutorError>)| RunnerView::Emit(outcome_event(p.1)))
}

/// Whether the reducer's answer to tool outcomes ends the run.
pub open spec fn ends_after_tools(o: OutputView) -> bool {
    o is Complete || o is MaxIterationsReached || o is BudgetExceeded
}

fn outcome_command(o: &Result<ToolResult, ToolExecutorError>) -> (r: RunnerCommand)
    ensures
        r@ == RunnerView::Emit(outcome_event(*o)),
{
    match o {
        Ok(t) => RunnerCommand::Emit(AgentEvent::ToolResult { call_id: t.id.clone(), success: t.success, output: t.output.clone() }),
        Err(e) => {
            let text = e.to_text();
            RunnerCommand::Emit(AgentEvent::ToolResult {
                call_id: String::new(),
                success: false,
                output: JsonValue::Str(concat2("Error: ", text.as_str())),
            })
        },
    }
}

/// What the runner does with the tools' outcomes: reports each, hands them
/// to the reducer, reports the iteration with the conversation's length, and
/// acts on the reducer's answer when it ends the run, else goes on.
pub fn runner_after_tools(
    state: AgentState,
    results: Vec<(ToolCall, Result<ToolResult, ToolExecutorError>)>,
    config: &AgentConfig,
) -> (r: (AgentState, Vec<RunnerCommand>))
    requires
        state.wf(),
    ensures
        r.0.wf(),
        exists|s1: AgentState, o: OutputView| {
            let n = results@.len() as int;
            &&& #[trigger] tools_ran(state, results@, config, s1, o)
            &&& commands_view(r.1@).len() > n
            &&& commands_view(r.1@).take(n) == outcome_events(results@)
            &&& commands_view(r.1@)[n] == RunnerView::Emit(EventView::Iteration {
                iteration: s1.iteration,
                message_count: conversation_of(s1.context@).len() as usize,
            })
            &&& if ends_after_tools(o) {
                next_decision(s1, o, config.max_iterations, r.0, commands_view(r.1@).skip(n + 1))
            } else {
                go_on(s1, config, r.0, commands_view(r.1@).skip(n + 1))
            }
        },
{
    let ghost s0 = state;
    let ghost rv = results@;
    let mut cmds: Vec<RunnerCommand> = Vec::new();
    let mut i: usize = 0;
    while i < results.len()
        invariant
            i <= results@.len(),
            rv == results@,
            commands_view(cmds@) == outcome_events(rv.take(i as int)),
        decreases results.len() - i,
    {
        let c = outcome_command(&results[i].1);
        proof {
            assert(outcome_events(rv.take(i as int + 1)) =~= outcome_events(rv.take(i as int)).push(c@));
            assert(commands_view(cmds@.push(c)) =~= commands_view(cmds@).push(c@));
        }
        cmds.push(c);
        i = i + 1;
    }
    proof { assert(rv.take(rv.len() as int) =~= rv); }
    let (s1, out) = apply_effect(state, AgentEffectResult::ToolResults(results), config);
    let ghost o = out@;
    proof { assert(tools_ran(s0, rv, config, s1, o)); }
    let conversation = s1.context.conversation();
    let count = conversation.len();
    cmds.push(RunnerCommand::Emit(AgentEvent::Iteration { iteration: s1.iteration, message_count: count }));
    let ends = match &out {
        AgentOutput::Complete => true,
        AgentOutput::MaxIterationsReached => true,
        AgentOutput::BudgetExceeded => true,
        _ => false,
    };
    let ghost head = commands_view(cmds@);
    let (ns, rest) = if ends { runner_next(s1, out, config) } else { runner_continue(s1, config) };
    let ghost tail = commands_view(rest@);
    let mut rest = rest;
    cmds.append(&mut rest);
    proof {
        let n = rv.len() as int;
        assert(commands_view(cmds@) =~= head + tail);
        assert(commands_view(cmds@).take(n) =~= outcome_events(rv));
        assert(commands_view(cmds@).skip(n + 1) =~= tail);
        assert(messages_view(conversation@).len() == conversation@.len());
    }
    (ns, cmds)
}

} // verus!
