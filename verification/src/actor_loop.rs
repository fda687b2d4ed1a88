use vstd::prelude::*;

use crate::context::conversation_of;
use crate::hooks::{events_view, results_view, AgentActorEvent, AgentError, AgentErrorView, EventView, StepResult, StepResultDraft, StepView};
use crate::lifecycle::step_messages;
use crate::message::{calls_view, copy_calls, copy_opt_string, messages_view, opt_str, Message, MessageView};
use crate::reducer::{transitions_view, with_messages, AgentState, JobState};

verus! {

/// A command sent to a running agent.
#[derive(Debug, Clone, Copy, PartialEq, Eq, Structural)]
pub enum AgentActorCommand {
    Pause,
    Continue,
    Cancel,
}

/// Why a loop ended with an event.
#[derive(Debug, Clone, Copy, PartialEq, Eq, Structural)]
pub enum TerminalReason {
    Completed,
    Cancelled,
}

/// How a loop ends: with an event, or silently (a failed step has already
/// reported itself).
#[derive(Debug, Clone, Copy, PartialEq, Eq, Structural)]
pub enum Finalization {
    Emit(TerminalReason),
    Silent,
}

/// Where the agent's loop stands.
#[derive(Debug, Clone, Copy, PartialEq, Eq, Structural)]
pub enum LoopState {
    Runnable,
    Paused,
    Finished(Finalization),
}

/// The job's state and the loop's after a command: a pause holds a runnable
/// loop, a continue resumes a paused one, a cancel ends either; a finished
/// loop ignores commands, and so does a loop already where the command would
/// put it.
pub open spec fn command_transition(job: JobState, s: LoopState, cmd: AgentActorCommand) -> (JobState, LoopState) {
    match (s, cmd) {
        (LoopState::Runnable, AgentActorCommand::Pause) => (JobState::Paused, LoopState::Paused),
        (LoopState::Runnable, AgentActorCommand::Continue) => (job, LoopState::Runnable),
        (LoopState::Paused, AgentActorCommand::Pause) => (job, LoopState::Paused),
        (LoopState::Paused, AgentActorCommand::Continue) => (JobState::Running, LoopState::Runnable),
        (LoopState::Finished(f), _) => (job, LoopState::Finished(f)),
        (_, AgentActorCommand::Cancel) => (JobState::Cancelled, LoopState::Finished(Finalization::Emit(TerminalReason::Cancelled))),
    }
}

/// Applies a command to the loop; see `command_transition`.
pub fn transition_command(job: &mut JobState, loop_state: LoopState, cmd: AgentActorCommand) -> (r: LoopState)
    ensures
        (*final(job), r) == command_transition(*old(job), loop_state, cmd),
{
    match (loop_state, cmd) {
        (LoopState::Runnable, AgentActorCommand::Pause) => {
            *job = JobState::Paused;
            LoopState::Paused
        },
        (LoopState::Runnable, AgentActorCommand::Continue) => LoopState::Runnable,
        (LoopState::Runnable, AgentActorCommand::Cancel) => {
            *job = JobState::Cancelled;
            LoopState::Finished(Finalization::Emit(TerminalReason::Cancelled))
        },
        (LoopState::Paused, AgentActorCommand::Pause) => LoopState::Paused,
        (LoopState::Paused, AgentActorCommand::Continue) => {
            *job = JobState::Running;
            LoopState::Runnable
        },
        (LoopState::Paused, AgentActorCommand::Cancel) => {
            *job = JobState::Cancelled;
            LoopState::Finished(Finalization::Emit(TerminalReason::Cancelled))
        },
        (LoopState::Finished(finalization), _) => LoopState::Finished(finalization),
    }
}

/// A finished loop stays finished, with the same ending, whatever commands
/// come, and the job's state stays as it was.
pub proof fn law_finished_loop_ignores_commands(job: JobState, f: Finalization, cmd: AgentActorCommand)
    ensures
        command_transition(job, LoopState::Finished(f), cmd) == (job, LoopState::Finished(f)),
{
}

/// A cancel ends any loop that is not over, with a cancellation to report.
pub proof fn law_cancel_finishes(job: JobState, s: LoopState)
    requires
        !(s is Finished),
    ensures
        command_transition(job, s, AgentActorCommand::Cancel) == (
            JobState::Cancelled,
            LoopState::Finished(Finalization::Emit(TerminalReason::Cancelled)),
        ),
{
}

/// The loop after a step: it goes on after a step that called tools, ends
/// with a completion after a final answer, and ends silently after a failure.
pub open spec fn step_transition(result: StepView) -> LoopState {
    match result {
        StepView::Continue { .. } => LoopState::Runnable,
        StepView::Done { .. } => LoopState::Finished(Finalization::Emit(TerminalReason::Completed)),
        StepView::Error(_) => LoopState::Finished(Finalization::Silent),
    }
}

/// The loop after a step; see `step_transition`.
pub fn transition_step_result(result: &StepResult) -> (r: LoopState)
    ensures
        r == step_transition(result@),
{
    match result {
        StepResult::Continue { .. } => LoopState::Runnable,
        StepResult::Done { .. } => LoopState::Finished(Finalization::Emit(TerminalReason::Completed)),
        StepResult::Error(_) => LoopState::Finished(Finalization::Silent),
    }
}

/// The event that ends a loop, if its ending has one.
pub fn terminal_event(finalization: Finalization) -> (r: Option<AgentActorEvent>)
    ensures
        match finalization {
            Finalization::Emit(TerminalReason::Completed) => r is Some && r->0@ == EventView::Completed,
            Finalization::Emit(TerminalReason::Cancelled) => r is Some && r->0@ == EventView::Cancelled,
            Finalization::Silent => r is None,
        },
{
    match finalization {
        Finalization::Emit(TerminalReason::Completed) => Some(AgentActorEvent::Completed),
        Finalization::Emit(TerminalReason::Cancelled) => Some(AgentActorEvent::Cancelled),
        Finalization::Silent => None,
    }
}

/// Whether an event is the last a run sends.
pub open spec fn terminal(e: EventView) -> bool {
    e is Completed || e is Cancelled || e is Error || e is MaxIterations
}

/// Whether an event is the last a run sends; see `terminal`.
pub fn is_terminal(event: &AgentActorEvent) -> (r: bool)
    ensures
        r == terminal(event@),
{
    match event {
        AgentActorEvent::Completed | AgentActorEvent::Cancelled | AgentActorEvent::Error(_)
        | AgentActorEvent::MaxIterations { .. } => true,
        _ => false,
    }
}

/// The events a waiting caller keeps: all of them up to and including the
/// first that ends the run.
pub open spec fn kept_events(s: Seq<EventView>) -> Seq<EventView>
    decreases s.len(),
{
    if s.len() == 0 {
        Seq::empty()
    } else if terminal(s[0]) {
        seq![s[0]]
    } else {
        seq![s[0]] + kept_events(s.drop_first())
    }
}

/// The events a waiting caller keeps; see `kept_events`.
pub fn collect_until_terminal(events: Vec<AgentActorEvent>) -> (r: Vec<AgentActorEvent>)
    ensures
        events_view(r@) == kept_events(events_view(events@)),
{
    let mut out: Vec<AgentActorEvent> = Vec::new();
    let mut rest = events;
    proof {
        assert(events_view(out@) + kept_events(events_view(rest@)) =~= kept_events(events_view(events@)));
    }
    while rest.len() > 0
        invariant
            events_view(out@) + kept_events(events_view(rest@)) == kept_events(events_view(events@)),
        decreases rest@.len(),
    {
        let ghost before = rest@;
        let ghost out0 = events_view(out@);
        let event = rest.remove(0);
        proof {
            assert(rest@ =~= before.drop_first());
            assert(events_view(before).drop_first() =~= events_view(rest@));
            assert(events_view(before)[0] == event@);
        }
        let stop = is_terminal(&event);
        out.push(event);
        proof {
            assert(events_view(out@) =~= out0.push(event@));
        }
        if stop {
            proof {
                assert(kept_events(events_view(before)) == seq![event@]);
                assert(out0 + seq![event@] =~= out0.push(event@));
            }
            return out;
        }
        proof {
            assert(kept_events(events_view(before)) == seq![event@] + kept_events(events_view(rest@)));
            assert(out0 + (seq![event@] + kept_events(events_view(rest@))) =~= out0.push(event@) + kept_events(events_view(rest@)));
        }
    }
    proof {
        assert(kept_events(events_view(rest@)) =~= Seq::<EventView>::empty());
        assert(events_view(out@) + Seq::<EventView>::empty() =~= events_view(out@));
    }
    out
}

// ---------------------------------------------------------------------------
// Committing a step
// ---------------------------------------------------------------------------

/// What committing a step does: the job's next state, the messages to add
/// to the conversation, and the events to send, in order.
#[derive(Debug)]
pub struct CommitPlan {
    pub next_state: JobState,
    pub context_messages: Vec<Message>,
    pub events: Vec<AgentActorEvent>,
}

/// The job's state after a step: waiting after a step that called tools,
/// completed after a final answer, cancelled or failed after an error.
pub open spec fn committed_state(result: StepView) -> JobState {
    match result {
        StepView::Continue { .. } => JobState::WaitingInput,
        StepView::Done { .. } => JobState::Completed,
        StepView::Error(AgentErrorView::Cancelled) => JobState::Cancelled,
        StepView::Error(_) => JobState::Failed,
    }
}

/// The event that closes a step: its iteration when it did not fail,
/// otherwise the failure itself.
pub open spec fn closing_event(iteration: usize, message_count: usize, result: StepView) -> EventView {
    match result {
        StepView::Continue { .. } => EventView::Iteration { iteration, message_count },
        StepView::Done { .. } => EventView::Iteration { iteration, message_count },
        StepView::Error(AgentErrorView::MaxIterations(i)) => EventView::MaxIterations { iteration: i },
        StepView::Error(AgentErrorView::Cancelled) => EventView::Cancelled,
        StepView::Error(e) => EventView::Error(e),
    }
}

/// The events of a commit: those the step left pending, the final result,
/// then its closing event.
pub open spec fn commit_events(pending: Seq<EventView>, iteration: usize, message_count: usize, result: StepView) -> Seq<EventView> {
    pending.push(EventView::StepFinalized { result }).push(closing_event(iteration, message_count, result))
}

/// Turns a step's result into what committing it does.
pub struct CommitReducer;

impl CommitReducer {
    /// The job's state after the step; see `committed_state`.
    pub fn next_state(result: &StepResultDraft) -> (r: JobState)
        ensures
            r == committed_state(result@),
    {
        match result {
            StepResultDraft::Continue { .. } => JobState::WaitingInput,
            StepResultDraft::Done { .. } => JobState::Completed,
            StepResultDraft::Error(AgentError::Cancelled) => JobState::Cancelled,
            StepResultDraft::Error(_) => JobState::Failed,
        }
    }

    /// The messages the step adds to the conversation; see `step_messages`.
    pub fn context_messages(result: &StepResultDraft) -> (r: Vec<Message>)
        ensures
            messages_view(r@) == step_messages(result@),
    {
        let mut out: Vec<Message> = Vec::new();
        match result {
            StepResultDraft::Continue { content, reasoning_content, tool_calls, tool_results } => {
                out.push(Message::Assistant {
                    content: content.clone(),
                    reasoning_content: copy_opt_string(reasoning_content),
                    tool_calls: Some(copy_calls(tool_calls)),
                });
                let mut i: usize = 0;
                while i < tool_results.len()
                    invariant
                        i <= tool_results@.len(),
                        out@.len() == i + 1,
                        out@[0]@ == (MessageView::Assistant {
                            content: content@,
                            reasoning_content: opt_str(*reasoning_content),
                            tool_calls: Some(calls_view(tool_calls@)),
                        }),
                        forall|j: int| 0 <= j < i ==> (#[trigger] out@[j + 1])@ == (MessageView::Tool {
                            tool_call_id: tool_results@[j].call_id@,
                            content: tool_results@[j].output@,
                        }),
                    decreases tool_results@.len() - i,
                {
                    out.push(Message::Tool {
                        tool_call_id: tool_results[i].call_id.clone(),
                        content: tool_results[i].output.clone(),
                    });
                    i = i + 1;
                }
                proof {
                    let want = step_messages(result@);
                    assert(results_view(tool_results@).len() == tool_results@.len());
                    assert forall|j: int| 0 <= j < out@.len() implies #[trigger] messages_view(out@)[j] == want[j] by {
                        if j > 0 {
                            assert(out@[(j - 1) + 1]@ == MessageView::Tool {
                                tool_call_id: tool_results@[j - 1].call_id@,
                                content: tool_results@[j - 1].output@,
                            });
                            assert(results_view(tool_results@)[j - 1] == tool_results@[j - 1]@);
                        }
                    }
                    assert(messages_view(out@) =~= want);
                }
            },
            StepResultDraft::Done { content, reasoning_content } => {
                out.push(Message::Assistant {
                    content: content.clone(),
                    reasoning_content: copy_opt_string(reasoning_content),
                    tool_calls: None,
                });
                proof { assert(messages_view(out@) =~= step_messages(result@)); }
            },
            StepResultDraft::Error(_) => {
                proof { assert(messages_view(out@) =~= step_messages(result@)); }
            },
        }
        out
    }

    /// What committing a step does: the next state, the step's messages, and
    /// the pending events followed by the final result and the closing event,
    /// which counts the conversation with the step's messages added.
    pub fn reduce(state: &AgentState, pending_events: Vec<AgentActorEvent>, result: &StepResultDraft) -> (r: CommitPlan)
        requires
            conversation_of(state.context@).len() + step_messages(result@).len() <= usize::MAX,
        ensures
            r.next_state == committed_state(result@),
            messages_view(r.context_messages@) == step_messages(result@),
            events_view(r.events@) == commit_events(
                events_view(pending_events@),
                state.iteration,
                (conversation_of(state.context@).len() + step_messages(result@).len()) as usize,
                result@,
            ),
    {
        let context_messages = Self::context_messages(result);
        let conversation = state.context.conversation();
        proof {
            assert(messages_view(context_messages@).len() == context_messages@.len());
            assert(messages_view(conversation@).len() == conversation@.len());
        }
        let message_count = conversation.len() + context_messages.len();
        let committed = crate::hooks::step_result_from_draft(result.clone());
        let mut events = pending_events;
        let ghost pending = events_view(events@);
        events.push(AgentActorEvent::StepFinalized { result: committed });
        let closing = match result {
            StepResultDraft::Continue { .. } | StepResultDraft::Done { .. } => AgentActorEvent::Iteration {
                iteration: state.iteration,
                message_count,
            },
            StepResultDraft::Error(AgentError::MaxIterations(iteration)) => AgentActorEvent::MaxIterations { iteration: *iteration },
            StepResultDraft::Error(AgentError::Cancelled) => AgentActorEvent::Cancelled,
            StepResultDraft::Error(err) => AgentActorEvent::Error(err.clone()),
        };
        events.push(closing);
        proof {
            assert(events_view(events@) =~= commit_events(pending, state.iteration, message_count, result@));
        }
        CommitPlan { next_state: Self::next_state(result), context_messages, events }
    }
}

/// Carries out a commit plan on the agent's state.
pub struct StepCommitter;

impl StepCommitter {
    /// Sets the job's state, adds the plan's messages to the conversation in
    /// order, and hands back the events to send.
    pub fn apply(plan: CommitPlan, state: &mut AgentState) -> (r: Vec<AgentActorEvent>)
        ensures
            final(state).state == plan.next_state,
            final(state).context@ == with_messages(old(state).context@, messages_view(plan.context_messages@)),
            final(state).same_record(&*old(state)),
            transitions_view(final(state).transitions@) == transitions_view(old(state).transitions@),
            events_view(r@) == events_view(plan.events@),
    {
        let CommitPlan { next_state, context_messages, events } = plan;
        state.state = next_state;
        let ghost ls0 = state.context@;
        let ghost ms = messages_view(context_messages@);
        let mut rest = context_messages;
        let ghost all = rest@;
        let ghost mut k: int = 0;
        proof {
            assert(ms.take(0) =~= Seq::<MessageView>::empty());
        }
        while rest.len() > 0
            invariant
                0 <= k <= all.len(),
                ms == messages_view(all),
                rest@ == all.skip(k),
                state.context@ == with_messages(ls0, ms.take(k)),
                state.state == next_state,
                state.same_record(&*old(state)),
                transitions_view(state.transitions@) == transitions_view(old(state).transitions@),
            decreases rest@.len(),
        {
            let message = rest.remove(0);
            proof {
                assert(message == all[k]);
                assert(rest@ =~= all.skip(k + 1));
                assert(ms.take(k + 1).drop_last() =~= ms.take(k));
                assert(ms.take(k + 1).last() == message@);
            }
            state.add_message(message);
            proof { k = k + 1; }
        }
        proof {
            assert(ms.take(k) =~= ms);
        }
        events
    }
}

// ---------------------------------------------------------------------------
// Applying a step's result directly
// ---------------------------------------------------------------------------

/// The job's state once a step's result is applied: running on after a step
/// that called tools, completed after a final answer, cancelled or failed
/// after an error.
pub open spec fn applied_state(result: StepView) -> JobState {
    match result {
        StepView::Continue { .. } => JobState::Running,
        StepView::Done { .. } => JobState::Completed,
        StepView::Error(AgentErrorView::Cancelled) => JobState::Cancelled,
        StepView::Error(_) => JobState::Failed,
    }
}

/// Counts the step, sets the job's state by its result and adds what the
/// step said to the conversation.
pub fn apply_step_result(state: &mut AgentState, result: &StepResult)
    requires
        old(state).iteration < usize::MAX,
    ensures
        final(state).iteration == old(state).iteration + 1,
        final(state).state == applied_state(result@),
        final(state).context@ == with_messages(old(state).context@, step_messages(result@)),
        final(state).max_iterations == old(state).max_iterations,
{
    state.iteration = state.iteration + 1;
    let draft = match result {
        StepResult::Continue { content, reasoning_content, tool_calls, tool_results } => StepResultDraft::Continue {
            content: content.clone(),
            reasoning_content: copy_opt_string(reasoning_content),
            tool_calls: copy_calls(tool_calls),
            tool_results: crate::hooks::copy_results(tool_results),
        },
        StepResult::Done { content, reasoning_content } => StepResultDraft::Done {
            content: content.clone(),
            reasoning_content: copy_opt_string(reasoning_content),
        },
        StepResult::Error(e) => StepResultDraft::Error(e.clone()),
    };
    state.state = match result {
        StepResult::Continue { .. } => JobState::Running,
        StepResult::Done { .. } => JobState::Completed,
        StepResult::Error(AgentError::Cancelled) => JobState::Cancelled,
        StepResult::Error(_) => JobState::Failed,
    };
    crate::lifecycle::ContextPersistenceHook.after_step(&mut state.context, &draft);
}

/// The events that report a step: its final result, then its iteration when
/// it did not fail, the cancellation, or the failure.
pub fn emit_step_result_events(state: &AgentState, result: &StepResult) -> (r: Vec<AgentActorEvent>)
    ensures
        events_view(r@) == seq![
            EventView::StepFinalized { result: result@ },
            match result@ {
                StepView::Error(AgentErrorView::Cancelled) => EventView::Cancelled,
                StepView::Error(e) => EventView::Error(e),
                _ => EventView::Iteration {
                    iteration: state.iteration,
                    message_count: conversation_of(state.context@).len() as usize,
                },
            },
        ],
{
    let mut out: Vec<AgentActorEvent> = Vec::new();
    out.push(AgentActorEvent::StepFinalized { result: result.clone() });
    let second = match result {
        StepResult::Error(AgentError::Cancelled) => AgentActorEvent::Cancelled,
        StepResult::Error(err) => AgentActorEvent::Error(err.clone()),
        _ => {
            let conversation = state.context.conversation();
            proof { assert(messages_view(conversation@).len() == conversation@.len()); }
            AgentActorEvent::Iteration { iteration: state.iteration, message_count: conversation.len() }
        },
    };
    out.push(second);
    proof {
        assert(events_view(out@) =~= seq![out@[0]@, out@[1]@]);
    }
    out
}

} // verus!
