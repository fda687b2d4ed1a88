use agent::lifecycle::{LifeCycle, MetricsHook};
use agent::hook_inputs::{AfterStepInput, BeforeStepInput, ModelEventInput};
use agent::hooks::HookModelEvent;
use agent::window::window_push;
use agent::agent_run::{run_result, AgentError as RunError, AgentEvent, AgentRun, RunCommand, RunInput, RunStage};
use agent::context::Context;
use agent::hooks::{AgentActorEvent, AgentError, CallModelEvent, CallToolResult, HookPhase, StepResultDraft};
use agent::json::JsonValue;
use agent::lifecycle::{ContextPersistenceHook, ErrorEventHook, IterationEventHook, LifecycleHook, MaxIterationsHook};
use agent::message::{Message, ToolCall, ToolExecutorError, ToolResult};
use agent::models::ChatError;
use agent::reducer::{AgentState, JobState};
use agent::step::{StepCommand, StepInput, StepRun, StepStage};

fn call(id: &str, name: &str) -> ToolCall {
    ToolCall {
        id: id.to_string(),
        call_type: None,
        index: None,
        function: None,
        name: Some(name.to_string()),
        arguments: Some(JsonValue::Null),
    }
}

fn phase(cmd: Option<StepCommand>) -> HookPhase {
    match cmd {
        Some(StepCommand::RunPhase(p)) => p,
        other => panic!("expected a phase, got {:?}", other),
    }
}

#[test]
fn step_without_tool_calls_is_done_with_the_streamed_text() {
    let mut step = StepRun::new();
    assert_eq!(phase(step.advance(StepInput::Begin)), HookPhase::BeforeStep);
    assert_eq!(phase(step.advance(StepInput::Phase(None))), HookPhase::BeforeCallModel);
    assert!(matches!(step.advance(StepInput::Phase(None)), Some(StepCommand::NextModelEvent)));
    assert_eq!(phase(step.advance(StepInput::ModelEvent(CallModelEvent::ReasoningChunk("think".to_string())))), HookPhase::OnModelEvent);
    assert!(matches!(step.advance(StepInput::Phase(None)), Some(StepCommand::NextModelEvent)));
    step.advance(StepInput::ModelEvent(CallModelEvent::TextChunk("Hel".to_string())));
    step.advance(StepInput::Phase(None));
    step.advance(StepInput::ModelEvent(CallModelEvent::TextChunk("lo".to_string())));
    step.advance(StepInput::Phase(None));
    assert_eq!(phase(step.advance(StepInput::StreamEnded)), HookPhase::AfterCallModel);
    match step.advance(StepInput::Phase(None)) {
        Some(StepCommand::Finish(StepResultDraft::Done { content, reasoning_content })) => {
            assert_eq!(content, "Hello");
            assert_eq!(reasoning_content, Some("think".to_string()));
        }
        other => panic!("unexpected {:?}", other),
    }
    assert_eq!(step.stage, StepStage::Done);
    assert!(step.advance(StepInput::Begin).is_none());
}

#[test]
fn step_with_tools_continues_with_their_results() {
    let mut step = StepRun::new();
    step.advance(StepInput::Begin);
    step.advance(StepInput::Phase(None));
    step.advance(StepInput::Phase(None));
    let done = CallModelEvent::Completed {
        content: "calling".to_string(),
        reasoning_content: None,
        tool_calls: Some(vec![call("c1", "search")]),
    };
    step.advance(StepInput::ModelEvent(done));
    step.advance(StepInput::Phase(None));
    step.advance(StepInput::StreamEnded);
    assert_eq!(phase(step.advance(StepInput::Phase(None))), HookPhase::BeforeCallTools);
    assert!(matches!(step.advance(StepInput::Phase(None)), Some(StepCommand::ExecuteTools)));
    let results = vec![CallToolResult {
        call_id: "c1".to_string(),
        tool_name: "search".to_string(),
        success: true,
        output: "found".to_string(),
    }];
    assert_eq!(phase(step.advance(StepInput::Tools(Ok(results)))), HookPhase::AfterCallTools);
    match step.advance(StepInput::Phase(None)) {
        Some(StepCommand::Finish(StepResultDraft::Continue { content, tool_calls, tool_results, .. })) => {
            assert_eq!(content, "calling");
            assert_eq!(tool_calls.len(), 1);
            assert_eq!(tool_results[0].output, "found");
        }
        other => panic!("unexpected {:?}", other),
    }
}

#[test]
fn step_ends_on_a_model_error_and_on_a_hook_result() {
    let mut step = StepRun::new();
    step.advance(StepInput::Begin);
    step.advance(StepInput::Phase(None));
    step.advance(StepInput::Phase(None));
    step.advance(StepInput::ModelEvent(CallModelEvent::Error("boom".to_string())));
    match step.advance(StepInput::Phase(None)) {
        Some(StepCommand::Finish(StepResultDraft::Error(AgentError::Model(m)))) => assert_eq!(m, "boom"),
        other => panic!("unexpected {:?}", other),
    }

    let mut early = StepRun::new();
    early.advance(StepInput::Begin);
    let stop = StepResultDraft::Error(AgentError::MaxIterations(3));
    assert!(matches!(
        early.advance(StepInput::Phase(Some(stop))),
        Some(StepCommand::Finish(StepResultDraft::Error(AgentError::MaxIterations(3))))
    ));
    assert!(early.advance(StepInput::StreamEnded).is_none());
}

fn assistant_with_calls(calls: Vec<ToolCall>) -> Message {
    Message::Assistant { content: "".to_string(), reasoning_content: None, tool_calls: Some(calls) }
}

#[test]
fn run_without_tool_calls_completes_after_one_round() {
    let mut run = AgentRun::new(10);
    assert!(matches!(run.advance(RunInput::Next).as_slice(), [RunCommand::AskModel]));
    let out = run.advance(RunInput::Reply(Ok(Message::assistant("hi"))));
    assert_eq!(out.len(), 3);
    assert!(matches!(&out[0], RunCommand::Emit(Ok(AgentEvent::AssistantMessage(_)))));
    assert!(matches!(&out[1], RunCommand::Remember(Message::Assistant { .. })));
    assert!(matches!(&out[2], RunCommand::EmitComplete));
    assert_eq!(run.stage, RunStage::Finished);
    assert!(run.advance(RunInput::Next).is_empty());
}

#[test]
fn run_reports_and_remembers_each_tool_outcome() {
    let mut run = AgentRun::new(10);
    run.advance(RunInput::Next);
    let out = run.advance(RunInput::Reply(Ok(assistant_with_calls(vec![call("a", "x"), call("b", "y")]))));
    assert!(matches!(&out[2], RunCommand::Emit(Ok(AgentEvent::ToolCalls(v))) if v.len() == 2));
    assert!(matches!(&out[3], RunCommand::RunTools(v) if v.len() == 2));
    let outcomes = vec![
        Ok(ToolResult { id: "a".to_string(), success: true, output: JsonValue::Str("ok".to_string()) }),
        Err(ToolExecutorError::ToolNotFound("y".to_string())),
    ];
    let out = run.advance(RunInput::ToolResults(outcomes));
    assert_eq!(out.len(), 5);
    match &out[1] {
        RunCommand::Remember(Message::Tool { tool_call_id, content }) => {
            assert_eq!(tool_call_id, "a");
            assert_eq!(content, "\"ok\"");
        }
        other => panic!("unexpected {:?}", other),
    }
    match &out[2] {
        RunCommand::Emit(Ok(AgentEvent::ToolResult { call_id, success, output })) => {
            assert_eq!(call_id, "b");
            assert!(!success);
            assert!(matches!(output, JsonValue::Str(t) if t == "Error: Tool not found: y"));
        }
        other => panic!("unexpected {:?}", other),
    }
    assert!(matches!(&out[4], RunCommand::EmitIteration(0)));
    assert_eq!(run.stage, RunStage::Ready { iteration: 1 });
}

#[test]
fn run_stops_at_its_iteration_limit() {
    let mut run = AgentRun::new(1);
    run.advance(RunInput::Next);
    run.advance(RunInput::Reply(Ok(assistant_with_calls(vec![call("a", "x")]))));
    let out = run.advance(RunInput::ToolResults(vec![Err(ToolExecutorError::ExecutionError("bad".to_string()))]));
    match out.last() {
        Some(RunCommand::Emit(Err(e))) => assert_eq!(e.to_text(), "Max iterations reached: 1"),
        other => panic!("unexpected {:?}", other),
    }
    assert_eq!(run.stage, RunStage::Finished);

    let mut none = AgentRun::new(0);
    assert!(matches!(none.advance(RunInput::Next).as_slice(), [RunCommand::EmitComplete]));
}

#[test]
fn run_fails_on_a_chat_error_or_a_non_assistant_reply() {
    let mut run = AgentRun::new(3);
    run.advance(RunInput::Next);
    let out = run.advance(RunInput::Reply(Err(ChatError::NoResponse)));
    assert!(matches!(out.as_slice(), [RunCommand::Emit(Err(RunError::Chat(ChatError::NoResponse)))]));

    let mut odd = AgentRun::new(3);
    odd.advance(RunInput::Next);
    let out = odd.advance(RunInput::Reply(Ok(Message::user("me"))));
    match out.last() {
        Some(RunCommand::Emit(Err(e))) => assert_eq!(e.to_text(), "Invalid message: Expected assistant message"),
        other => panic!("unexpected {:?}", other),
    }
}

#[test]
fn run_result_prefers_completion_then_the_last_error() {
    let done = run_result(vec![
        Err(RunError::AllToolsFailed),
        Ok(AgentEvent::Complete(vec![Message::user("u"), Message::assistant("a")])),
    ]);
    assert_eq!(done.unwrap().len(), 2);
    let failed = run_result(vec![Err(RunError::AllToolsFailed), Err(RunError::MaxIterationsReached(2))]);
    assert_eq!(failed.unwrap_err().to_text(), "Max iterations reached: 2");
    let empty = run_result(vec![Ok(AgentEvent::Iteration { iteration: 0, message_count: 1 })]);
    assert_eq!(empty.unwrap_err().to_text(), "Invalid message: Stream ended without Complete event");
}

#[test]
fn lifecycle_hooks_track_iterations_and_state() {
    let mut state = AgentState::new("u").with_max_iterations(1);
    let lifecycle = LifecycleHook::default();
    assert_eq!(lifecycle.name(), "lifecycle");
    lifecycle.before_step(&mut state);
    assert_eq!(state.iteration, 1);
    assert_eq!(state.state, JobState::Running);
    let done = StepResultDraft::Done { content: "ok".to_string(), reasoning_content: None };
    lifecycle.after_step(&mut state, &done);
    assert_eq!(state.state, JobState::Completed);

    match MaxIterationsHook::default().before_step(&state) {
        Some((AgentActorEvent::MaxIterations { iteration }, StepResultDraft::Error(AgentError::MaxIterations(n)))) => {
            assert_eq!(iteration, 1);
            assert_eq!(n, 1);
        }
        other => panic!("unexpected {:?}", other),
    }

    let mut context = Context::new();
    ContextPersistenceHook::default().after_step(&mut context, &done);
    assert_eq!(context.conversation().len(), 1);
    assert!(matches!(
        IterationEventHook::default().after_step(&state, &done),
        Some(AgentActorEvent::Iteration { iteration: 1, .. })
    ));
    assert!(ErrorEventHook::default().after_step(&done).is_none());
}

#[test]
fn sliding_window_keeps_the_newest_messages() {
    let mut window: Vec<Message> = Vec::new();
    for text in ["one", "two", "three"] {
        window_push(&mut window, 2, Message::user(text));
    }
    assert_eq!(window.len(), 2);
    assert_eq!(window[0].content(), "two");
    assert_eq!(window[1].content(), "three");
    let mut unbounded: Vec<Message> = Vec::new();
    window_push(&mut unbounded, usize::MAX, Message::user("x"));
    assert_eq!(unbounded.len(), 1);
}

#[test]
fn hook_inputs_capture_the_job() {
    let mut state = AgentState::new("ana").with_max_iterations(5);
    state.conversation_id = Some(0x67e5_5044_10b1_426f_9247_bb68_0e5f_e0c8);
    state.add_message(Message::user("hi"));
    let metadata = vec![("k".to_string(), JsonValue::Bool(true))];
    let before = BeforeStepInput::capture(&state, &metadata);
    assert_eq!(before.conversation_id, Some("67e55044-10b1-426f-9247-bb680e5fe0c8".to_string()));
    assert_eq!(before.user_id, "ana");
    assert_eq!(before.max_iterations, 5);
    assert_eq!(before.context_len, 1);
    assert_eq!(before.metadata.len(), 1);
    state.conversation_id = Some(1);
    let small = BeforeStepInput::capture(&state, &vec![]);
    assert_eq!(small.conversation_id, Some("00000000-0000-0000-0000-000000000001".to_string()));

    let done = StepResultDraft::Done { content: "ok".to_string(), reasoning_content: None };
    let after = AfterStepInput::capture(&state, &done, &metadata);
    assert_eq!(after.job_state, JobState::Pending);
    let event = ModelEventInput::capture(&state, &CallModelEvent::TextChunk("t".to_string()), &metadata);
    assert!(matches!(event.event, HookModelEvent::TextChunk(ref t) if t == "t"));
}

#[test]
fn metrics_hook_times_the_model_and_the_tools() {
    let mut hook = MetricsHook::new();
    assert_eq!(hook.name(), "metrics");
    assert!(hook.on(LifeCycle::AfterCallTools));
    assert!(!hook.on(LifeCycle::BeforeStep));
    hook.record_step_call_model_duration(50);
    assert_eq!(hook.step_call_model_duration, 0);
    hook.set_step_call_model_instant(100);
    hook.record_step_call_model_duration(142);
    assert_eq!(hook.step_call_model_duration, 42);
    hook.set_step_call_tools_instant(200);
    hook.record_step_call_tools_duration(150);
    assert_eq!(hook.step_tools_call_duration, 0);
    hook.record_step_call_tools_duration(200 + (1u64 << 32) + 7);
    assert_eq!(hook.step_tools_call_duration, 7);
}

#[test]
fn a_window_of_no_items_keeps_nothing() {
    let mut window: Vec<Message> = Vec::new();
    window_push(&mut window, 0, Message::user("x"));
    assert!(window.is_empty());
    let mut three: Vec<Message> = Vec::new();
    for text in ["Hello", "Hi there!", "How are you?", "I'm good!"] {
        window_push(&mut three, 3, Message::user(text));
    }
    assert_eq!(three.len(), 3);
    assert_eq!(three[0].content(), "Hi there!");
}

#[test]
fn the_model_answer_starts_empty_when_streaming_begins() {
    let mut step = StepRun::new();
    step.advance(StepInput::Begin);
    step.advance(StepInput::Phase(None));
    step.output.content = "left by a hook".to_string();
    assert!(matches!(step.advance(StepInput::Phase(None)), Some(StepCommand::NextModelEvent)));
    assert_eq!(step.stage, StepStage::Streaming);
    assert_eq!(step.output.content, "");
    assert!(step.output.tool_calls.is_empty());
}
