use agent::actor::{begin_step, cancelled_event, collect_chunk, commit_answer, finish_tool_calls, record_tool_outcome, ActorCommand, ActorControl, ActorEvent};
use agent::actor_loop::{
    apply_step_result, collect_until_terminal, emit_step_result_events, is_terminal, terminal_event, transition_command,
    transition_step_result, AgentActorCommand, CommitReducer, Finalization, LoopState, StepCommitter, TerminalReason,
};
use agent::agent_executor::{answer_step, chat_failure, tool_execution_result, StepResult as ExecStep, StreamAccumulator, StreamChunk};
use agent::hooks::{AgentActorEvent, AgentError, CallToolResult, StepResult, StepResultDraft};
use agent::json::{JsonNumber, JsonValue};
use agent::message::{Message, ToolCall, ToolCallFunction, ToolExecutorError, ToolResult};
use agent::models::{ChatChunk, ChatError};
use agent::reducer::{AgentState, JobState};
use agent::web_agent::{final_response, task_messages, PlaywrightCliTool, WebAgentError};
use agent::agent_run::AgentError as RunError;

fn chunk(content: &str, reasoning: &str, calls: Option<Vec<ToolCall>>) -> ChatChunk {
    ChatChunk {
        content: content.to_string(),
        reasoning_content: reasoning.to_string(),
        is_finished: false,
        finish_reason: None,
        tool_calls: calls,
        usage: None,
    }
}

fn piece(index: u32, id: &str, name: &str, args: &str) -> ToolCall {
    ToolCall {
        id: id.to_string(),
        call_type: None,
        index: Some(index),
        function: Some(ToolCallFunction { name: name.to_string(), arguments: args.to_string() }),
        name: None,
        arguments: None,
    }
}

#[test]
fn loop_commands_pause_resume_and_cancel() {
    let mut job = JobState::Running;
    let s = transition_command(&mut job, LoopState::Runnable, AgentActorCommand::Pause);
    assert_eq!(s, LoopState::Paused);
    assert_eq!(job, JobState::Paused);
    let s = transition_command(&mut job, s, AgentActorCommand::Continue);
    assert_eq!(s, LoopState::Runnable);
    assert_eq!(job, JobState::Running);
    let s = transition_command(&mut job, s, AgentActorCommand::Cancel);
    assert_eq!(s, LoopState::Finished(Finalization::Emit(TerminalReason::Cancelled)));
    assert_eq!(job, JobState::Cancelled);
    let after = transition_command(&mut job, s, AgentActorCommand::Continue);
    assert_eq!(after, s);
    assert!(matches!(terminal_event(Finalization::Emit(TerminalReason::Completed)), Some(AgentActorEvent::Completed)));
    assert!(terminal_event(Finalization::Silent).is_none());
}

#[test]
fn step_results_decide_the_loop() {
    let done = StepResult::Done { content: "x".to_string(), reasoning_content: None };
    assert_eq!(transition_step_result(&done), LoopState::Finished(Finalization::Emit(TerminalReason::Completed)));
    assert_eq!(transition_step_result(&StepResult::Error(AgentError::Timeout)), LoopState::Finished(Finalization::Silent));
    let more = StepResult::Continue { content: String::new(), reasoning_content: None, tool_calls: vec![], tool_results: vec![] };
    assert_eq!(transition_step_result(&more), LoopState::Runnable);
}

#[test]
fn waiting_keeps_events_through_the_first_terminal_one() {
    let events = vec![
        AgentActorEvent::ContentChunk("a".to_string()),
        AgentActorEvent::MaxIterations { iteration: 2 },
        AgentActorEvent::Completed,
    ];
    assert!(is_terminal(&events[1]));
    let kept = collect_until_terminal(events);
    assert_eq!(kept.len(), 2);
    let none_terminal = collect_until_terminal(vec![AgentActorEvent::ReasoningChunk("r".to_string())]);
    assert_eq!(none_terminal.len(), 1);
}

#[test]
fn commit_plan_records_messages_state_and_events() {
    let mut state = AgentState::new("u");
    state.add_message(Message::user("hi"));
    let result = StepResultDraft::Continue {
        content: "calling".to_string(),
        reasoning_content: None,
        tool_calls: vec![piece(0, "c1", "search", "{}")],
        tool_results: vec![CallToolResult {
            call_id: "c1".to_string(),
            tool_name: "search".to_string(),
            success: true,
            output: "found".to_string(),
        }],
    };
    let plan = CommitReducer::reduce(&state, vec![AgentActorEvent::ContentChunk("c".to_string())], &result);
    assert_eq!(plan.next_state, JobState::WaitingInput);
    assert_eq!(plan.context_messages.len(), 2);
    assert_eq!(plan.events.len(), 3);
    assert!(matches!(plan.events[1], AgentActorEvent::StepFinalized { .. }));
    assert!(matches!(plan.events[2], AgentActorEvent::Iteration { iteration: 0, message_count: 3 }));
    let events = StepCommitter::apply(plan, &mut state);
    assert_eq!(events.len(), 3);
    assert_eq!(state.state, JobState::WaitingInput);
    assert_eq!(state.context.conversation().len(), 3);

    let cancelled = CommitReducer::reduce(&state, vec![], &StepResultDraft::Error(AgentError::Cancelled));
    assert_eq!(cancelled.next_state, JobState::Cancelled);
    assert!(matches!(cancelled.events[1], AgentActorEvent::Cancelled));
    let limit = CommitReducer::reduce(&state, vec![], &StepResultDraft::Error(AgentError::MaxIterations(4)));
    assert!(matches!(limit.events[1], AgentActorEvent::MaxIterations { iteration: 4 }));
}

#[test]
fn applied_step_counts_and_reports() {
    let mut state = AgentState::new("u");
    let done = StepResult::Done { content: "ok".to_string(), reasoning_content: None };
    apply_step_result(&mut state, &done);
    assert_eq!(state.iteration, 1);
    assert_eq!(state.state, JobState::Completed);
    let events = emit_step_result_events(&state, &done);
    assert!(matches!(events[1], AgentActorEvent::Iteration { iteration: 1, message_count: 1 }));
    let failed = emit_step_result_events(&state, &StepResult::Error(AgentError::Cancelled));
    assert!(matches!(failed[1], AgentActorEvent::Cancelled));
}

#[test]
fn actor_control_follows_commands() {
    let mut control = ActorControl::new();
    let mut job = JobState::Running;
    control.apply(&mut job, ActorCommand::Pause);
    assert!(control.paused);
    assert_eq!(job, JobState::Paused);
    control.wake(&mut job, Some(ActorCommand::Cancel));
    assert!(control.paused);
    control.wake(&mut job, Some(ActorCommand::Continue));
    assert!(!control.paused);
    assert_eq!(job, JobState::Running);
    control.apply(&mut job, ActorCommand::Cancel);
    assert!(control.cancelled);
    assert_eq!(job, JobState::Cancelled);
    assert!(matches!(cancelled_event(), ActorEvent::Error(m) if m == "Cancelled"));
}

#[test]
fn actor_steps_stop_past_the_limit_and_record_tools() {
    let mut state = AgentState::new("u").with_max_iterations(1);
    assert!(begin_step(&mut state));
    assert!(!begin_step(&mut state));
    let ok = Ok(ToolResult { id: "t".to_string(), success: true, output: JsonValue::Number(JsonNumber::PosInt(3)) });
    match record_tool_outcome(&mut state, "t", ok) {
        ActorEvent::ToolResult { call_id, success, output } => {
            assert_eq!(call_id, "t");
            assert!(success);
            assert_eq!(output, "3");
        }
        other => panic!("unexpected {:?}", other),
    }
    match record_tool_outcome(&mut state, "u", Err(ToolExecutorError::ToolNotFound("x".to_string()))) {
        ActorEvent::ToolResult { success, output, .. } => {
            assert!(!success);
            assert_eq!(output, "Tool not found: x");
        }
        other => panic!("unexpected {:?}", other),
    }
    assert_eq!(state.context.conversation().len(), 2);
}

#[test]
fn streamed_pieces_are_collected() {
    let mut content = String::new();
    let mut calls = Vec::new();
    assert!(matches!(collect_chunk(&mut content, &mut calls, chunk("Hel", "", None)), Some(ActorEvent::Chunk(_))));
    assert!(collect_chunk(&mut content, &mut calls, chunk("", "", Some(vec![piece(0, "c", "f", "{\"a\"")]))).is_none());
    collect_chunk(&mut content, &mut calls, chunk("lo", "", Some(vec![piece(0, "", "", ":1}")])));
    assert_eq!(content, "Hello");
    let calls = finish_tool_calls(calls).unwrap();
    assert_eq!(calls.len(), 1);
    assert_eq!(calls[0].function.as_ref().unwrap().arguments, "{\"a\":1}");
    assert!(finish_tool_calls(vec![]).is_none());
}

#[test]
fn executor_accumulates_and_reports_tools() {
    let mut acc = StreamAccumulator::new();
    let out = acc.push(chunk("Hi", "think", None));
    assert!(matches!(out.as_slice(), [StreamChunk::Text(_), StreamChunk::Reasoning(_)]));
    assert!(acc.push(chunk("", "", None)).is_empty());
    let (content, reasoning, calls) = acc.finish();
    assert_eq!(content, "Hi");
    assert_eq!(reasoning, Some("think".to_string()));
    assert!(calls.is_none());
    assert!(matches!(answer_step(content, reasoning, None, vec![]), ExecStep::Done { .. }));

    let call = piece(0, "c1", "search", "{}");
    let ok = tool_execution_result(&call, Ok(ToolResult { id: "c1".to_string(), success: true, output: JsonValue::Bool(true) }));
    assert_eq!(ok.output, "true");
    assert_eq!(ok.tool_name, "search");
    let soft = tool_execution_result(&call, Ok(ToolResult { id: "c1".to_string(), success: false, output: JsonValue::Str("no".to_string()) }));
    assert!(!soft.success);
    assert_eq!(soft.output, "{\"error\":\"no\"}");
    let hard = tool_execution_result(&call, Err(ToolExecutorError::ExecutionError("boom".to_string())));
    assert_eq!(hard.output, "{\"error\":\"Execution error: boom\"}");
    assert!(matches!(chat_failure(&ChatError::NoResponse), ExecStep::Error(m) if m == "No response from model"));
}

#[test]
fn web_agent_messages_and_answer() {
    let ms = task_messages("find the news");
    assert_eq!(ms.len(), 2);
    assert!(ms[0].content().starts_with("You are a capable web browsing agent"));
    assert_eq!(ms[1].content(), "find the news");
    let history = vec![Message::assistant("first"), Message::user("q"), Message::assistant("")];
    assert_eq!(final_response(&history), "first");
    assert_eq!(final_response(&vec![Message::user("q")]), "No response generated");
    let e: WebAgentError = RunError::AllToolsFailed.into();
    assert_eq!(e.to_text(), "Agent error: All tools failed in iteration");
}

#[test]
fn playwright_tool_runs_and_reports() {
    let tool = PlaywrightCliTool::new();
    assert_eq!(tool.definition().name, "playwright_cli");
    let args = JsonValue::Object(vec![(
        "args".to_string(),
        JsonValue::Array(vec![JsonValue::Str("open".to_string()), JsonValue::Bool(true)]),
    )]);
    assert_eq!(PlaywrightCliTool::arguments(&args).unwrap(), vec!["open".to_string(), String::new()]);
    assert!(PlaywrightCliTool::arguments(&JsonValue::Null).is_err());
    let (program, line) = PlaywrightCliTool::command_line(&vec!["--help".to_string()], true);
    assert_eq!(program, "powershell.exe");
    assert_eq!(line, vec!["-Command".to_string(), "playwright-cli".to_string(), "--help".to_string()]);
    assert_eq!(PlaywrightCliTool::command_result("out", "warn", true, Some(0)).unwrap(), "out\n\nstderr:\nwarn");
    match PlaywrightCliTool::command_result("", "bad", false, Some(-2)) {
        Err(ToolExecutorError::ExecutionError(m)) => assert_eq!(m, "playwright-cli exited with code Some(-2):\nstderr:\nbad"),
        other => panic!("unexpected {:?}", other),
    }
}

#[test]
fn committing_an_answer_records_it_and_hands_out_its_calls() {
    let mut state = AgentState::new("u");
    assert!(commit_answer(&mut state, "done".to_string(), vec![]).is_none());
    let conversation = state.context.conversation();
    assert_eq!(conversation.len(), 1);
    match &conversation[0] {
        Message::Assistant { content, tool_calls, .. } => {
            assert_eq!(content, "done");
            assert!(tool_calls.is_none());
        }
        other => panic!("unexpected {:?}", other),
    }
    let calls = commit_answer(&mut state, String::new(), vec![piece(0, "c1", "f", "{}")]).unwrap();
    assert_eq!(calls.len(), 1);
    assert_eq!(calls[0].id, "c1");
    match &state.context.conversation()[1] {
        Message::Assistant { tool_calls: Some(recorded), .. } => assert_eq!(recorded[0].id, "c1"),
        other => panic!("unexpected {:?}", other),
    }
}
