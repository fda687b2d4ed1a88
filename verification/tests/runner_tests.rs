use agent::agent_run::{AgentError, AgentEvent};
use agent::json::JsonValue;
use agent::message::{Message, ToolCall, ToolCallFunction, ToolExecutorError, ToolResult};
use agent::models::ChatError;
use agent::reducer::{AgentConfig, AgentState, JobState};
use agent::runner::{runner_after_reply, runner_after_tools, runner_continue, runner_start, RunnerCommand};

fn search_call() -> ToolCall {
    ToolCall {
        id: "call-1".to_string(),
        call_type: Some("function".to_string()),
        index: None,
        function: Some(ToolCallFunction { name: "search".to_string(), arguments: "{}".to_string() }),
        name: None,
        arguments: None,
    }
}

#[test]
fn start_moves_a_pending_job_to_running() {
    let state = runner_start(AgentState::new("u"));
    assert_eq!(state.state, JobState::Running);
    assert_eq!(state.transitions.len(), 1);
    assert_eq!(state.transitions[0].reason.as_deref(), Some("开始执行"));

    let again = runner_start(state);
    assert_eq!(again.transitions.len(), 1);
}

#[test]
fn continue_asks_the_model_without_tools_when_none_are_offered() {
    let state = runner_start(AgentState::new("u").with_user_message("Hello"));
    let (_state, commands) = runner_continue(state, &AgentConfig::new());
    assert_eq!(commands.len(), 1);
    match &commands[0] {
        RunnerCommand::AskModel { messages, tools } => {
            assert_eq!(messages.len(), 1);
            assert!(tools.is_none());
        }
        other => panic!("expected a model request, got {:?}", other),
    }
}

#[test]
fn continue_fails_at_the_step_limit() {
    let mut state = runner_start(AgentState::new("u").with_user_message("Hello"));
    state.iteration = 3;
    let (state, commands) = runner_continue(state, &AgentConfig::new().with_max_iterations(3));
    assert_eq!(state.state, JobState::Failed);
    assert_eq!(state.transitions.last().unwrap().reason.as_deref(), Some("达到最大迭代次数"));
    assert!(matches!(commands.as_slice(), [RunnerCommand::Fail(AgentError::MaxIterationsReached(3))]));
}

#[test]
fn a_model_failure_ends_the_run() {
    let state = runner_start(AgentState::new("u").with_user_message("Hello"));
    let (state, commands) = runner_after_reply(state, Err(ChatError::NoResponse), &AgentConfig::new());
    assert_eq!(state.state, JobState::Running);
    assert!(matches!(commands.as_slice(), [RunnerCommand::Fail(AgentError::Chat(ChatError::NoResponse))]));
}

#[test]
fn a_plain_reply_is_reported_and_completes_the_run() {
    let state = runner_start(AgentState::new("u").with_user_message("Hello"));
    let (state, commands) = runner_after_reply(state, Ok(Message::assistant("Hi")), &AgentConfig::new());
    assert_eq!(state.state, JobState::Completed);
    assert_eq!(state.iteration, 1);
    assert_eq!(commands.len(), 2);
    match &commands[0] {
        RunnerCommand::Emit(AgentEvent::AssistantMessage(m)) => assert_eq!(m.content(), "Hi"),
        other => panic!("expected the reply, got {:?}", other),
    }
    match &commands[1] {
        RunnerCommand::Emit(AgentEvent::Complete(conversation)) => assert_eq!(conversation.len(), 2),
        other => panic!("expected completion, got {:?}", other),
    }
}

#[test]
fn a_reply_with_tool_calls_asks_for_the_tools() {
    let state = runner_start(AgentState::new("u").with_user_message("Search"));
    let reply = Message::Assistant { content: String::new(), reasoning_content: None, tool_calls: Some(vec![search_call()]) };
    let (_state, commands) = runner_after_reply(state, Ok(reply), &AgentConfig::new());
    assert_eq!(commands.len(), 3);
    assert!(matches!(&commands[1], RunnerCommand::Emit(AgentEvent::ToolCalls(calls)) if calls.len() == 1));
    assert!(matches!(&commands[2], RunnerCommand::RunTools(calls) if calls[0].id == "call-1"));
}

#[test]
fn tool_outcomes_are_reported_then_the_iteration() {
    let state = runner_start(AgentState::new("u").with_user_message("Search"));
    let reply = Message::Assistant { content: String::new(), reasoning_content: None, tool_calls: Some(vec![search_call()]) };
    let (state, _commands) = runner_after_reply(state, Ok(reply), &AgentConfig::new());
    let ok = ToolResult { id: "call-1".to_string(), success: true, output: JsonValue::Str("sunny".to_string()) };
    let results = vec![
        (search_call(), Ok(ok)),
        (search_call(), Err(ToolExecutorError::ToolNotFound("map".to_string()))),
    ];
    let (_state, commands) = runner_after_tools(state, results, &AgentConfig::new());
    match &commands[0] {
        RunnerCommand::Emit(AgentEvent::ToolResult { call_id, success, output }) => {
            assert_eq!(call_id, "call-1");
            assert!(*success);
            assert!(matches!(output, JsonValue::Str(s) if s == "sunny"));
        }
        other => panic!("expected a tool result, got {:?}", other),
    }
    match &commands[1] {
        RunnerCommand::Emit(AgentEvent::ToolResult { call_id, success, output }) => {
            assert_eq!(call_id, "");
            assert!(!*success);
            assert!(matches!(output, JsonValue::Str(s) if s == "Error: Tool not found: map"));
        }
        other => panic!("expected a failed tool result, got {:?}", other),
    }
    match &commands[2] {
        RunnerCommand::Emit(AgentEvent::Iteration { iteration, message_count }) => {
            assert_eq!(*iteration, 1);
            assert_eq!(*message_count, 4);
        }
        other => panic!("expected the iteration, got {:?}", other),
    }
    assert!(matches!(&commands[3], RunnerCommand::AskModel { .. }));
}
