use agent::json::JsonValue;
use agent::message::{Message, ToolCall, ToolCallFunction, ToolResult};
use agent::money::Money;
use agent::reducer::{apply_effect, reduce, AgentConfig, AgentEffectResult, AgentInput, AgentOutput, AgentState, JobState};

fn search_call() -> ToolCall {
    ToolCall {
        id: "call-1".to_string(),
        call_type: Some("function".to_string()),
        index: None,
        function: Some(ToolCallFunction {
            name: "search".to_string(),
            arguments: r#"{"query": "weather"}"#.to_string(),
        }),
        name: None,
        arguments: None,
    }
}

#[test]
fn test_agent_state_new() {
    let state = AgentState::new("user-123").with_title("Test Job").with_budget(Money::new(1, 0).unwrap());

    assert_eq!(state.user_id, "user-123");
    assert_eq!(state.title, "Test Job");
    assert!(state.budget.is_some());
    assert_eq!(state.state, JobState::Pending);
}

#[test]
fn test_agent_state_transition() {
    let mut state = AgentState::new("user-123");
    assert_eq!(state.state, JobState::Pending);

    state.transition(JobState::Running, Some("开始执行".to_string()));
    assert_eq!(state.state, JobState::Running);
    assert_eq!(state.transitions.len(), 1);
    assert_eq!(state.transitions[0].from, JobState::Pending);
    assert_eq!(state.transitions[0].to, JobState::Running);
}

#[test]
fn test_reduce_user_message() {
    let state = AgentState::new("user-123");
    let config = AgentConfig::new();

    let (new_state, output) = reduce(state, AgentInput::UserMessage(Message::user("Hello")), &config);

    assert_eq!(new_state.context.conversation().len(), 1);
    match output {
        AgentOutput::ChatRequest { messages, .. } => {
            assert!(messages.iter().any(|m| m.content().contains("Hello")));
        }
        _ => panic!("Expected ChatRequest"),
    }
}

#[test]
fn test_reduce_max_iterations() {
    let mut state = AgentState::new("user-123");
    state.iteration = 10;
    let config = AgentConfig::new().with_max_iterations(10);

    let (new_state, output) = reduce(state, AgentInput::Continue, &config);

    assert!(matches!(output, AgentOutput::MaxIterationsReached));
    assert_eq!(new_state.state, JobState::Failed);
}

#[test]
fn test_reduce_complete() {
    let mut state = AgentState::new("user-123");
    state.context.add_message(Message::user("Hello"));
    state.context.add_message(Message::assistant("Hi there!"));

    let config = AgentConfig::new();

    let (new_state, output) = reduce(state, AgentInput::Continue, &config);

    assert!(matches!(output, AgentOutput::Complete));
    assert_eq!(new_state.state, JobState::Completed);
}

#[test]
fn test_reduce_tool_calls() {
    let mut state = AgentState::new("user-123");
    state.context.add_message(Message::user("Search for weather"));
    state.context.add_message(Message::Assistant {
        content: String::new(),
        reasoning_content: None,
        tool_calls: Some(vec![search_call()]),
    });

    let config = AgentConfig::new();

    let (_new_state, output) = reduce(state, AgentInput::Continue, &config);

    match output {
        AgentOutput::ToolCalls(calls) => {
            assert_eq!(calls.len(), 1);
        }
        _ => panic!("Expected ToolCalls"),
    }
}

#[test]
fn test_apply_effect_chat_response() {
    let mut state = AgentState::new("user-123");
    state.context.add_message(Message::user("Hello"));
    let config = AgentConfig::new();

    let response = Message::assistant("Hi there!");
    let (new_state, output) = apply_effect(state, AgentEffectResult::ChatResponse(response), &config);

    assert_eq!(new_state.iteration, 1);
    assert!(matches!(output, AgentOutput::Complete));
}

#[test]
fn test_apply_effect_tool_results() {
    let mut state = AgentState::new("user-123");
    state.iteration = 1;
    let config = AgentConfig::new();

    let result = ToolResult {
        id: "call-1".to_string(),
        success: true,
        output: JsonValue::Object(vec![("result".to_string(), JsonValue::Str("sunny".to_string()))]),
    };

    let (_new_state, _output) =
        apply_effect(state, AgentEffectResult::ToolResults(vec![(search_call(), Ok(result))]), &config);
}

#[test]
fn test_agent_state_with_user_message() {
    let state = AgentState::new("user-123").with_user_message("Hello");

    assert_eq!(state.context.conversation().len(), 1);
}

#[test]
fn tool_results_become_tool_messages() {
    let mut state = AgentState::new("user-123");
    state.iteration = 1;
    let config = AgentConfig::new();
    let result = ToolResult {
        id: "call-1".to_string(),
        success: true,
        output: JsonValue::Object(vec![("result".to_string(), JsonValue::Str("sunny".to_string()))]),
    };
    let (new_state, _output) =
        apply_effect(state, AgentEffectResult::ToolResults(vec![(search_call(), Ok(result))]), &config);
    let conv = new_state.context.conversation();
    assert_eq!(conv.len(), 1);
    match &conv[0] {
        Message::Tool { tool_call_id, content } => {
            assert_eq!(tool_call_id, "call-1");
            assert_eq!(content, r#"{"result":"sunny"}"#);
        }
        other => panic!("expected a tool message, got {:?}", other),
    }
}

#[test]
fn finished_job_stays_finished_on_continue() {
    let mut state = AgentState::new("user-123");
    state.transition(JobState::Completed, None);
    let config = AgentConfig::new();
    let (new_state, _output) = reduce(state, AgentInput::Continue, &config);
    assert_eq!(new_state.state, JobState::Completed);
}

#[test]
fn money_rejects_out_of_range_scale() {
    assert!(Money::new(1, 29).is_none());
    assert!(Money::new(5, 2).is_some());
}
