use agent::hooks::{CallToolResult, HookStepResult, HookStepUpdate, StepResultDraft};
use agent::message::{ToolCall, ToolCallFunction};
use agent::agent_hook::{emit_outcome, AgentHook, HookConfig, HookError, HookRegistry, LoggingHook, ContextUpdateHook};

struct TestHook {
    name: String,
    priority: u32,
}

impl AgentHook for TestHook {
    fn name(&self) -> String {
        self.name.clone()
    }

    fn config(&self) -> HookConfig {
        HookConfig { priority: self.priority, fail_continue: true, enabled: true }
    }
}

#[test]
fn test_hook_config_default() {
    let config = HookConfig::default();
    assert_eq!(config.priority, 100);
    assert!(config.fail_continue);
    assert!(config.enabled);
}

#[test]
fn test_hook_registry_priority_ordering() {
    let mut registry = HookRegistry::new();

    registry.register(TestHook { name: "hook1".to_string(), priority: 100 });
    registry.register(TestHook { name: "hook2".to_string(), priority: 0 });
    registry.register(TestHook { name: "hook3".to_string(), priority: 50 });

    let names = registry.hook_names();
    assert_eq!(names, vec!["hook2", "hook3", "hook1"]);
}

#[test]
fn equal_priorities_keep_registration_order() {
    let mut registry = HookRegistry::new();
    registry.register(TestHook { name: "a".to_string(), priority: 5 });
    registry.register(TestHook { name: "b".to_string(), priority: 5 });
    registry.register(TestHook { name: "c".to_string(), priority: 1 });
    assert_eq!(registry.hook_names(), vec!["c", "a", "b"]);
    assert_eq!(registry.len(), 3);
}

#[test]
fn remove_reports_whether_a_hook_went() {
    let mut registry = HookRegistry::new();
    registry.register(TestHook { name: "a".to_string(), priority: 5 });
    registry.register(TestHook { name: "b".to_string(), priority: 6 });
    assert!(registry.remove("a"));
    assert!(!registry.remove("zzz"));
    assert_eq!(registry.hook_names(), vec!["b"]);
    assert!(!registry.is_empty());
}

#[test]
fn failing_hook_stops_only_without_fail_continue() {
    let strict = HookConfig { priority: 1, fail_continue: false, enabled: true };
    let lenient = HookConfig { priority: 1, fail_continue: true, enabled: true };
    assert!(emit_outcome(&lenient, Err(HookError::Io("disk".to_string()))).is_none());
    match emit_outcome(&strict, Err(HookError::Io("disk".to_string()))) {
        Some(e) => assert_eq!(e.to_text(), "IO error: disk"),
        None => panic!("expected the error"),
    }
    assert!(emit_outcome(&strict, Ok(())).is_none());
}

#[test]
fn builtin_hooks_have_their_priorities() {
    let logging = LoggingHook::new("dbg").with_enabled(false);
    assert_eq!(logging.config.priority, 0);
    assert!(!logging.config.enabled);
    assert_eq!(logging.name, "logging");
    let update = ContextUpdateHook::new(()).with_priority(7);
    assert_eq!(update.config.priority, 7);
    assert!(!update.config.fail_continue);
    assert_eq!(update.name, "context_update");
}

#[test]
fn a_draft_shown_to_a_hook_and_handed_back_is_unchanged() {
    let draft = StepResultDraft::Continue {
        content: "thinking".to_string(),
        reasoning_content: Some("why".to_string()),
        tool_calls: vec![ToolCall {
            id: "call-1".to_string(),
            call_type: Some("function".to_string()),
            index: Some(0),
            function: Some(ToolCallFunction { name: "search".to_string(), arguments: "{\"q\":1}".to_string() }),
            name: None,
            arguments: None,
        }],
        tool_results: vec![CallToolResult {
            call_id: "call-1".to_string(),
            tool_name: "search".to_string(),
            success: true,
            output: "ok".to_string(),
        }],
    };
    let update = match HookStepResult::from_draft(&draft) {
        HookStepResult::Continue(c) => HookStepUpdate::Continue(c),
        other => panic!("expected a continuing step, got {:?}", other),
    };
    match update.into_draft() {
        StepResultDraft::Continue { content, reasoning_content, tool_calls, tool_results } => {
            assert_eq!(content, "thinking");
            assert_eq!(reasoning_content.as_deref(), Some("why"));
            assert_eq!(tool_calls.len(), 1);
            assert_eq!(tool_calls[0].id, "call-1");
            assert_eq!(tool_calls[0].call_type.as_deref(), Some("function"));
            assert_eq!(tool_calls[0].index, Some(0));
            let f = tool_calls[0].function.as_ref().unwrap();
            assert_eq!((f.name.as_str(), f.arguments.as_str()), ("search", "{\"q\":1}"));
            assert!(tool_calls[0].name.is_none() && tool_calls[0].arguments.is_none());
            assert_eq!(tool_results.len(), 1);
            assert_eq!(tool_results[0].output, "ok");
        }
        other => panic!("expected a continuing draft, got {:?}", other),
    }
}
