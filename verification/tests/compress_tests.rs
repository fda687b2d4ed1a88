use agent::compress::{
    archive_next, archive_tool_result, ArchiveStep,
    build_summary_layer, build_summary_prompt, compress_conversation_messages, compress_conversation_messages_with_archive,
    sanitize_identifier, summary_from_reply, transcript_lines, ChatSummaryModel, CompressionError, ConversationRule,
    LayerAction, LayerRule, LayerSelector, ModelCompression, RuleCompression,
};
use agent::context::{Context, Layer, LayerKind};
use agent::json::JsonValue;
use agent::memory::{LineRange, MemoryError, MemoryStore, MemoryView};
use agent::message::{Message, ToolCall, ToolCallFunction};
use agent::models::ChatError;

fn text(s: &str) -> JsonValue {
    JsonValue::Str(s.to_string())
}

fn tool(id: &str, content: &str) -> Message {
    Message::Tool { tool_call_id: id.to_string(), content: content.to_string() }
}

fn selector_named(name: &str) -> LayerSelector {
    LayerSelector { name: Some(name.to_string()), kind: None, tags: vec![], include_readonly: false }
}

struct Store {
    files: Vec<(String, String)>,
}

impl MemoryStore for Store {
    fn create(&mut self, path: &str, content: &str) -> Result<(), MemoryError> {
        if self.files.iter().any(|(p, _)| p == path) {
            return Err(MemoryError::FileExists(path.to_string()));
        }
        self.files.push((path.to_string(), content.to_string()));
        Ok(())
    }

    fn view(&self, path: &str, _range: Option<LineRange>) -> Result<MemoryView, MemoryError> {
        Err(MemoryError::PathNotFound(path.to_string()))
    }

    fn replace_text(&mut self, path: &str, _old_text: &str, _new_text: &str) -> Result<(), MemoryError> {
        Err(MemoryError::PathNotFound(path.to_string()))
    }

    fn insert(&mut self, path: &str, _line: usize, _text: &str) -> Result<(), MemoryError> {
        Err(MemoryError::PathNotFound(path.to_string()))
    }

    fn delete(&mut self, path: &str) -> Result<(), MemoryError> {
        Err(MemoryError::PathNotFound(path.to_string()))
    }

    fn rename(&mut self, old_path: &str, _new_path: &str) -> Result<(), MemoryError> {
        Err(MemoryError::PathNotFound(old_path.to_string()))
    }

    fn clear_all(&mut self) -> Result<(), MemoryError> {
        self.files.clear();
        Ok(())
    }
}

#[test]
fn default_rule_keeps_the_conversation() {
    let messages = vec![Message::system("sys"), Message::user("hi"), tool("a", "out"), Message::assistant("done")];
    let out = compress_conversation_messages(messages, &ConversationRule::default());
    assert_eq!(out.len(), 4);
    assert_eq!(out[2].content(), "out");
}

#[test]
fn old_tool_results_are_cleared_and_system_prefix_kept() {
    let messages = vec![
        Message::system("sys"),
        Message::user("q"),
        tool("a", "first"),
        tool("b", "second"),
        tool("c", "third"),
    ];
    let rule = ConversationRule {
        keep_recent_messages: usize::MAX,
        keep_recent_tool_results: 1,
        clear_reasoning: false,
        keep_recent_reasoning_turns: 1,
    };
    let out = compress_conversation_messages(messages, &rule);
    assert_eq!(out.len(), 5);
    assert_eq!(out[0].content(), "sys");
    assert_eq!(out[2].content(), "[Tool result cleared]");
    assert_eq!(out[3].content(), "[Tool result cleared]");
    assert_eq!(out[4].content(), "third");
}

#[test]
fn only_recent_messages_stay() {
    let messages = vec![Message::system("s"), Message::user("1"), Message::user("2"), Message::user("3")];
    let rule = ConversationRule {
        keep_recent_messages: 2,
        keep_recent_tool_results: usize::MAX,
        clear_reasoning: false,
        keep_recent_reasoning_turns: 1,
    };
    let out = compress_conversation_messages(messages, &rule);
    let contents: Vec<&str> = out.iter().map(|m| m.content()).collect();
    assert_eq!(contents, vec!["s", "2", "3"]);
}

#[test]
fn old_reasoning_is_cleared() {
    let messages = vec![
        Message::assistant_with_reasoning("", "think 1"),
        Message::assistant_with_reasoning("answer", "think 2"),
        Message::assistant_with_reasoning("last", "think 3"),
    ];
    let rule = ConversationRule {
        keep_recent_messages: usize::MAX,
        keep_recent_tool_results: usize::MAX,
        clear_reasoning: true,
        keep_recent_reasoning_turns: 1,
    };
    let out = compress_conversation_messages(messages, &rule);
    assert_eq!(out[0].content(), "[Reasoning cleared]");
    assert_eq!(out[0].reasoning_content(), None);
    assert_eq!(out[1].content(), "answer");
    assert_eq!(out[1].reasoning_content(), None);
    assert_eq!(out[2].reasoning_content(), Some("think 3"));
}

#[test]
fn cleared_tool_results_are_archived() {
    let messages = vec![tool("call:1", "big output"), tool("", "other"), tool("c", "kept")];
    let rule = ConversationRule {
        keep_recent_messages: usize::MAX,
        keep_recent_tool_results: 1,
        clear_reasoning: false,
        keep_recent_reasoning_turns: 1,
    };
    let mut store = Store { files: vec![("/memories/compression/tool_001_call_1.md".to_string(), "old".to_string())] };
    let out = compress_conversation_messages_with_archive(messages, &rule, &mut store).unwrap();
    assert_eq!(
        out[0].content(),
        "[Tool result cleared. Use memory_read('/memories/compression/tool_001_call_1_1.md') to retrieve.]"
    );
    assert_eq!(
        out[1].content(),
        "[Tool result cleared. Use memory_read('/memories/compression/tool_002.md') to retrieve.]"
    );
    assert_eq!(out[2].content(), "kept");
    assert_eq!(store.files.len(), 3);
    assert_eq!(store.files[1].1, "big output");
}

#[test]
fn identifiers_are_sanitized() {
    assert_eq!(sanitize_identifier("call:1/x"), "call_1_x");
    assert_eq!(sanitize_identifier("__"), "tool");
    assert_eq!(sanitize_identifier("_a-b_"), "a-b");
}

#[test]
fn layer_rules_drop_clear_and_trim() {
    let ctx = Context::new()
        .layer(Layer::new("drop_me", LayerKind::Memory, text("x")))
        .layer(Layer::new("clear_me", LayerKind::Memory, text("y")))
        .layer(Layer::new(
            "trim_me",
            LayerKind::Memory,
            JsonValue::Array(vec![text("1"), text("2"), text("3"), text("4"), text("5")]),
        ));
    let rule = RuleCompression {
        layer_rules: vec![
            LayerRule { selector: selector_named("drop_me"), action: LayerAction::Drop },
            LayerRule { selector: selector_named("clear_me"), action: LayerAction::Clear },
            LayerRule { selector: selector_named("trim_me"), action: LayerAction::TrimArray { keep_head: 1, keep_tail: 2 } },
        ],
        conversation: None,
    };
    let out = ctx.compress_by_rule(&rule).unwrap();
    assert_eq!(out.layers.len(), 2);
    assert_eq!(out.layers[0].name, "clear_me");
    assert!(matches!(&out.layers[0].data, JsonValue::Str(s) if s.is_empty()));
    match &out.layers[1].data {
        JsonValue::Array(items) => {
            let kept: Vec<&str> = items.iter().map(|v| match v { JsonValue::Str(s) => s.as_str(), _ => "?" }).collect();
            assert_eq!(kept, vec!["1", "4", "5"]);
        }
        _ => panic!("expected an array"),
    }
}

#[test]
fn trimming_a_string_layer_is_refused() {
    let ctx = Context::new().layer(Layer::new("notes", LayerKind::Memory, text("x")));
    let rule = RuleCompression {
        layer_rules: vec![LayerRule { selector: selector_named("notes"), action: LayerAction::TrimArray { keep_head: 0, keep_tail: 0 } }],
        conversation: None,
    };
    match ctx.compress_by_rule(&rule) {
        Err(CompressionError::IncompatibleLayerAction { layer, action }) => {
            assert_eq!(layer, "notes");
            assert_eq!(action, "trim_array");
        }
        other => panic!("unexpected {:?}", other),
    }
}

#[test]
fn readonly_layers_are_skipped_unless_asked() {
    let ctx = Context::new().layer(Layer::new("ro", LayerKind::Memory, text("x")).with_readonly(true));
    let rule = RuleCompression {
        layer_rules: vec![LayerRule { selector: selector_named("ro"), action: LayerAction::Drop }],
        conversation: None,
    };
    assert_eq!(ctx.compress_by_rule(&rule).unwrap().layers.len(), 1);
}

#[test]
fn conversation_layer_must_be_an_array() {
    let ctx = Context::new().layer(Layer::new("conversation", LayerKind::Conversation, text("oops")));
    let rule = RuleCompression { layer_rules: vec![], conversation: Some(ConversationRule::default()) };
    match ctx.compress_by_rule(&rule) {
        Err(CompressionError::InvalidConversationLayer(name)) => assert_eq!(name, "conversation"),
        other => panic!("unexpected {:?}", other),
    }
}

#[test]
fn transcript_lines_name_the_roles() {
    let call = ToolCall {
        id: "c1".to_string(),
        call_type: None,
        index: None,
        function: Some(ToolCallFunction { name: "search".to_string(), arguments: "{}".to_string() }),
        name: None,
        arguments: None,
    };
    let m = Message::Assistant { content: "ok".to_string(), reasoning_content: None, tool_calls: Some(vec![call]) };
    assert_eq!(transcript_lines(&m), vec!["assistant: ok".to_string(), "assistant_tool_call: search \"{}\"".to_string()]);
    assert_eq!(transcript_lines(&tool("id", "res")), vec!["tool[id]: res".to_string()]);
    assert_eq!(transcript_lines(&tool(" ", "res")), vec!["tool: res".to_string()]);
    assert!(transcript_lines(&Message::user("  ")).is_empty());
}

#[test]
fn summary_prompt_has_existing_summary_and_transcript() {
    let ctx = Context::new().layer(Layer::new("conversation_summary", LayerKind::Memory, text("earlier facts")));
    let old = vec![Message::user("hello")];
    let prompt = build_summary_prompt(&ctx, &old, &ModelCompression::default());
    assert_eq!(
        prompt,
        "Summarize the compressed portion of the conversation.\nPreserve key decisions, constraints, pending work, and unresolved questions. Discard repetitive exploration and raw tool output unless it changes the state of the task.\n\nExisting summary:\nearlier facts\n\nConversation:\nuser: hello\n\nSummary:"
    );
}

#[test]
fn summary_layer_lists_lines() {
    let layer = build_summary_layer("a\n\n  b  \n", &ModelCompression::default());
    assert_eq!(layer.name, "conversation_summary");
    assert_eq!(layer.meta.priority, 25);
    assert_eq!(layer.meta.tags, vec!["compressed_summary".to_string()]);
    match &layer.data {
        JsonValue::Array(items) => assert_eq!(items.len(), 3),
        _ => panic!("expected an array"),
    }
}

#[test]
fn model_compression_keeps_recent_turns() {
    let mut ctx = Context::new();
    for m in [Message::system("s"), Message::user("u1"), Message::assistant("a1"), Message::user("u2"), Message::assistant("a2"), Message::user("u3")] {
        ctx.add_message(m);
    }
    let options = ModelCompression::default();
    let plan = ctx.plan_model_compression(&options).unwrap().expect("a plan");
    assert!(plan.prompt.contains("user: u1\nassistant: a1"));
    let contents: Vec<&str> = plan.kept_messages.iter().map(|m| m.content()).collect();
    assert_eq!(contents, vec!["s", "u2", "a2", "u3"]);
    assert!(matches!(ctx.apply_model_summary(&plan, "   ", &options), Err(CompressionError::EmptySummary)));
    let next = ctx.apply_model_summary(&plan, "short summary", &options).unwrap();
    assert_eq!(next.conversation().len(), 4);
    assert_eq!(next.layers.last().unwrap().name, "conversation_summary");
}

#[test]
fn few_turns_need_no_summary() {
    let mut ctx = Context::new();
    ctx.add_message(Message::user("u1"));
    ctx.add_message(Message::assistant("a1"));
    assert!(ctx.plan_model_compression(&ModelCompression::default()).unwrap().is_none());
}

#[test]
fn summary_model_asks_with_its_prompt() {
    let chat = ();
    let model = ChatSummaryModel::new(&chat).with_system_prompt("be brief");
    let request = model.request_messages("summarize");
    assert_eq!(request.len(), 2);
    assert_eq!(request[0].content(), "be brief");
    assert_eq!(request[1].content(), "summarize");
    assert_eq!(summary_from_reply(Message::assistant("fine")).unwrap(), "fine");
    assert!(matches!(summary_from_reply(Message::assistant("  ")), Err(ChatError::NoResponse)));
}

#[test]
fn sanitized_identifiers_are_stable() {
    for id in ["call 1/x", "!!", "_a-b_", "plain"] {
        let once = sanitize_identifier(id);
        assert!(!once.is_empty());
        assert!(once.chars().all(|c| c.is_ascii_alphanumeric() || c == '-' || c == '_'));
        assert!(!once.starts_with('_') && !once.ends_with('_'));
        assert_eq!(sanitize_identifier(&once), once);
    }
    assert_eq!(sanitize_identifier("call 1/x"), "call_1_x");
    assert_eq!(sanitize_identifier("!!"), "tool");
}

#[test]
fn archiving_moves_on_when_the_file_exists() {
    let mut store = Store { files: vec![("/memories/compression/tool_001_call_1.md".to_string(), "old".to_string())] };
    let path = archive_tool_result(&mut store, 1, "call 1", "x").unwrap();
    assert_eq!(path, "/memories/compression/tool_001_call_1_1.md");
    assert_eq!(store.files.len(), 2);
    assert_eq!(store.files[1], ("/memories/compression/tool_001_call_1_1.md".to_string(), "x".to_string()));
}

#[test]
fn archive_steps_follow_the_store_answer() {
    assert!(matches!(archive_next(Ok(()), 0, "p".to_string()), ArchiveStep::Done(p) if p == "p"));
    assert!(matches!(archive_next(Err(MemoryError::FileExists("p".to_string())), 2, "p".to_string()), ArchiveStep::Retry(3)));
    assert!(matches!(
        archive_next(Err(MemoryError::FileExists("p".to_string())), usize::MAX, "p".to_string()),
        ArchiveStep::Failed(CompressionError::Memory(MemoryError::FileExists(_)))
    ));
    assert!(matches!(
        archive_next(Err(MemoryError::PathNotFound("q".to_string())), 0, "p".to_string()),
        ArchiveStep::Failed(CompressionError::Memory(MemoryError::PathNotFound(q))) if q == "q"
    ));
}
