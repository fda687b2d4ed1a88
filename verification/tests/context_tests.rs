use agent::context::{Context, Layer, LayerKind};
use agent::json::JsonValue;
use agent::message::Message;

fn text(s: &str) -> JsonValue {
    JsonValue::Str(s.to_string())
}

fn object(members: Vec<(&str, JsonValue)>) -> JsonValue {
    JsonValue::Object(members.into_iter().map(|(k, v)| (k.to_string(), v)).collect())
}

#[test]
fn test_context_layer() {
    let ctx = Context::new()
        .layer(Layer::new("system", LayerKind::System, text("You are helpful.")).with_priority(100))
        .layer(
            Layer::new(
                "soul",
                LayerKind::Soul,
                object(vec![
                    ("guidelines", JsonValue::Array(vec![text("Be helpful"), text("Be concise")])),
                    ("name", text("Kśana")),
                    ("role", text("AI Assistant")),
                ]),
            )
            .with_priority(50),
        );

    assert_eq!(ctx.layers.len(), 2);

    let system = ctx.get("system").unwrap();
    assert_eq!(system.meta.priority, 100);
}

#[test]
fn test_context_to_messages() {
    let ctx = Context::new()
        .layer(Layer::new("system", LayerKind::System, text("Be helpful.")))
        .layer(Layer::new(
            "conversation",
            LayerKind::Conversation,
            JsonValue::Array(vec![
                object(vec![("role", text("user")), ("content", text("Hello"))]),
                object(vec![("role", text("assistant")), ("content", text("Hi!"))]),
            ]),
        ));

    let messages = ctx.to_messages();
    assert_eq!(messages.len(), 3);
    assert!(matches!(messages[0], Message::System { .. }));
}

#[test]
fn test_context_add_message() {
    let mut ctx = Context::new();
    ctx.add_message(Message::user("Hello"));
    ctx.add_message(Message::assistant("Hi!"));

    let conv = ctx.conversation();
    assert_eq!(conv.len(), 2);
}

#[test]
fn added_message_reads_back_last() {
    let mut ctx = Context::new().layer(Layer::new("conversation", LayerKind::Conversation, JsonValue::Array(vec![])));
    ctx.add_message(Message::user("first"));
    ctx.add_message(Message::assistant_with_reasoning("second", "because"));
    let conv = ctx.conversation();
    assert_eq!(conv.len(), 2);
    assert_eq!(conv[1].content(), "second");
    assert_eq!(conv[1].reasoning_content(), Some("because"));
}

#[test]
fn system_layers_join_by_priority() {
    let ctx = Context::new()
        .layer(Layer::new("low", LayerKind::System, text("second")).with_priority(1))
        .layer(Layer::new("high", LayerKind::System, text("first")).with_priority(9));
    let messages = ctx.to_messages();
    assert_eq!(messages.len(), 1);
    assert_eq!(messages[0].content(), "first\n\n---\n\nsecond");
}

#[test]
fn set_layer_data_replaces_named_layer_only() {
    let mut ctx = Context::new()
        .layer(Layer::new("a", LayerKind::Memory, text("x")))
        .layer(Layer::new("b", LayerKind::Memory, text("y")));
    ctx.set_layer_data("b", text("z"));
    assert!(matches!(&ctx.get("b").unwrap().data, JsonValue::Str(s) if s == "z"));
    assert!(matches!(&ctx.get("a").unwrap().data, JsonValue::Str(s) if s == "x"));
    ctx.set_layer_data("missing", text("w"));
    assert_eq!(ctx.layers.len(), 2);
}
