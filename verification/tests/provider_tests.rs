use std::collections::HashMap;

use agent::json::{json_to_text, JsonNumber, JsonValue};
use agent::message::{Message, ToolDef};
use agent::models::{ChatError, ChatModel, GenImgModel};
use agent::providers::{
    chunk_of_response, images_of_response, message_of_response, request_body, usage_of_response, OpenAICompatibleProvider, Request,
};
use agent::sse::sse_frame_payload;

fn text(s: &str) -> JsonValue {
    JsonValue::Str(s.to_string())
}

fn num(n: u64) -> JsonValue {
    JsonValue::Number(JsonNumber::PosInt(n))
}

fn object(members: Vec<(&str, JsonValue)>) -> JsonValue {
    JsonValue::Object(members.into_iter().map(|(k, v)| (k.to_string(), v)).collect())
}

fn from_serde(v: &serde_json::Value) -> JsonValue {
    match v {
        serde_json::Value::Null => JsonValue::Null,
        serde_json::Value::Bool(b) => JsonValue::Bool(*b),
        serde_json::Value::Number(n) => match n.as_u64() {
            Some(u) => JsonValue::Number(JsonNumber::PosInt(u)),
            None => JsonValue::Number(JsonNumber::Other(n.to_string())),
        },
        serde_json::Value::String(s) => JsonValue::Str(s.clone()),
        serde_json::Value::Array(items) => JsonValue::Array(items.iter().map(from_serde).collect()),
        serde_json::Value::Object(map) => JsonValue::Object(map.iter().map(|(k, v)| (k.clone(), from_serde(v))).collect()),
    }
}

#[test]
fn test_provider_creation() {
    let provider = OpenAICompatibleProvider::new("test", "test-api-key", "https://api.example.com");
    assert_eq!(provider.name(), "test");
    assert_eq!(provider.api_key(), "test-api-key");
    assert_eq!(provider.base_url(), "https://api.example.com");
}

#[test]
fn test_with_extra_headers() {
    let mut extra = HashMap::new();
    extra.insert("X-Custom-Header".to_string(), "custom-value".to_string());
    let provider = OpenAICompatibleProvider::new("test", "test-api-key", "https://api.example.com").with_extra_headers(extra);
    assert_eq!(provider.extra_headers().len(), 1);
    assert_eq!(provider.extra_headers().get("X-Custom-Header"), Some(&"custom-value".to_string()));
}

#[test]
fn test_with_timeout() {
    let provider = OpenAICompatibleProvider::new("test", "test-api-key", "https://api.example.com").with_timeout(60_000);
    assert_eq!(provider.name(), "test");
    assert_eq!(provider.timeout_ms(), 60_000);
}

#[test]
fn provider_posts_to_its_completions_address() {
    let provider = OpenAICompatibleProvider::new("p", "k", "https://a.example").with_base_url("https://b.example/v1");
    assert_eq!(provider.completions_url(), "https://b.example/v1/chat/completions");
    assert_eq!(OpenAICompatibleProvider::new("p", "k", "u").timeout_ms(), 120_000);
}

#[test]
fn test_parse_sse_frame_ignores_done_and_parses_json() {
    assert!(sse_frame_payload("data: [DONE]").is_none());
    let frame = "data: {\"id\":\"abc\",\"object\":\"chat.completion.chunk\",\"created\":1,\"model\":\"test-model\",\"system_fingerprint\":null,\"choices\":[{\"index\":0,\"delta\":{\"content\":\"hi\"},\"finish_reason\":\"stop\"}],\"usage\":null}\n";
    let payload = sse_frame_payload(frame).expect("frame should carry data");
    let value: serde_json::Value = serde_json::from_str(&payload).expect("frame should parse");
    assert_eq!(value["choices"].as_array().map(|c| c.len()), Some(1));
    let chunk = chunk_of_response(&from_serde(&value));
    assert_eq!(chunk.content, "hi");
    assert_eq!(chunk.finish_reason.as_deref(), Some("stop"));
    assert!(chunk.is_finished);
    assert!(chunk.usage.is_none());
}

#[test]
fn request_bodies_carry_the_options_that_are_set() {
    let plain = Request::new("m1", vec![Message::user("hi")]);
    assert_eq!(
        json_to_text(&request_body(&plain)),
        "{\"model\":\"m1\",\"messages\":[{\"content\":\"hi\",\"role\":\"user\"}]}"
    );
    let tool = ToolDef { name: "search".to_string(), description: "Find".to_string(), parameters: object(vec![]) };
    let full = Request::new("m2", vec![])
        .with_stream(true)
        .with_stream_usage(true)
        .with_tools(Some(vec![tool]))
        .with_response_format_json()
        .with_reasoning_effort("high".to_string())
        .with_thinking(false)
        .with_extra(vec![("seed".to_string(), num(7))]);
    assert_eq!(
        json_to_text(&request_body(&full)),
        "{\"model\":\"m2\",\"messages\":[],\"tools\":[{\"type\":\"function\",\"function\":{\"name\":\"search\",\"description\":\"Find\",\"parameters\":{}}}],\"stream\":true,\"stream_options\":{\"include_usage\":true},\"response_format\":{\"type\":\"json_object\"},\"reasoning_effort\":\"high\",\"thinking\":{\"type\":\"disabled\"},\"seed\":7}"
    );
    let no_tools = Request::new("m3", vec![]).with_tools(Some(vec![]));
    assert_eq!(json_to_text(&request_body(&no_tools)), "{\"model\":\"m3\",\"messages\":[]}");
}

#[test]
fn responses_read_as_messages_by_role() {
    let reply = object(vec![(
        "choices",
        JsonValue::Array(vec![object(vec![(
            "message",
            object(vec![("role", text("assistant")), ("content", text("Hello")), ("reasoning_content", text("because"))]),
        )])]),
    )]);
    match message_of_response(&reply) {
        Ok(Message::Assistant { content, reasoning_content, tool_calls }) => {
            assert_eq!(content, "Hello");
            assert_eq!(reasoning_content.as_deref(), Some("because"));
            assert!(tool_calls.is_none());
        }
        other => panic!("unexpected {:?}", other),
    }
    let tool = object(vec![(
        "choices",
        JsonValue::Array(vec![object(vec![("message", object(vec![("role", text("tool")), ("content", text("42"))]))])]),
    )]);
    match message_of_response(&tool) {
        Ok(Message::Tool { tool_call_id, content }) => {
            assert_eq!(tool_call_id, "");
            assert_eq!(content, "42");
        }
        other => panic!("unexpected {:?}", other),
    }
    let empty = object(vec![("choices", JsonValue::Array(vec![]))]);
    assert!(matches!(message_of_response(&empty), Err(ChatError::NoResponse)));
}

#[test]
fn stream_responses_read_as_chunks() {
    let usage = object(vec![("prompt_tokens", num(3)), ("completion_tokens", num(4)), ("total_tokens", num(7)), ("prompt_cache_hit_tokens", num(1))]);
    let done = object(vec![("choices", JsonValue::Array(vec![])), ("usage", usage)]);
    let chunk = chunk_of_response(&done);
    assert!(chunk.is_finished);
    assert_eq!(chunk.finish_reason.as_deref(), Some("no_choices"));
    let u = chunk.usage.expect("usage");
    assert_eq!((u.prompt_tokens, u.completion_tokens, u.total_tokens), (3, 4, 7));
    assert_eq!(u.prompt_cache_hit_tokens, Some(1));
    assert_eq!(u.prompt_cache_miss_tokens, None);
    let partial = object(vec![("choices", JsonValue::Array(vec![object(vec![("delta", object(vec![("reasoning_content", text("th"))]))])]))]);
    let piece = chunk_of_response(&partial);
    assert_eq!(piece.content, "");
    assert_eq!(piece.reasoning_content, "th");
    assert!(!piece.is_finished);
    assert!(usage_of_response(&partial).is_none());
}

#[test]
fn image_responses_list_their_addresses() {
    let image = |url: &str| object(vec![("image_url", object(vec![("url", text(url))]))]);
    let reply = object(vec![(
        "choices",
        JsonValue::Array(vec![object(vec![(
            "message",
            object(vec![("images", JsonValue::Array(vec![image("a.png"), text("junk"), image("b.png")]))]),
        )])]),
    )]);
    let images = images_of_response(&reply).expect("images");
    assert_eq!(images.image_urls, vec!["a.png".to_string(), "b.png".to_string()]);
    let none = object(vec![("choices", JsonValue::Array(vec![object(vec![("message", object(vec![]))])]))]);
    assert!(matches!(images_of_response(&none), Err(ChatError::NoResponse)));
}

#[test]
fn chat_models_build_requests_for_the_active_model() {
    let mut model: ChatModel<u8> = ChatModel::new();
    match model.chat_request(vec![], None) {
        Err(ChatError::ModelNotFound(n)) => assert_eq!(n, "No active model set"),
        other => panic!("unexpected {:?}", other.map(|(p, _)| *p)),
    }
    model.add_model_provider("m", 1);
    model.add_model_provider("m", 2);
    model.set_active_model("m").unwrap();
    model.set_reasoning_effort("low");
    model.set_output_json(true);
    let (p, req) = model.chat_request(vec![Message::user("q")], None).unwrap();
    assert_eq!(*p, 1);
    assert_eq!(
        json_to_text(&request_body(&req)),
        "{\"model\":\"m\",\"messages\":[{\"content\":\"q\",\"role\":\"user\"}],\"reasoning_effort\":\"low\"}"
    );
    let (_, streamed) = model.stream_request(vec![], None).unwrap();
    assert_eq!(
        json_to_text(&request_body(&streamed)),
        "{\"model\":\"m\",\"messages\":[],\"stream\":true,\"stream_options\":{\"include_usage\":true},\"response_format\":{\"type\":\"json_object\"},\"reasoning_effort\":\"low\"}"
    );
}

#[test]
fn image_models_ask_for_images_with_their_options() {
    let mut model: GenImgModel<u8> = GenImgModel::new().with_aspect_ratio("16:9".to_string());
    model.add_model_provider("img", 5);
    model.set_active_model("img").unwrap();
    let (p, req) = model.image_request(vec![]).unwrap();
    assert_eq!(*p, 5);
    assert_eq!(
        json_to_text(&request_body(&req)),
        "{\"model\":\"img\",\"messages\":[],\"modalities\":[\"image\"],\"image_config\":{\"aspect_ratio\":\"16:9\",\"image_size\":\"1K\"}}"
    );
}
