use agent::json::{JsonNumber, JsonValue};
use agent::sse::{api_error_parts, drain_sse_frames, sse_frame_payload, sse_line_data};

#[test]
fn test_drain_sse_frames_handles_split_chunks() {
    let mut buffer = String::new();
    buffer.push_str("data: {\"id\":\"abc\"");
    assert!(drain_sse_frames(&mut buffer).is_empty());

    buffer.push_str(",\"object\":\"chat.completion.chunk\",\"created\":1,\"model\":\"m\",\"system_fingerprint\":null,\"choices\":[],\"usage\":null}\n\n");
    let frames = drain_sse_frames(&mut buffer);

    assert_eq!(frames.len(), 1);
    assert!(buffer.is_empty());
}

#[test]
fn blank_frames_are_dropped_and_the_tail_stays() {
    let mut buffer = "data: a\n\n  \n\ndata: b\n\ndata: c".to_string();
    let frames = drain_sse_frames(&mut buffer);
    assert_eq!(frames, vec!["data: a".to_string(), "data: b".to_string()]);
    assert_eq!(buffer, "data: c");
}

#[test]
fn frame_payload_skips_done_and_joins_data_lines() {
    assert_eq!(sse_frame_payload("data: [DONE]"), None);
    assert_eq!(sse_frame_payload("event: x"), None);
    assert_eq!(sse_frame_payload("data: {}\n"), Some("{}".to_string()));
    assert_eq!(sse_frame_payload("data:a\nid: 3\ndata:   b"), Some("a\nb".to_string()));
}

#[test]
fn line_data_follows_the_data_prefix() {
    assert_eq!(sse_line_data("  data: {\"x\":1}  "), Some("{\"x\":1}".to_string()));
    assert_eq!(sse_line_data("data: [DONE]"), None);
    assert_eq!(sse_line_data(""), None);
    assert_eq!(sse_line_data("retry: 5"), None);
}

fn err_obj(members: Vec<(&str, agent::json::JsonValue)>) -> agent::json::JsonValue {
    agent::json::JsonValue::Object(vec![(
        "error".to_string(),
        agent::json::JsonValue::Object(members.into_iter().map(|(k, v)| (k.to_string(), v)).collect()),
    )])
}

#[test]
fn api_errors_take_code_and_message_from_the_reply() {
    let full = err_obj(vec![
        ("code", JsonValue::Number(JsonNumber::PosInt(401))),
        ("message", JsonValue::Str("bad key".to_string())),
    ]);
    assert_eq!(api_error_parts(Some(full), "{..}", 500), (401, "bad key".to_string()));
    let typed = err_obj(vec![("type", JsonValue::Str("invalid_request".to_string()))]);
    assert_eq!(api_error_parts(Some(typed), "raw body", 500), (15, "raw body".to_string()));
    let plain = JsonValue::Object(vec![("error".to_string(), JsonValue::Str("quota".to_string()))]);
    assert_eq!(api_error_parts(Some(plain), "b", 429), (0, "quota".to_string()));
    assert_eq!(api_error_parts(None, "not json", 503), (503, "not json".to_string()));
    let wide = err_obj(vec![("code", JsonValue::Number(JsonNumber::PosInt(65537)))]);
    assert_eq!(api_error_parts(Some(wide), "b", 500).0, 1);
}
