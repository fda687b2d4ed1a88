use agent::markdown::{extract_tool_call_id, lines_of, message_to_markdown, parse_message_from_section};
use agent::message::{Message, ToolCall};

#[test]
fn messages_render_as_sections() {
    assert_eq!(message_to_markdown(&Message::user("Hello")), "## 👤 User\n\nHello\n");
    assert_eq!(message_to_markdown(&Message::system("Be kind")), "## 🤖 System\n\nBe kind\n");
    let call = ToolCall {
        id: "c1".to_string(),
        call_type: None,
        index: None,
        function: None,
        name: Some("search".to_string()),
        arguments: None,
    };
    let m = Message::Assistant { content: "ok".to_string(), reasoning_content: None, tool_calls: Some(vec![call]) };
    assert_eq!(message_to_markdown(&m), "## 🤖 Assistant\n\nok\n\n### Tool Calls\n\n- **search** (`c1`)\n");
    let t = Message::Tool { tool_call_id: "c1".to_string(), content: "42".to_string() };
    assert_eq!(message_to_markdown(&t), "## 🔧 Tool Result (`c1`)\n\n42\n");
}

#[test]
fn sections_read_back() {
    let section = "## 👤 User\n\nHello\nthere\n";
    match parse_message_from_section(section) {
        Some(Message::User { content }) => assert_eq!(content, "Hello\nthere"),
        other => panic!("unexpected {:?}", other),
    }
    let section = "## 🔧 Tool Result (`c9`)\n\nout\n<!-- id: 1 -->";
    match parse_message_from_section(section) {
        Some(Message::Tool { tool_call_id, content }) => {
            assert_eq!(tool_call_id, "c9");
            assert_eq!(content, "out");
        }
        other => panic!("unexpected {:?}", other),
    }
    assert!(parse_message_from_section("no heading here").is_none());
    assert!(parse_message_from_section("## Unknown\n\nx").is_none());
}

#[test]
fn tool_call_ids_sit_between_backquotes() {
    assert_eq!(extract_tool_call_id("## Tool (`abc`)"), Some("abc".to_string()));
    assert_eq!(extract_tool_call_id("## Tool (`abc"), None);
    assert_eq!(extract_tool_call_id("## Tool"), None);
}

#[test]
fn lines_follow_str_lines() {
    assert_eq!(lines_of("a\r\nb\n"), vec!["a".to_string(), "b".to_string()]);
    assert!(lines_of("").is_empty());
    assert_eq!(lines_of("\n"), vec!["".to_string()]);
}

#[test]
fn written_sections_read_back_unchanged() {
    let messages = vec![
        Message::system("Be kind"),
        Message::user("Hello\nthere"),
        Message::assistant("Done."),
        Message::Tool { tool_call_id: "call_7".to_string(), content: "result: 42".to_string() },
    ];
    for m in messages {
        let md = message_to_markdown(&m);
        let back = parse_message_from_section(&md);
        assert_eq!(format!("{:?}", back), format!("{:?}", Some(m)));
    }
}

#[test]
fn trimmed_sections_read_back() {
    let messages = vec![
        Message::user("Hello\nthere"),
        Message::system(""),
        Message::Tool { tool_call_id: "call 7".to_string(), content: "done".to_string() },
    ];
    for m in messages {
        let md = message_to_markdown(&m);
        let back = parse_message_from_section(md.trim()).unwrap();
        assert_eq!(back.content(), m.content());
        match (&back, &m) {
            (Message::Tool { tool_call_id: a, .. }, Message::Tool { tool_call_id: b, .. }) => assert_eq!(a, b),
            (Message::User { .. }, Message::User { .. }) | (Message::System { .. }, Message::System { .. }) => {}
            _ => panic!("role changed: {:?}", back),
        }
    }
}
