use agent::memos::{memo_to_markdown, memos_from_markdown, memos_to_markdown, split_rules, MemoText};
use agent::message::Message;

fn memo(id: &str, importance: Option<&str>, message: Message) -> MemoText {
    MemoText {
        id: id.to_string(),
        timestamp: "2024-01-02T03:04:05+00:00".to_string(),
        importance: importance.map(|s| s.to_string()),
        message,
    }
}

#[test]
fn memos_render_with_their_metadata() {
    let md = memo_to_markdown(&memo("m1", Some("0.9"), Message::user("Hello")));
    assert_eq!(
        md,
        "<!-- id: m1 -->\n<!-- timestamp: 2024-01-02T03:04:05+00:00 -->\n<!-- importance: 0.9 -->\n## 👤 User\n\nHello\n\n---\n\n"
    );
}

#[test]
fn written_memos_read_back() {
    let memos = vec![
        memo("a", None, Message::system("You are helpful.")),
        memo("b", Some("0.7"), Message::user("Hello")),
        memo("c", None, Message::assistant("Hi!")),
    ];
    let md = memos_to_markdown(&memos);
    assert!(md.contains("## 🤖 System"));
    assert!(md.contains("## 👤 User"));
    assert!(md.contains("## 🤖 Assistant"));
    let back = memos_from_markdown(&md);
    assert_eq!(back.len(), 3);
    assert_eq!(back[0].id.as_deref(), Some("a"));
    assert_eq!(back[1].importance.as_deref(), Some("0.7"));
    assert_eq!(back[2].timestamp.as_deref(), Some("2024-01-02T03:04:05+00:00"));
    assert!(back[0].message.content().contains("You are helpful"));
    assert_eq!(format!("{:?}", back[2].message), format!("{:?}", Message::assistant("Hi!")));
}

#[test]
fn sections_without_a_message_are_skipped() {
    let md = "<!-- id: x -->\nno heading\n---\n\n## 👤 User\n\nhey\n";
    let back = memos_from_markdown(md);
    assert_eq!(back.len(), 1);
    assert!(back[0].id.is_none());
    assert!(back[0].timestamp.is_none());
    assert!(memos_from_markdown("").is_empty());
}

#[test]
fn comment_values_lose_repeated_markers() {
    let md = "<!-- id:<!-- id: k --> -->-->\n## 👤 User\n\nq";
    let back = memos_from_markdown(md);
    assert_eq!(back[0].id.as_deref(), Some("k -->"));
}

#[test]
fn rules_split_like_str_split() {
    assert_eq!(split_rules("a\n---\nb\n---\n"), vec!["a".to_string(), "b".to_string(), "".to_string()]);
    assert_eq!(split_rules("no rule"), vec!["no rule".to_string()]);
    assert_eq!(split_rules("\n---\n---\n"), vec!["".to_string(), "---\n".to_string()]);
}

#[test]
fn empty_and_odd_messages_read_back() {
    let memos = vec![
        memo("e", None, Message::user("")),
        memo("r", None, Message::user("a\rb\n  <!-- note -->")),
    ];
    let back = memos_from_markdown(&memos_to_markdown(&memos));
    assert_eq!(back.len(), 2);
    assert_eq!(back[0].message.content(), "");
    assert_eq!(back[1].message.content(), "a\rb\n  <!-- note -->");
    assert_eq!(back[1].id.as_deref(), Some("r"));
}
