use rust_agent::mcp::McpTool;
use rust_agent::session::{ChatMessage, ChatResponse, LocalMcpTool};

#[test]
fn a_successful_response_carries_only_a_message() {
    let r = ChatResponse::succeeded("hi".to_string());
    assert!(r.success);
    assert_eq!(r.message.as_deref(), Some("hi"));
    assert!(r.error.is_none());
}

#[test]
fn a_failed_response_carries_only_an_error() {
    let r = ChatResponse::failed("broken".to_string());
    assert!(!r.success);
    assert!(r.message.is_none());
    assert_eq!(r.error.as_deref(), Some("broken"));
}

#[test]
fn a_tool_listing_copies_the_descriptor() {
    let t = McpTool { name: "a".into(), description: "B".into() };
    let l = LocalMcpTool::of_tool(&t);
    assert_eq!(l.name, "a");
    assert_eq!(l.description, "B");
}

#[test]
fn history_messages_can_be_duplicated() {
    let m = ChatMessage {
        id: "msg_1".into(),
        content: "hello".into(),
        sender: "user".into(),
        timestamp: "2024-01-01T00:00:00Z".into(),
        message_type: "text".into(),
    };
    let c = m.clone();
    assert_eq!(c.content, "hello");
    assert_eq!(c.sender, "user");
}
