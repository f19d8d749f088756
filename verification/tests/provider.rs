use pooprusteek::agent::ToolCall as AgentToolCall;
use pooprusteek::provider::{ChatMessage, Role, ToolCall};

#[test]
fn a_new_tool_call_gets_a_fresh_uuid() {
    let a = ToolCall::new("bash", r#"{"command":"ls"}"#.to_string());
    let b = AgentToolCall::new("bash", "{}".to_string());
    assert_eq!(a.name, "bash");
    assert_eq!(a.arguments, r#"{"command":"ls"}"#);
    assert_eq!(a.id.len(), 36);
    assert_ne!(a.id, b.id);
}

#[test]
fn plain_constructors_set_only_role_and_text() {
    let m = ChatMessage::user("hi");
    assert_eq!(m.role, Role::User);
    assert_eq!(m.content, "hi");
    assert!(m.tool_calls.is_empty());
    assert!(m.tool_call_id.is_none());
    assert!(!m.ui_only);
    assert_eq!(ChatMessage::system("s").role, Role::System);
    assert_eq!(ChatMessage::assistant("a").role, Role::Assistant);
}

#[test]
fn a_ui_note_is_a_system_message_the_model_never_sees() {
    let m = ChatMessage::ui_system("Reloading...");
    assert_eq!(m.role, Role::System);
    assert!(m.ui_only);
}

#[test]
fn tool_results_name_their_call() {
    let plain = ChatMessage::tool("call-1", "out");
    assert_eq!(plain.role, Role::Tool);
    assert_eq!(plain.tool_call_id.as_deref(), Some("call-1"));
    assert!(plain.display.is_none());
    let shown = ChatMessage::tool_with_display("call-2", "grep", "long output", "short", true);
    assert_eq!(shown.tool_call_id.as_deref(), Some("call-2"));
    assert_eq!(shown.tool_name.as_deref(), Some("grep"));
    assert_eq!(shown.content, "long output");
    assert_eq!(shown.display.as_deref(), Some("short"));
    assert!(shown.is_error);
    assert_eq!(shown.duplicate(), shown);
}
