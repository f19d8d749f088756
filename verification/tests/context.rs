use pooprusteek::agent::context::ContextManager;
use pooprusteek::provider::{ChatMessage, Role};

#[test]
fn the_window_keeps_the_newest_messages() {
    let mut ctx = ContextManager::new(2);
    assert!(ctx.is_empty());
    ctx.add_message(ChatMessage::user("one"));
    ctx.add_message(ChatMessage::assistant("two"));
    ctx.add_message(ChatMessage::user("three"));
    assert_eq!(ctx.len(), 2);
    assert_eq!(ctx.messages()[0].content, "two");
    assert_eq!(ctx.messages()[1].content, "three");
}

#[test]
fn the_system_prompt_leads_the_request() {
    let mut ctx = ContextManager::new(10);
    ctx.add_message(ChatMessage::user("hi"));
    assert_eq!(ctx.build_messages().len(), 1);
    ctx.set_system_prompt("be brief".to_string());
    let request = ctx.build_messages();
    assert_eq!(request.len(), 2);
    assert_eq!(request[0].role, Role::System);
    assert_eq!(request[0].content, "be brief");
    assert_eq!(request[1].content, "hi");
    ctx.clear();
    assert!(ctx.is_empty());
    assert_eq!(ctx.build_messages().len(), 1);
}

#[test]
fn a_zero_window_keeps_nothing() {
    let mut ctx = ContextManager::new(0);
    ctx.add_message(ChatMessage::user("gone"));
    assert_eq!(ctx.len(), 0);
}
