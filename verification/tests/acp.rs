use pooprusteek::acp::server::{route, AcpReply, AcpServer, ACP_SYSTEM_PROMPT, METHOD_NOT_FOUND};
use pooprusteek::provider::Role;

#[test]
fn requests_are_routed_by_method() {
    assert_eq!(route("initialize"), AcpReply::Initialize);
    assert_eq!(route("initialized"), AcpReply::Nothing);
    assert_eq!(route("prompt"), AcpReply::Prompt);
    assert_eq!(route("ping"), AcpReply::Pong);
    assert_eq!(
        route("shutdown"),
        AcpReply::Error {
            code: METHOD_NOT_FOUND,
            message: "Unknown method: shutdown".to_string()
        }
    );
    assert_eq!(METHOD_NOT_FOUND, -32601);
}

#[test]
fn a_prompt_is_answered_from_the_whole_history() {
    let mut server = AcpServer::new();
    let first = server.begin_prompt("hello");
    assert_eq!(first.len(), 2);
    assert_eq!(first[0].role, Role::System);
    assert_eq!(first[0].content, ACP_SYSTEM_PROMPT);
    assert_eq!(first[1].content, "hello");
    assert_eq!(server.finish_prompt(Ok("hi there".to_string())), "hi there");

    let second = server.begin_prompt("again");
    let contents: Vec<&str> = second.iter().map(|m| m.content.as_str()).collect();
    assert_eq!(contents, vec![ACP_SYSTEM_PROMPT, "hello", "hi there", "again"]);
    assert_eq!(second[2].role, Role::Assistant);
}

#[test]
fn a_failed_completion_is_reported_and_not_remembered() {
    let mut server = AcpServer::new();
    server.begin_prompt("hello");
    assert_eq!(server.finish_prompt(Err("timeout".to_string())), "Error: timeout");
    let next = server.begin_prompt("retry");
    assert_eq!(next.len(), 3);
    assert_eq!(next[2].content, "retry");
}
