use pooprusteek::agent::sub_agent::sub_agent_refusal;
use pooprusteek::agent::tools_step::{
    approval_result, background_task_started, mcp_tool_unavailable, needs_approval, question_result,
    route_tool_call, skips_call, sub_agent_result, ToolRoute,
};

fn refusal(route: ToolRoute) -> String {
    match route {
        ToolRoute::Refuse(o) => {
            assert!(o.is_error);
            o.text
        }
        other => panic!("expected a refusal, got {other:?}"),
    }
}

#[test]
fn questions_are_asked_only_in_the_foreground() {
    let args = r#"{"question":"Which file?","options":["a.rs",3,"b.rs"],"allow_custom":true}"#;
    match route_tool_call("question", args, false) {
        ToolRoute::Ask { question, options, allow_custom } => {
            assert_eq!(question, "Which file?");
            assert_eq!(options, vec!["a.rs".to_string(), "b.rs".to_string()]);
            assert!(allow_custom);
        }
        other => panic!("{other:?}"),
    }
    match route_tool_call("question", "{}", false) {
        ToolRoute::Ask { question, options, allow_custom } => {
            assert_eq!(question, "(no question)");
            assert!(options.is_empty());
            assert!(!allow_custom);
        }
        other => panic!("{other:?}"),
    }
    assert_eq!(refusal(route_tool_call("question", args, true)), "Cannot ask the user from a background agent.");
}

#[test]
fn tasks_need_a_prompt_and_do_not_nest() {
    assert_eq!(refusal(route_tool_call("task", r#"{"prompt":"go"}"#, true)), "Nested sub-agents are not allowed.");
    assert_eq!(
        refusal(route_tool_call("task", r#"{"prompt":"   "}"#, false)),
        "The 'task' tool requires a non-empty 'prompt'."
    );
    match route_tool_call("task", r#"{"prompt":"  check logs ","background":true,"description":" "}"#, false) {
        ToolRoute::SpawnBackground { label, prompt } => {
            assert_eq!(label, "sub-agent task");
            assert_eq!(prompt, "check logs");
        }
        other => panic!("{other:?}"),
    }
    match route_tool_call("task", r#"{"prompt":"check logs","description":"logs"}"#, false) {
        ToolRoute::RunSubAgent { prompt } => assert_eq!(prompt, "check logs"),
        other => panic!("{other:?}"),
    }
    assert!(matches!(route_tool_call("timer", "{}", true), ToolRoute::Timer));
    assert!(matches!(route_tool_call("read_file", "{}", true), ToolRoute::Generic));
}

#[test]
fn tool_answers_are_worded_for_the_model() {
    let answered = question_result(Some("b.rs".to_string()));
    assert!(!answered.is_error);
    assert_eq!(answered.text, "User answered: b.rs");
    let cancelled = question_result(Some(String::new()));
    assert!(cancelled.is_error);
    assert_eq!(cancelled.text, "User cancelled the question");
    assert_eq!(question_result(None).text, "User cancelled the question");
    assert_eq!(background_task_started("logs").text, "Started background sub-agent: logs");
    assert_eq!(sub_agent_result(Ok("done".to_string())).text, "done");
    let failed = sub_agent_result(Err("timeout".to_string()));
    assert!(failed.is_error);
    assert_eq!(failed.text, "Sub-agent failed: timeout");
    assert!(approval_result(true).is_none());
    assert_eq!(approval_result(false).unwrap().text, "Execution denied by user.");
    assert_eq!(
        mcp_tool_unavailable("mcp__git__log").text,
        "MCP tool 'mcp__git__log' is not available (server not connected)"
    );
}

#[test]
fn the_approval_gate_and_the_step_cap() {
    assert!(!needs_approval(true, None));
    assert!(needs_approval(false, None));
    assert!(needs_approval(false, Some(true)));
    assert!(!needs_approval(false, Some(false)));
    assert!(!skips_call(2, 3));
    assert!(skips_call(3, 3));
}

#[test]
fn sub_agents_refuse_task_and_question() {
    assert_eq!(sub_agent_refusal("task").as_deref(), Some("'task' is not available inside a sub-agent."));
    assert_eq!(
        sub_agent_refusal("question").as_deref(),
        Some("'question' is not available inside a sub-agent.")
    );
    assert_eq!(sub_agent_refusal("read_file"), None);
}
