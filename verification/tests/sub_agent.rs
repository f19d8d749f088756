use pooprusteek::agent::retry::RetryBudget;
use pooprusteek::agent::sub_agent::{decide_sub_agent_step, sub_agent_final_text, SubAgentStep};
use pooprusteek::provider::{ChatMessage, Role};
use pooprusteek::agent::sub_agent::apply_sub_agent_step;
use pooprusteek::agent::runner::EMPTY_RESPONSE_FEEDBACK;

#[test]
fn returns_final_text() {
    let mut budget = RetryBudget::new();
    assert_eq!(
        decide_sub_agent_step(false, None, 0, &[], "Done: 42".to_string(), &mut budget),
        SubAgentStep::Return(Ok("Done: 42".to_string()))
    );
}

#[test]
fn malformed_tool_call_is_retried_not_swallowed() {
    let mut budget = RetryBudget::new();
    let errors = vec!["tool `nope`: missing <arguments> block.".to_string()];
    assert_eq!(
        decide_sub_agent_step(false, None, 0, &errors, String::new(), &mut budget),
        SubAgentStep::RetryMalformed
    );
    assert_eq!(
        decide_sub_agent_step(false, None, 0, &[], "Recovered".to_string(), &mut budget),
        SubAgentStep::Return(Ok("Recovered".to_string()))
    );
}

#[test]
fn malformed_calls_past_the_budget_end_the_run() {
    let mut budget = RetryBudget::new();
    let errors = vec!["a".to_string(), "b".to_string()];
    for _ in 0..2 {
        assert_eq!(
            decide_sub_agent_step(false, None, 0, &errors, String::new(), &mut budget),
            SubAgentStep::RetryMalformed
        );
    }
    assert_eq!(
        decide_sub_agent_step(false, None, 0, &errors, String::new(), &mut budget),
        SubAgentStep::Return(Err("sub-agent kept emitting malformed tool calls: a | b".to_string()))
    );
}

#[test]
fn an_empty_reply_is_retried_then_reported() {
    let mut budget = RetryBudget::new();
    for _ in 0..2 {
        assert_eq!(
            decide_sub_agent_step(false, None, 0, &[], String::new(), &mut budget),
            SubAgentStep::RetryEmpty
        );
    }
    match decide_sub_agent_step(false, None, 0, &[], String::new(), &mut budget) {
        SubAgentStep::Return(Err(e)) => assert_eq!(e, "sub-agent returned an empty reply and did nothing"),
        other => panic!("an empty reply must not be a success: {other:?}"),
    }
}

#[test]
fn stream_failures_end_the_run_and_calls_run() {
    let mut budget = RetryBudget::new();
    assert_eq!(
        decide_sub_agent_step(true, None, 1, &[], "x".to_string(), &mut budget),
        SubAgentStep::Return(Err("sub-agent stream timed out".to_string()))
    );
    assert_eq!(
        decide_sub_agent_step(false, Some("boom".to_string()), 1, &[], String::new(), &mut budget),
        SubAgentStep::Return(Err("boom".to_string()))
    );
    assert_eq!(
        decide_sub_agent_step(false, None, 2, &[], String::new(), &mut budget),
        SubAgentStep::RunTools
    );
}

#[test]
fn running_out_of_steps_keeps_the_last_real_text() {
    let messages = vec![
        ChatMessage::user("do the thing"),
        ChatMessage::assistant("  Смотрю, что тут есть.  "),
        ChatMessage::tool("c1", "output"),
        ChatMessage::assistant(""),
    ];
    assert_eq!(sub_agent_final_text(&messages), Ok("Смотрю, что тут есть.".to_string()));
}

#[test]
fn running_out_of_steps_with_no_text_is_an_error() {
    let messages = vec![ChatMessage::user("do the thing"), ChatMessage::assistant("   ")];
    assert_eq!(
        sub_agent_final_text(&messages),
        Err("sub-agent ran out of steps without producing any text".to_string())
    );
}

#[test]
fn sub_agent_steps_edit_the_history_like_the_main_loop() {
    let errors = vec!["missing </name>".to_string()];
    let mut h = vec![ChatMessage::user("task")];
    apply_sub_agent_step(&mut h, &SubAgentStep::RetryMalformed, "<tool_use>x", "", &errors);
    assert_eq!(h.len(), 3);
    assert_eq!((h[1].role, h[1].content.as_str()), (Role::Assistant, "<tool_use>x"));
    assert_eq!(h[2].role, Role::User);
    assert!(h[2].content.contains("- missing </name>"));
    apply_sub_agent_step(&mut h, &SubAgentStep::RetryEmpty, "", "", &[]);
    assert_eq!(h[3].content, EMPTY_RESPONSE_FEEDBACK);
    apply_sub_agent_step(&mut h, &SubAgentStep::RunTools, "see <tool_use>", "see", &[]);
    assert_eq!((h[4].role, h[4].content.as_str()), (Role::Assistant, "see"));
    apply_sub_agent_step(&mut h, &SubAgentStep::Return(Ok("done".to_string())), "done", "done", &[]);
    assert_eq!(h.len(), 5);
}
