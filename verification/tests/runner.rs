use pooprusteek::agent::runner::ResetSkip;
use pooprusteek::agent::runner::{apply_step, EMPTY_RESPONSE_FEEDBACK};
use pooprusteek::agent::tools_step::malformed_tool_feedback;
use pooprusteek::agent::runner::clear_spilled;
use pooprusteek::agent::runner::{prune_due, reseed_estimate, CompactionState};
use pooprusteek::agent::runner::{insert_semantic_hint, semantic_hint_slot};
use pooprusteek::agent::runner::protect_tokens;
use pooprusteek::agent::retry::RetryBudget;
use pooprusteek::agent::runner::{
    decide_step, empty_retry_notice, malformed_retry_notice, step_request_messages, stream_failure,
    StepDecision, EMPTY_EXHAUSTED_ERROR, STREAM_TIMEOUT_ERROR,
};
use pooprusteek::agent::stream::{StreamEnd, StreamOutcome};
use pooprusteek::agent::trace::StepTrace;
use pooprusteek::app::conversation::ConversationId;
use pooprusteek::provider::{ChatMessage, Role};

fn outcome(text: &str, got_stop: bool, end: StreamEnd) -> StreamOutcome {
    StreamOutcome { text: text.to_string(), got_stop, end }
}

#[test]
fn a_stream_without_stop_is_an_error_worded_like_the_trace() {
    let trace = StepTrace::new(ConversationId(3), 1, 4);
    let failure = stream_failure(&outcome("partial", false, StreamEnd::Completed), &trace);
    assert_eq!(
        failure.as_deref(),
        Some("Stream ended without stop signal. conversation=3 step=1/4 response_bytes=7")
    );
    assert!(failure.unwrap().contains("without stop"));
    assert_eq!(stream_failure(&outcome("done", true, StreamEnd::Completed), &trace), None);
    assert_eq!(
        stream_failure(&outcome("", false, StreamEnd::ProviderError("boom".to_string())), &trace).as_deref(),
        Some("boom")
    );
    assert_eq!(
        stream_failure(&outcome("", false, StreamEnd::TaskFailed("panicked".to_string())), &trace).as_deref(),
        Some("Stream task failed: panicked")
    );
    assert_eq!(
        stream_failure(&outcome("", true, StreamEnd::ProviderError("late".to_string())), &trace),
        None
    );
}

#[test]
fn a_plain_answer_finishes_the_turn() {
    let mut budget = RetryBudget::new();
    assert_eq!(
        decide_step(false, None, 0, false, false, &mut budget),
        StepDecision::Finish { malformed_exhausted: false }
    );
}

#[test]
fn a_timeout_cancels_the_turn_whatever_arrived() {
    let mut budget = RetryBudget::new();
    assert_eq!(
        decide_step(true, None, 2, false, false, &mut budget),
        StepDecision::Fail { error: STREAM_TIMEOUT_ERROR.to_string(), malformed_exhausted: false }
    );
}

#[test]
fn a_complete_tool_call_is_salvaged_from_a_broken_stream() {
    let mut budget = RetryBudget::new();
    assert_eq!(
        decide_step(false, Some("cut".to_string()), 1, false, true, &mut budget),
        StepDecision::RunTools { salvaged: true }
    );
    assert_eq!(
        decide_step(false, None, 1, true, true, &mut budget),
        StepDecision::RunTools { salvaged: false }
    );
}

#[test]
fn a_broken_stream_without_a_call_fails_with_its_error() {
    let mut budget = RetryBudget::new();
    assert_eq!(
        decide_step(false, Some("cut".to_string()), 0, true, false, &mut budget),
        StepDecision::Fail { error: "cut".to_string(), malformed_exhausted: false }
    );
}

#[test]
fn an_empty_step_is_retried_then_fails_the_turn() {
    let mut budget = RetryBudget::new();
    assert_eq!(
        decide_step(false, None, 0, false, true, &mut budget),
        StepDecision::RetryEmpty { attempt: 1, malformed_exhausted: false }
    );
    assert_eq!(
        decide_step(false, None, 0, false, true, &mut budget),
        StepDecision::RetryEmpty { attempt: 2, malformed_exhausted: false }
    );
    let last = decide_step(false, None, 0, false, true, &mut budget);
    match last {
        StepDecision::Fail { error, malformed_exhausted } => {
            assert_eq!(error, EMPTY_EXHAUSTED_ERROR);
            assert!(error.contains("empty"));
            assert!(error.contains("Nothing was changed"));
            assert!(!malformed_exhausted);
        }
        other => panic!("an empty turn must not be reported as a success: {other:?}"),
    }
}

#[test]
fn an_empty_step_recovers_when_the_model_answers() {
    let mut budget = RetryBudget::new();
    assert_eq!(
        decide_step(false, None, 0, false, true, &mut budget),
        StepDecision::RetryEmpty { attempt: 1, malformed_exhausted: false }
    );
    assert_eq!(
        decide_step(false, None, 0, false, false, &mut budget),
        StepDecision::Finish { malformed_exhausted: false }
    );
}

#[test]
fn malformed_calls_are_retried_within_the_budget() {
    let mut budget = RetryBudget::new();
    assert_eq!(
        decide_step(false, None, 0, true, true, &mut budget),
        StepDecision::RetryMalformed { attempt: 1 }
    );
    assert_eq!(
        decide_step(false, None, 0, true, true, &mut budget),
        StepDecision::RetryMalformed { attempt: 2 }
    );
    // The budget is spent: with text the turn ends, announcing why.
    assert_eq!(
        decide_step(false, None, 0, true, false, &mut budget),
        StepDecision::Finish { malformed_exhausted: true }
    );
    // Without text the empty budget takes over.
    assert_eq!(
        decide_step(false, None, 0, true, true, &mut budget),
        StepDecision::RetryEmpty { attempt: 1, malformed_exhausted: true }
    );
}

#[test]
fn retry_notices_count_against_the_limit() {
    assert_eq!(
        malformed_retry_notice(1),
        "⚠ Malformed tool call (attempt 1/2) — asking the model to retry"
    );
    assert_eq!(empty_retry_notice(2), "⚠ Empty reply from the model (attempt 2/2) — retrying");
}

#[test]
fn a_step_request_starts_with_the_system_prompt() {
    let history = vec![ChatMessage::user("q"), ChatMessage::assistant("a")];
    let request = step_request_messages("sys", &history);
    assert_eq!(request.len(), 3);
    assert_eq!(request[0].role, Role::System);
    assert_eq!(request[0].content, "sys");
    assert_eq!(request[1].content, "q");
    assert_eq!(request[2].role, Role::Assistant);
}

#[test]
fn the_semantic_hint_goes_before_the_newest_user_text() {
    let mut messages = vec![
        ChatMessage::user("first question"),
        ChatMessage::assistant("an answer"),
        ChatMessage::user("second question"),
        ChatMessage::user("   \n"),
        ChatMessage::tool("call-1", "tool output"),
    ];
    let slot = semantic_hint_slot(&messages);
    assert_eq!(slot, Some(2));
    insert_semantic_hint(&mut messages, 2, "try the `skill` tool");
    assert_eq!(messages.len(), 6);
    assert_eq!(messages[2].role, Role::System);
    assert_eq!(messages[2].content, "try the `skill` tool");
    assert_eq!(messages[3].content, "second question");
    assert_eq!(semantic_hint_slot(&messages), Some(3));
}

#[test]
fn no_hint_slot_without_user_text() {
    assert_eq!(semantic_hint_slot(&[]), None);
    let messages = vec![ChatMessage::assistant("hello"), ChatMessage::user(" \t ")];
    assert_eq!(semantic_hint_slot(&messages), None);
}

#[test]
fn protected_tail_is_the_setting_or_a_clamped_quarter() {
    assert_eq!(protect_tokens(5_000, 100_000), 5_000);
    assert_eq!(protect_tokens(0, 40_000), 10_000);
    assert_eq!(protect_tokens(0, 4_000), 2_000);
    assert_eq!(protect_tokens(0, 200_000), 15_000);
    assert_eq!(protect_tokens(0, 8_000), 2_000);
    assert_eq!(protect_tokens(0, 60_000), 15_000);
}

#[test]
fn rung_one_skips_server_side_history_and_unknown_windows() {
    assert!(prune_due(true, false, Some(80), 70));
    assert!(prune_due(true, false, Some(70), 70));
    assert!(!prune_due(true, false, Some(69), 70));
    assert!(!prune_due(false, false, Some(95), 70));
    assert!(!prune_due(true, true, Some(95), 70));
    assert!(!prune_due(true, false, None, 70));
}

#[test]
fn the_reseed_estimate_saturates() {
    assert_eq!(reseed_estimate(10_000, 4_000, 300), 6_300);
    assert_eq!(reseed_estimate(1_000, 4_000, 300), 300);
    assert_eq!(reseed_estimate(u32::MAX, 0, 10), u32::MAX);
}

#[test]
fn rung_two_resets_at_most_once_and_a_refusal_stands() {
    let mut state = CompactionState::new();
    assert!(state.reset_wanted(true, true, Some(90), 85));
    assert!(!state.reset_wanted(true, false, Some(90), 85));
    assert!(!state.reset_wanted(true, true, Some(80), 85));
    assert!(!state.reset_wanted(true, true, None, 85));
    assert!(state.reset_verdict(50_000, 60_000));
    state.reset_succeeded();
    assert!(!state.reset_wanted(true, true, Some(99), 85));

    let mut refused = CompactionState::new();
    assert!(!refused.reset_verdict(70_000, 60_000));
    assert!(refused.reset_refused);
    assert!(!refused.reset_wanted(true, true, Some(99), 85));
}

#[test]
fn only_spilled_bodies_trade_for_markers() {
    let mut messages = vec![
        ChatMessage::user("run the tests"),
        ChatMessage::tool("call-1", "very long output one"),
        ChatMessage::tool("call-2", "very long output two"),
        ChatMessage::tool("call-3", "very long output three"),
    ];
    let markers = vec![
        (1, "[cleared: spill/call-1.txt]".to_string()),
        (2, "[cleared: spill/call-2.txt]".to_string()),
        (3, "[cleared: spill/call-3.txt]".to_string()),
        (9, "[cleared: spill/nowhere.txt]".to_string()),
    ];
    let (cleared, rewrote) = clear_spilled(&mut messages, &markers, &[1, 3, 9]);
    assert_eq!(rewrote, 2);
    assert_eq!(
        cleared,
        vec![
            ("call-1".to_string(), "[cleared: spill/call-1.txt]".to_string()),
            ("call-3".to_string(), "[cleared: spill/call-3.txt]".to_string()),
        ]
    );
    assert_eq!(messages[0].content, "run the tests");
    assert_eq!(messages[1].content, "[cleared: spill/call-1.txt]");
    assert_eq!(messages[1].tool_call_id.as_deref(), Some("call-1"));
    assert_eq!(messages[2].content, "very long output two");
    assert_eq!(messages[3].content, "[cleared: spill/call-3.txt]");
    assert_eq!(messages.len(), 4);
}

#[test]
fn ladder_skips_are_reported_once_per_turn() {
    let mut state = CompactionState::new();
    assert!(!state.prune_skip(true, false));
    assert!(state.prune_skip(true, true));
    assert!(!state.prune_skip(true, true));
    assert_eq!(state.reset_skip(true, true, Some(95), 85), None);
    assert!(state.reset_verdict(10, 100));
    state.reset_succeeded();
    assert_eq!(state.reset_skip(true, true, Some(50), 85), None);
    assert_eq!(state.reset_skip(true, true, Some(95), 85), Some(ResetSkip::AlreadyReset));
    assert_eq!(state.reset_skip(true, true, Some(95), 85), None);

    let mut refused = CompactionState::new();
    assert!(!refused.reset_verdict(200, 100));
    assert!(refused.reset_skip_logged);
    assert_eq!(refused.reset_skip(true, true, Some(95), 85), None);
}

#[test]
fn each_step_decision_edits_the_history_its_own_way() {
    let base = vec![ChatMessage::user("hi")];
    let errors = vec!["bad json".to_string()];

    let mut h = base.clone();
    let discard = apply_step(&mut h, &StepDecision::RetryMalformed { attempt: 1 }, false, false, "raw <tool_use>", "", &errors);
    assert!(!discard);
    assert_eq!(h.len(), 3);
    assert_eq!(h[1].role, Role::Assistant);
    assert_eq!(h[1].content, "raw <tool_use>");
    assert_eq!(h[2].role, Role::User);
    assert_eq!(h[2].content, malformed_tool_feedback(&errors));
    assert!(h[2].content.contains("- bad json"));

    let mut h = base.clone();
    assert!(apply_step(&mut h, &StepDecision::RetryEmpty { attempt: 1, malformed_exhausted: false }, false, false, "", "", &[]));
    assert_eq!(h.len(), 2);
    assert_eq!(h[1].role, Role::User);
    assert_eq!(h[1].content, EMPTY_RESPONSE_FEEDBACK);

    let mut h = base.clone();
    assert!(!apply_step(&mut h, &StepDecision::Finish { malformed_exhausted: false }, false, false, "answer", "answer", &[]));
    assert_eq!(h.len(), 2);
    assert_eq!(h[1].content, "answer");

    let mut h = base.clone();
    assert!(apply_step(&mut h, &StepDecision::RunTools { salvaged: false }, false, false, "<tool_use>", "", &[]));
    assert_eq!(h.len(), 2);
    assert_eq!(h[1].role, Role::Assistant);
    assert_eq!(h[1].content, "");
    let mut h = base.clone();
    assert!(!apply_step(&mut h, &StepDecision::RunTools { salvaged: false }, false, false, "x <tool_use>", "x", &[]));

    let fail = StepDecision::Fail { error: "boom".to_string(), malformed_exhausted: false };
    let mut h = base.clone();
    assert!(apply_step(&mut h, &fail, false, false, "", "", &[]));
    assert_eq!(h.len(), 1);
    assert!(!apply_step(&mut h, &fail, true, false, "", "", &[]));
    assert!(!apply_step(&mut h, &fail, false, true, "", "", &[]));
    assert_eq!(h.len(), 1);
}
