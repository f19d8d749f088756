use pooprusteek::app::{startup_status, wipe_roots};
use pooprusteek::app::{tick_animation, tick_is_visual};
use pooprusteek::app::reduce::{goal_followup, GoalFollowup};
use pooprusteek::app::{cancel_status, instructions_loaded_message, GOAL_CANCELLED_NOTICE};
use pooprusteek::app::conversation::{Conversation, ConversationIds};
use pooprusteek::app::events::{AgentEvent, AgentResult};
use pooprusteek::app::reduce::{apply, turn_end, turn_tail, TurnEnd, TurnTail};
use pooprusteek::app::status_for;
use pooprusteek::provider::{ChatMessage, Role, ToolCall};

fn conversation() -> Conversation {
    let mut ids = ConversationIds::new();
    Conversation::fresh_main(&mut ids)
}

#[test]
fn a_stream_builds_one_assistant_message() {
    let mut conv = conversation();
    apply(&mut conv, &AgentEvent::BeginAssistantMessage);
    apply(&mut conv, &AgentEvent::Chunk("при".to_string()));
    apply(&mut conv, &AgentEvent::Chunk("вет".to_string()));
    assert_eq!(conv.messages.len(), 1);
    assert_eq!(conv.messages[0].role, Role::Assistant);
    assert_eq!(conv.messages[0].content, "привет");
}

#[test]
fn an_assistant_message_that_never_got_text_is_dropped() {
    let mut conv = conversation();
    apply(&mut conv, &AgentEvent::BeginAssistantMessage);
    apply(&mut conv, &AgentEvent::DiscardEmptyAssistant);
    assert!(conv.messages.is_empty());
}

#[test]
fn a_finished_turn_reports_it_and_clears_the_empty_tail() {
    let mut conv = conversation();
    apply(&mut conv, &AgentEvent::BeginAssistantMessage);
    let end = apply(
        &mut conv,
        &AgentEvent::Done(AgentResult {
            text: String::new(),
            tool_calls: Vec::new(),
        }),
    );
    assert_eq!(end, Some(TurnEnd::Done));
    assert!(conv.messages.is_empty());
    assert!(!conv.generation.active);
}

#[test]
fn a_failed_turn_carries_its_reason_out() {
    let mut conv = conversation();
    let end = apply(&mut conv, &AgentEvent::Failed("сеть отвалилась".to_string()));
    assert_eq!(end, Some(TurnEnd::Failed("сеть отвалилась".to_string())));
    assert!(!conv.generation.active);
}

#[test]
fn cleared_tool_output_is_matched_by_id_not_by_index() {
    let mut conv = conversation();
    conv.messages.push(ChatMessage::user("вопрос"));
    let mut status_line = ChatMessage::assistant("(строка состояния)");
    status_line.ui_only = true;
    conv.messages.push(status_line);
    conv.messages.push(ChatMessage::tool("call-b", "длинный вывод"));
    conv.messages.push(ChatMessage::tool("call-a", "другой вывод"));

    apply(
        &mut conv,
        &AgentEvent::ToolOutputCleared {
            cleared: vec![("call-a".to_string(), "[очищено]".to_string())],
            freed_tokens: 42,
        },
    );

    assert_eq!(conv.messages[1].content, "(строка состояния)");
    assert_eq!(conv.messages[2].content, "длинный вывод");
    assert_eq!(conv.messages[3].content, "[очищено]");
}

#[test]
fn an_unknown_tool_call_id_clears_nothing() {
    let mut conv = conversation();
    conv.messages.push(ChatMessage::tool("call-a", "вывод"));
    apply(
        &mut conv,
        &AgentEvent::ToolOutputCleared {
            cleared: vec![("call-z".to_string(), "[очищено]".to_string())],
            freed_tokens: 0,
        },
    );
    assert_eq!(conv.messages[0].content, "вывод");
}

#[test]
fn status_only_events_leave_the_history_alone() {
    let mut conv = conversation();
    conv.messages.push(ChatMessage::user("вопрос"));
    for event in [
        AgentEvent::ToolStarted {
            name: "bash".to_string(),
        },
        AgentEvent::ToolDone {
            result: "ок".to_string(),
        },
        AgentEvent::ToolError {
            error: "нет".to_string(),
        },
        AgentEvent::SessionReset {
            before_tokens: 100,
            after_tokens: 10,
        },
    ] {
        assert_eq!(apply(&mut conv, &event), None);
    }
    assert_eq!(conv.messages.len(), 1);
}

#[test]
fn context_usage_lands_on_the_conversation() {
    let mut conv = conversation();
    apply(&mut conv, &AgentEvent::ContextUsage(1234));
    assert_eq!(conv.context_used, 1234);
}

#[test]
fn a_started_turn_is_in_flight() {
    let mut conv = conversation();
    assert_eq!(apply(&mut conv, &AgentEvent::Started), None);
    assert!(conv.is_streaming());
    assert!(conv.generation.start_time.is_some());
}

#[test]
fn a_closed_message_keeps_its_calls_and_a_finished_turn_answers_them() {
    let mut conv = conversation();
    apply(&mut conv, &AgentEvent::BeginAssistantMessage);
    apply(
        &mut conv,
        &AgentEvent::EndAssistantMessage {
            tool_calls: vec![ToolCall {
                id: "c1".to_string(),
                name: "bash".to_string(),
                arguments: "{}".to_string(),
            }],
        },
    );
    assert_eq!(conv.messages.len(), 1);
    apply(&mut conv, &AgentEvent::Message(ChatMessage::system("note")));
    assert_eq!(conv.messages.len(), 2);
    let end = apply(
        &mut conv,
        &AgentEvent::Done(AgentResult {
            text: String::new(),
            tool_calls: Vec::new(),
        }),
    );
    assert_eq!(end, Some(TurnEnd::Done));
    assert_eq!(conv.generation.last_status.as_deref(), Some("FINISHED"));
    assert_eq!(conv.messages.len(), 3);
    assert_eq!(conv.messages[2].tool_call_id.as_deref(), Some("c1"));
}

#[test]
fn only_done_and_failed_end_a_turn() {
    assert_eq!(turn_end(&AgentEvent::Chunk("x".to_string())), None);
    assert_eq!(turn_end(&AgentEvent::ContextUsage(1)), None);
    assert_eq!(
        turn_end(&AgentEvent::Failed("boom".to_string())),
        Some(TurnEnd::Failed("boom".to_string()))
    );
}

#[test]
fn a_side_chat_folds_into_its_parent_whether_or_not_it_is_on_screen() {
    for focused in [true, false] {
        assert_eq!(turn_tail(Some(TurnEnd::Done), focused, true), TurnTail::Background(None));
        assert_eq!(
            turn_tail(Some(TurnEnd::Failed("нет".to_string())), focused, true),
            TurnTail::Background(Some("нет".to_string()))
        );
    }
}

#[test]
fn a_parallel_chat_off_screen_gets_no_tail() {
    assert_eq!(turn_tail(Some(TurnEnd::Done), false, false), TurnTail::Unowned);
    assert_eq!(turn_tail(Some(TurnEnd::Failed("нет".to_string())), false, false), TurnTail::Unowned);
}

#[test]
fn the_chat_on_screen_keeps_its_own_tail() {
    assert_eq!(turn_tail(Some(TurnEnd::Done), true, false), TurnTail::Focused(TurnEnd::Done));
    assert_eq!(
        turn_tail(Some(TurnEnd::Failed("нет".to_string())), true, false),
        TurnTail::Focused(TurnEnd::Failed("нет".to_string()))
    );
}

#[test]
fn a_turn_that_has_not_ended_has_no_tail() {
    for focused in [true, false] {
        for background in [true, false] {
            assert_eq!(turn_tail(None, focused, background), TurnTail::Unowned);
        }
    }
}

#[test]
fn status_lines_follow_the_turn() {
    assert_eq!(status_for(&AgentEvent::Started).as_deref(), Some("Thinking..."));
    assert_eq!(
        status_for(&AgentEvent::Done(AgentResult { text: String::new(), tool_calls: Vec::new() }))
            .as_deref(),
        Some("Ready")
    );
    assert_eq!(status_for(&AgentEvent::Failed("boom".to_string())).as_deref(), Some("boom"));
    assert_eq!(
        status_for(&AgentEvent::ToolStarted { name: "bash".to_string() }).as_deref(),
        Some("Running bash...")
    );
    assert_eq!(
        status_for(&AgentEvent::ToolDone { result: "x".to_string() }).as_deref(),
        Some("Tool finished")
    );
    assert_eq!(
        status_for(&AgentEvent::ToolError { error: "nope".to_string() }).as_deref(),
        Some("Tool error: nope")
    );
    assert_eq!(
        status_for(&AgentEvent::ToolOutputCleared {
            cleared: vec![("a".to_string(), "m".to_string()), ("b".to_string(), "m".to_string())],
            freed_tokens: 1500,
        })
        .as_deref(),
        Some("Cleared 2 old tool output(s), ~1500 tokens freed")
    );
    assert_eq!(
        status_for(&AgentEvent::SessionReset { before_tokens: 30000, after_tokens: 4000 }).as_deref(),
        Some("Started a fresh provider session, re-seeding ~4000 tokens instead of ~30000")
    );
    assert_eq!(status_for(&AgentEvent::Chunk("x".to_string())), None);
    assert_eq!(status_for(&AgentEvent::ContextUsage(5)), None);
}

#[test]
fn a_failed_turn_stops_a_running_goal_cycle() {
    assert_eq!(goal_followup(&TurnEnd::Done, true), GoalFollowup::Advance);
    assert_eq!(goal_followup(&TurnEnd::Done, false), GoalFollowup::Advance);
    assert_eq!(
        goal_followup(&TurnEnd::Failed("rate limited".to_string()), true),
        GoalFollowup::Stop("⚠ Goal cycle stopped after an error: rate limited. Use /goal to retry.".to_string())
    );
    assert_eq!(goal_followup(&TurnEnd::Failed("rate limited".to_string()), false), GoalFollowup::Nothing);
}

#[test]
fn cancelling_reports_killed_processes() {
    assert_eq!(cancel_status(0), "Cancelled");
    assert_eq!(cancel_status(2), "Cancelled; killed 2 background process(es)");
    assert_eq!(GOAL_CANCELLED_NOTICE, "⏹ Goal cycle cancelled. Use /goal to start a new one.");
}

#[test]
fn loaded_instructions_are_named() {
    assert_eq!(instructions_loaded_message(&[], false), None);
    assert_eq!(
        instructions_loaded_message(&["PROJECT.md".to_string(), "docs/STYLE.md".to_string()], false).as_deref(),
        Some("Project instructions loaded from PROJECT.md, docs/STYLE.md")
    );
    assert_eq!(
        instructions_loaded_message(&["PROJECT.md".to_string()], true).as_deref(),
        Some("Project instructions loaded from PROJECT.md (truncated)")
    );
}

#[test]
fn ticks_animate_only_what_is_drawn() {
    assert!(tick_is_visual(true, false, false, true));
    assert!(tick_is_visual(false, true, false, true));
    assert!(tick_is_visual(false, false, true, false));
    assert!(!tick_is_visual(false, false, true, true));
    assert!(!tick_is_visual(false, false, false, false));
    assert_eq!(tick_animation(7, true), 8);
    assert_eq!(tick_animation(u64::MAX, true), 0);
    assert_eq!(tick_animation(7, false), 7);
}

#[test]
fn wipe_roots_no_duplicates() {
    let roots = wipe_roots("/home/u/.config/pooprusteek".to_string(), "/home/u/.local/share/pooprusteek".to_string());
    let mut deduped = roots.clone();
    deduped.sort();
    deduped.dedup();
    assert_eq!(roots.len(), deduped.len(), "wipe_roots must return deduped paths");
    assert!(!roots.is_empty());
    let same = wipe_roots("C:/Users/u/pooprusteek".to_string(), "C:/Users/u/pooprusteek/".to_string());
    assert_eq!(same, vec!["C:/Users/u/pooprusteek".to_string()]);
    let ordered = wipe_roots("/b/conf".to_string(), "/a/data".to_string());
    assert_eq!(ordered, vec!["/a/data".to_string(), "/b/conf".to_string()]);
}

#[test]
fn the_start_status_line() {
    assert_eq!(startup_status(true, None, None, &[]), ("Ready".to_string(), false));
    assert_eq!(
        startup_status(true, Some("Whitelist moved".to_string()), Some("Rules loaded".to_string()), &[]),
        ("Whitelist moved".to_string(), false)
    );
    assert_eq!(startup_status(true, None, Some("Rules loaded".to_string()), &[]).0, "Rules loaded");
    assert_eq!(startup_status(false, None, None, &[]), ("No token configured".to_string(), true));
    assert_eq!(
        startup_status(false, None, None, &["a moved".to_string(), "b moved".to_string()]),
        ("a moved · b moved".to_string(), true)
    );
}
