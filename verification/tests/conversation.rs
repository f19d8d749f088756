use pooprusteek::app::conversation::{
    Conversation, ConversationId, ConversationIds, ConversationKind, Conversations,
};
use pooprusteek::app::generation::GenerationState;
use pooprusteek::provider::{ChatMessage, Role, ToolCall};
use std::time::Instant;

#[test]
fn ids_are_unique_and_monotonic() {
    let mut ids = ConversationIds::new();
    let a = ConversationId::next(&mut ids);
    let b = ConversationId::next(&mut ids);
    assert_ne!(a, b);
    assert!(b.0 > a.0);
}

#[test]
fn ids_start_at_one_and_print_in_decimal() {
    let mut ids = ConversationIds::new();
    assert_eq!(ConversationId::next(&mut ids), ConversationId(1));
    assert_eq!(ConversationId::next(&mut ids).to_string(), "2");
    assert_eq!(ConversationId(1234567).to_string(), "1234567");
}

#[test]
fn only_sidechats_and_sub_agents_are_background() {
    assert!(ConversationKind::Sidechat.is_background());
    assert!(ConversationKind::SubAgent.is_background());
    assert!(!ConversationKind::Main.is_background());
    assert!(!ConversationKind::Session.is_background());
}

fn fresh() -> Conversation {
    let mut ids = ConversationIds::new();
    Conversation::fresh_main(&mut ids)
}

fn chat(messages: &[&str]) -> Conversation {
    let mut conv = fresh();
    conv.messages = messages.iter().map(|m| ChatMessage::user(m)).collect();
    conv
}

fn a_call(id: &str) -> ToolCall {
    ToolCall {
        id: id.to_string(),
        name: "read_file".to_string(),
        arguments: r#"{"path": "x"}"#.to_string(),
    }
}

#[test]
fn a_fresh_main_chat_is_empty_and_idle() {
    let mut ids = ConversationIds::new();
    let conv = Conversation::fresh_main(&mut ids);
    assert_eq!(conv.id, ConversationId(1));
    assert_eq!(conv.kind, ConversationKind::Main);
    assert!(conv.messages.is_empty());
    assert_eq!(conv.session_id.len(), 36);
    assert!(!conv.session_started_at.is_empty());
    assert!(!conv.is_streaming());
    assert!(!conv.is_background_kind());
    assert_eq!(Conversation::fresh_main(&mut ids).id, ConversationId(2));
}

#[test]
fn a_running_compaction_marks_the_chat_busy() {
    let mut conv = chat(&["a", "b"]);
    assert!(!conv.is_streaming());
    conv.begin_compaction(2, Instant::now());
    assert_eq!(conv.compacting, Some(2));
    assert!(conv.is_streaming());
}

#[test]
fn ending_a_compaction_releases_the_chat_once() {
    let mut conv = chat(&["a"]);
    conv.begin_compaction(1, Instant::now());
    assert_eq!(conv.end_compaction(), Some(1));
    assert!(!conv.is_streaming());
    assert_eq!(conv.compacting, None);
    assert_eq!(conv.end_compaction(), None);
}

#[test]
fn messages_that_arrived_during_a_compaction_survive_the_swap() {
    let mut conv = chat(&["one", "two", "three"]);
    conv.begin_compaction(3, Instant::now());
    conv.messages.push(ChatMessage::user("sent meanwhile"));
    let base = conv.end_compaction().expect("claim held");
    let rebuilt = vec![ChatMessage::user("[Context summary] …")];

    assert_eq!(conv.swap_compacted(base, rebuilt, 40), Some(1));
    assert_eq!(conv.messages.len(), 2);
    assert_eq!(conv.messages[1].content, "sent meanwhile");
}

#[test]
fn a_history_that_shrank_is_never_overwritten() {
    let mut conv = chat(&["one", "two", "three"]);
    conv.begin_compaction(3, Instant::now());
    conv.messages.clear();
    let base = conv.end_compaction().expect("claim held");

    assert_eq!(conv.swap_compacted(base, vec![ChatMessage::user("x")], 40), None);
    assert!(conv.messages.is_empty());
}

#[test]
fn an_assistant_message_with_only_tool_calls_survives() {
    let mut conv = fresh();
    conv.begin_assistant_message();
    conv.end_assistant_message(&[ToolCall {
        id: "call_1".to_string(),
        name: "read_file".to_string(),
        arguments: r#"{"path": "x"}"#.to_string(),
    }]);

    assert_eq!(conv.messages.len(), 1, "{:?}", conv.messages);
    assert_eq!(conv.messages[0].tool_calls.len(), 1);
    assert_eq!(conv.messages[0].tool_calls[0].id, "call_1");
}

#[test]
fn an_assistant_message_with_neither_text_nor_calls_is_dropped() {
    let mut conv = fresh();
    conv.begin_assistant_message();
    conv.end_assistant_message(&[]);
    assert!(conv.messages.is_empty());
}

#[test]
fn a_new_assistant_message_opens_after_one_that_carried_calls() {
    let mut conv = fresh();
    conv.begin_assistant_message();
    conv.end_assistant_message(&[ToolCall {
        id: "call_1".to_string(),
        name: "t".to_string(),
        arguments: "{}".to_string(),
    }]);
    conv.begin_assistant_message();
    conv.append_chunk("the answer");

    assert_eq!(conv.messages.len(), 2);
    assert!(conv.messages[0].content.is_empty());
    assert_eq!(conv.messages[1].content, "the answer");
    assert!(conv.messages[1].tool_calls.is_empty());
}

#[test]
fn calls_attach_past_a_system_notice_pushed_in_between() {
    let mut conv = fresh();
    conv.begin_assistant_message();
    conv.messages.push(ChatMessage::system("Warning: stream ended early"));
    conv.end_assistant_message(&[a_call("call_1")]);

    let assistant = conv
        .messages
        .iter()
        .find(|m| m.role == Role::Assistant)
        .expect("the assistant message must survive");
    assert_eq!(assistant.tool_calls, vec![a_call("call_1")]);
}

#[test]
fn an_interrupted_turn_answers_the_calls_it_left_hanging() {
    let mut conv = fresh();
    conv.begin_assistant_message();
    conv.end_assistant_message(&[a_call("call_1"), a_call("call_2")]);
    conv.messages.push(ChatMessage::tool("call_1", "done"));

    conv.settle_unanswered_tool_calls();

    let answered: Vec<&str> = conv
        .messages
        .iter()
        .filter(|m| m.role == Role::Tool)
        .filter_map(|m| m.tool_call_id.as_deref())
        .collect();
    assert_eq!(answered, vec!["call_1", "call_2"]);
}

#[test]
fn settling_twice_adds_nothing_the_second_time() {
    let mut conv = fresh();
    conv.begin_assistant_message();
    conv.end_assistant_message(&[a_call("call_1")]);
    conv.settle_unanswered_tool_calls();
    let after_first = conv.messages.len();
    conv.settle_unanswered_tool_calls();
    assert_eq!(conv.messages.len(), after_first);
}

#[test]
fn an_interrupted_result_names_its_call_and_is_an_error() {
    let mut conv = fresh();
    conv.begin_assistant_message();
    conv.end_assistant_message(&[a_call("call_9")]);
    conv.settle_unanswered_tool_calls();
    let last = conv.messages.last().expect("a result was added");
    assert_eq!(last.role, Role::Tool);
    assert_eq!(last.tool_call_id.as_deref(), Some("call_9"));
    assert_eq!(last.tool_name.as_deref(), Some("read_file"));
    assert_eq!(last.content, "(the turn was interrupted before this tool ran)");
    assert_eq!(last.display.as_deref(), Some("interrupted"));
    assert!(last.is_error);
}

#[test]
fn a_chunk_with_no_open_assistant_message_is_dropped() {
    let mut conv = chat(&["question"]);
    conv.append_chunk("stray");
    assert_eq!(conv.messages.len(), 1);
    assert_eq!(conv.messages[0].content, "question");
}

#[test]
fn opening_twice_keeps_one_empty_assistant_message() {
    let mut conv = fresh();
    conv.begin_assistant_message();
    conv.begin_assistant_message();
    assert_eq!(conv.messages.len(), 1);
}

#[test]
fn cleared_output_replaces_only_the_first_result_of_that_call() {
    let mut conv = fresh();
    conv.messages.push(ChatMessage::tool("call-a", "first"));
    conv.messages.push(ChatMessage::tool("call-b", "second"));
    conv.messages.push(ChatMessage::tool("call-a", "again"));
    conv.clear_tool_output(&[("call-a".to_string(), "[cleared]".to_string())]);
    assert_eq!(conv.messages[0].content, "[cleared]");
    assert_eq!(conv.messages[1].content, "second");
    assert_eq!(conv.messages[2].content, "again");
}

#[test]
fn finishing_a_turn_records_its_status_and_tidies_the_tail() {
    let mut conv = fresh();
    conv.generation.begin(Instant::now());
    conv.begin_assistant_message();
    conv.end_assistant_message(&[a_call("call_1")]);
    conv.begin_assistant_message();
    conv.finish_turn("ABORTED");
    assert!(!conv.is_streaming());
    assert_eq!(conv.generation.last_status.as_deref(), Some("ABORTED"));
    // The empty tail is gone and the hanging call is answered.
    assert_eq!(conv.messages.len(), 2);
    assert_eq!(conv.messages[1].tool_call_id.as_deref(), Some("call_1"));
}

#[test]
fn begin_marks_active_and_starts_timer() {
    let mut g = GenerationState::default();
    g.begin(Instant::now());
    assert!(g.active);
    assert!(g.start_time.is_some());
}

#[test]
fn take_elapsed_returns_and_clears() {
    let mut g = GenerationState::default();
    assert_eq!(g.take_start(), None);

    g.begin(Instant::now());
    let elapsed = g.take_start().map(|start| start.elapsed().as_secs_f64());
    assert!(elapsed.is_some_and(|e| e >= 0.0));
    assert!(g.start_time.is_none());

    assert_eq!(g.take_start(), None);
}

fn conv_with(ids: &mut ConversationIds, kind: ConversationKind) -> Conversation {
    let mut conv = Conversation::fresh_main(ids);
    conv.kind = kind;
    conv
}

#[test]
fn the_store_focuses_what_it_opens_and_not_what_runs_in_the_background() {
    let mut ids = ConversationIds::new();
    let mut store = Conversations::new(conv_with(&mut ids, ConversationKind::Main));
    assert_eq!(store.focused_id(), ConversationId(1));
    store.add_background(conv_with(&mut ids, ConversationKind::Sidechat));
    assert_eq!(store.focused_id(), ConversationId(1));
    store.open(conv_with(&mut ids, ConversationKind::Session));
    assert_eq!(store.focused_id(), ConversationId(3));
    assert_eq!(store.focused().kind, ConversationKind::Session);
    assert_eq!(store.len(), 3);
    assert!(store.contains(ConversationId(2)));
    assert!(!store.contains(ConversationId(9)));
    store.set_focus(ConversationId(9));
    assert_eq!(store.focused_id(), ConversationId(3));
    store.set_focus(ConversationId(1));
    assert_eq!(store.focused_id(), ConversationId(1));
    store.focused_mut().title = "renamed".to_string();
    assert_eq!(store.get(ConversationId(1)).map(|c| c.title.as_str()), Some("renamed"));
    assert!(store.get(ConversationId(9)).is_none());
    assert_eq!(store.iter().len(), 3);
}

#[test]
fn removing_the_focused_chat_focuses_the_lowest_id_left() {
    let mut ids = ConversationIds::new();
    let mut store = Conversations::new(conv_with(&mut ids, ConversationKind::Main));
    store.open(conv_with(&mut ids, ConversationKind::Session));
    store.open(conv_with(&mut ids, ConversationKind::Session));
    store.set_focus(ConversationId(2));
    let removed = store.remove(ConversationId(2)).expect("it was open");
    assert_eq!(removed.id, ConversationId(2));
    assert_eq!(store.focused_id(), ConversationId(1));
    assert!(store.remove(ConversationId(2)).is_none());
    // Removing a chat that is not focused leaves the focus alone.
    store.remove(ConversationId(3));
    assert_eq!(store.focused_id(), ConversationId(1));
}

#[test]
fn session_ids_skip_background_chats_and_come_in_id_order() {
    let mut ids = ConversationIds::new();
    let first = conv_with(&mut ids, ConversationKind::Main);
    let side = conv_with(&mut ids, ConversationKind::Sidechat);
    let third = conv_with(&mut ids, ConversationKind::Session);
    let sub = conv_with(&mut ids, ConversationKind::SubAgent);
    let fifth = conv_with(&mut ids, ConversationKind::Session);
    let mut store = Conversations::new(fifth);
    store.add_background(side);
    store.open(first);
    store.add_background(sub);
    store.open(third);
    assert_eq!(
        store.ordered_session_ids(),
        vec![ConversationId(1), ConversationId(3), ConversationId(5)]
    );
    assert_eq!(
        store.ordered_ids(),
        vec![
            ConversationId(1),
            ConversationId(2),
            ConversationId(3),
            ConversationId(4),
            ConversationId(5)
        ]
    );
}

#[test]
fn a_swap_refreshes_the_context_indicator() {
    let mut conv = chat(&["a very long opening message"; 40]);
    conv.context_used = 9_999;
    conv.begin_compaction(40, Instant::now());
    let base = conv.end_compaction().expect("claim held");

    // The count of the swapped-in history, as the context counter gives it.
    let counted = 12;
    assert!(conv.swap_compacted(base, vec![ChatMessage::user("short summary")], counted).is_some());
    assert_eq!(conv.context_used, counted);
    assert!(conv.context_used < 9_999);
}

#[test]
fn a_dropped_swap_leaves_the_indicator() {
    let mut conv = chat(&["one"]);
    conv.context_used = 300;
    assert_eq!(conv.swap_compacted(5, vec![ChatMessage::user("x")], 1), None);
    assert_eq!(conv.context_used, 300);
}

#[test]
fn a_fresh_main_chat_takes_the_given_session() {
    let mut ids = ConversationIds::new();
    let c = Conversation::fresh_main_with(&mut ids, "sid".to_string(), "2024-01-01T00:00:00+00:00".to_string());
    assert_eq!(c.id, ConversationId(1));
    assert_eq!(c.session_id, "sid");
    assert_eq!(c.session_started_at, "2024-01-01T00:00:00+00:00");
    assert!(c.messages.is_empty());
    assert_eq!(ConversationId::next(&mut ids), ConversationId(2));
}

#[test]
fn later_ids_exceed_every_earlier_one() {
    let mut ids = ConversationIds::new();
    let handed: Vec<ConversationId> = (0..5).map(|_| ConversationId::next(&mut ids)).collect();
    for i in 0..handed.len() {
        for j in (i + 1)..handed.len() {
            assert_ne!(handed[i], handed[j]);
            assert!(handed[j].0 > handed[i].0);
        }
    }
    assert_eq!(handed[4], ConversationId(5));
}
