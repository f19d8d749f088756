use pooprusteek::app::conversation::{Conversation, ConversationId, ConversationIds, ConversationKind, Conversations};
use pooprusteek::app::multichat::{
    background_chat, background_limits, conversation_title, cycle_focus, cycle_index, finish_background,
    finish_compaction, open_new_chat, result_block_text, started_note, stop_background, NEW_CHAT_NOTE,
};
use pooprusteek::provider::ChatMessage;

#[test]
fn the_title_is_the_start_of_the_first_user_message() {
    let messages = vec![
        ChatMessage::system("sys"),
        ChatMessage::user("line one\nline two"),
        ChatMessage::user("second"),
    ];
    assert_eq!(conversation_title(&messages), "line one line two");
}

#[test]
fn the_title_is_cut_at_forty_characters() {
    let long = "я".repeat(50);
    let messages = vec![ChatMessage::user(&long)];
    assert_eq!(conversation_title(&messages), "я".repeat(40));
}

#[test]
fn a_chat_without_user_text_is_empty() {
    assert_eq!(conversation_title(&[]), "(empty chat)");
    assert_eq!(conversation_title(&[ChatMessage::assistant("hi")]), "(empty chat)");
    assert_eq!(conversation_title(&[ChatMessage::user(" \n ")]), "(empty chat)");
}


#[test]
fn cycling_wraps_around_both_ways() {
    assert_eq!(cycle_index(0, 1, 3), 1);
    assert_eq!(cycle_index(2, 1, 3), 0);
    assert_eq!(cycle_index(0, -1, 3), 2);
    assert_eq!(cycle_index(1, -4, 3), 0);
    assert_eq!(cycle_index(1, 7, 3), 2);
    assert_eq!(cycle_index(0, i64::MIN, 3), 1);
    assert_eq!(cycle_index(0, i64::MAX, 5), 2);
}

fn chat(ids: &mut ConversationIds, kind: ConversationKind) -> Conversation {
    let mut conv = Conversation::fresh_main(ids);
    conv.kind = kind;
    conv
}

#[test]
fn tab_cycles_the_user_facing_chats_only() {
    let mut ids = ConversationIds::new();
    let mut store = Conversations::new(chat(&mut ids, ConversationKind::Main));
    store.add_background(chat(&mut ids, ConversationKind::Sidechat));
    store.open(chat(&mut ids, ConversationKind::Session));
    assert_eq!(store.focused_id(), ConversationId(3));
    assert!(cycle_focus(&mut store, 1, false));
    assert_eq!(store.focused_id(), ConversationId(1));
    assert!(cycle_focus(&mut store, -1, false));
    assert_eq!(store.focused_id(), ConversationId(3));
    assert!(!cycle_focus(&mut store, 1, true));
    assert_eq!(store.focused_id(), ConversationId(3));
}

#[test]
fn a_single_chat_does_not_cycle() {
    let mut ids = ConversationIds::new();
    let mut store = Conversations::new(chat(&mut ids, ConversationKind::Main));
    store.add_background(chat(&mut ids, ConversationKind::SubAgent));
    assert!(!cycle_focus(&mut store, 1, false));
    assert_eq!(store.focused_id(), ConversationId(1));
}

#[test]
fn switching_needs_an_open_other_chat_and_no_modal() {
    let mut ids = ConversationIds::new();
    let mut store = Conversations::new(chat(&mut ids, ConversationKind::Main));
    store.add_background(chat(&mut ids, ConversationKind::Session));
    assert!(!store.switch_to(ConversationId(1), false));
    assert!(!store.switch_to(ConversationId(2), true));
    assert!(!store.switch_to(ConversationId(9), false));
    assert!(store.switch_to(ConversationId(2), false));
    assert_eq!(store.focused_id(), ConversationId(2));
}

#[test]
fn a_result_block_carries_the_last_answer_or_the_error() {
    let mut ids = ConversationIds::new();
    let mut side = chat(&mut ids, ConversationKind::Sidechat);
    side.title = "what is 2+2".to_string();
    side.messages.push(ChatMessage::assistant("  four  "));
    assert_eq!(result_block_text(&side, None), "◈ btw — what is 2+2\n\nfour");
    assert_eq!(
        result_block_text(&side, Some("network down".to_string())),
        "◈ btw — what is 2+2\n\n⚠ network down"
    );
    let mut sub = chat(&mut ids, ConversationKind::SubAgent);
    sub.title = "task".to_string();
    sub.messages.push(ChatMessage::assistant("done"));
    sub.messages.push(ChatMessage::assistant(" "));
    assert_eq!(result_block_text(&sub, None), "🤖 sub-agent — task\n\n(no answer)");
}

#[test]
fn a_side_chat_result_lands_in_its_parent_or_on_screen() {
    let mut ids = ConversationIds::new();
    let mut store = Conversations::new(chat(&mut ids, ConversationKind::Main));
    store.open(chat(&mut ids, ConversationKind::Session));
    let mut side = chat(&mut ids, ConversationKind::Sidechat);
    side.parent = Some(ConversationId(1));
    side.title = "q".to_string();
    side.messages.push(ChatMessage::assistant("a"));
    store.add_background(side);

    // The parent (1) is off screen: the block goes there, a note on screen.
    let removed = finish_background(&mut store, ConversationId(3), None).expect("it was open");
    assert_eq!(removed.id, ConversationId(3));
    assert_eq!(store.len(), 2);
    let parent = store.get(ConversationId(1)).unwrap();
    assert_eq!(parent.messages.last().unwrap().content, "◈ btw — q\n\na");
    let focused = store.focused();
    assert_eq!(focused.id, ConversationId(2));
    assert_eq!(focused.messages.last().unwrap().content, "◈ btw finished in another chat — q");

    // A result whose parent is on screen goes straight to it.
    let mut side = chat(&mut ids, ConversationKind::Sidechat);
    side.parent = Some(ConversationId(2));
    store.add_background(side);
    finish_background(&mut store, ConversationId(4), Some("boom".to_string()));
    assert_eq!(store.focused().messages.last().unwrap().content, "◈ btw — \n\n⚠ boom");
    assert!(finish_background(&mut store, ConversationId(4), None).is_none());
}

#[test]
fn a_compaction_result_is_swapped_in_or_dropped() {
    let mut ids = ConversationIds::new();
    let mut conv = chat(&mut ids, ConversationKind::Main);
    conv.messages = vec![ChatMessage::user("one"), ChatMessage::user("two")];
    conv.begin_compaction(2, std::time::Instant::now());
    conv.messages.push(ChatMessage::user("meanwhile"));
    conv.context_used = 9_000;
    let status = finish_compaction(&mut conv, Some(vec![ChatMessage::user("summary")]), 120, "Compacted".to_string());
    assert_eq!(status, "Compacted; kept 1 newer message(s)");
    assert_eq!(conv.messages.len(), 2);
    assert_eq!(conv.context_used, 120);
    assert!(!conv.is_streaming());

    // A second result for the same run finds no claim.
    let status = finish_compaction(&mut conv, Some(Vec::new()), 7, "Compacted".to_string());
    assert_eq!(status, "Compaction dropped: it was cancelled.");
    assert_eq!(conv.messages.len(), 2);
    assert_eq!(conv.context_used, 120);

    conv.begin_compaction(5, std::time::Instant::now());
    let status = finish_compaction(&mut conv, Some(Vec::new()), 0, "Compacted".to_string());
    assert_eq!(status, "Compaction dropped: this chat's history changed while it ran.");
    assert_eq!(conv.messages.len(), 2);

    conv.begin_compaction(2, std::time::Instant::now());
    assert_eq!(finish_compaction(&mut conv, None, 0, "Nothing to do".to_string()), "Nothing to do");
    conv.begin_compaction(2, std::time::Instant::now());
    assert_eq!(finish_compaction(&mut conv, Some(Vec::new()), 0, "Compacted".to_string()), "Compacted");
    assert!(conv.messages.is_empty());
}

#[test]
fn stopping_a_background_chat_tells_the_focused_one() {
    let mut ids = ConversationIds::new();
    let mut store = Conversations::new(chat(&mut ids, ConversationKind::Main));
    store.add_background(chat(&mut ids, ConversationKind::SubAgent));
    let mut named = chat(&mut ids, ConversationKind::Sidechat);
    named.title = "lookup".to_string();
    store.add_background(named);
    assert!(stop_background(&mut store, ConversationId(2)).is_some());
    assert_eq!(store.focused().messages.last().unwrap().content, "⏹ Stopped: (background agent)");
    stop_background(&mut store, ConversationId(3));
    assert_eq!(store.focused().messages.last().unwrap().content, "⏹ Stopped: lookup");
    assert!(stop_background(&mut store, ConversationId(3)).is_none());
    assert_eq!(store.len(), 1);
}

#[test]
fn a_new_chat_opens_focused_with_its_note() {
    let mut ids = ConversationIds::new();
    let mut store = Conversations::new(Conversation::fresh_main(&mut ids));
    assert_eq!(open_new_chat(&mut store, &mut ids, true, true), None);
    assert_eq!(store.len(), 1);
    assert_eq!(open_new_chat(&mut store, &mut ids, false, true), Some("Ready"));
    assert_eq!(store.focused_id(), ConversationId(2));
    assert_eq!(store.focused().kind, ConversationKind::Session);
    assert_eq!(store.focused().messages[0].content, NEW_CHAT_NOTE);
    assert_eq!(open_new_chat(&mut store, &mut ids, false, false), Some("No provider"));
    assert_eq!(store.len(), 3);
}

#[test]
fn a_background_chat_starts_running_with_its_prompt() {
    let mut ids = ConversationIds::new();
    let c = background_chat(
        &mut ids,
        ConversationKind::SubAgent,
        ConversationId(7),
        "label".to_string(),
        "do it",
        std::time::Instant::now(),
    );
    assert_eq!(c.id, ConversationId(1));
    assert_eq!(c.parent, Some(ConversationId(7)));
    assert_eq!(c.messages.len(), 1);
    assert_eq!(c.messages[0].content, "do it");
    assert!(c.is_streaming());
    assert!(c.is_background_kind());
    assert_eq!(background_limits(0, 0), (1, 1));
    assert_eq!(background_limits(20, 3), (8, 3));
    assert_eq!(background_limits(5, 9), (5, 9));
    assert_eq!(started_note(ConversationKind::Sidechat, "why"), "◈ btw started — why");
    assert_eq!(started_note(ConversationKind::SubAgent, "job"), "🤖 sub-agent started — job");
}
