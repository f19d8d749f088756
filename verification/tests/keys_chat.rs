use pooprusteek::app::keys::chat::{
    attachment_display, build_attachment_section, cleanup_note, submit_route, with_attachments, Attachment,
    FileRead, SubmitRoute,
};
use pooprusteek::app::input::InputState;
use pooprusteek::app::keys::chat::{chat_key, refreshes_popup, scroll_after, ChatKey};
use pooprusteek::app::keys::KeyPress;
use pooprusteek::app::list::KeyCode;

fn ctrl(code: KeyCode) -> KeyPress {
    KeyPress { code, shift: false, control: true }
}

fn shift(code: KeyCode) -> KeyPress {
    KeyPress { code, shift: true, control: false }
}

#[test]
fn esc_cancels_quits_or_clears() {
    let esc = KeyPress::plain(KeyCode::Esc);
    assert_eq!(chat_key(esc, true, false, false, false), ChatKey::CancelTurn);
    assert_eq!(chat_key(esc, false, false, true, false), ChatKey::Quit);
    assert_eq!(chat_key(esc, false, false, false, true), ChatKey::ClearChat { end_goal: true });
    assert_eq!(chat_key(esc, false, false, false, false), ChatKey::ClearChat { end_goal: false });
}

#[test]
fn ctrl_c_cancels_a_turn_or_quits() {
    assert_eq!(chat_key(ctrl(KeyCode::Char('c')), true, true, false, false), ChatKey::CancelTurn);
    assert_eq!(chat_key(ctrl(KeyCode::Char('C')), false, false, false, false), ChatKey::Quit);
    assert_eq!(chat_key(KeyPress::plain(KeyCode::Char('c')), true, true, false, false), ChatKey::Insert('c'));
}

#[test]
fn shortcuts_and_editing() {
    assert_eq!(chat_key(KeyPress::plain(KeyCode::Tab), false, false, false, false), ChatKey::CycleFocus(1));
    assert_eq!(chat_key(KeyPress::plain(KeyCode::BackTab), false, false, false, false), ChatKey::CycleFocus(-1));
    assert_eq!(chat_key(ctrl(KeyCode::Char('p')), false, false, false, false), ChatKey::ToggleStats);
    assert_eq!(chat_key(ctrl(KeyCode::Char('l')), false, false, false, false), ChatKey::Clear);
    assert_eq!(chat_key(ctrl(KeyCode::Char('a')), false, false, false, false), ChatKey::SelectAll);
    assert_eq!(chat_key(ctrl(KeyCode::Char('x')), false, false, false, false), ChatKey::Nothing);
    assert_eq!(chat_key(shift(KeyCode::Enter), false, true, false, false), ChatKey::InsertNewline);
    assert_eq!(chat_key(KeyPress::plain(KeyCode::Enter), false, false, false, false), ChatKey::Submit);
    assert_eq!(chat_key(KeyPress::plain(KeyCode::Enter), true, true, false, false), ChatKey::Nothing);
    assert_eq!(
        chat_key(KeyPress { code: KeyCode::Left, shift: true, control: true }, false, false, false, false),
        ChatKey::MoveLeft { extend: true, word: true }
    );
    assert_eq!(chat_key(shift(KeyCode::End), false, false, false, false), ChatKey::End { extend: true });
}

#[test]
fn ctrl_arrows_recall_history_plain_arrows_scroll() {
    assert_eq!(chat_key(ctrl(KeyCode::Up), false, false, false, false), ChatKey::HistoryPrev);
    assert_eq!(chat_key(ctrl(KeyCode::Down), false, false, false, false), ChatKey::HistoryNext);
    assert_eq!(chat_key(ctrl(KeyCode::Up), true, true, false, false), ChatKey::ScrollBack(1));
    assert_eq!(chat_key(KeyPress::plain(KeyCode::Down), false, false, false, false), ChatKey::ScrollForward(1));
    assert_eq!(chat_key(KeyPress::plain(KeyCode::PageUp), false, false, false, false), ChatKey::ScrollBack(10));
    assert!(!refreshes_popup(ChatKey::HistoryPrev));
    assert!(refreshes_popup(ChatKey::Insert('x')));
}

#[test]
fn scrolling_saturates_and_clearing_resets() {
    assert_eq!(scroll_after(5, ChatKey::ScrollBack(10)), 15);
    assert_eq!(scroll_after(usize::MAX, ChatKey::ScrollBack(1)), usize::MAX);
    assert_eq!(scroll_after(5, ChatKey::ScrollForward(10)), 0);
    assert_eq!(scroll_after(15, ChatKey::ScrollForward(10)), 5);
    assert_eq!(scroll_after(15, ChatKey::Clear), 0);
    assert_eq!(scroll_after(15, ChatKey::ClearChat { end_goal: false }), 0);
    assert_eq!(scroll_after(15, ChatKey::Insert('a')), 15);
}

fn attachment(name: &str, size: &str, is_image: bool, read: FileRead) -> Attachment {
    Attachment { display_name: name.to_string(), size_label: size.to_string(), is_image, read }
}

#[test]
fn readable_text_file_is_inlined() {
    let files = [attachment("notes.txt", "11 B", false, FileRead::Text("hello world".to_string()))];
    let (section, names) = build_attachment_section(&files);
    assert_eq!(names, vec!["notes.txt".to_string()]);
    assert!(section.contains("File: notes.txt"));
    assert!(section.contains("hello world"));
    assert_eq!(section, "```\nFile: notes.txt (11 B):\nhello world\n```");
}

#[test]
fn binary_image_gets_a_placeholder_not_dropped() {
    let files = [attachment("photo.png", "7 B", true, FileRead::NotText)];
    let (section, names) = build_attachment_section(&files);
    assert_eq!(names, vec!["photo.png".to_string()]);
    assert!(section.contains("File: photo.png"));
    assert!(section.contains("Image file — content not read as text."));
}

#[test]
fn missing_image_reports_the_open_error_not_binary_content() {
    let files = [attachment(
        "photo.png",
        "1.0 KB",
        true,
        FileRead::Failed("No such file or directory (os error 2)".to_string()),
    )];
    let (section, names) = build_attachment_section(&files);
    assert_eq!(names, vec!["photo.png".to_string()]);
    assert!(section.contains("Could not read file:"));
    assert!(!section.contains("not read as text"));
}

#[test]
fn missing_path_gets_a_placeholder_not_dropped() {
    let files = [attachment(
        "gone.txt",
        "0 B",
        false,
        FileRead::Failed("No such file or directory (os error 2)".to_string()),
    )];
    let (section, names) = build_attachment_section(&files);
    assert_eq!(names, vec!["gone.txt".to_string()]);
    assert!(section.contains("File: gone.txt"));
    assert!(section.contains("Could not read file:"));
}

#[test]
fn several_attachments_join_and_display() {
    let files = [
        attachment("a.bin", "3 B", false, FileRead::NotText),
        attachment("b.txt", "1 B", false, FileRead::Text("x".to_string())),
    ];
    let (section, names) = build_attachment_section(&files);
    assert_eq!(
        section,
        "```\nFile: a.bin (3 B):\nBinary file — content not read as text.\n```\n```\nFile: b.txt (1 B):\nx\n```"
    );
    assert_eq!(attachment_display("look", &names), "look\n📎 attached: a.bin, b.txt");
    assert_eq!(with_attachments("look", "SECTION"), "look\n\nSECTION");
    assert_eq!(with_attachments("  ", "SECTION"), "  SECTION");
    assert_eq!(with_attachments("look", ""), "look");
}

#[test]
fn submitted_prompts_are_routed() {
    assert_eq!(submit_route("", true), SubmitRoute::Empty);
    assert_eq!(submit_route("/help", true), SubmitRoute::Command);
    assert_eq!(submit_route("ship it", true), SubmitRoute::Goal);
    assert_eq!(submit_route("ship it", false), SubmitRoute::Turn);
    assert_eq!(cleanup_note(0), None);
    assert_eq!(cleanup_note(3).as_deref(), Some("Cleaned 3 ephemeral job(s) before the new turn."));
}

#[test]
fn a_trailing_backslash_continues_the_line() {
    let mut input = InputState::default();
    input.insert_char('a');
    input.insert_char('\\');
    assert!(input.continue_line());
    assert_eq!(input.buffer, "a\n");
    assert_eq!(input.cursor, 2);
    input.insert_char('b');
    assert!(!input.continue_line());
    assert_eq!(input.buffer, "a\nb");
}
