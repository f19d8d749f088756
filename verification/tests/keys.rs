use pooprusteek::app::keys::{approval_scroll, chat_wheel_scroll, line_count, WHEEL_STEP};
use pooprusteek::app::input::InputState;
use pooprusteek::app::keys::{apply_text_key, approval_key, confirm_key, sanitize, ApprovalKey, KeyPress};
use pooprusteek::app::list::KeyCode;
use pooprusteek::app::keys::{approval_status, key_target, KeyTarget};
use pooprusteek::app::events::View;

#[test]
fn approval_keys_decode() {
    for code in [KeyCode::Char('y'), KeyCode::Char('Y'), KeyCode::Enter] {
        assert_eq!(approval_key(code), Some(ApprovalKey::Approve));
    }
    for code in [KeyCode::Char('n'), KeyCode::Char('N'), KeyCode::Esc] {
        assert_eq!(approval_key(code), Some(ApprovalKey::Deny));
    }
    assert_eq!(approval_key(KeyCode::Char('a')), Some(ApprovalKey::ToggleAlways));
    assert_eq!(approval_key(KeyCode::Up), Some(ApprovalKey::ScrollUp));
    assert_eq!(approval_key(KeyCode::Down), Some(ApprovalKey::ScrollDown));
    assert_eq!(approval_key(KeyCode::Char('x')), None);
    assert_eq!(approval_key(KeyCode::Tab), None);
}

#[test]
fn confirm_keys_decode() {
    for code in [KeyCode::Enter, KeyCode::Char('y'), KeyCode::Char('Y')] {
        assert_eq!(confirm_key(code), Some(true));
    }
    for code in [KeyCode::Esc, KeyCode::Char('n'), KeyCode::Char('N')] {
        assert_eq!(confirm_key(code), Some(false));
    }
    assert_eq!(confirm_key(KeyCode::Char('q')), None);
    assert_eq!(confirm_key(KeyCode::Up), None);
}

#[test]
fn paste_drops_carriage_returns_and_maybe_newlines() {
    assert_eq!(sanitize("a\r\nb\rc", true), "a\nbc");
    assert_eq!(sanitize("a\r\nb\rc", false), "abc");
    assert_eq!(sanitize("", false), "");
}

#[test]
fn text_keys_edit_the_field() {
    let mut input = InputState::default();
    assert!(apply_text_key(&mut input, KeyPress::plain(KeyCode::Char('h')), false));
    assert!(apply_text_key(&mut input, KeyPress::plain(KeyCode::Char('i')), false));
    assert_eq!(input.buffer, "hi");
    assert!(apply_text_key(&mut input, KeyPress::plain(KeyCode::Left), false));
    assert!(apply_text_key(&mut input, KeyPress::plain(KeyCode::Backspace), false));
    assert_eq!(input.buffer, "i");
    assert!(apply_text_key(&mut input, KeyPress::plain(KeyCode::End), false));
    assert_eq!(input.cursor, 1);
}

#[test]
fn enter_is_a_newline_only_with_shift_in_multiline_fields() {
    let mut input = InputState::default();
    let shift_enter = KeyPress { code: KeyCode::Enter, shift: true, control: false };
    assert!(!apply_text_key(&mut input, shift_enter, false));
    assert!(!apply_text_key(&mut input, KeyPress::plain(KeyCode::Enter), true));
    assert_eq!(input.buffer, "");
    assert!(apply_text_key(&mut input, shift_enter, true));
    assert_eq!(input.buffer, "\n");
}

#[test]
fn control_chars_and_other_keys_are_not_consumed() {
    let mut input = InputState { buffer: "abc".to_string(), cursor: 1, ..Default::default() };
    let ctrl_a = KeyPress { code: KeyCode::Char('a'), shift: false, control: true };
    assert!(!apply_text_key(&mut input, ctrl_a, true));
    assert!(!apply_text_key(&mut input, KeyPress::plain(KeyCode::Tab), true));
    assert!(!apply_text_key(&mut input, KeyPress::plain(KeyCode::Esc), true));
    assert_eq!(input.buffer, "abc");
    assert_eq!(input.cursor, 1);
    let ctrl_right = KeyPress { code: KeyCode::Right, shift: false, control: true };
    assert!(apply_text_key(&mut input, ctrl_right, true));
    assert_eq!(input.cursor, 3);
}

#[test]
fn approval_scroll_stops_where_the_last_line_shows() {
    let args: String = (0..20).map(|i| format!("line {i}\n")).collect();
    assert_eq!(line_count(&args), 20);
    assert_eq!(line_count("a\r\nb"), 2);
    assert_eq!(line_count(""), 0);
    assert_eq!(approval_scroll(0, &args, false, WHEEL_STEP), 3);
    assert_eq!(approval_scroll(6, &args, false, 3), 8);
    assert_eq!(approval_scroll(8, &args, false, 3), 8);
    assert_eq!(approval_scroll(2, &args, true, 3), 0);
    assert_eq!(approval_scroll(5, &args, true, 3), 2);
    assert_eq!(approval_scroll(0, "short", false, 3), 0);
}

#[test]
fn the_wheel_scrolls_the_transcript_three_rows() {
    assert_eq!(chat_wheel_scroll(0, true), 3);
    assert_eq!(chat_wheel_scroll(u32::MAX - 1, true), u32::MAX);
    assert_eq!(chat_wheel_scroll(2, false), 0);
    assert_eq!(chat_wheel_scroll(10, false), 7);
}

#[test]
fn keys_go_to_onboarding_then_popup_then_modal_then_the_screen() {
    assert_eq!(key_target(View::Onboarding, true, true), KeyTarget::Onboarding);
    assert_eq!(key_target(View::Chat, true, true), KeyTarget::Autocomplete);
    assert_eq!(key_target(View::Mcp, true, false), KeyTarget::Modal);
    assert_eq!(key_target(View::Mcp, false, false), KeyTarget::Mcp);
    assert_eq!(key_target(View::Providers, false, false), KeyTarget::Providers);
    assert_eq!(key_target(View::Search, false, false), KeyTarget::Search);
    assert_eq!(key_target(View::Chat, false, false), KeyTarget::Chat);
    assert_eq!(key_target(View::Themes, false, false), KeyTarget::Chat);
}

#[test]
fn the_approval_answer_sets_the_status_line() {
    assert_eq!(approval_status(true, "bash"), "Running bash");
    assert_eq!(approval_status(false, "bash"), "Denied bash");
}
