use pooprusteek::agent::tools_step::{timer_request, TimerRequest};
use pooprusteek::agent::tools_step::{timer_cancel_reply, timer_list_reply, timer_set_message};
use pooprusteek::text::parse_u64_exec;
use pooprusteek::agent::tools_step::{
    malformed_tool_feedback, summarize_tool_result, tool_skip_message, ToolOutcome,
};

#[test]
fn a_short_result_is_kept_whole() {
    assert_eq!(summarize_tool_result("hello"), "hello");
}

#[test]
fn surrounding_whitespace_is_dropped() {
    assert_eq!(summarize_tool_result("  hello  "), "hello");
}

#[test]
fn exactly_the_limit_is_not_marked_as_cut() {
    let input = "a".repeat(200);
    assert_eq!(summarize_tool_result(&input), input);
}

#[test]
fn a_longer_result_is_cut_and_marked() {
    let result = summarize_tool_result(&"a".repeat(250));
    assert!(result.len() <= 203);
    assert!(result.ends_with('…'));
}

#[test]
fn a_cut_never_splits_a_multibyte_char() {
    let result = summarize_tool_result(&"😀".repeat(60));
    assert!(result.len() <= 203);
    assert!(result.ends_with('…'));
}

#[test]
fn an_empty_result_stays_empty() {
    assert_eq!(summarize_tool_result(""), "");
}

#[test]
fn summarize_short_result() {
    assert_eq!(summarize_tool_result("hello"), "hello");
}

#[test]
fn summarize_whitespace_trimmed() {
    assert_eq!(summarize_tool_result("  hello  "), "hello");
}

#[test]
fn summarize_exactly_200_bytes() {
    let input = "a".repeat(200);
    assert_eq!(summarize_tool_result(&input), input);
}

#[test]
fn summarize_over_200_bytes() {
    let input = "a".repeat(250);
    let result = summarize_tool_result(&input);
    // At most 200 bytes plus the 3-byte ellipsis.
    assert!(result.len() <= 203);
    assert!(result.ends_with('…'));
}

#[test]
fn summarize_multibyte_safe() {
    // Each emoji is 4 bytes.
    let input = "😀".repeat(60); // 240 bytes
    let result = summarize_tool_result(&input);
    assert!(result.len() <= 203);
}

#[test]
fn summarize_empty() {
    assert_eq!(summarize_tool_result(""), "");
}

// ── further cases ──

#[test]
fn a_cut_keeps_exactly_the_chars_that_fit() {
    assert_eq!(summarize_tool_result(&"a".repeat(250)), format!("{}…", "a".repeat(200)));
    // 50 emoji take exactly 200 bytes.
    assert_eq!(summarize_tool_result(&"😀".repeat(60)), format!("{}…", "😀".repeat(50)));
    // 3-byte chars: 66 fit in 198 bytes, the 67th would not.
    assert_eq!(summarize_tool_result(&"€".repeat(70)), format!("{}…", "€".repeat(66)));
}

#[test]
fn skip_message_names_the_limit_and_the_count() {
    assert_eq!(
        tool_skip_message(4, 9),
        "Skipped: per-step tool-call limit of 4 reached (9 calls requested). Re-issue this call next step if still needed."
    );
}

#[test]
fn malformed_feedback_lists_each_problem() {
    let text = malformed_tool_feedback(&["bad json".to_string(), "no name".to_string()]);
    assert!(text.starts_with(
        "Your previous message contained a tool call that could NOT be parsed, so it was NOT executed:\n- bad json\n- no name\n\nRe-issue it"
    ));
    assert!(text.contains("<arguments>\n{ \"key\": \"value\" }\n</arguments>"));
    assert!(text.ends_with("(e.g. a Windows path: \"C:\\\\Users\\\\Aver\\\\file.png\")."));
}

#[test]
fn outcomes_carry_their_flag() {
    let ok = ToolOutcome::ok("done".to_string());
    assert!(!ok.is_error);
    assert_eq!(ok.text, "done");
    let failed = ToolOutcome::failed("boom".to_string());
    assert!(failed.is_error);
    assert_eq!(failed.text, "boom");
}

#[test]
fn timer_calls_are_read_before_the_store() {
    assert_eq!(timer_request(r#"{"action":"list"}"#, false).ok(), Some(TimerRequest::List));
    assert_eq!(timer_request(r#"{"note":"tea","after":"5m"}"#, false).ok(), Some(TimerRequest::Arm));
    assert_eq!(timer_request(r#"{"action":"set"}"#, false).ok(), Some(TimerRequest::Arm));
    assert_eq!(timer_request(r#"{"action":"cancel","id":3}"#, false).ok(), Some(TimerRequest::Cancel(3)));
    assert_eq!(timer_request(r#"{"action":"cancel","id":" 12 "}"#, false).ok(), Some(TimerRequest::Cancel(12)));
    let missing = timer_request(r#"{"action":"cancel"}"#, false).unwrap_err();
    assert!(missing.is_error);
    assert_eq!(missing.text, "Cancelling a timer needs its numeric 'id'.");
    let bad = timer_request(r#"{"action":"cancel","id":"three"}"#, false).unwrap_err();
    assert_eq!(bad.text, "Cancelling a timer needs its numeric 'id'.");
    let unknown = timer_request(r#"{"action":"snooze"}"#, false).unwrap_err();
    assert_eq!(unknown.text, "Unknown timer action 'snooze'. Use 'set', 'list', or 'cancel'.");
    let background = timer_request(r#"{"action":"list"}"#, true).unwrap_err();
    assert!(background.is_error);
    assert_eq!(background.text, "Timers are not available to background agents.");
}

#[test]
fn timer_replies_are_worded_for_the_model() {
    let none = timer_list_reply(&[]);
    assert!(!none.is_error);
    assert_eq!(none.text, "No timers pending in this chat.");
    let two = timer_list_reply(&["#1 in 5m: tea".to_string(), "#2 in 1h: call".to_string()]);
    assert_eq!(two.text, "#1 in 5m: tea\n#2 in 1h: call");
    let cancelled = timer_cancel_reply(4, Some("tea".to_string()));
    assert!(!cancelled.is_error);
    assert_eq!(cancelled.text, "Cancelled timer #4: tea");
    let absent = timer_cancel_reply(9, None);
    assert!(absent.is_error);
    assert_eq!(absent.text, "No timer #9 in this chat.");
    assert_eq!(
        timer_set_message("#1 in 5m: tea", true),
        "Timer set — #1 in 5m: tea\nIt will start a turn here and hand you the note. Timers are lost if the app exits."
    );
    assert_eq!(
        timer_set_message("#1 in 5m: tea", false),
        "Timer set — #1 in 5m: tea\nIt will show the note here; you are not resumed. Timers are lost if the app exits."
    );
}

#[test]
fn unsigned_parse_follows_str_parse() {
    for text in ["0", "42", "+7", "18446744073709551615", "18446744073709551616", "", "+", "-1", "1 2", "0x10", "007"] {
        assert_eq!(parse_u64_exec(text), text.parse::<u64>().ok(), "{text}");
    }
}
