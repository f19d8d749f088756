use pooprusteek::agent::trace::{turn_out_of_steps, StepTrace};
use pooprusteek::app::conversation::ConversationId;

fn trace() -> StepTrace {
    StepTrace::new(ConversationId(7), 2, 10)
}

#[test]
fn lines_share_the_step_head() {
    let line = trace().start(5);
    assert_eq!(line.event, "agent.step.start");
    assert_eq!(line.message, "conversation=7 step=2/10 message_count=5");
    assert_eq!(trace().error("boom").message, "conversation=7 step=2/10 boom");
    assert_eq!(trace().turn_error("aborted").event, "agent.turn.error");
}

#[test]
fn stream_lines_carry_the_byte_counts() {
    assert_eq!(
        trace().stream_closed(42).message,
        "conversation=7 step=2/10 got_stop=false collected_bytes=42"
    );
    assert_eq!(
        trace().provider_ok(0).message,
        "conversation=7 step=2/10 got_stop=true response_bytes=0"
    );
    let closed = trace().closed_without_stop(9);
    assert_eq!(closed.event, "agent.step.error");
    assert_eq!(
        closed.message,
        "Stream ended without stop signal. conversation=7 step=2/10 response_bytes=9"
    );
}

#[test]
fn retry_lines_join_the_errors() {
    let errors = vec!["bad json".to_string(), "no name".to_string()];
    assert_eq!(
        trace().malformed(1, 2, &errors).message,
        "conversation=7 step=2/10 retry=1/2 errors=bad json | no name"
    );
    assert_eq!(trace().malformed_exhausted(&[]).message, "conversation=7 step=2/10 errors=");
    assert_eq!(trace().empty_retry(2, 2).message, "conversation=7 step=2/10 retry=2/2");
    assert_eq!(
        trace().empty_assistant().message,
        "conversation=7 step=2/10 reason=empty_response_without_tool_calls"
    );
}

#[test]
fn tool_lines_describe_the_call() {
    assert_eq!(trace().tool_call(1, 3, "bash").message, "conversation=7 step=2/10 index=1/3 name=bash");
    assert_eq!(
        trace().tool_skipped("bash").message,
        "conversation=7 step=2/10 name=bash reason=max_tools_per_step"
    );
    assert_eq!(
        trace().tool_result("bash", true, "ошибка", "prev").message,
        "conversation=7 step=2/10 name=bash is_error=true result_chars=6 preview=prev"
    );
    assert_eq!(
        trace().salvaged("eof", 1).message,
        "conversation=7 step=2/10 reason=provider_error_with_complete_tool_call error=eof tool_calls=1"
    );
    assert_eq!(
        trace().turn_done("hello", 4).message,
        "conversation=7 step=2/10 status=success text_chars=5 tool_calls_total=4"
    );
}

#[test]
fn running_out_of_steps_has_no_step_head() {
    let line = turn_out_of_steps(ConversationId(3), 8, 12);
    assert_eq!(line.event, "agent.turn.error");
    assert_eq!(line.message, "conversation=3 status=max_steps_exceeded max_steps=8 tool_calls_total=12");
}

#[test]
fn the_parsed_line_counts_visible_chars_and_calls() {
    let calls = pooprusteek::agent::tool_parser::parse_tool_calls(
        "<tool_use><name>bash</name><arguments>{}</arguments></tool_use>",
    );
    let line = trace().parsed(true, "привет", &calls);
    assert_eq!(line.event, "agent.step.parsed");
    assert_eq!(
        line.message,
        "conversation=7 step=2/10 got_stop=true visible_chars=6 tool_calls=1"
    );
}
