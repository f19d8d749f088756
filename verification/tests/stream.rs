use pooprusteek::agent::stream::{NextRead, StreamCollector, StreamEnd, MAX_STREAM_BYTES};

#[test]
fn chunks_accumulate_until_stop() {
    let mut c = StreamCollector::new();
    let step = c.on_chunk("Hel", false);
    assert!(step.progress);
    assert_eq!(step.next, NextRead::Read);
    let step = c.on_chunk("", false);
    assert!(!step.progress);
    assert_eq!(step.next, NextRead::Read);
    let step = c.on_chunk("lo", true);
    assert!(step.progress);
    assert_eq!(step.next, NextRead::Stop);
    let outcome = c.finish(StreamEnd::Completed);
    assert_eq!(outcome.text, "Hello");
    assert!(outcome.got_stop);
    assert!(matches!(outcome.end, StreamEnd::Completed));
}

#[test]
fn an_abrupt_end_is_completed_without_stop() {
    let mut c = StreamCollector::new();
    c.on_chunk("partial", false);
    let outcome = c.finish(StreamEnd::Completed);
    assert_eq!(outcome.text, "partial");
    assert!(!outcome.got_stop);
}

#[test]
fn an_oversized_stream_is_aborted() {
    let mut c = StreamCollector::new();
    let big = "x".repeat(MAX_STREAM_BYTES);
    assert_eq!(c.on_chunk(&big, false).next, NextRead::Read);
    let step = c.on_chunk("y", true);
    assert_eq!(step.next, NextRead::Abort);
    assert!(!step.progress);
    let outcome = c.oversized();
    assert!(!outcome.got_stop);
    match outcome.end {
        StreamEnd::ProviderError(message) => assert!(message.contains("exceeded")),
        _ => panic!("oversized stream must surface as a provider error"),
    }
}

#[test]
fn a_stall_keeps_what_arrived() {
    let mut c = StreamCollector::new();
    c.on_chunk("so far", false);
    assert_eq!(c.text(), "so far");
    let outcome = c.timed_out();
    assert_eq!(outcome.text, "so far");
    assert!(matches!(outcome.end, StreamEnd::IdleTimeout));
}
