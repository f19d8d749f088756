//! The decisions of the streaming collector shared by the main agent loop
//! and headless sub-agents. The loop that awaits chunks (with its idle
//! timeout) runs in the app; after each chunk it asks a [`StreamCollector`]
//! what to do next, and the collector reports *what happened*
//! ([`StreamEnd`]) for the caller to interpret.

use vstd::prelude::*;
use crate::text::{utf8_len, byte_len};

verus! {

/// Hard cap on the accumulated stream text. Real turns are bounded by
/// `max_tokens` (tens of KB); this only exists so a broken or hostile
/// provider looping forever can't grow the buffer without bound.
pub const MAX_STREAM_BYTES: usize = 8 * 1024 * 1024;

/// How the provider's stream ended.
#[derive(Debug)]
pub enum StreamEnd {
    /// No chunk arrived within the idle timeout; the stream task was
    /// aborted. The text holds whatever arrived before the stall.
    IdleTimeout,
    /// The provider task returned `Ok(())`. This alone does not mean a
    /// well-formed response — check [`StreamOutcome::got_stop`].
    Completed,
    /// The provider task returned an error (stringified).
    ProviderError(String),
    /// The spawned task itself failed to join (panic or external abort).
    TaskFailed(String),
}

#[derive(Debug)]
pub struct StreamOutcome {
    /// Everything accumulated from the stream, tool-call syntax included.
    pub text: String,
    /// Whether any chunk carried `finish_reason == "stop"` — the provider's
    /// explicit end-of-turn marker, as opposed to the channel just closing.
    pub got_stop: bool,
    pub end: StreamEnd,
}

/// What to do after a chunk.
#[derive(Debug, Clone, Copy, PartialEq, Eq, Structural)]
pub enum NextRead {
    /// Keep reading chunks.
    Read,
    /// The provider said stop: stop reading and await the task's result.
    Stop,
    /// The text outgrew [`MAX_STREAM_BYTES`]: abort the task and finish with
    /// [`StreamCollector::oversized`].
    Abort,
}

#[derive(Debug, Clone, Copy, PartialEq, Eq, Structural)]
pub struct ChunkStep {
    /// The text grew: report progress with the whole text so far.
    pub progress: bool,
    pub next: NextRead,
}

/// The text and stop flag gathered from a stream so far.
pub struct StreamCollector {
    text: String,
    got_stop: bool,
}

impl StreamCollector {
    pub closed spec fn text_so_far(&self) -> Seq<char> {
        self.text@
    }

    pub closed spec fn stopped(&self) -> bool {
        self.got_stop
    }

    pub fn new() -> (c: StreamCollector)
        ensures
            c.text_so_far().len() == 0,
            !c.stopped(),
    {
        StreamCollector { text: String::new(), got_stop: false }
    }

    /// The text gathered so far.
    pub fn text(&self) -> (t: &str)
        ensures
            t@ == self.text_so_far(),
    {
        self.text.as_str()
    }

    /// Take in one chunk: its content (possibly empty) and whether its finish
    /// reason is `"stop"`.
    pub fn on_chunk(&mut self, content: &str, stop: bool) -> (step: ChunkStep)
        ensures
            final(self).text_so_far() == old(self).text_so_far() + content@,
            step.progress == (content@.len() > 0 && step.next != NextRead::Abort),
            step.next == NextRead::Abort <==> content@.len() > 0 && utf8_len(final(self).text_so_far())
                > MAX_STREAM_BYTES,
            step.next == NextRead::Stop <==> step.next != NextRead::Abort && stop,
            final(self).stopped() == (old(self).stopped() || step.next == NextRead::Stop),
    {
        let mut progress = false;
        if content.unicode_len() > 0 {
            self.text.append(content);
            if byte_len(self.text.as_str()) > MAX_STREAM_BYTES {
                return ChunkStep { progress: false, next: NextRead::Abort };
            }
            progress = true;
        } else {
            assert(old(self).text@ + content@ == old(self).text@);
        }
        if stop {
            self.got_stop = true;
            ChunkStep { progress, next: NextRead::Stop }
        } else {
            ChunkStep { progress, next: NextRead::Read }
        }
    }

    /// The outcome once the idle timeout fired.
    pub fn timed_out(self) -> (o: StreamOutcome)
        ensures
            o.text@ == self.text_so_far(),
            o.got_stop == self.stopped(),
            o.end is IdleTimeout,
    {
        StreamOutcome { text: self.text, got_stop: self.got_stop, end: StreamEnd::IdleTimeout }
    }

    /// The outcome once the text outgrew the cap: a provider error.
    pub fn oversized(self) -> (o: StreamOutcome)
        ensures
            o.text@ == self.text_so_far(),
            o.got_stop == self.stopped(),
            o.end matches StreamEnd::ProviderError(m) && m@
                == "stream exceeded 8 MiB without finishing \u{2014} aborted"@,
    {
        StreamOutcome {
            text: self.text,
            got_stop: self.got_stop,
            end: StreamEnd::ProviderError("stream exceeded 8 MiB without finishing \u{2014} aborted".to_owned()),
        }
    }

    /// The outcome once the stream ended as `end` said.
    pub fn finish(self, end: StreamEnd) -> (o: StreamOutcome)
        ensures
            o.text@ == self.text_so_far(),
            o.got_stop == self.stopped(),
            o.end == end,
    {
        StreamOutcome { text: self.text, got_stop: self.got_stop, end }
    }
}

} // verus!
