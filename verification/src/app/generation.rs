//! Generation status and last-turn stats.
//!
//! While the agent is streaming a reply the TUI shows a spinner, elapsed time
//! and, once finished, the token count and model of the last turn. The
//! wall-clock duration of the last turn is kept by the app: it is a float.

use vstd::prelude::*;
use std::time::Instant;

verus! {

#[verifier::external_type_specification]
#[verifier::external_body]
pub struct ExInstant(Instant);

/// The current instant: `std::time::Instant::now()`. Which instant comes
/// back is the clock's, and nothing is stated of it.
#[verifier::external_body]
pub(crate) fn now() -> (t: Instant) {
    Instant::now()
}

/// Live generation status plus stats from the most recent completed turn.
pub struct GenerationState {
    /// Whether the agent is currently streaming a reply.
    pub active: bool,
    /// When the current generation started, for the elapsed-time display.
    pub start_time: Option<Instant>,
    /// Spinner animation counter, advanced on each tick while `active`.
    pub animation_tick: u64,
    /// Token count of the last completed turn.
    pub last_tokens: u32,
    /// Model that produced the last turn.
    pub last_model: String,
    /// Status string of the last assistant message (e.g. finish reason).
    pub last_status: Option<String>,
    /// "Thinking" fragment count of the last turn.
    pub last_think_fragments: u32,
}

impl Default for GenerationState {
    fn default() -> (g: GenerationState)
        ensures
            !g.active,
            g.start_time is None,
            g.animation_tick == 0,
            g.last_tokens == 0,
            g.last_model@.len() == 0,
            g.last_status is None,
            g.last_think_fragments == 0,
    {
        GenerationState {
            active: false,
            start_time: None,
            animation_tick: 0,
            last_tokens: 0,
            last_model: String::new(),
            last_status: None,
            last_think_fragments: 0,
        }
    }
}

impl GenerationState {
    /// Mark a generation as started and begin the elapsed timer at `now`.
    pub fn begin(&mut self, now: Instant)
        ensures
            final(self).active,
            final(self).start_time == Some(now),
            final(self).animation_tick == old(self).animation_tick,
            final(self).last_tokens == old(self).last_tokens,
            final(self).last_model == old(self).last_model,
            final(self).last_status == old(self).last_status,
            final(self).last_think_fragments == old(self).last_think_fragments,
    {
        self.active = true;
        self.start_time = Some(now);
    }

    /// Take the start of the running timer, clearing it: the elapsed time of
    /// a generation is measured from what this returns. `None` if no
    /// generation was in progress.
    pub fn take_start(&mut self) -> (start: Option<Instant>)
        ensures
            start == old(self).start_time,
            final(self).start_time is None,
            final(self).active == old(self).active,
            final(self).animation_tick == old(self).animation_tick,
            final(self).last_tokens == old(self).last_tokens,
            final(self).last_model == old(self).last_model,
            final(self).last_status == old(self).last_status,
            final(self).last_think_fragments == old(self).last_think_fragments,
    {
        self.start_time.take()
    }
}

} // verus!
