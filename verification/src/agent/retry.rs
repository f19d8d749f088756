//! Retry budget within a single agent turn: a model that cannot repair
//! itself must not spin until it runs out of steps.

use vstd::prelude::*;

verus! {

/// How many times in a row the model may rewrite a broken `<tool_use>`.
pub const MAX_MALFORMED_TOOL_RETRIES: u32 = 2;

/// How many times in a row the model is nudged after an empty reply.
pub const MAX_EMPTY_RESPONSE_RETRIES: u32 = 2;

/// Retry counters of one turn. Both loops (main and sub-agent) share them.
#[derive(Debug, Default)]
pub struct RetryBudget {
    malformed: u32,
    empty: u32,
}

impl RetryBudget {
    /// Attempts taken so far for broken tool calls.
    pub closed spec fn malformed_taken(&self) -> nat {
        self.malformed as nat
    }

    /// Attempts taken so far for empty replies.
    pub closed spec fn empty_taken(&self) -> nat {
        self.empty as nat
    }

    /// A budget whose counters both stand at zero.
    pub fn new() -> (b: Self)
        ensures
            b.malformed_taken() == 0,
            b.empty_taken() == 0,
    {
        RetryBudget { malformed: 0, empty: 0 }
    }

    /// Take one attempt for a broken tool call. `Some(n)` (the attempt
    /// number) while the budget lasts, `None` once it is spent.
    pub fn take_malformed(&mut self) -> (r: Option<u32>)
        ensures
            old(self).malformed_taken() < MAX_MALFORMED_TOOL_RETRIES ==> {
                &&& r == Some((old(self).malformed_taken() + 1) as u32)
                &&& final(self).malformed_taken() == old(self).malformed_taken() + 1
            },
            old(self).malformed_taken() >= MAX_MALFORMED_TOOL_RETRIES ==> {
                &&& r is None
                &&& final(self).malformed_taken() == old(self).malformed_taken()
            },
            final(self).empty_taken() == old(self).empty_taken(),
    {
        Self::take(&mut self.malformed, MAX_MALFORMED_TOOL_RETRIES)
    }

    /// The same for an empty reply.
    pub fn take_empty(&mut self) -> (r: Option<u32>)
        ensures
            old(self).empty_taken() < MAX_EMPTY_RESPONSE_RETRIES ==> {
                &&& r == Some((old(self).empty_taken() + 1) as u32)
                &&& final(self).empty_taken() == old(self).empty_taken() + 1
            },
            old(self).empty_taken() >= MAX_EMPTY_RESPONSE_RETRIES ==> {
                &&& r is None
                &&& final(self).empty_taken() == old(self).empty_taken()
            },
            final(self).malformed_taken() == old(self).malformed_taken(),
    {
        Self::take(&mut self.empty, MAX_EMPTY_RESPONSE_RETRIES)
    }

    fn take(counter: &mut u32, max: u32) -> (r: Option<u32>)
        ensures
            *old(counter) < max ==> r == Some((*old(counter) + 1) as u32) && *final(counter) == *old(counter) + 1,
            *old(counter) >= max ==> r is None && *final(counter) == *old(counter),
    {
        if *counter >= max {
            return None;
        }
        *counter += 1;
        Some(*counter)
    }
}

} // verus!
