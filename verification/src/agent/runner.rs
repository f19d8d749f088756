//! The decisions of an agent turn. The loop that streams a step, runs the
//! tools and sends the events lives with the app; after each step it asks
//! here what the step's reply means — run its tools, retry, finish or fail —
//! and what the step's request is built from.

use vstd::prelude::*;
use crate::agent::retry::{MAX_EMPTY_RESPONSE_RETRIES, MAX_MALFORMED_TOOL_RETRIES, RetryBudget};
use crate::agent::stream::{StreamEnd, StreamOutcome};
use crate::agent::trace::StepTrace;
use crate::agent::tools_step::{malformed_feedback_spec, malformed_tool_feedback};
use crate::provider::{ChatMessage, MessageView, Role, plain, views};
use crate::text::{byte_len, chars_of, decimal, push_decimal, trim, trim_bounds, utf8_len};

verus! {

/// Nudge sent back after an empty reply: concrete about the two acceptable
/// shapes of a turn, since the failure is the model producing neither.
pub const EMPTY_RESPONSE_FEEDBACK: &'static str = "Your last reply was completely empty. Answer the request now: either      write the text of the answer, or emit a tool call in the documented      <tool_use> form. Do not reply with nothing.";

/// The error of a turn whose stream went silent.
pub const STREAM_TIMEOUT_ERROR: &'static str = "Stream timed out (no data for 120s). Cancelling turn.";

/// The note a step leaves when its stream broke but a complete tool call
/// was recovered from it.
pub const SALVAGE_NOTICE: &'static str = "Warning: stream ended early, but a complete tool call was recovered. Continuing.";

/// The note a turn leaves when the model kept emitting broken tool calls.
pub const MALFORMED_EXHAUSTED_NOTICE: &'static str = "⚠ The model kept emitting malformed tool calls; stopping this turn. Try rephrasing your request.";

/// The error of a turn whose model kept replying with nothing.
pub const EMPTY_EXHAUSTED_ERROR: &'static str = "The model returned an empty reply and did nothing. Nothing was changed — try rephrasing the request.";

/// The error of a turn that ran out of steps.
pub const MAX_STEPS_ERROR: &'static str = "Reached max agent steps before producing a final answer";

/// Why a step's stream is not a clean end of the reply: a stream that
/// closed without its stop signal, a provider error or a failed stream
/// task — each only when no stop signal arrived. `None` for a clean end
/// (and for a timeout, which the caller handles first).
pub open spec fn stream_failure_spec(end: StreamEnd, got_stop: bool, closed_message: Seq<char>) -> Option<Seq<char>> {
    if got_stop {
        None
    } else {
        match end {
            StreamEnd::IdleTimeout => None,
            StreamEnd::Completed => Some(closed_message),
            StreamEnd::ProviderError(message) => Some(message@),
            StreamEnd::TaskFailed(error) => Some("Stream task failed: "@ + error@),
        }
    }
}

/// The error of a stream that closed without its stop signal, as the step
/// trace words it.
pub open spec fn closed_message(trace: StepTrace, text: Seq<char>) -> Seq<char> {
    "Stream ended without stop signal. "@ + trace.head() + " response_bytes="@ + decimal(utf8_len(text))
}

/// The failure of a step's stream, for the main loop. A stream that closed
/// without a stop signal reports the same line the step trace logs.
pub fn stream_failure(outcome: &StreamOutcome, trace: &StepTrace) -> (failure: Option<String>)
    ensures
        failure.deep_view() == stream_failure_spec(
            outcome.end,
            outcome.got_stop,
            closed_message(*trace, outcome.text@),
        ),
{
    if outcome.got_stop {
        return None;
    }
    match &outcome.end {
        StreamEnd::IdleTimeout => None,
        StreamEnd::Completed => Some(trace.closed_without_stop(byte_len(outcome.text.as_str())).message),
        StreamEnd::ProviderError(message) => Some(message.clone()),
        StreamEnd::TaskFailed(error) => {
            let mut m = "Stream task failed: ".to_owned();
            m.append(error.as_str());
            Some(m)
        },
    }
}

/// What a step's reply means for the turn.
#[derive(Debug, Clone, PartialEq, Eq)]
pub enum StepDecision {
    /// The turn fails with `error`; when `malformed_exhausted`, the note
    /// that the model kept emitting malformed calls goes out first.
    Fail { error: String, malformed_exhausted: bool },
    /// Retry a broken tool call: the raw reply and the parse feedback go
    /// back to the model; `attempt` of the malformed budget.
    RetryMalformed { attempt: u32 },
    /// Retry an empty reply with the nudge; `attempt` of the empty budget.
    RetryEmpty { attempt: u32, malformed_exhausted: bool },
    /// The turn is done with the step's visible text.
    Finish { malformed_exhausted: bool },
    /// Run the step's tool calls; `salvaged` when they were recovered from
    /// a broken stream.
    RunTools { salvaged: bool },
}

/// `d` is what a step means: a timeout fails the turn; a broken stream
/// fails it unless it carried a complete tool call; tool calls run; a
/// reply whose calls all failed to parse is retried while the malformed
/// budget lasts; a reply with text finishes the turn; an empty reply is
/// retried while the empty budget lasts, and then fails the turn.
pub open spec fn decided(
    d: StepDecision,
    timed_out: bool,
    failure: Option<String>,
    calls: nat,
    parse_failed: bool,
    visible_empty: bool,
    malformed_taken: nat,
    empty_taken: nat,
) -> bool {
    if timed_out {
        d matches StepDecision::Fail { error, malformed_exhausted } && error@ == STREAM_TIMEOUT_ERROR@
            && !malformed_exhausted
    } else if failure is Some && calls == 0 {
        d matches StepDecision::Fail { error, malformed_exhausted } && error == failure->0
            && !malformed_exhausted
    } else if calls > 0 {
        d == StepDecision::RunTools { salvaged: failure is Some }
    } else if parse_failed && malformed_taken < MAX_MALFORMED_TOOL_RETRIES {
        d == StepDecision::RetryMalformed { attempt: (malformed_taken + 1) as u32 }
    } else if !visible_empty {
        d == StepDecision::Finish { malformed_exhausted: parse_failed }
    } else if empty_taken < MAX_EMPTY_RESPONSE_RETRIES {
        d == StepDecision::RetryEmpty { attempt: (empty_taken + 1) as u32, malformed_exhausted: parse_failed }
    } else {
        d matches StepDecision::Fail { error, malformed_exhausted } && error@ == EMPTY_EXHAUSTED_ERROR@
            && malformed_exhausted == parse_failed
    }
}

/// Decide what a step's reply means. `failure` is the stream's failure,
/// `calls` how many tool calls parsed, `parse_failed` whether any block
/// failed to parse, `visible_empty` whether the reply shows no text.
/// A retry takes one attempt from `budget`.
pub fn decide_step(
    timed_out: bool,
    failure: Option<String>,
    calls: usize,
    parse_failed: bool,
    visible_empty: bool,
    budget: &mut RetryBudget,
) -> (d: StepDecision)
    ensures
        decided(
            d,
            timed_out,
            failure,
            calls as nat,
            parse_failed,
            visible_empty,
            old(budget).malformed_taken(),
            old(budget).empty_taken(),
        ),
        final(budget).malformed_taken() == old(budget).malformed_taken() + if d is RetryMalformed {
            1nat
        } else {
            0nat
        },
        final(budget).empty_taken() == old(budget).empty_taken() + if d is RetryEmpty {
            1nat
        } else {
            0nat
        },
{
    if timed_out {
        return StepDecision::Fail { error: STREAM_TIMEOUT_ERROR.to_owned(), malformed_exhausted: false };
    }
    if calls > 0 {
        return StepDecision::RunTools { salvaged: failure.is_some() };
    }
    if let Some(error) = failure {
        return StepDecision::Fail { error, malformed_exhausted: false };
    }
    if parse_failed {
        if let Some(attempt) = budget.take_malformed() {
            return StepDecision::RetryMalformed { attempt };
        }
    }
    if !visible_empty {
        return StepDecision::Finish { malformed_exhausted: parse_failed };
    }
    match budget.take_empty() {
        Some(attempt) => StepDecision::RetryEmpty { attempt, malformed_exhausted: parse_failed },
        None => StepDecision::Fail { error: EMPTY_EXHAUSTED_ERROR.to_owned(), malformed_exhausted: parse_failed },
    }
}

/// An empty turn is never reported as a success: a step with no tool call
/// and no visible text is retried or fails, and never finishes the turn.
pub proof fn lemma_empty_reply_never_finishes(
    d: StepDecision,
    timed_out: bool,
    failure: Option<String>,
    parse_failed: bool,
    malformed_taken: nat,
    empty_taken: nat,
)
    requires
        decided(d, timed_out, failure, 0, parse_failed, true, malformed_taken, empty_taken),
    ensures
        (!(d is Finish) && !(d is RunTools)),
{
}

/// A complete tool call is never lost: a step that parsed one runs it,
/// even when the stream broke, unless the stream went silent altogether.
pub proof fn lemma_parsed_calls_run(
    d: StepDecision,
    failure: Option<String>,
    calls: nat,
    parse_failed: bool,
    visible_empty: bool,
    malformed_taken: nat,
    empty_taken: nat,
)
    requires
        calls > 0,
        decided(d, false, failure, calls, parse_failed, visible_empty, malformed_taken, empty_taken),
    ensures
        (d == StepDecision::RunTools { salvaged: failure is Some }),
{
}

/// A broken stream never passes for a finished turn: without a parsed call
/// it fails the turn with the stream's own error.
pub proof fn lemma_broken_stream_fails(
    d: StepDecision,
    error: String,
    parse_failed: bool,
    visible_empty: bool,
    malformed_taken: nat,
    empty_taken: nat,
)
    requires
        decided(d, false, Some(error), 0, parse_failed, visible_empty, malformed_taken, empty_taken),
    ensures
        (d matches StepDecision::Fail { error: e, .. } && e == error),
{
}

/// Retries are bounded: a retry is only decided while its budget has an
/// attempt left, and it is numbered by the attempts taken before it.
pub proof fn lemma_retries_are_bounded(
    d: StepDecision,
    timed_out: bool,
    failure: Option<String>,
    calls: nat,
    parse_failed: bool,
    visible_empty: bool,
    malformed_taken: nat,
    empty_taken: nat,
)
    requires
        decided(d, timed_out, failure, calls, parse_failed, visible_empty, malformed_taken, empty_taken),
    ensures
        (d matches StepDecision::RetryMalformed { attempt } ==> malformed_taken < MAX_MALFORMED_TOOL_RETRIES
            && attempt == malformed_taken + 1),
        (d matches StepDecision::RetryEmpty { attempt, .. } ==> empty_taken < MAX_EMPTY_RESPONSE_RETRIES
            && attempt == empty_taken + 1),
{
}

/// The note announcing a retry of a broken tool call.
pub fn malformed_retry_notice(attempt: u32) -> (s: String)
    ensures
        s@ == "⚠ Malformed tool call (attempt "@ + decimal(attempt as nat) + "/"@ + decimal(
            MAX_MALFORMED_TOOL_RETRIES as nat,
        ) + ") — asking the model to retry"@,
{
    let mut s = "⚠ Malformed tool call (attempt ".to_owned();
    push_decimal(&mut s, attempt as u64);
    s.append("/");
    push_decimal(&mut s, MAX_MALFORMED_TOOL_RETRIES as u64);
    s.append(") — asking the model to retry");
    s
}

/// The note announcing a retry of an empty reply.
pub fn empty_retry_notice(attempt: u32) -> (s: String)
    ensures
        s@ == "⚠ Empty reply from the model (attempt "@ + decimal(attempt as nat) + "/"@ + decimal(
            MAX_EMPTY_RESPONSE_RETRIES as nat,
        ) + ") — retrying"@,
{
    let mut s = "⚠ Empty reply from the model (attempt ".to_owned();
    push_decimal(&mut s, attempt as u64);
    s.append("/");
    push_decimal(&mut s, MAX_EMPTY_RESPONSE_RETRIES as u64);
    s.append(") — retrying");
    s
}

/// The messages of one step's request: the system prompt first, then the
/// running history.
pub fn step_request_messages(system_prompt: &str, messages: &[ChatMessage]) -> (r: Vec<ChatMessage>)
    ensures
        views(r@) == seq![plain(Role::System, system_prompt@)] + views(messages@),
{
    let mut r: Vec<ChatMessage> = Vec::new();
    r.push(ChatMessage::system(system_prompt));
    let ghost head = views(r@);
    assert(head =~= seq![plain(Role::System, system_prompt@)]);
    assert(views(messages@.take(0)) =~= Seq::<MessageView>::empty());
    let mut i: usize = 0;
    while i < messages.len()
        invariant
            i <= messages@.len(),
            views(r@) == head + views(messages@.take(i as int)),
        decreases messages.len() - i,
    {
        let ghost prior = r@;
        r.push(messages[i].duplicate());
        assert(views(r@) =~= views(prior).push(messages@[i as int]@));
        assert(views(messages@.take(i + 1)) =~= views(messages@.take(i as int)).push(messages@[i as int]@));
        i += 1;
    }
    assert(messages@.take(messages@.len() as int) =~= messages@);
    r
}


/// A user message with something in it besides whitespace.
pub open spec fn speaks(m: MessageView) -> bool {
    m.role == Role::User && trim(m.content).len() > 0
}

/// Index of the newest message among the first `n` of `ms` that speaks.
pub open spec fn newest_spoken(ms: Seq<MessageView>, n: int) -> Option<int>
    decreases n,
{
    if n <= 0 {
        None
    } else if speaks(ms[n - 1]) {
        Some(n - 1)
    } else {
        newest_spoken(ms, n - 1)
    }
}

proof fn lemma_newest_spoken(ms: Seq<MessageView>, n: int)
    requires
        n <= ms.len(),
    ensures
        newest_spoken(ms, n) matches Some(i) ==> 0 <= i < n && speaks(ms[i])
            && forall|j: int| i < j < n ==> !speaks(#[trigger] ms[j]),
        newest_spoken(ms, n) is None ==> forall|j: int| 0 <= j < n ==> !speaks(#[trigger] ms[j]),
    decreases n,
{
    if n > 0 && !speaks(ms[n - 1]) {
        lemma_newest_spoken(ms, n - 1);
    }
}

/// The newest spoken message is the one found by its characterisation.
proof fn lemma_newest_spoken_is(ms: Seq<MessageView>, n: int, i: int)
    requires
        0 <= i < n <= ms.len(),
        speaks(ms[i]),
        forall|j: int| i < j < n ==> !speaks(#[trigger] ms[j]),
    ensures
        newest_spoken(ms, n) == Some(i),
    decreases n,
{
    if n - 1 != i {
        assert(!speaks(ms[n - 1]));
        lemma_newest_spoken_is(ms, n - 1, i);
    }
}

/// Whether `s` holds anything besides whitespace.
fn has_text(s: &str) -> (b: bool)
    ensures
        b == (trim(s@).len() > 0),
{
    let v = chars_of(s);
    let (i, j) = trim_bounds(&v, 0, v.len());
    assert(v@.subrange(0, v@.len() as int) == v@);
    i < j
}

/// Where this turn's semantic hint goes: the newest user message with text
/// in it, which the hint is matched against and placed before. `None` when
/// no user message has text.
pub fn semantic_hint_slot(messages: &[ChatMessage]) -> (r: Option<usize>)
    ensures
        r matches Some(i) ==> newest_spoken(views(messages@), messages@.len() as int) == Some(i as int),
        r is None ==> newest_spoken(views(messages@), messages@.len() as int) is None,
{
    let ghost ms = views(messages@);
    let mut k = messages.len();
    while k > 0
        invariant
            k <= messages@.len(),
            ms == views(messages@),
            forall|j: int| k <= j < messages@.len() ==> !speaks(#[trigger] ms[j]),
        decreases k,
    {
        k -= 1;
        if messages[k].role == Role::User && has_text(messages[k].content.as_str()) {
            proof { lemma_newest_spoken_is(ms, messages@.len() as int, k as int); }
            return Some(k);
        }
        assert(!speaks(ms[k as int]));
    }
    proof { lemma_newest_spoken(ms, messages@.len() as int); }
    assert(newest_spoken(ms, messages@.len() as int) is None) by {
        if newest_spoken(ms, messages@.len() as int) is Some {
            let i = newest_spoken(ms, messages@.len() as int)->0;
            assert(speaks(ms[i]));
        }
    }
    None
}

/// Put the semantic hint `hint`, as a system note, just before the message
/// at `slot` (the one [`semantic_hint_slot`] found). Inserting before, never
/// after, keeps the user's own text the newest user input, which providers
/// that send only the newest tail rely on.
pub fn insert_semantic_hint(messages: &mut Vec<ChatMessage>, slot: usize, hint: &str)
    requires
        newest_spoken(views(old(messages)@), old(messages)@.len() as int) == Some(slot as int),
    ensures
        views(final(messages)@) == views(old(messages)@).insert(slot as int, plain(Role::System, hint@)),
        newest_spoken(views(final(messages)@), final(messages)@.len() as int) == Some(slot + 1),
        final(messages)@[slot + 1] == old(messages)@[slot as int],
{
    let ghost before = views(messages@);
    proof { lemma_newest_spoken(before, before.len() as int); }
    messages.insert(slot, ChatMessage::system(hint));
    let ghost after = views(messages@);
    assert(after =~= before.insert(slot as int, plain(Role::System, hint@)));
    assert(after[slot + 1] == before[slot as int]);
    assert forall|j: int| slot + 1 < j < after.len() implies !speaks(#[trigger] after[j]) by {
        assert(after[j] == before[j - 1]);
    }
    proof { lemma_newest_spoken_is(after, after.len() as int, slot + 1); }
}

/// The verbatim tail kept out of every compaction rung's reach, in tokens:
/// the explicit setting `preserve_recent_tokens`, or, when that is 0, a
/// quarter of the usable window held between 2 000 and 15 000.
pub fn protect_tokens(preserve_recent_tokens: u32, usable: u32) -> (t: u32)
    ensures
        preserve_recent_tokens != 0 ==> t == preserve_recent_tokens,
        preserve_recent_tokens == 0 ==> t == (if usable / 4 < 2_000 {
            2_000
        } else if usable / 4 > 15_000 {
            15_000
        } else {
            usable / 4
        }),
{
    if preserve_recent_tokens != 0 {
        return preserve_recent_tokens;
    }
    let quarter = usable / 4;
    if quarter < 2_000 {
        2_000
    } else if quarter > 15_000 {
        15_000
    } else {
        quarter
    }
}

/// The compaction ladder acts on this window reading: auto-compaction is on,
/// the window size is known (`percent_used` is `None` when it is not) and
/// at least `threshold` percent of it is used.
pub open spec fn ladder_engaged(auto_compact: bool, percent_used: Option<u32>, threshold: u32) -> bool {
    auto_compact && (percent_used matches Some(p) && p >= threshold)
}

fn ladder_engaged_exec(auto_compact: bool, percent_used: Option<u32>, threshold: u32) -> (b: bool)
    ensures
        b == ladder_engaged(auto_compact, percent_used, threshold),
{
    match percent_used {
        Some(p) => auto_compact && p >= threshold,
        None => false,
    }
}

/// Whether rung 1 (clearing the oldest tool results) runs this step. It
/// never runs for a provider that keeps the history on its own side: those
/// messages are never sent again, so clearing them buys nothing.
pub fn prune_due(auto_compact: bool, server_side_history: bool, percent_used: Option<u32>, trigger_percent: u32) -> (b: bool)
    ensures
        b == (!server_side_history && ladder_engaged(auto_compact, percent_used, trigger_percent)),
{
    !server_side_history && ladder_engaged_exec(auto_compact, percent_used, trigger_percent)
}

/// The size of the history a fresh provider session would be re-seeded
/// with: what it weighs now (`history_tokens`), less what clearing the tool
/// results frees, plus the markers clearing leaves; each step saturates.
pub fn reseed_estimate(history_tokens: u32, freed_tokens: u32, marker_tokens: u32) -> (t: u32)
    ensures
        t == (if history_tokens >= freed_tokens {
            if history_tokens - freed_tokens + marker_tokens <= u32::MAX {
                history_tokens - freed_tokens + marker_tokens
            } else {
                u32::MAX as int
            }
        } else {
            marker_tokens as int
        }),
{
    let kept = if history_tokens >= freed_tokens { history_tokens - freed_tokens } else { 0 };
    if kept as u64 + marker_tokens as u64 <= u32::MAX as u64 {
        kept + marker_tokens
    } else {
        u32::MAX
    }
}

/// What the compaction ladder already did in this turn: rung 2 resets the
/// provider session at most once, and a re-seed judged pointless stays
/// judged so.
#[derive(Debug, Clone, Copy, PartialEq, Eq, Structural)]
pub struct CompactionState {
    pub session_reset_done: bool,
    pub reset_refused: bool,
    /// Rung 1's skip for a provider holding the history was reported this
    /// turn: each skip is reported once per turn, not once per step.
    pub prune_skip_logged: bool,
    /// Rung 2's skip was reported this turn.
    pub reset_skip_logged: bool,
}

/// Why rung 2 skipped a reset it would otherwise consider.
#[derive(Debug, Clone, Copy, PartialEq, Eq, Structural)]
pub enum ResetSkip {
    /// The session was already reset this turn: a second reset means the
    /// re-seed did not help.
    AlreadyReset,
    /// A re-seed was judged larger than the usable window this turn.
    StillOverUsable,
}

/// Rung 2 wants a reset estimate in state `state`: the provider keeps the
/// history on its side, the ladder is engaged at `reset_percent`, and this
/// turn neither reset already nor refused.
pub open spec fn reset_wanted_spec(
    state: CompactionState,
    auto_compact: bool,
    server_side_history: bool,
    percent_used: Option<u32>,
    reset_percent: u32,
) -> bool {
    server_side_history && ladder_engaged(auto_compact, percent_used, reset_percent)
        && !state.session_reset_done && !state.reset_refused
}

impl CompactionState {
    /// A turn's ladder, before any rung ran.
    pub fn new() -> (s: CompactionState)
        ensures
            !s.session_reset_done,
            !s.reset_refused,
            !s.prune_skip_logged,
            !s.reset_skip_logged,
    {
        CompactionState {
            session_reset_done: false,
            reset_refused: false,
            prune_skip_logged: false,
            reset_skip_logged: false,
        }
    }

    /// Rung 1 is skipped for a provider that keeps the history on its own
    /// side (with auto-compaction on). Returns whether to report that skip
    /// now: only the first time in the turn.
    pub fn prune_skip(&mut self, auto_compact: bool, server_side_history: bool) -> (log: bool)
        ensures
            log == (auto_compact && server_side_history && !old(self).prune_skip_logged),
            *final(self) == (CompactionState {
                prune_skip_logged: old(self).prune_skip_logged || log,
                ..*old(self)
            }),
    {
        let log = auto_compact && server_side_history && !self.prune_skip_logged;
        if log {
            self.prune_skip_logged = true;
        }
        log
    }

    /// Rung 2 is engaged (the provider keeps the history, the window is
    /// past `reset_percent`) but this turn already reset or refused: the
    /// skip is reported once per turn, with why. `None` when there is
    /// nothing to report now.
    pub fn reset_skip(
        &mut self,
        auto_compact: bool,
        server_side_history: bool,
        percent_used: Option<u32>,
        reset_percent: u32,
    ) -> (log: Option<ResetSkip>)
        ensures
            ({
                let report = server_side_history && ladder_engaged(auto_compact, percent_used, reset_percent)
                    && (old(self).session_reset_done || old(self).reset_refused) && !old(self).reset_skip_logged;
                &&& report ==> log == Some(
                    if old(self).session_reset_done { ResetSkip::AlreadyReset } else { ResetSkip::StillOverUsable },
                )
                &&& report ==> *final(self) == (CompactionState { reset_skip_logged: true, ..*old(self) })
                &&& !report ==> log is None && *final(self) == *old(self)
            }),
    {
        let report = server_side_history && ladder_engaged_exec(auto_compact, percent_used, reset_percent)
            && (self.session_reset_done || self.reset_refused) && !self.reset_skip_logged;
        if report {
            self.reset_skip_logged = true;
            if self.session_reset_done {
                Some(ResetSkip::AlreadyReset)
            } else {
                Some(ResetSkip::StillOverUsable)
            }
        } else {
            None
        }
    }

    /// Whether rung 2 is worth estimating now (see [`reset_wanted_spec`]).
    /// A second reset in one turn would mean the re-seed did not help, and
    /// a refusal stands: the history only grows from there.
    pub fn reset_wanted(
        &self,
        auto_compact: bool,
        server_side_history: bool,
        percent_used: Option<u32>,
        reset_percent: u32,
    ) -> (b: bool)
        ensures
            b == reset_wanted_spec(*self, auto_compact, server_side_history, percent_used, reset_percent),
    {
        server_side_history && ladder_engaged_exec(auto_compact, percent_used, reset_percent)
            && !self.session_reset_done && !self.reset_refused
    }

    /// Judge the re-seed by its estimate: one larger than the usable window
    /// is refused for the rest of the turn (it is rung 3's job, and nothing
    /// gets cleared for it), and that refusal is reported, once; otherwise
    /// the reset goes ahead (`true`).
    pub fn reset_verdict(&mut self, reseed_tokens: u32, usable: u32) -> (go: bool)
        ensures
            go == (reseed_tokens <= usable),
            !go ==> *final(self) == (CompactionState { reset_refused: true, reset_skip_logged: true, ..*old(self) }),
            go ==> *final(self) == *old(self),
    {
        if reseed_tokens > usable {
            self.reset_refused = true;
            self.reset_skip_logged = true;
            false
        } else {
            true
        }
    }

    /// The provider session was reset: no second reset this turn.
    pub fn reset_succeeded(&mut self)
        ensures
            *final(self) == (CompactionState { session_reset_done: true, ..*old(self) }),
    {
        self.session_reset_done = true;
    }
}

/// Once the session was reset, or a re-seed refused, in a turn, rung 2
/// wants no further reset in that turn, whatever the window reads.
pub proof fn lemma_reset_at_most_once(
    state: CompactionState,
    auto_compact: bool,
    server_side_history: bool,
    percent_used: Option<u32>,
    reset_percent: u32,
)
    requires
        state.session_reset_done || state.reset_refused,
    ensures
        !reset_wanted_spec(state, auto_compact, server_side_history, percent_used, reset_percent),
{
}

/// Rungs 1 and 2 never both apply to one provider: clearing for the next
/// request is for providers that are re-sent the history, a session reset
/// for those that keep it.
pub proof fn lemma_rungs_exclusive(
    state: CompactionState,
    auto_compact: bool,
    server_side_history: bool,
    percent_used: Option<u32>,
    trigger_percent: u32,
    reset_percent: u32,
)
    ensures
        !((!server_side_history && ladder_engaged(auto_compact, percent_used, trigger_percent))
            && reset_wanted_spec(state, auto_compact, server_side_history, percent_used, reset_percent)),
{
}

/// `m` with its text replaced by `content`.
pub open spec fn with_content(m: MessageView, content: Seq<char>) -> MessageView {
    MessageView { content, ..m }
}

/// Whether the marker for message `i` takes effect: its body reached the
/// disk (`written` holds `i`) and the message exists.
pub open spec fn marker_applies(ms: Seq<MessageView>, i: usize, written: Seq<usize>) -> bool {
    written.contains(i) && (i as int) < ms.len()
}

/// The history once the markers are put in place, in order: each message
/// whose body was spilled (`written`) keeps everything but its text, which
/// becomes the marker naming the spill file.
pub open spec fn cleared_history(ms: Seq<MessageView>, markers: Seq<(usize, String)>, written: Seq<usize>) -> Seq<MessageView>
    decreases markers.len(),
{
    if markers.len() == 0 {
        ms
    } else {
        let before = cleared_history(ms, markers.drop_last(), written);
        let i = markers.last().0;
        if marker_applies(before, i, written) {
            before.update(i as int, with_content(before[i as int], markers.last().1@))
        } else {
            before
        }
    }
}

/// The (tool-call id, marker) pairs the app is told about: one per
/// rewritten message that answers a call, in marker order.
pub open spec fn cleared_pairs(ms: Seq<MessageView>, markers: Seq<(usize, String)>, written: Seq<usize>) -> Seq<(Seq<char>, Seq<char>)>
    decreases markers.len(),
{
    if markers.len() == 0 {
        Seq::empty()
    } else {
        let rest = cleared_pairs(ms, markers.drop_last(), written);
        let before = cleared_history(ms, markers.drop_last(), written);
        let i = markers.last().0;
        if marker_applies(before, i, written) && before[i as int].tool_call_id is Some {
            rest.push((before[i as int].tool_call_id->0, markers.last().1@))
        } else {
            rest
        }
    }
}

/// How many messages the markers rewrote.
pub open spec fn rewrite_count(ms: Seq<MessageView>, markers: Seq<(usize, String)>, written: Seq<usize>) -> nat
    decreases markers.len(),
{
    if markers.len() == 0 {
        0
    } else {
        let before = cleared_history(ms, markers.drop_last(), written);
        rewrite_count(ms, markers.drop_last(), written) + if marker_applies(before, markers.last().0, written) {
            1nat
        } else {
            0nat
        }
    }
}

/// The views of (id, marker) pairs.
pub open spec fn pair_views(p: Seq<(String, String)>) -> Seq<(Seq<char>, Seq<char>)> {
    p.map_values(|x: (String, String)| (x.0@, x.1@))
}

fn holds_index(written: &[usize], i: usize) -> (b: bool)
    ensures
        b == written@.contains(i),
{
    let mut k: usize = 0;
    while k < written.len()
        invariant
            k <= written@.len(),
            forall|j: int| 0 <= j < k ==> written@[j] != i,
        decreases written.len() - k,
    {
        if written[k] == i {
            return true;
        }
        k += 1;
    }
    false
}

/// Put the clearing markers in place: for each `(index, marker)`, in order,
/// the message at `index` trades its text for the marker, but only once
/// its body is on disk (`written` holds the index), so a marker never names
/// a file that is not there. Returns the (tool-call id, marker) pairs to
/// tell the app and how many messages were rewritten.
pub fn clear_spilled(
    messages: &mut Vec<ChatMessage>,
    markers: &[(usize, String)],
    written: &[usize],
) -> (r: (Vec<(String, String)>, usize))
    requires
        markers@.len() < usize::MAX,
    ensures
        views(final(messages)@) == cleared_history(views(old(messages)@), markers@, written@),
        pair_views(r.0@) == cleared_pairs(views(old(messages)@), markers@, written@),
        r.1 == rewrite_count(views(old(messages)@), markers@, written@),
{
    let ghost start = views(messages@);
    let mut cleared: Vec<(String, String)> = Vec::new();
    let mut rewrote: usize = 0;
    let mut k: usize = 0;
    assert(markers@.take(0) =~= Seq::<(usize, String)>::empty());
    while k < markers.len()
        invariant
            k <= markers@.len() < usize::MAX,
            views(messages@) == cleared_history(start, markers@.take(k as int), written@),
            pair_views(cleared@) == cleared_pairs(start, markers@.take(k as int), written@),
            rewrote == rewrite_count(start, markers@.take(k as int), written@),
            rewrote <= k,
        decreases markers.len() - k,
    {
        let ghost t = markers@.take(k + 1);
        assert(t.drop_last() =~= markers@.take(k as int));
        assert(t.last() == markers@[k as int]);
        let index = markers[k].0;
        let ghost before = views(messages@);
        if holds_index(written, index) && index < messages.len() {
            let mut m = messages[index].duplicate();
            m.content = markers[k].1.clone();
            match &messages[index].tool_call_id {
                Some(id) => {
                    let ghost prior = cleared@;
                    cleared.push((id.clone(), markers[k].1.clone()));
                    assert(pair_views(cleared@) =~= pair_views(prior).push((id@, markers@[k as int].1@)));
                },
                None => {},
            }
            messages.set(index, m);
            assert(views(messages@) =~= before.update(index as int, with_content(before[index as int], markers@[k as int].1@)));
            rewrote += 1;
        }
        k += 1;
    }
    assert(markers@.take(markers@.len() as int) =~= markers@);
    (cleared, rewrote)
}

/// The history after a step decided `d`, with the step's raw reply `raw`,
/// its visible text `visible` and its parse diagnostics `errors`: a
/// malformed call keeps the raw reply (so the model sees its mistake) and
/// adds the parse feedback; an empty reply adds the nudge; a finished turn
/// and a step whose tools run keep the visible text; a failure adds
/// nothing.
pub open spec fn history_after_step(
    h: Seq<MessageView>,
    d: StepDecision,
    raw: Seq<char>,
    visible: Seq<char>,
    errors: Seq<Seq<char>>,
) -> Seq<MessageView> {
    match d {
        StepDecision::RetryMalformed { .. } => h.push(plain(Role::Assistant, raw)).push(
            plain(Role::User, malformed_feedback_spec(errors)),
        ),
        StepDecision::RetryEmpty { .. } => h.push(plain(Role::User, EMPTY_RESPONSE_FEEDBACK@)),
        StepDecision::Finish { .. } | StepDecision::RunTools { .. } => h.push(plain(Role::Assistant, visible)),
        StepDecision::Fail { .. } => h,
    }
}

/// Whether the chat drops the step's empty assistant message after `d`:
/// an empty reply that is retried; a step whose tools run with no text
/// around them; and the failure of a clean stream (no timeout, no stream
/// error), which is the empty reply that ran out of retries.
pub open spec fn discards_empty_spec(d: StepDecision, timed_out: bool, stream_failed: bool, visible_empty: bool) -> bool {
    match d {
        StepDecision::RetryEmpty { .. } => true,
        StepDecision::RunTools { .. } => visible_empty,
        StepDecision::Fail { .. } => !timed_out && !stream_failed,
        _ => false,
    }
}

/// Make the history edit a step's decision calls for (see
/// [`history_after_step`]) and say whether the chat's empty assistant
/// message is to be dropped (see [`discards_empty_spec`]).
pub fn apply_step(
    messages: &mut Vec<ChatMessage>,
    d: &StepDecision,
    timed_out: bool,
    stream_failed: bool,
    raw: &str,
    visible: &str,
    errors: &[String],
) -> (discard: bool)
    ensures
        views(final(messages)@) == history_after_step(
            views(old(messages)@),
            *d,
            raw@,
            visible@,
            errors@.map_values(|e: String| e@),
        ),
        discard == discards_empty_spec(*d, timed_out, stream_failed, visible@.len() == 0),
{
    let ghost before = views(messages@);
    let visible_empty = chars_of(visible).len() == 0;
    match d {
        StepDecision::RetryMalformed { .. } => {
            messages.push(ChatMessage::assistant(raw));
            let ghost mid = views(messages@);
            assert(mid =~= before.push(plain(Role::Assistant, raw@)));
            let feedback = malformed_tool_feedback(errors);
            messages.push(ChatMessage::user(feedback.as_str()));
            assert(views(messages@) =~= mid.push(plain(Role::User, feedback@)));
            false
        },
        StepDecision::RetryEmpty { .. } => {
            messages.push(ChatMessage::user(EMPTY_RESPONSE_FEEDBACK));
            assert(views(messages@) =~= before.push(plain(Role::User, EMPTY_RESPONSE_FEEDBACK@)));
            true
        },
        StepDecision::Finish { .. } => {
            messages.push(ChatMessage::assistant(visible));
            assert(views(messages@) =~= before.push(plain(Role::Assistant, visible@)));
            false
        },
        StepDecision::RunTools { .. } => {
            messages.push(ChatMessage::assistant(visible));
            assert(views(messages@) =~= before.push(plain(Role::Assistant, visible@)));
            visible_empty
        },
        StepDecision::Fail { .. } => !timed_out && !stream_failed,
    }
}

} // verus!
