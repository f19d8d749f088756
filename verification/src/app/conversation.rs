//! Conversations and their history.
//!
//! A conversation is one independent chat thread — the main chat, a `/btw`
//! sidechat, a parallel session, or a sub-agent. Each has a process-unique
//! id, handed out in increasing order by a [`ConversationIds`] allocator,
//! and owns its messages and generation status. The agent-event reducer
//! edits the history only through the methods here, so the focused and the
//! background paths cannot drift apart.

use vstd::prelude::*;
use crate::app::generation::GenerationState;
use crate::provider::{ChatMessage, MessageView, Role, ToolCall, copy_calls, plain, tool_result, views};
use crate::session::{create_session_id, utc_now_rfc3339};
use crate::text::{chars_of, decimal, push_chars, push_decimal, str_eq};
use std::time::Instant;

verus! {

/// Stable, process-unique id for a conversation.
#[derive(Debug, Clone, Copy, PartialEq, Eq, Structural, Hash)]
pub struct ConversationId(pub u64);

/// Hands out conversation ids: 1, 2, 3, … in order. The app keeps one for
/// the whole process.
#[derive(Debug)]
pub struct ConversationIds {
    next: u64,
}

impl ConversationIds {
    /// The id the allocator hands out next.
    pub closed spec fn upcoming(&self) -> u64 {
        self.next
    }

    /// A fresh allocator; its first id is 1.
    pub fn new() -> (ids: ConversationIds)
        ensures
            ids.upcoming() == 1,
    {
        ConversationIds { next: 1 }
    }
}

impl ConversationId {
    /// Allocate the next unused conversation id. The counter wraps like an
    /// atomic `fetch_add` would after `u64::MAX` ids.
    pub fn next(ids: &mut ConversationIds) -> (id: ConversationId)
        ensures
            id.0 == old(ids).upcoming(),
            final(ids).upcoming() == if old(ids).upcoming() == u64::MAX {
                0
            } else {
                (old(ids).upcoming() + 1) as u64
            },
    {
        let id = ids.next;
        ids.next = ids.next.wrapping_add(1);
        ConversationId(id)
    }

    /// The id in decimal, as it is shown and logged.
    pub fn to_string(&self) -> (s: String)
        ensures
            s@ == decimal(self.0 as nat),
    {
        let mut s = String::new();
        push_decimal(&mut s, self.0);
        s
    }
}

/// Ids handed out one after another differ and grow, until the counter
/// runs out.
pub proof fn lemma_ids_increase(a: ConversationId, b: ConversationId, first: u64, second: u64)
    requires
        a.0 == first,
        second == first + 1,
        b.0 == second,
    ensures
        a != b,
        b.0 > a.0,
{
}

/// The allocator stays ahead of every id it handed out: if `upcoming`
/// exceeds each id of `handed` before a call of [`ConversationId::next`]
/// that does not wrap (`upcoming < u64::MAX`), then the id that call hands
/// out differs from and exceeds every earlier one, and the new `upcoming`
/// exceeds all of them, the new one included. By induction over the calls,
/// every id handed out differs from and exceeds every id handed out before
/// it, however many calls lie between, until the counter runs out.
pub proof fn lemma_ids_stay_fresh(handed: Set<u64>, upcoming: u64, id: ConversationId, next_upcoming: u64)
    requires
        forall|x: u64| handed.contains(x) ==> x < upcoming,
        upcoming < u64::MAX,
        id.0 == upcoming,
        next_upcoming == upcoming + 1,
    ensures
        !handed.contains(id.0),
        forall|x: u64| handed.contains(x) ==> x < id.0,
        forall|x: u64| handed.insert(id.0).contains(x) ==> x < next_upcoming,
{
}

/// A fresh allocator has handed out nothing, and everything it holds back
/// is above nothing: the start of the induction above.
pub proof fn lemma_fresh_allocator_starts_ahead(upcoming: u64)
    ensures
        forall|x: u64| Set::<u64>::empty().contains(x) ==> x < upcoming,
{
}

/// The ids `n` successive calls of [`ConversationId::next`] hand out when
/// the allocator's upcoming id is `start` before the first of them.
pub open spec fn handed_out(start: u64, n: nat) -> Seq<u64> {
    Seq::new(n, |i: int| (start + i) as u64)
}

/// One more call of [`ConversationId::next`], on the allocator that `n`
/// calls from `start` left behind (its upcoming id is `start + n`), hands
/// out the next id of [`handed_out`] and moves the allocator one further,
/// as long as the counter has not run out.
pub proof fn lemma_next_extends(start: u64, n: nat, before: u64, id: ConversationId, after: u64)
    requires
        before == start + n,
        before < u64::MAX,
        id.0 == before,
        after == before + 1,
    ensures
        handed_out(start, n + 1) == handed_out(start, n).push(id.0),
        after == start + (n + 1),
{
    assert(handed_out(start, n + 1) =~= handed_out(start, n).push(id.0));
}

/// Every id the allocator hands out differs from and exceeds every id it
/// handed out before, however many calls lie between, for as long as the
/// counter does not run out (`start + n` stays within `u64`).
pub proof fn lemma_handed_out_increase(start: u64, n: nat, i: int, j: int)
    requires
        start + n <= u64::MAX + 1,
        0 <= i < j < n,
    ensures
        handed_out(start, n)[i] != handed_out(start, n)[j],
        handed_out(start, n)[i] < handed_out(start, n)[j],
{
}

/// What kind of conversation this is — drives titling, lifecycle, and how it is
/// surfaced in the UI.
#[derive(Debug, Clone, Copy, PartialEq, Eq, Structural)]
pub enum ConversationKind {
    /// The primary chat the user starts in.
    Main,
    /// A user-opened parallel session.
    Session,
    /// A one-shot `/btw` side-answer.
    Sidechat,
    /// An isolated sub-agent run.
    SubAgent,
}

impl ConversationKind {
    /// Sidechats and sub-agents fold their result back into a parent.
    pub fn is_background(self) -> (b: bool)
        ensures
            b == (self == ConversationKind::Sidechat || self == ConversationKind::SubAgent),
    {
        match self {
            ConversationKind::Sidechat | ConversationKind::SubAgent => true,
            _ => false,
        }
    }
}

// ─── The history model ──────────────────────────────────────────────

/// `m` with its text replaced by `content`.
pub open spec fn with_content(m: MessageView, content: Seq<char>) -> MessageView {
    MessageView { content, ..m }
}

/// `m` with its declared tool calls replaced by `calls`.
pub open spec fn with_calls(m: MessageView, calls: Seq<ToolCall>) -> MessageView {
    MessageView { tool_calls: calls, ..m }
}

/// An assistant message with neither text nor tool calls.
pub open spec fn is_empty_assistant(m: MessageView) -> bool {
    m.role == Role::Assistant && m.content.len() == 0 && m.tool_calls.len() == 0
}

/// Whether opening an assistant message adds one: unless the last message
/// already is an empty assistant message.
pub open spec fn opens_new(h: Seq<MessageView>) -> bool {
    h.len() == 0 || !is_empty_assistant(h.last())
}

/// The history after an assistant message is opened.
pub open spec fn begun(h: Seq<MessageView>) -> Seq<MessageView> {
    if opens_new(h) {
        h.push(plain(Role::Assistant, Seq::empty()))
    } else {
        h
    }
}

/// The history after `chunk` streamed in: it extends the last message when
/// that is the assistant's, and is dropped otherwise.
pub open spec fn appended(h: Seq<MessageView>, chunk: Seq<char>) -> Seq<MessageView> {
    if h.len() > 0 && h.last().role == Role::Assistant {
        h.update(h.len() - 1, with_content(h.last(), h.last().content + chunk))
    } else {
        h
    }
}

/// The history without a trailing empty assistant message.
pub open spec fn discarded(h: Seq<MessageView>) -> Seq<MessageView> {
    if h.len() > 0 && is_empty_assistant(h.last()) {
        h.drop_last()
    } else {
        h
    }
}

/// Index of the last assistant message.
pub open spec fn last_assistant(h: Seq<MessageView>) -> Option<int>
    decreases h.len(),
{
    if h.len() == 0 {
        None
    } else if h.last().role == Role::Assistant {
        Some(h.len() - 1)
    } else {
        last_assistant(h.drop_last())
    }
}

/// An assistant message that declared tool calls.
pub open spec fn carries_calls(m: MessageView) -> bool {
    m.role == Role::Assistant && m.tool_calls.len() > 0
}

/// Index of the last assistant message that declared tool calls.
pub open spec fn last_carrier(h: Seq<MessageView>) -> Option<int>
    decreases h.len(),
{
    if h.len() == 0 {
        None
    } else if carries_calls(h.last()) {
        Some(h.len() - 1)
    } else {
        last_carrier(h.drop_last())
    }
}

/// The history after `calls` are attached to the last assistant message,
/// when it has declared none yet.
pub open spec fn attached(h: Seq<MessageView>, calls: Seq<ToolCall>) -> Seq<MessageView> {
    match last_assistant(h) {
        Some(i) => if h[i].tool_calls.len() == 0 {
            h.update(i, with_calls(h[i], calls))
        } else {
            h
        },
        None => h,
    }
}

/// The history after the assistant message is closed with `calls`.
pub open spec fn ended(h: Seq<MessageView>, calls: Seq<ToolCall>) -> Seq<MessageView> {
    discarded(attached(h, calls))
}

/// `m` is a tool result answering call `id`.
pub open spec fn answers(m: MessageView, id: Seq<char>) -> bool {
    m.role == Role::Tool && m.tool_call_id == Some(id)
}

/// Call `id` has a result after position `after`.
pub open spec fn answered(h: Seq<MessageView>, after: int, id: Seq<char>) -> bool {
    exists|j: int| after < j < h.len() && #[trigger] answers(h[j], id)
}

/// The calls among `calls` with no result after position `after`, in order.
pub open spec fn unanswered_among(h: Seq<MessageView>, after: int, calls: Seq<ToolCall>) -> Seq<ToolCall>
    decreases calls.len(),
{
    if calls.len() == 0 {
        Seq::empty()
    } else if answered(h, after, calls.last().id@) {
        unanswered_among(h, after, calls.drop_last())
    } else {
        unanswered_among(h, after, calls.drop_last()).push(calls.last())
    }
}

/// The result that answers a call the turn never got to run.
pub open spec fn interrupted(c: ToolCall) -> MessageView {
    tool_result(
        c.id@,
        Some(c.name@),
        "(the turn was interrupted before this tool ran)"@,
        Some("interrupted"@),
        true,
    )
}

/// One interrupted-call result per call, in order.
pub open spec fn results_for(calls: Seq<ToolCall>) -> Seq<MessageView>
    decreases calls.len(),
{
    if calls.len() == 0 {
        Seq::empty()
    } else {
        results_for(calls.drop_last()).push(interrupted(calls.last()))
    }
}

/// The history with every call of the last call-carrying assistant message
/// answered: the calls with no result get an explicit interrupted one.
pub open spec fn settled(h: Seq<MessageView>) -> Seq<MessageView> {
    match last_carrier(h) {
        Some(i) => h + results_for(unanswered_among(h, i, h[i].tool_calls)),
        None => h,
    }
}

/// The message carries the result of call `id`, whatever its role.
pub open spec fn carries_id(m: MessageView, id: Seq<char>) -> bool {
    m.tool_call_id == Some(id)
}

/// Index of the first message from `k` on that carries call `id`.
pub open spec fn first_carrying(h: Seq<MessageView>, id: Seq<char>, k: int) -> Option<int>
    decreases h.len() - k,
{
    if k < 0 || k >= h.len() {
        None
    } else if carries_id(h[k], id) {
        Some(k)
    } else {
        first_carrying(h, id, k + 1)
    }
}

/// The history with the first result of call `id` replaced by `marker`.
pub open spec fn cleared_one(h: Seq<MessageView>, id: Seq<char>, marker: Seq<char>) -> Seq<MessageView> {
    match first_carrying(h, id, 0) {
        Some(j) => h.update(j, with_content(h[j], marker)),
        None => h,
    }
}

/// The history with each (call id, marker) pair of `pairs` applied in turn.
pub open spec fn cleared(h: Seq<MessageView>, pairs: Seq<(String, String)>) -> Seq<MessageView>
    decreases pairs.len(),
{
    if pairs.len() == 0 {
        h
    } else {
        cleared_one(cleared(h, pairs.drop_last()), pairs.last().0@, pairs.last().1@)
    }
}

pub proof fn lemma_last_assistant(h: Seq<MessageView>)
    ensures
        last_assistant(h) matches Some(i) ==> 0 <= i < h.len() && h[i].role == Role::Assistant
            && forall|j: int| i < j < h.len() ==> h[j].role != Role::Assistant,
        last_assistant(h) is None ==> forall|j: int| 0 <= j < h.len() ==> h[j].role != Role::Assistant,
    decreases h.len(),
{
    if h.len() > 0 && h.last().role != Role::Assistant {
        lemma_last_assistant(h.drop_last());
        assert forall|j: int| 0 <= j < h.len() - 1 implies h.drop_last()[j] == h[j] by {}
    }
}

pub proof fn lemma_last_carrier(h: Seq<MessageView>)
    ensures
        last_carrier(h) matches Some(i) ==> 0 <= i < h.len() && carries_calls(h[i])
            && forall|j: int| i < j < h.len() ==> !carries_calls(h[j]),
        last_carrier(h) is None ==> forall|j: int| 0 <= j < h.len() ==> !carries_calls(h[j]),
    decreases h.len(),
{
    if h.len() > 0 && !carries_calls(h.last()) {
        lemma_last_carrier(h.drop_last());
        assert forall|j: int| 0 <= j < h.len() - 1 implies h.drop_last()[j] == h[j] by {}
    }
}

pub proof fn lemma_first_carrying(h: Seq<MessageView>, id: Seq<char>, k: int)
    requires
        0 <= k,
    ensures
        first_carrying(h, id, k) matches Some(j) ==> k <= j < h.len() && carries_id(h[j], id)
            && forall|x: int| k <= x < j ==> !carries_id(h[x], id),
        first_carrying(h, id, k) is None ==> forall|x: int| k <= x < h.len() ==> !carries_id(h[x], id),
    decreases h.len() - k,
{
    if k < h.len() && !carries_id(h[k], id) {
        lemma_first_carrying(h, id, k + 1);
    }
}

/// Fields of a conversation that the history edits leave alone, and so
/// does compaction bookkeeping.
pub open spec fn same_fields(a: Conversation, b: Conversation) -> bool {
    &&& a.id == b.id
    &&& a.kind == b.kind
    &&& a.parent == b.parent
    &&& a.title == b.title
    &&& a.session_id == b.session_id
    &&& a.session_started_at == b.session_started_at
    &&& a.tag == b.tag
    &&& a.broken == b.broken
    &&& a.context_used == b.context_used
    &&& a.compact_mode == b.compact_mode
}

/// Fields of a conversation that the history edits leave alone.
pub open spec fn same_record(a: Conversation, b: Conversation) -> bool {
    same_fields(a, b) && a.compacting == b.compacting
}

/// Fields of a generation status that the history edits leave alone.
pub open spec fn same_generation(a: GenerationState, b: GenerationState) -> bool {
    &&& a.active == b.active
    &&& a.start_time == b.start_time
    &&& a.animation_tick == b.animation_tick
    &&& a.last_tokens == b.last_tokens
    &&& a.last_model == b.last_model
    &&& a.last_status == b.last_status
    &&& a.last_think_fragments == b.last_think_fragments
}

proof fn lemma_results_for(calls: Seq<ToolCall>)
    ensures
        results_for(calls).len() == calls.len(),
        forall|u: int| 0 <= u < calls.len() ==> #[trigger] results_for(calls)[u] == interrupted(calls[u]),
    decreases calls.len(),
{
    if calls.len() > 0 {
        lemma_results_for(calls.drop_last());
    }
}

proof fn lemma_unanswered_covers(h: Seq<MessageView>, after: int, calls: Seq<ToolCall>)
    ensures
        forall|k: int|
            0 <= k < calls.len() && !answered(h, after, (#[trigger] calls[k]).id@) ==> exists|u: int|
                0 <= u < unanswered_among(h, after, calls).len() && unanswered_among(h, after, calls)[u]
                    == calls[k],
    decreases calls.len(),
{
    if calls.len() > 0 {
        let rest = calls.drop_last();
        lemma_unanswered_covers(h, after, rest);
        assert forall|k: int|
            0 <= k < calls.len() && !answered(h, after, (#[trigger] calls[k]).id@) implies exists|u: int|
                0 <= u < unanswered_among(h, after, calls).len() && unanswered_among(h, after, calls)[u]
                    == calls[k] by {
            let u_rest = unanswered_among(h, after, rest);
            if k < calls.len() - 1 {
                assert(rest[k] == calls[k]);
                let u = choose|u: int| 0 <= u < u_rest.len() && u_rest[u] == rest[k];
                assert(unanswered_among(h, after, calls)[u] == calls[k]);
            } else {
                assert(unanswered_among(h, after, calls) == u_rest.push(calls.last()));
                assert(unanswered_among(h, after, calls)[u_rest.len() as int] == calls[k]);
            }
        }
    }
}

proof fn lemma_all_answered(h: Seq<MessageView>, after: int, calls: Seq<ToolCall>)
    requires
        forall|k: int| 0 <= k < calls.len() ==> answered(h, after, (#[trigger] calls[k]).id@),
    ensures
        unanswered_among(h, after, calls).len() == 0,
    decreases calls.len(),
{
    if calls.len() > 0 {
        let rest = calls.drop_last();
        assert forall|k: int| 0 <= k < rest.len() implies answered(h, after, (#[trigger] rest[k]).id@) by {
            assert(rest[k] == calls[k]);
        }
        lemma_all_answered(h, after, rest);
        assert(answered(h, after, calls[calls.len() - 1].id@));
    }
}

proof fn lemma_no_carrier_suffix(h: Seq<MessageView>, r: Seq<MessageView>)
    requires
        forall|u: int| 0 <= u < r.len() ==> !carries_calls(#[trigger] r[u]),
    ensures
        last_carrier(h + r) == last_carrier(h),
    decreases r.len(),
{
    if r.len() == 0 {
        assert(h + r =~= h);
    } else {
        assert((h + r).drop_last() =~= h + r.drop_last());
        assert(!carries_calls(r[r.len() - 1]));
        assert((h + r).last() == r.last());
        lemma_no_carrier_suffix(h, r.drop_last());
    }
}

/// After the calls left hanging are settled, the last call-carrying
/// assistant message is still the same one and every call it declared has
/// a result after it: the provider never sees a call without its result.
pub proof fn lemma_settle_answers_every_call(h: Seq<MessageView>)
    ensures
        last_carrier(h) matches Some(i) ==> {
            &&& last_carrier(settled(h)) == Some(i)
            &&& settled(h)[i] == h[i]
            &&& forall|k: int| 0 <= k < h[i].tool_calls.len() ==> answered(settled(h), i, (#[trigger] h[i].tool_calls[k]).id@)
        },
{
    lemma_last_carrier(h);
    if let Some(i) = last_carrier(h) {
        let calls = h[i].tool_calls;
        let missing = unanswered_among(h, i, calls);
        let r = results_for(missing);
        lemma_results_for(missing);
        lemma_unanswered_covers(h, i, calls);
        assert forall|u: int| 0 <= u < r.len() implies !carries_calls(#[trigger] r[u]) by {
            assert(r[u] == interrupted(missing[u]));
        }
        lemma_no_carrier_suffix(h, r);
        let s = settled(h);
        assert(s == h + r);
        assert forall|k: int| 0 <= k < calls.len() implies answered(s, i, (#[trigger] calls[k]).id@) by {
            if answered(h, i, calls[k].id@) {
                let j = choose|j: int| i < j < h.len() && #[trigger] answers(h[j], calls[k].id@);
                assert(s[j] == h[j]);
                assert(answers(s[j], calls[k].id@));
            } else {
                let u = choose|u: int| 0 <= u < missing.len() && missing[u] == calls[k];
                assert(s[h.len() + u] == r[u]);
                assert(r[u] == interrupted(missing[u]));
                assert(answers(s[h.len() + u], calls[k].id@));
            }
        }
    }
}

/// Settling twice adds nothing the second time: each call gets exactly one
/// result.
pub proof fn lemma_settle_idempotent(h: Seq<MessageView>)
    ensures
        settled(settled(h)) == settled(h),
{
    lemma_last_carrier(h);
    lemma_settle_answers_every_call(h);
    if let Some(i) = last_carrier(h) {
        let s = settled(h);
        lemma_all_answered(s, i, s[i].tool_calls);
        assert(results_for(unanswered_among(s, i, s[i].tool_calls)) =~= Seq::<MessageView>::empty());
        assert(settled(s) =~= s);
    }
}

/// An assistant message opened and closed again is kept exactly when it
/// declared calls: a message of calls alone survives, a message of nothing
/// is dropped.
pub proof fn lemma_open_then_close(h: Seq<MessageView>, calls: Seq<ToolCall>)
    requires
        opens_new(h),
    ensures
        ended(begun(h), calls) == if calls.len() > 0 {
            h.push(with_calls(plain(Role::Assistant, Seq::empty()), calls))
        } else {
            h
        },
{
    let b = begun(h);
    assert(b.drop_last() =~= h);
    assert(last_assistant(b) == Some(h.len() as int));
    let a = attached(b, calls);
    assert(a == b.update(h.len() as int, with_calls(b[h.len() as int], calls)));
    if calls.len() > 0 {
        assert(a =~= h.push(with_calls(plain(Role::Assistant, Seq::empty()), calls)));
    } else {
        assert(a.drop_last() =~= h);
    }
}

/// Streamed chunks build one assistant message: opening one and streaming
/// `first` then `second` into it gives a single message with both texts.
pub proof fn lemma_stream_builds_one_message(h: Seq<MessageView>, first: Seq<char>, second: Seq<char>)
    requires
        opens_new(h),
    ensures
        appended(appended(begun(h), first), second) == h.push(plain(Role::Assistant, first + second)),
{
    let b = begun(h);
    assert(Seq::<char>::empty() + first =~= first);
    let a1 = appended(b, first);
    assert(a1 =~= h.push(plain(Role::Assistant, first)));
    let a2 = appended(a1, second);
    assert(a2 =~= h.push(plain(Role::Assistant, first + second)));
}

/// Position of the last assistant message.
pub(crate) fn find_last_assistant(ms: &Vec<ChatMessage>) -> (r: Option<usize>)
    ensures
        r matches Some(i) ==> i < ms@.len() && last_assistant(views(ms@)) == Some(i as int),
        r is None ==> last_assistant(views(ms@)) is None,
{
    let ghost h = views(ms@);
    proof {
        lemma_last_assistant(h);
    }
    let mut k = ms.len();
    while k > 0
        invariant
            k <= ms.len(),
            h == views(ms@),
            forall|j: int| k <= j < ms.len() ==> h[j].role != Role::Assistant,
        decreases k,
    {
        k -= 1;
        if ms[k].role == Role::Assistant {
            assert(h[k as int].role == Role::Assistant);
            proof {
                lemma_last_assistant(h);
            }
            return Some(k);
        }
    }
    None
}

/// Position of the last assistant message that declared tool calls.
fn find_last_carrier(ms: &Vec<ChatMessage>) -> (r: Option<usize>)
    ensures
        r matches Some(i) ==> i < ms@.len() && last_carrier(views(ms@)) == Some(i as int),
        r is None ==> last_carrier(views(ms@)) is None,
{
    let ghost h = views(ms@);
    proof {
        lemma_last_carrier(h);
    }
    let mut k = ms.len();
    while k > 0
        invariant
            k <= ms.len(),
            h == views(ms@),
            forall|j: int| k <= j < ms.len() ==> !carries_calls(h[j]),
        decreases k,
    {
        k -= 1;
        if ms[k].role == Role::Assistant && ms[k].tool_calls.len() > 0 {
            assert(carries_calls(h[k as int]));
            proof {
                lemma_last_carrier(h);
            }
            return Some(k);
        }
    }
    None
}

/// Whether call `id` has a result after position `after`.
fn is_answered(ms: &Vec<ChatMessage>, after: usize, id: &str) -> (b: bool)
    requires
        after < ms.len(),
    ensures
        b == answered(views(ms@), after as int, id@),
{
    let ghost h = views(ms@);
    let mut j = after + 1;
    while j < ms.len()
        invariant
            after < j <= ms.len(),
            h == views(ms@),
            forall|x: int| after < x < j ==> !answers(h[x], id@),
        decreases ms.len() - j,
    {
        if ms[j].role == Role::Tool {
            match &ms[j].tool_call_id {
                Some(t) => {
                    if str_eq(t.as_str(), id) {
                        assert(answers(h[j as int], id@));
                        return true;
                    }
                },
                None => {},
            }
        }
        j += 1;
    }
    false
}

/// Position of the first message that carries the result of call `id`.
fn find_result(ms: &Vec<ChatMessage>, id: &str) -> (r: Option<usize>)
    ensures
        r matches Some(j) ==> j < ms@.len() && first_carrying(views(ms@), id@, 0) == Some(j as int),
        r is None ==> first_carrying(views(ms@), id@, 0) is None,
{
    let ghost h = views(ms@);
    proof {
        lemma_first_carrying(h, id@, 0);
    }
    let mut j: usize = 0;
    while j < ms.len()
        invariant
            j <= ms.len(),
            h == views(ms@),
            forall|x: int| 0 <= x < j ==> !carries_id(h[x], id@),
        decreases ms.len() - j,
    {
        match &ms[j].tool_call_id {
            Some(t) => {
                if str_eq(t.as_str(), id) {
                    assert(carries_id(h[j as int], id@));
                    proof {
                        lemma_first_carrying(h, id@, 0);
                    }
                    return Some(j);
                }
            },
            None => {},
        }
        j += 1;
    }
    None
}

/// One chat thread: its messages and its generation status. The task that
/// runs its agent turn is the app's to hold.
pub struct Conversation {
    pub id: ConversationId,
    pub kind: ConversationKind,
    /// For sub-agents/sidechats: the conversation that spawned it (where to
    /// notify / deliver the result). `None` for top-level chats.
    pub parent: Option<ConversationId>,
    pub title: String,
    pub session_id: String,
    pub session_started_at: String,
    pub messages: Vec<ChatMessage>,
    pub generation: GenerationState,
    /// Mirrors the on-disk session tag, so an autosave keeps it.
    pub tag: Option<String>,
    /// True once this conversation's remote session was found unreachable.
    pub broken: bool,
    /// Budget tokens the last request for this conversation carried. An
    /// estimate for thresholds, never a token count.
    pub context_used: u32,
    /// `/compact <n>` for this chat only; `None` falls back to the
    /// configured mode.
    pub compact_mode: Option<u8>,
    /// A compaction in flight: how many messages it snapshotted. `None`
    /// when idle.
    pub compacting: Option<usize>,
}

impl Conversation {
    /// The history, as the specifications see it.
    pub open spec fn history(&self) -> Seq<MessageView> {
        views(self.messages@)
    }

    /// Fresh, message-less main conversation with the given session id and
    /// start time: the next id of `ids`, nothing else set.
    pub fn fresh_main_with(ids: &mut ConversationIds, session_id: String, session_started_at: String) -> (c: Conversation)
        ensures
            c.id.0 == old(ids).upcoming(),
            final(ids).upcoming() == if old(ids).upcoming() == u64::MAX {
                0
            } else {
                (old(ids).upcoming() + 1) as u64
            },
            c.kind == ConversationKind::Main,
            c.parent is None,
            c.title@.len() == 0,
            c.session_id == session_id,
            c.session_started_at == session_started_at,
            c.messages@.len() == 0,
            !c.generation.active,
            c.generation.start_time is None,
            c.generation.last_status is None,
            c.tag is None,
            !c.broken,
            c.context_used == 0,
            c.compact_mode is None,
            c.compacting is None,
    {
        Conversation {
            id: ConversationId::next(ids),
            kind: ConversationKind::Main,
            parent: None,
            title: String::new(),
            session_id,
            session_started_at,
            messages: Vec::new(),
            generation: GenerationState::default(),
            tag: None,
            broken: false,
            context_used: 0,
            compact_mode: None,
            compacting: None,
        }
    }

    /// Fresh, message-less main conversation — the state right after launch
    /// (and after `/logout` / `/wipe` or an onboarding submit): the next id
    /// of `ids`, a new random session id and the current time (see
    /// [`Conversation::fresh_main_with`]). Which id and which time are chance
    /// and the clock's; the id has 36 characters.
    pub fn fresh_main(ids: &mut ConversationIds) -> (c: Conversation)
        ensures
            c.id.0 == old(ids).upcoming(),
            final(ids).upcoming() == if old(ids).upcoming() == u64::MAX {
                0
            } else {
                (old(ids).upcoming() + 1) as u64
            },
            c.kind == ConversationKind::Main,
            c.parent is None,
            c.title@.len() == 0,
            c.session_id@.len() == 36,
            c.messages@.len() == 0,
            !c.generation.active,
            c.generation.start_time is None,
            c.generation.last_status is None,
            c.tag is None,
            !c.broken,
            c.context_used == 0,
            c.compact_mode is None,
            c.compacting is None,
    {
        let session_id = create_session_id();
        let started_at = utc_now_rfc3339();
        Conversation::fresh_main_with(ids, session_id, started_at)
    }

    /// Is this conversation's agent turn currently in flight?
    pub fn is_streaming(&self) -> (b: bool)
        ensures
            b == self.generation.active,
    {
        self.generation.active
    }

    /// Is this a background-kind conversation (sidechat / sub-agent) whose
    /// terminal events must finalize-and-flush regardless of focus?
    pub fn is_background_kind(&self) -> (b: bool)
        ensures
            b == (self.kind == ConversationKind::Sidechat || self.kind == ConversationKind::SubAgent),
    {
        self.kind.is_background()
    }

    /// Whether `m` is an assistant message with neither text nor calls.
    fn empty_assistant(m: &ChatMessage) -> (b: bool)
        ensures
            b == is_empty_assistant(m@),
    {
        m.role == Role::Assistant && m.content.as_str().unicode_len() == 0 && m.tool_calls.len() == 0
    }

    /// Open an empty assistant message unless one is already open.
    pub fn begin_assistant_message(&mut self)
        ensures
            final(self).history() == begun(old(self).history()),
            same_record(*final(self), *old(self)),
            same_generation(final(self).generation, old(self).generation),
    {
        let n = self.messages.len();
        let needs_push = n == 0 || !Conversation::empty_assistant(&self.messages[n - 1]);
        if needs_push {
            let ghost before = self.messages@;
            let opened = ChatMessage::assistant("");
            proof {
                reveal_strlit("");
                assert(""@ =~= Seq::<char>::empty());
                assert(opened@ == plain(Role::Assistant, Seq::empty()));
            }
            self.messages.push(opened);
            proof {
                assert(views(self.messages@) =~= views(before).push(plain(Role::Assistant, Seq::empty())));
            }
        }
    }

    /// Append streamed content to the open assistant message.
    pub fn append_chunk(&mut self, chunk: &str)
        ensures
            final(self).history() == appended(old(self).history(), chunk@),
            same_record(*final(self), *old(self)),
            same_generation(final(self).generation, old(self).generation),
    {
        let n = self.messages.len();
        if n > 0 && self.messages[n - 1].role == Role::Assistant {
            let ghost before = self.messages@;
            let mut last = self.messages.pop().unwrap();
            let v = chars_of(chunk);
            push_chars(&mut last.content, &v, 0, v.len());
            assert(v@.subrange(0, v@.len() as int) == v@);
            self.messages.push(last);
            proof {
                assert(views(self.messages@) =~= views(before).update(
                    n - 1,
                    with_content(before[n - 1]@, before[n - 1]@.content + chunk@),
                ));
            }
        }
    }

    /// Drop a trailing assistant message that got neither text nor calls.
    pub fn discard_empty_assistant(&mut self)
        ensures
            final(self).history() == discarded(old(self).history()),
            same_record(*final(self), *old(self)),
            same_generation(final(self).generation, old(self).generation),
    {
        let n = self.messages.len();
        if n > 0 && Conversation::empty_assistant(&self.messages[n - 1]) {
            let ghost before = self.messages@;
            self.messages.pop();
            proof {
                assert(views(self.messages@) =~= views(before).drop_last());
            }
        }
    }
    /// Close the assistant message: attach the calls it declared to the
    /// last assistant message (not merely the last message — the loop may
    /// have pushed a system note in between), then drop it only when it got
    /// neither text nor calls. A message of calls alone is an ordinary step
    /// and stays, or its results would be left without their call.
    pub fn end_assistant_message(&mut self, tool_calls: &[ToolCall])
        ensures
            final(self).history() == ended(old(self).history(), tool_calls@),
            same_record(*final(self), *old(self)),
            same_generation(final(self).generation, old(self).generation),
    {
        let ghost h = self.history();
        match find_last_assistant(&self.messages) {
            Some(i) => {
                if self.messages[i].tool_calls.len() == 0 {
                    let mut m = self.messages[i].duplicate();
                    m.tool_calls = copy_calls(tool_calls);
                    let ghost before = self.messages@;
                    self.messages.set(i, m);
                    proof {
                        assert(views(self.messages@) =~= views(before).update(
                            i as int,
                            with_calls(h[i as int], tool_calls@),
                        ));
                    }
                }
            },
            None => {},
        }
        assert(self.history() == attached(h, tool_calls@));
        self.discard_empty_assistant();
    }

    /// Answer the calls that got no result. A turn cut between declaring
    /// its calls and running them (Esc on the approval modal, say) would
    /// leave a call without a result, which the provider rejects: each such
    /// call gets an explicit "interrupted" result instead.
    pub fn settle_unanswered_tool_calls(&mut self)
        ensures
            final(self).history() == settled(old(self).history()),
            same_record(*final(self), *old(self)),
            same_generation(final(self).generation, old(self).generation),
    {
        let ghost h = self.history();
        let index = match find_last_carrier(&self.messages) {
            Some(i) => i,
            None => {
                return;
            },
        };
        proof {
            lemma_last_carrier(h);
        }
        let ghost calls = h[index as int].tool_calls;
        let n = self.messages[index].tool_calls.len();
        let mut missing: Vec<ToolCall> = Vec::new();
        let mut c: usize = 0;
        while c < n
            invariant
                index < self.messages@.len(),
                h == self.history(),
                calls == h[index as int].tool_calls,
                n == calls.len(),
                c <= n,
                missing@ == unanswered_among(h, index as int, calls.take(c as int)),
            decreases n - c,
        {
            let call = &self.messages[index].tool_calls[c];
            assert(calls.take(c + 1).drop_last() =~= calls.take(c as int));
            if !is_answered(&self.messages, index, call.id.as_str()) {
                missing.push(call.duplicate());
            }
            c += 1;
        }
        assert(calls.take(n as int) =~= calls);
        let mut r: usize = 0;
        while r < missing.len()
            invariant
                r <= missing@.len(),
                self.history() == h + results_for(missing@.take(r as int)),
                same_record(*self, *old(self)),
                same_generation(self.generation, old(self).generation),
            decreases missing.len() - r,
        {
            let ghost before = self.messages@;
            let m = ChatMessage::tool_with_display(
                missing[r].id.as_str(),
                missing[r].name.as_str(),
                "(the turn was interrupted before this tool ran)",
                "interrupted",
                true,
            );
            self.messages.push(m);
            proof {
                assert(missing@.take(r + 1).drop_last() =~= missing@.take(r as int));
                assert(views(self.messages@) =~= views(before).push(interrupted(missing@[r as int])));
            }
            r += 1;
        }
        assert(missing@.take(missing@.len() as int) =~= missing@);
    }

    /// Replace cleared tool bodies by their markers. Matched by call id,
    /// never by index: the agent loop works on a copy without the
    /// transcript-only messages, so the positions differ.
    pub fn clear_tool_output(&mut self, cleared_pairs: &[(String, String)])
        ensures
            final(self).history() == cleared(old(self).history(), cleared_pairs@),
            same_record(*final(self), *old(self)),
            same_generation(final(self).generation, old(self).generation),
    {
        let ghost h = self.history();
        let mut q: usize = 0;
        while q < cleared_pairs.len()
            invariant
                q <= cleared_pairs@.len(),
                self.history() == cleared(h, cleared_pairs@.take(q as int)),
                same_record(*self, *old(self)),
                same_generation(self.generation, old(self).generation),
            decreases cleared_pairs.len() - q,
        {
            let ghost cur = self.history();
            assert(cleared_pairs@.take(q + 1).drop_last() =~= cleared_pairs@.take(q as int));
            match find_result(&self.messages, cleared_pairs[q].0.as_str()) {
                Some(j) => {
                    let mut m = self.messages[j].duplicate();
                    m.content = cleared_pairs[q].1.clone();
                    let ghost before = self.messages@;
                    self.messages.set(j, m);
                    proof {
                        assert(views(self.messages@) =~= views(before).update(
                            j as int,
                            with_content(cur[j as int], cleared_pairs@[q as int].1@),
                        ));
                    }
                },
                None => {},
            }
            q += 1;
        }
        assert(cleared_pairs@.take(cleared_pairs@.len() as int) =~= cleared_pairs@);
    }

    /// Terminal-event bookkeeping shared by a finished and a failed turn:
    /// the turn is no longer in flight, its status is recorded, an empty
    /// assistant tail is dropped and calls left hanging are answered.
    pub fn finish_turn(&mut self, status: &str)
        ensures
            final(self).history() == settled(discarded(old(self).history())),
            !final(self).generation.active,
            final(self).generation.last_status.deep_view() == Some(status@),
            final(self).generation.start_time == old(self).generation.start_time,
            final(self).generation.animation_tick == old(self).generation.animation_tick,
            final(self).generation.last_tokens == old(self).generation.last_tokens,
            final(self).generation.last_model == old(self).generation.last_model,
            final(self).generation.last_think_fragments == old(self).generation.last_think_fragments,
            same_record(*final(self), *old(self)),
    {
        self.generation.active = false;
        self.generation.last_status = Some(status.to_owned());
        self.discard_empty_assistant();
        self.settle_unanswered_tool_calls();
    }

    /// Mark a compaction as started over `snapshot_len` messages. Busy is
    /// held on the generation status too, so a turn cannot start meanwhile.
    pub fn begin_compaction(&mut self, snapshot_len: usize, now: Instant)
        ensures
            final(self).compacting == Some(snapshot_len),
            final(self).generation.active,
            final(self).generation.start_time == Some(now),
            final(self).messages@ == old(self).messages@,
            same_fields(*final(self), *old(self)),
    {
        self.compacting = Some(snapshot_len);
        self.generation.begin(now);
    }

    /// Release the busy state and hand back the snapshot length. `None`
    /// means this run was already dropped (cancelled) and its result must
    /// be ignored.
    pub fn end_compaction(&mut self) -> (base: Option<usize>)
        ensures
            base == old(self).compacting,
            final(self).compacting is None,
            final(self).generation.active == (old(self).generation.active && old(self).compacting is None),
            final(self).messages@ == old(self).messages@,
            same_fields(*final(self), *old(self)),
    {
        let base = match self.compacting.take() {
            Some(b) => b,
            None => {
                return None;
            },
        };
        self.generation.active = false;
        Some(base)
    }

    /// Swap in a compacted history, keeping whatever arrived after the
    /// snapshot of `base` messages; returns how many did. The context
    /// indicator is refreshed to `tokens_after`: the token count of the
    /// history as it stands after the swap (`rebuilt`, then the messages
    /// kept from `base` on), as the context counter gives it. `None` = the
    /// history shrank under the task, and nothing is touched.
    pub fn swap_compacted(&mut self, base: usize, rebuilt: Vec<ChatMessage>, tokens_after: u32) -> (appended_count: Option<usize>)
        ensures
            base > old(self).messages@.len() ==> appended_count is None && *final(self) == *old(self),
            base <= old(self).messages@.len() ==> appended_count is Some && appended_count->0
                == old(self).messages@.len() - base && final(self).messages@ == rebuilt@ + old(
                self,
            ).messages@.skip(base as int) && final(self).context_used == tokens_after,
            same_record(*final(self), Conversation { context_used: final(self).context_used, ..*old(self) }),
            same_generation(final(self).generation, old(self).generation),
    {
        if base > self.messages.len() {
            return None;
        }
        let appended_count = self.messages.len() - base;
        let mut tail = self.messages.split_off(base);
        let mut rebuilt = rebuilt;
        rebuilt.append(&mut tail);
        self.messages = rebuilt;
        self.context_used = tokens_after;
        Some(appended_count)
    }
}


// ─── The set of open conversations ──────────────────────────────────

/// Sidechats and sub-agents: conversations that fold into a parent.
pub open spec fn background_kind(k: ConversationKind) -> bool {
    k == ConversationKind::Sidechat || k == ConversationKind::SubAgent
}

/// Index of the first conversation from `k` on with id `id`.
pub open spec fn first_with_id(s: Seq<Conversation>, id: ConversationId, k: int) -> Option<int>
    decreases s.len() - k,
{
    if k < 0 || k >= s.len() {
        None
    } else if s[k].id == id {
        Some(k)
    } else {
        first_with_id(s, id, k + 1)
    }
}

/// Some conversation of `s` has id `id`.
pub open spec fn holds_id(s: Seq<Conversation>, id: ConversationId) -> bool {
    exists|k: int| 0 <= k < s.len() && #[trigger] s[k].id == id
}

/// `id` is the lowest id among the conversations of `s`.
pub open spec fn is_lowest_id(s: Seq<Conversation>, id: ConversationId) -> bool {
    holds_id(s, id) && forall|k: int| 0 <= k < s.len() ==> id.0 <= (#[trigger] s[k]).id.0
}

/// The ids of `s` in order, of the user-facing chats only when
/// `sessions_only`.
pub open spec fn ids_of(s: Seq<Conversation>, sessions_only: bool) -> Seq<ConversationId>
    decreases s.len(),
{
    if s.len() == 0 {
        Seq::empty()
    } else if sessions_only && background_kind(s.last().kind) {
        ids_of(s.drop_last(), sessions_only)
    } else {
        ids_of(s.drop_last(), sessions_only).push(s.last().id)
    }
}

/// The ids are in ascending order.
pub open spec fn ascending(ids: Seq<ConversationId>) -> bool {
    forall|a: int, b: int| 0 <= a < b < ids.len() ==> (#[trigger] ids[a]).0 <= (#[trigger] ids[b]).0
}

pub proof fn lemma_first_with_id(s: Seq<Conversation>, id: ConversationId, k: int)
    requires
        0 <= k,
    ensures
        first_with_id(s, id, k) matches Some(j) ==> k <= j < s.len() && s[j].id == id && forall|x: int|
            k <= x < j ==> s[x].id != id,
        first_with_id(s, id, k) is None ==> forall|x: int| k <= x < s.len() ==> s[x].id != id,
    decreases s.len() - k,
{
    if k < s.len() && s[k].id != id {
        lemma_first_with_id(s, id, k + 1);
    }
}

/// The ids of `s` (of the user-facing chats only when `sessions_only`) in
/// ascending order: the one ascending sequence holding exactly them.
pub open spec fn sorted_ids_of(s: Seq<Conversation>, sessions_only: bool) -> Seq<ConversationId> {
    choose|ids: Seq<ConversationId>| ascending(ids) && ids.to_multiset() == ids_of(s, sessions_only).to_multiset()
}

/// Two ascending sequences with the same ids are the same sequence.
pub proof fn lemma_ascending_unique(a: Seq<ConversationId>, b: Seq<ConversationId>)
    requires
        ascending(a),
        ascending(b),
        a.to_multiset() == b.to_multiset(),
    ensures
        a == b,
    decreases a.len(),
{
    broadcast use vstd::seq_lib::group_to_multiset_ensures;

    if a.len() == 0 {
        assert(b.to_multiset().len() == 0);
        assert(b.len() == 0);
        assert(a =~= b);
    } else {
        assert(a.to_multiset().len() == a.len());
        assert(b.to_multiset().len() == b.len());
        assert(b.len() == a.len());
        assert(a.to_multiset().contains(a[0]));
        assert(b.to_multiset().contains(a[0]));
        let j = choose|j: int| 0 <= j < b.len() && b[j] == a[0];
        assert(b.to_multiset().contains(b[0]));
        let k = choose|k: int| 0 <= k < a.len() && a[k] == b[0];
        if j > 0 {
            assert(b[0].0 <= b[j].0);
        }
        if k > 0 {
            assert(a[0].0 <= a[k].0);
        }
        assert(a[0].0 == b[0].0);
        assert(a[0] == b[0]);
        vstd::seq_lib::to_multiset_remove(a, 0);
        vstd::seq_lib::to_multiset_remove(b, 0);
        assert(a.remove(0) =~= a.drop_first());
        assert(b.remove(0) =~= b.drop_first());
        assert(ascending(a.drop_first())) by {
            assert forall|x: int, y: int| 0 <= x < y < a.drop_first().len() implies (#[trigger] a.drop_first()[x]).0
                <= (#[trigger] a.drop_first()[y]).0 by {
                assert(a.drop_first()[x] == a[x + 1] && a.drop_first()[y] == a[y + 1]);
            }
        }
        assert(ascending(b.drop_first())) by {
            assert forall|x: int, y: int| 0 <= x < y < b.drop_first().len() implies (#[trigger] b.drop_first()[x]).0
                <= (#[trigger] b.drop_first()[y]).0 by {
                assert(b.drop_first()[x] == b[x + 1] && b.drop_first()[y] == b[y + 1]);
            }
        }
        lemma_ascending_unique(a.drop_first(), b.drop_first());
        assert(a =~= b) by {
            assert forall|x: int| 0 <= x < a.len() implies a[x] == b[x] by {
                if x > 0 {
                    assert(a[x] == a.drop_first()[x - 1]);
                    assert(b[x] == b.drop_first()[x - 1]);
                }
            }
        }
    }
}

/// Position of the first conversation with id `id`.
fn position_of(items: &Vec<Conversation>, id: ConversationId) -> (r: Option<usize>)
    ensures
        r matches Some(j) ==> j < items@.len() && first_with_id(items@, id, 0) == Some(j as int),
        r is None ==> first_with_id(items@, id, 0) is None,
        r is None <==> !holds_id(items@, id),
{
    proof {
        lemma_first_with_id(items@, id, 0);
    }
    let mut j: usize = 0;
    while j < items.len()
        invariant
            j <= items.len(),
            forall|x: int| 0 <= x < j ==> items@[x].id != id,
        decreases items.len() - j,
    {
        if items[j].id == id {
            assert(items@[j as int].id == id);
            proof {
                lemma_first_with_id(items@, id, 0);
            }
            return Some(j);
        }
        j += 1;
    }
    proof {
        lemma_first_with_id(items@, id, 0);
    }
    None
}

/// The ids of `items`, of the user-facing chats only when `sessions_only`,
/// sorted by id.
fn sorted_ids(items: &Vec<Conversation>, sessions_only: bool) -> (r: Vec<ConversationId>)
    ensures
        ascending(r@),
        r@.to_multiset() == ids_of(items@, sessions_only).to_multiset(),
        r@ == sorted_ids_of(items@, sessions_only),
{
    let mut r: Vec<ConversationId> = Vec::new();
    let mut i: usize = 0;
    while i < items.len()
        invariant
            i <= items.len(),
            ascending(r@),
            r@.to_multiset() == ids_of(items@.take(i as int), sessions_only).to_multiset(),
        decreases items.len() - i,
    {
        assert(items@.take(i + 1).drop_last() =~= items@.take(i as int));
        assert(items@.take(i + 1).last() == items@[i as int]);
        let id = items[i].id;
        let ghost before = ids_of(items@.take(i as int), sessions_only);
        if !(sessions_only && items[i].kind.is_background()) {
            assert(ids_of(items@.take(i + 1), sessions_only) == before.push(id));
            let mut p: usize = 0;
            while p < r.len() && r[p].0 <= id.0
                invariant
                    p <= r.len(),
                    forall|x: int| 0 <= x < p ==> (#[trigger] r@[x]).0 <= id.0,
                decreases r.len() - p,
            {
                p += 1;
            }
            let ghost old_r = r@;
            r.insert(p, id);
            proof {
                assert(r@ == old_r.insert(p as int, id));
                assert forall|a: int, b: int| 0 <= a < b < r@.len() implies (#[trigger] r@[a]).0 <= (
                #[trigger] r@[b]).0 by {
                    if b < p {
                        assert(r@[a] == old_r[a] && r@[b] == old_r[b]);
                    } else if b == p {
                        assert(r@[a] == old_r[a]);
                    } else if a < p {
                        assert(r@[a] == old_r[a] && r@[b] == old_r[b - 1]);
                    } else if a == p {
                        assert(r@[b] == old_r[b - 1]);
                        assert(old_r[p as int].0 > id.0);
                        if b - 1 > p {
                            assert(old_r[p as int].0 <= old_r[b - 1].0);
                        }
                    } else {
                        assert(r@[a] == old_r[a - 1] && r@[b] == old_r[b - 1]);
                    }
                }
                vstd::seq_lib::to_multiset_insert(old_r, p as int, id);
                vstd::seq_lib::to_multiset_build(before, id);
                assert(r@.to_multiset() == old_r.to_multiset().insert(id));
            }
        } else {
            assert(ids_of(items@.take(i + 1), sessions_only) == before);
        }
        i += 1;
    }
    assert(items@.take(items@.len() as int) =~= items@);
    proof {
        let chosen = sorted_ids_of(items@, sessions_only);
        lemma_ascending_unique(r@, chosen);
    }
    r
}

/// `after` is `before` with `m` appended to the history of the first
/// conversation with id `id`, and nothing else changed.
pub open spec fn delivered(before: Seq<Conversation>, after: Seq<Conversation>, id: ConversationId, m: MessageView) -> bool {
    &&& after.len() == before.len()
    &&& forall|i: int|
        0 <= i < before.len() && first_with_id(before, id, 0) != Some(i) ==> #[trigger] after[i] == before[i]
    &&& first_with_id(before, id, 0) matches Some(i) ==> {
        &&& after[i].history() == before[i].history().push(m)
        &&& same_record(after[i], before[i])
        &&& same_generation(after[i].generation, before[i].generation)
    }
}

/// The set of open conversations with one focused. Every conversation,
/// the focused one included, lives here, so switching focus is changing an
/// id and an agent event is routed by looking its conversation up.
pub struct Conversations {
    items: Vec<Conversation>,
    focused: ConversationId,
}

impl Conversations {
    /// The open conversations, in the order they were added.
    pub closed spec fn all(&self) -> Seq<Conversation> {
        self.items@
    }

    /// The id of the focused conversation.
    pub closed spec fn focus(&self) -> ConversationId {
        self.focused
    }

    /// Position of the focused conversation.
    pub open spec fn focus_index(&self) -> int {
        first_with_id(self.all(), self.focus(), 0)->0
    }

    /// The store seeded with its first (focused) conversation.
    pub fn new(initial: Conversation) -> (c: Conversations)
        ensures
            c.all() == seq![initial],
            c.focus() == initial.id,
    {
        let focused = initial.id;
        let mut items: Vec<Conversation> = Vec::new();
        items.push(initial);
        Conversations { items, focused }
    }

    pub fn focused_id(&self) -> (id: ConversationId)
        ensures
            id == self.focus(),
    {
        self.focused
    }

    /// The focused conversation.
    pub fn focused(&self) -> (c: &Conversation)
        requires
            holds_id(self.all(), self.focus()),
        ensures
            *c == self.all()[self.focus_index()],
    {
        let i = position_of(&self.items, self.focused).unwrap();
        &self.items[i]
    }

    /// The focused conversation, to edit in place.
    pub fn focused_mut(&mut self) -> (c: &mut Conversation)
        requires
            holds_id(old(self).all(), old(self).focus()),
        ensures
            *c == old(self).all()[old(self).focus_index()],
            final(self).all() == old(self).all().update(old(self).focus_index(), *final(c)),
            final(self).focus() == old(self).focus(),
    {
        let i = position_of(&self.items, self.focused).unwrap();
        &mut self.items[i]
    }

    /// The conversation with id `id`, if any.
    pub fn get(&self, id: ConversationId) -> (c: Option<&Conversation>)
        ensures
            first_with_id(self.all(), id, 0) matches Some(i) ==> c == Some(&self.all()[i]),
            first_with_id(self.all(), id, 0) is None ==> c is None,
    {
        match position_of(&self.items, id) {
            Some(i) => Some(&self.items[i]),
            None => None,
        }
    }

    pub fn contains(&self, id: ConversationId) -> (b: bool)
        ensures
            b == holds_id(self.all(), id),
    {
        position_of(&self.items, id).is_some()
    }

    /// Focus an existing conversation (no-op if the id is unknown).
    pub fn set_focus(&mut self, id: ConversationId)
        ensures
            final(self).all() == old(self).all(),
            final(self).focus() == if holds_id(old(self).all(), id) {
                id
            } else {
                old(self).focus()
            },
    {
        if self.contains(id) {
            self.focused = id;
        }
    }

    /// Focus another open conversation: not while a modal owns the
    /// keyboard, and not the one already focused. Returns whether the focus
    /// moved.
    pub fn switch_to(&mut self, target: ConversationId, modal_open: bool) -> (switched: bool)
        ensures
            switched == (target != old(self).focus() && !modal_open && holds_id(old(self).all(), target)),
            final(self).all() == old(self).all(),
            final(self).focus() == if switched {
                target
            } else {
                old(self).focus()
            },
    {
        if target == self.focused || modal_open || !self.contains(target) {
            return false;
        }
        self.focused = target;
        true
    }

    /// Append `message` to the history of the conversation with id `id`;
    /// returns whether there was one.
    pub fn deliver(&mut self, id: ConversationId, message: ChatMessage) -> (found: bool)
        ensures
            found == holds_id(old(self).all(), id),
            final(self).focus() == old(self).focus(),
            delivered(old(self).all(), final(self).all(), id, message@),
    {
        match position_of(&self.items, id) {
            Some(i) => {
                let ghost before = self.items@[i as int].messages@;
                let conv = &mut self.items[i];
                conv.messages.push(message);
                proof {
                    assert(views(conv.messages@) =~= views(before).push(message@));
                }
                true
            },
            None => false,
        }
    }

    /// Position of the conversation with id `id`.
    pub fn position(&self, id: ConversationId) -> (p: Option<usize>)
        ensures
            p matches Some(i) ==> i < self.all().len() && first_with_id(self.all(), id, 0) == Some(i as int),
            p is None ==> first_with_id(self.all(), id, 0) is None,
    {
        position_of(&self.items, id)
    }

    /// The conversation at position `i`, to edit in place.
    pub fn at_mut(&mut self, i: usize) -> (c: &mut Conversation)
        requires
            i < old(self).all().len(),
        ensures
            *c == old(self).all()[i as int],
            final(self).all() == old(self).all().update(i as int, *final(c)),
            final(self).focus() == old(self).focus(),
    {
        &mut self.items[i]
    }

    /// Add a conversation and focus it.
    pub fn open(&mut self, conv: Conversation)
        ensures
            final(self).all() == old(self).all().push(conv),
            final(self).focus() == conv.id,
    {
        self.focused = conv.id;
        self.items.push(conv);
    }

    /// Add a conversation without changing focus (sidechats / sub-agents).
    pub fn add_background(&mut self, conv: Conversation)
        ensures
            final(self).all() == old(self).all().push(conv),
            final(self).focus() == old(self).focus(),
    {
        self.items.push(conv);
    }

    /// Remove a conversation. If it was focused, focus the lowest-id
    /// remaining one (the store never becomes empty in practice — the main
    /// chat stays).
    pub fn remove(&mut self, id: ConversationId) -> (removed: Option<Conversation>)
        ensures
            first_with_id(old(self).all(), id, 0) is None ==> removed is None && final(self).all()
                == old(self).all() && final(self).focus() == old(self).focus(),
            first_with_id(old(self).all(), id, 0) matches Some(p) ==> {
                &&& removed == Some(old(self).all()[p])
                &&& final(self).all() == old(self).all().remove(p)
                &&& if old(self).focus() == id && final(self).all().len() > 0 {
                    is_lowest_id(final(self).all(), final(self).focus())
                } else {
                    final(self).focus() == old(self).focus()
                }
            },
            holds_id(old(self).all(), old(self).focus()) && final(self).all().len() > 0 ==> holds_id(
                final(self).all(),
                final(self).focus(),
            ),
    {
        let ghost before = self.items@;
        let pos = match position_of(&self.items, id) {
            Some(p) => p,
            None => {
                return None;
            },
        };
        let removed = self.items.remove(pos);
        if self.focused == id && self.items.len() > 0 {
            let mut lowest = self.items[0].id;
            let mut k: usize = 1;
            while k < self.items.len()
                invariant
                    1 <= k <= self.items@.len(),
                    holds_id(self.items@, lowest),
                    forall|x: int| 0 <= x < k ==> lowest.0 <= (#[trigger] self.items@[x]).id.0,
                decreases self.items.len() - k,
            {
                if self.items[k].id.0 < lowest.0 {
                    lowest = self.items[k].id;
                    assert(self.items@[k as int].id == lowest);
                }
                k += 1;
            }
            self.focused = lowest;
        } else {
            proof {
                lemma_first_with_id(before, id, 0);
                if holds_id(before, self.focused) && self.items@.len() > 0 {
                    let q = choose|q: int| 0 <= q < before.len() && #[trigger] before[q].id == self.focused;
                    assert(q != pos);
                    if q < pos {
                        assert(self.items@[q] == before[q]);
                    } else {
                        assert(self.items@[q - 1] == before[q]);
                    }
                }
            }
        }
        Some(removed)
    }

    /// The open conversations, in the order they were added.
    pub fn iter(&self) -> (s: &[Conversation])
        ensures
            s@ == self.all(),
    {
        self.items.as_slice()
    }

    pub fn len(&self) -> (n: usize)
        ensures
            n == self.all().len(),
    {
        self.items.len()
    }

    /// Conversation ids in stable (id) order — for cycling focus.
    pub fn ordered_ids(&self) -> (ids: Vec<ConversationId>)
        ensures
            ascending(ids@),
            ids@.to_multiset() == ids_of(self.all(), false).to_multiset(),
            ids@ == sorted_ids_of(self.all(), false),
    {
        sorted_ids(&self.items, false)
    }

    /// Ids of user-facing chats only (main + parallel sessions), id-ordered.
    /// Tab cycles through these; sidechats and sub-agents are reached from
    /// `/agents`.
    pub fn ordered_session_ids(&self) -> (ids: Vec<ConversationId>)
        ensures
            ascending(ids@),
            ids@.to_multiset() == ids_of(self.all(), true).to_multiset(),
            ids@ == sorted_ids_of(self.all(), true),
    {
        sorted_ids(&self.items, true)
    }
}

} // verus!
