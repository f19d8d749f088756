//! The queue of requests that wait for the person: one is on screen, the
//! rest wait in arrival order. Overwriting a busy slot would orphan the
//! request already shown, so a newcomer queues instead.
//!
//! The queue holds what its decisions read: a ticket the app maps back to
//! the waiting request and, for a tool approval, the conversation whose
//! turn is parked on it and the tool it asks for. Resolving a request and
//! asking the whitelist stay with the app.

use vstd::prelude::*;
use crate::app::conversation::ConversationId;
use crate::text::{decimal, push_decimal};

verus! {

/// Something that waits for the person.
#[derive(Debug, Clone, PartialEq, Eq)]
pub enum Waiting {
    /// A tool call waiting to be approved or denied.
    Approval { ticket: u64, conversation: ConversationId, tool_name: String },
    /// A question from the model.
    Question { ticket: u64 },
}

impl Waiting {
    pub open spec fn ticket_spec(&self) -> u64 {
        match self {
            Waiting::Approval { ticket, .. } => *ticket,
            Waiting::Question { ticket } => *ticket,
        }
    }

    /// The ticket the app resolves this request by.
    pub fn ticket(&self) -> (t: u64)
        ensures
            t == self.ticket_spec(),
    {
        match self {
            Waiting::Approval { ticket, .. } => *ticket,
            Waiting::Question { ticket } => *ticket,
        }
    }

    /// A copy of this request, field for field.
    pub fn duplicate(&self) -> (w: Waiting)
        ensures
            w == *self,
    {
        match self {
            Waiting::Approval { ticket, conversation, tool_name } => Waiting::Approval {
                ticket: *ticket,
                conversation: *conversation,
                tool_name: tool_name.clone(),
            },
            Waiting::Question { ticket } => Waiting::Question { ticket: *ticket },
        }
    }
}

/// `w` is an approval that the turn of `conversation` is parked on.
pub open spec fn parked_on(w: Waiting, conversation: ConversationId) -> bool {
    w matches Waiting::Approval { conversation: c, .. } && c == conversation
}

/// What `s` keeps once the approvals parked on `conversation` are dropped.
pub open spec fn kept_after_purge(s: Seq<Waiting>, conversation: ConversationId) -> Seq<Waiting>
    decreases s.len(),
{
    if s.len() == 0 {
        s
    } else {
        let rest = kept_after_purge(s.drop_last(), conversation);
        if parked_on(s.last(), conversation) {
            rest
        } else {
            rest.push(s.last())
        }
    }
}

/// The tickets of the approvals of `s` parked on `conversation`, in order.
pub open spec fn purged_tickets(s: Seq<Waiting>, conversation: ConversationId) -> Seq<u64>
    decreases s.len(),
{
    if s.len() == 0 {
        Seq::empty()
    } else {
        let rest = purged_tickets(s.drop_last(), conversation);
        if parked_on(s.last(), conversation) {
            rest.push(s.last().ticket_spec())
        } else {
            rest
        }
    }
}

/// `w` is an approval the whitelist allows by now (`allowed`).
pub open spec fn settles_itself(w: Waiting, allowed: bool) -> bool {
    w is Approval && allowed
}

/// How many requests at the front of `s` settle themselves: approvals whose
/// tool the whitelist allows by now (`allowed[i]` for `s[i]`).
pub open spec fn self_settled_prefix(s: Seq<Waiting>, allowed: Seq<bool>, from: int) -> int
    decreases s.len() - from,
{
    if from < s.len() && from < allowed.len() && settles_itself(s[from], allowed[from]) {
        self_settled_prefix(s, allowed, from + 1)
    } else {
        from
    }
}

/// Whether `w` settles itself under the whitelist's verdict `allowed`.
fn settles(w: &Waiting, allowed: bool) -> (b: bool)
    ensures
        b == settles_itself(*w, allowed),
{
    match w {
        Waiting::Approval { .. } => allowed,
        Waiting::Question { .. } => false,
    }
}

/// The tickets of `s`, in order.
pub open spec fn tickets(s: Seq<Waiting>) -> Seq<u64> {
    s.map_values(|w: Waiting| w.ticket_spec())
}

/// What a tool-approval request does on arrival.
#[derive(Debug, Clone, Copy, PartialEq, Eq, Structural)]
pub enum Arrival {
    /// The whitelist already allows the tool: approve it now, unseen.
    AutoApprove,
    /// Something is on screen: the request waits in the queue.
    Queued,
    /// The screen is free: show it.
    Present,
}

/// The queue of requests waiting for the person, oldest first.
pub struct InteractionQueue {
    items: Vec<Waiting>,
}

impl View for InteractionQueue {
    type V = Seq<Waiting>;

    closed spec fn view(&self) -> Seq<Waiting> {
        self.items@
    }
}

/// The status line while approval of `tool` is asked.
pub open spec fn approve_prompt(tool: Seq<char>) -> Seq<char> {
    "Approve tool "@ + tool + "?"@
}

/// The status line while a question is asked.
pub const QUESTION_PENDING: &'static str = "Question pending...";

/// The status line a request sets when it is shown.
pub open spec fn presented_status(w: Waiting) -> Seq<char> {
    match w {
        Waiting::Approval { tool_name, .. } => approve_prompt(tool_name@),
        Waiting::Question { .. } => QUESTION_PENDING@,
    }
}

/// The status line a request shown now sets.
pub fn presentation_status(w: &Waiting) -> (s: String)
    ensures
        s@ == presented_status(*w),
{
    match w {
        Waiting::Approval { tool_name, .. } => {
            let mut s = "Approve tool ".to_owned();
            s.append(tool_name.as_str());
            s.append("?");
            s
        },
        Waiting::Question { .. } => QUESTION_PENDING.to_owned(),
    }
}

impl InteractionQueue {
    /// An empty queue.
    pub fn new() -> (q: InteractionQueue)
        ensures
            q@ == Seq::<Waiting>::empty(),
    {
        InteractionQueue { items: Vec::new() }
    }

    /// Requests waiting.
    pub fn len(&self) -> (n: usize)
        ensures
            n == self@.len(),
    {
        self.items.len()
    }

    /// The waiting requests, oldest first.
    pub fn items(&self) -> (s: &[Waiting])
        ensures
            s@ == self@,
    {
        self.items.as_slice()
    }

    /// Drop every waiting request.
    pub fn clear(&mut self)
        ensures
            final(self)@ == Seq::<Waiting>::empty(),
    {
        self.items = Vec::new();
    }

    /// A tool approval arrives for `tool_name`. The whitelist's verdict on
    /// it is `allowed`; `slot_busy` says something already waits on screen.
    /// Returns what to do with it and the status line to set: an allowed
    /// tool runs at once, a busy screen queues the request (counting the
    /// queue), a free screen shows it.
    pub fn approval_requested(
        &mut self,
        ticket: u64,
        conversation: ConversationId,
        tool_name: String,
        allowed: bool,
        slot_busy: bool,
    ) -> (r: (Arrival, String))
        requires
            old(self)@.len() < usize::MAX,
        ensures
            allowed ==> r.0 == Arrival::AutoApprove && final(self)@ == old(self)@
                && r.1@ == "Running "@ + tool_name@ + " (auto-approved)"@,
            !allowed && slot_busy ==> r.0 == Arrival::Queued
                && final(self)@ == old(self)@.push(Waiting::Approval { ticket, conversation, tool_name })
                && r.1@ == decimal(final(self)@.len()) + " interaction(s) queued"@,
            !allowed && !slot_busy ==> r.0 == Arrival::Present && final(self)@ == old(self)@
                && r.1@ == approve_prompt(tool_name@),
    {
        if allowed {
            let mut s = "Running ".to_owned();
            s.append(tool_name.as_str());
            s.append(" (auto-approved)");
            return (Arrival::AutoApprove, s);
        }
        if slot_busy {
            self.items.push(Waiting::Approval { ticket, conversation, tool_name });
            let mut s = String::new();
            push_decimal(&mut s, self.items.len() as u64);
            s.append(" interaction(s) queued");
            return (Arrival::Queued, s);
        }
        let mut s = "Approve tool ".to_owned();
        s.append(tool_name.as_str());
        s.append("?");
        (Arrival::Present, s)
    }

    /// A question arrives. On a busy screen it queues and `false` comes
    /// back (the status line stays: the request on screen needs it more);
    /// on a free screen it is to be shown and `true` comes back.
    pub fn question_requested(&mut self, ticket: u64, slot_busy: bool) -> (present: bool)
        ensures
            present == !slot_busy,
            slot_busy ==> final(self)@ == old(self)@.push(Waiting::Question { ticket }),
            !slot_busy ==> final(self)@ == old(self)@,
    {
        if slot_busy {
            self.items.push(Waiting::Question { ticket });
            false
        } else {
            true
        }
    }

    /// Take the next request to show. Approvals at the front whose tool the
    /// whitelist allows by now (`allowed[i]` is its verdict on the `i`-th
    /// waiting request) settle themselves unseen: their tickets come back
    /// first, to be approved. Then the next request, if any, leaves the
    /// queue to be shown.
    pub fn present_next(&mut self, allowed: &[bool]) -> (r: (Vec<u64>, Option<Waiting>))
        requires
            allowed@.len() == old(self)@.len(),
        ensures
            ({
                let k = self_settled_prefix(old(self)@, allowed@, 0);
                &&& 0 <= k <= old(self)@.len()
                &&& r.0@ == tickets(old(self)@.take(k))
                &&& k < old(self)@.len() ==> r.1 == Some(old(self)@[k]) && final(self)@ == old(self)@.skip(k + 1)
                &&& k == old(self)@.len() ==> r.1 is None && final(self)@ == Seq::<Waiting>::empty()
            }),
    {
        let ghost s = self.items@;
        let mut settled: Vec<u64> = Vec::new();
        let mut i: usize = 0;
        while i < self.items.len() && settles(&self.items[i], allowed[i])
            invariant
                self.items@ == s,
                allowed@.len() == s.len(),
                i <= s.len(),
                self_settled_prefix(s, allowed@, 0) == self_settled_prefix(s, allowed@, i as int),
                settled@ == tickets(s.take(i as int)),
            decreases s.len() - i,
        {
            let t = self.items[i].ticket();
            settled.push(t);
            assert(s.take(i + 1) =~= s.take(i as int).push(s[i as int]));
            assert(tickets(s.take(i + 1)) =~= tickets(s.take(i as int)).push(s[i as int].ticket_spec()));
            i += 1;
        }
        let ghost k = i as int;
        assert(self_settled_prefix(s, allowed@, k) == k);
        let mut rest: Vec<Waiting> = Vec::new();
        let shown = if i < self.items.len() {
            let w = self.items[i].duplicate();
            let mut j = i + 1;
            while j < self.items.len()
                invariant
                    self.items@ == s,
                    0 <= k < j <= s.len(),
                    rest@ == s.subrange(k + 1, j as int),
                decreases s.len() - j,
            {
                rest.push(self.items[j].duplicate());
                assert(s.subrange(k + 1, j + 1) =~= s.subrange(k + 1, j as int).push(s[j as int]));
                j += 1;
            }
            Some(w)
        } else {
            None
        };
        self.items = rest;
        assert(s.skip(k + 1) =~= s.subrange(k + 1, s.len() as int));
        (settled, shown)
    }

    /// Drop every waiting approval parked on `conversation` (its turn is
    /// being cancelled) and return their tickets, oldest first, to be
    /// denied. Questions and other conversations' approvals keep their
    /// places.
    pub fn purge(&mut self, conversation: ConversationId) -> (denied: Vec<u64>)
        ensures
            final(self)@ == kept_after_purge(old(self)@, conversation),
            denied@ == purged_tickets(old(self)@, conversation),
    {
        let ghost s = self.items@;
        let mut kept: Vec<Waiting> = Vec::new();
        let mut denied: Vec<u64> = Vec::new();
        let mut i: usize = 0;
        assert(s.take(0) =~= Seq::<Waiting>::empty());
        while i < self.items.len()
            invariant
                self.items@ == s,
                i <= s.len(),
                kept@ == kept_after_purge(s.take(i as int), conversation),
                denied@ == purged_tickets(s.take(i as int), conversation),
            decreases s.len() - i,
        {
            assert(s.take(i + 1).drop_last() =~= s.take(i as int));
            assert(s.take(i + 1).last() == s[i as int]);
            let parked = match &self.items[i] {
                Waiting::Approval { conversation: c, .. } => *c == conversation,
                Waiting::Question { .. } => false,
            };
            if parked {
                denied.push(self.items[i].ticket());
            } else {
                kept.push(self.items[i].duplicate());
            }
            i += 1;
        }
        assert(s.take(s.len() as int) =~= s);
        self.items = kept;
        denied
    }
}

/// Whether the approval on screen (`current`: the conversation it is parked
/// on, if one is shown) belongs to `conversation`, whose turn is being
/// cancelled: then it is denied, its dialog closes and the next request
/// comes up.
pub fn current_is_target(current: Option<ConversationId>, conversation: ConversationId) -> (b: bool)
    ensures
        b == (current == Some(conversation)),
{
    match current {
        Some(c) => c == conversation,
        None => false,
    }
}

/// Whether the screen is taken by something waiting for the person: a
/// dialog, an approval or a question.
pub fn slot_is_busy(modal_open: bool, approval_shown: bool, question_shown: bool) -> (b: bool)
    ensures
        b == (modal_open || approval_shown || question_shown),
{
    modal_open || approval_shown || question_shown
}

/// Purging keeps no approval parked on the cancelled conversation, and
/// every request it keeps was waiting before, in the same order.
pub proof fn lemma_purge_leaves_none_parked(s: Seq<Waiting>, conversation: ConversationId)
    ensures
        forall|i: int| 0 <= i < kept_after_purge(s, conversation).len()
            ==> !parked_on(#[trigger] kept_after_purge(s, conversation)[i], conversation),
        kept_after_purge(s, conversation).len() + purged_tickets(s, conversation).len() == s.len(),
    decreases s.len(),
{
    if s.len() > 0 {
        lemma_purge_leaves_none_parked(s.drop_last(), conversation);
    }
}

/// A queue with nothing parked on `conversation` is left as it was.
pub proof fn lemma_purge_without_parked_keeps_all(s: Seq<Waiting>, conversation: ConversationId)
    requires
        forall|i: int| 0 <= i < s.len() ==> !parked_on(#[trigger] s[i], conversation),
    ensures
        kept_after_purge(s, conversation) == s,
        purged_tickets(s, conversation) == Seq::<u64>::empty(),
    decreases s.len(),
{
    if s.len() > 0 {
        assert forall|i: int| 0 <= i < s.drop_last().len() implies !parked_on(#[trigger] s.drop_last()[i], conversation) by {
            assert(s.drop_last()[i] == s[i]);
        }
        lemma_purge_without_parked_keeps_all(s.drop_last(), conversation);
        assert(!parked_on(s[s.len() - 1], conversation));
        assert(s.drop_last().push(s.last()) =~= s);
    }
}

} // verus!
