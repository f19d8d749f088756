//! Several chats at once: their titles in the switcher, cycling focus
//! between the user-facing ones, and folding a finished side chat or
//! sub-agent back into the chat that spawned it.

use vstd::prelude::*;
use crate::app::conversation::{
    Conversation, ConversationId, ConversationKind, Conversations, delivered, first_with_id,
    find_last_assistant, holds_id, is_lowest_id, last_assistant, sorted_ids_of,
};
use crate::provider::{ChatMessage, MessageView, Role, plain};
use crate::app::conversation::{ConversationIds, same_fields};
use crate::text::{decimal, push_decimal, trim, chars_of, push_char, trimmed};

verus! {

/// Index of the first user message.
pub open spec fn first_user(ms: Seq<ChatMessage>) -> Option<int>
    decreases ms.len(),
{
    if ms.len() == 0 {
        None
    } else if ms[0].role == Role::User {
        Some(0)
    } else {
        match first_user(ms.drop_first()) {
            Some(i) => Some(i + 1),
            None => None,
        }
    }
}

proof fn lemma_first_user(ms: Seq<ChatMessage>)
    ensures
        first_user(ms) matches Some(i) ==> 0 <= i < ms.len() && ms[i].role == Role::User && forall|j: int|
            0 <= j < i ==> ms[j].role != Role::User,
        first_user(ms) is None ==> forall|j: int| 0 <= j < ms.len() ==> ms[j].role != Role::User,
    decreases ms.len(),
{
    if ms.len() > 0 && ms[0].role != Role::User {
        lemma_first_user(ms.drop_first());
        assert forall|j: int| 1 <= j < ms.len() implies ms.drop_first()[j - 1] == ms[j] by {}
    }
}

/// `'\n'` read as a space.
pub open spec fn newline_to_space(c: char) -> char {
    if c == '\n' {
        ' '
    } else {
        c
    }
}

/// The first 40 characters of `content`, newlines turned into spaces.
pub open spec fn title_text(content: Seq<char>) -> Seq<char> {
    let head = if content.len() > 40 {
        content.take(40)
    } else {
        content
    };
    head.map_values(|c: char| newline_to_space(c))
}

/// A short display title for a conversation: the start of its first user
/// message, or `(empty chat)` when there is none or it is blank.
pub open spec fn conversation_title_spec(ms: Seq<ChatMessage>) -> Seq<char> {
    match first_user(ms) {
        Some(i) => if trim(title_text(ms[i].content@)).len() > 0 {
            title_text(ms[i].content@)
        } else {
            "(empty chat)"@
        },
        None => "(empty chat)"@,
    }
}

/// A short display title for a conversation, from its first user message.
pub fn conversation_title(messages: &[ChatMessage]) -> (t: String)
    ensures
        t@ == conversation_title_spec(messages@),
{
    proof {
        lemma_first_user(messages@);
    }
    let mut i: usize = 0;
    while i < messages.len()
        invariant
            i <= messages@.len(),
            forall|j: int| 0 <= j < i ==> messages@[j].role != Role::User,
        decreases messages.len() - i,
    {
        if messages[i].role == Role::User {
            proof {
                lemma_first_user(messages@);
                match first_user(messages@) {
                    Some(k) => {
                        if k < i {
                        } else if k > i {
                            assert(messages@[i as int].role == Role::User);
                        }
                    },
                    None => {
                        assert(messages@[i as int].role == Role::User);
                    },
                }
            }
            let v = chars_of(messages[i].content.as_str());
            let n = if v.len() > 40 { 40 } else { v.len() };
            let ghost head = if v@.len() > 40 { v@.take(40) } else { v@ };
            assert(head == v@.take(n as int));
            let mut title = String::new();
            let mut k: usize = 0;
            while k < n
                invariant
                    k <= n <= v.len(),
                    head == v@.take(n as int),
                    title@ == head.take(k as int).map_values(|c: char| newline_to_space(c)),
                decreases n - k,
            {
                let c = if v[k] == '\n' { ' ' } else { v[k] };
                push_char(&mut title, c);
                assert(head.take(k + 1).map_values(|c: char| newline_to_space(c)) == head.take(
                    k as int,
                ).map_values(|c: char| newline_to_space(c)).push(newline_to_space(head[k as int])));
                k += 1;
            }
            assert(head.take(n as int) == head);
            assert(title@ == title_text(messages@[i as int].content@));
            assert(first_user(messages@) == Some(i as int));
            let t = crate::text::trimmed(title.as_str());
            if t.as_str().unicode_len() > 0 {
                return title;
            } else {
                return "(empty chat)".to_owned();
            }
        }
        i += 1;
    }
    "(empty chat)".to_owned()
}


/// The position `dir` steps away from `cur` in a ring of `len`.
pub open spec fn ring_step(cur: int, dir: int, len: int) -> int {
    (cur + dir) % len
}

/// The position `dir` steps away from `cur` in a ring of `len`, either way
/// round.
pub fn cycle_index(cur: usize, dir: i64, len: usize) -> (r: usize)
    requires
        cur < len,
    ensures
        r as int == ring_step(cur as int, dir as int, len as int),
        r < len,
{
    let n = len as u64;
    if dir >= 0 {
        let step = ((dir as u64) % n) as usize;
        let r = if step >= len - cur { step - (len - cur) } else { cur + step };
        proof {
            let c = cur as int;
            let d = dir as int;
            let m = len as int;
            vstd::arithmetic::div_mod::lemma_add_mod_noop_right(c, d, m);
            assert(d % m == step as int);
            if c + step < m {
                vstd::arithmetic::div_mod::lemma_small_mod((c + step) as nat, m as nat);
            } else {
                vstd::arithmetic::div_mod::lemma_mod_sub_multiples_vanish(c + step, m);
                vstd::arithmetic::div_mod::lemma_small_mod((c + step - m) as nat, m as nat);
            }
        }
        r
    } else {
        let magnitude = ((-(dir + 1)) as u64) + 1;
        let back = (magnitude % n) as usize;
        let r = if back <= cur { cur - back } else { len - (back - cur) };
        proof {
            let c = cur as int;
            let g = magnitude as int;
            let m = len as int;
            assert(g == -(dir as int));
            vstd::arithmetic::div_mod::lemma_sub_mod_noop_right(c, g, m);
            assert(g % m == back as int);
            if back <= cur {
                vstd::arithmetic::div_mod::lemma_small_mod((c - back) as nat, m as nat);
            } else {
                vstd::arithmetic::div_mod::lemma_mod_add_multiples_vanish(c - back, m);
                vstd::arithmetic::div_mod::lemma_small_mod((m + c - back) as nat, m as nat);
            }
        }
        r
    }
}

/// Where `id` stands in `ids`: its first position, or the start when it
/// is not there.
pub open spec fn position_in(ids: Seq<ConversationId>, id: ConversationId) -> int {
    if exists|k: int| 0 <= k < ids.len() && ids[k] == id {
        choose|k: int| 0 <= k < ids.len() && ids[k] == id && forall|j: int| 0 <= j < k ==> ids[j] != id
    } else {
        0
    }
}

/// Where `id` stands in `ids`.
fn position_of_id(ids: &Vec<ConversationId>, id: ConversationId) -> (r: usize)
    ensures
        r as int == position_in(ids@, id),
        ids@.len() > 0 ==> r < ids@.len(),
{
    let mut k: usize = 0;
    while k < ids.len()
        invariant
            k <= ids@.len(),
            forall|j: int| 0 <= j < k ==> ids@[j] != id,
        decreases ids.len() - k,
    {
        if ids[k] == id {
            proof {
                assert(ids@[k as int] == id);
                let w = choose|w: int| 0 <= w < ids@.len() && ids@[w] == id && forall|j: int| 0 <= j < w ==> ids@[j] != id;
                if w > k {
                    assert(ids@[k as int] != id);
                }
            }
            return k;
        }
        k += 1;
    }
    proof {
        assert(!(exists|w: int| 0 <= w < ids@.len() && ids@[w] == id));
    }
    0
}

/// Move the focus `dir` chats along the user-facing chats in id order,
/// wrapping around; side chats and sub-agents are skipped. Nothing moves
/// while a modal is open or with a single chat. Returns whether the focus
/// moved.
pub fn cycle_focus(convs: &mut Conversations, dir: i64, modal_open: bool) -> (switched: bool)
    ensures
        final(convs).all() == old(convs).all(),
        ({
            let ids = sorted_ids_of(old(convs).all(), true);
            if modal_open || ids.len() <= 1 {
                !switched && final(convs).focus() == old(convs).focus()
            } else {
                let next = ids[ring_step(position_in(ids, old(convs).focus()), dir as int, ids.len() as int)];
                &&& switched == (next != old(convs).focus() && holds_id(old(convs).all(), next))
                &&& final(convs).focus() == if switched { next } else { old(convs).focus() }
            }
        }),
{
    if modal_open {
        return false;
    }
    let ids = convs.ordered_session_ids();
    if ids.len() <= 1 {
        return false;
    }
    let focused = convs.focused_id();
    let cur = position_of_id(&ids, focused);
    let next = ids[cycle_index(cur, dir, ids.len())];
    convs.switch_to(next, false)
}

/// How a background chat's result is labelled.
pub open spec fn background_label(kind: ConversationKind) -> Seq<char> {
    if kind == ConversationKind::SubAgent {
        "🤖 sub-agent"@
    } else {
        "◈ btw"@
    }
}

/// The answer of a background chat: its last assistant message, trimmed,
/// or `(no answer)` when there is none or it is empty.
pub open spec fn background_answer(h: Seq<MessageView>) -> Seq<char> {
    match last_assistant(h) {
        Some(i) => if trim(h[i].content).len() > 0 {
            trim(h[i].content)
        } else {
            "(no answer)"@
        },
        None => "(no answer)"@,
    }
}

/// The block a finished background chat leaves: its label and title, then
/// its error or its answer.
pub open spec fn result_block(c: Conversation, error: Option<String>) -> Seq<char> {
    let head = background_label(c.kind) + " — "@ + c.title@;
    match error {
        Some(e) => head + "\n\n⚠ "@ + e@,
        None => head + "\n\n"@ + background_answer(c.history()),
    }
}

/// The note the focused chat gets when the result went to another chat.
pub open spec fn elsewhere_note(c: Conversation) -> Seq<char> {
    background_label(c.kind) + " finished in another chat — "@ + c.title@
}

fn label_text(kind: ConversationKind) -> (s: String)
    ensures
        s@ == background_label(kind),
{
    if kind == ConversationKind::SubAgent {
        "🤖 sub-agent".to_owned()
    } else {
        "◈ btw".to_owned()
    }
}

/// The block a finished background chat leaves.
pub fn result_block_text(c: &Conversation, error: Option<String>) -> (s: String)
    ensures
        s@ == result_block(*c, error),
{
    let mut s = label_text(c.kind);
    s.append(" — ");
    s.append(c.title.as_str());
    match error {
        Some(e) => {
            s.append("\n\n⚠ ");
            s.append(e.as_str());
        },
        None => {
            s.append("\n\n");
            let ghost h = c.history();
            let found = find_last_assistant(&c.messages);
            match found {
                Some(i) => {
                    let t = trimmed(c.messages[i].content.as_str());
                    if t.as_str().unicode_len() > 0 {
                        s.append(t.as_str());
                    } else {
                        s.append("(no answer)");
                    }
                },
                None => {
                    s.append("(no answer)");
                },
            }
        },
    }
    s
}

/// Remove a finished background chat and fold its result into the chat
/// that spawned it: when that chat is open but not on screen, the block
/// goes there and the focused chat gets a short note; otherwise the block
/// goes to the focused chat. Returns the removed chat, for the caller to
/// drop its remote session and save.
pub fn finish_background(convs: &mut Conversations, target: ConversationId, error: Option<String>) -> (r: Option<Conversation>)
    ensures
        first_with_id(old(convs).all(), target, 0) is None ==> r is None && final(convs).all() == old(
            convs,
        ).all() && final(convs).focus() == old(convs).focus(),
        first_with_id(old(convs).all(), target, 0) matches Some(p) ==> ({
            let c = old(convs).all()[p];
            let rest = old(convs).all().remove(p);
            let block = plain(Role::System, result_block(c, error));
            &&& r == Some(c)
            &&& if old(convs).focus() == target && rest.len() > 0 {
                is_lowest_id(rest, final(convs).focus())
            } else {
                final(convs).focus() == old(convs).focus()
            }
            &&& if c.parent is Some && c.parent->0 != final(convs).focus() && holds_id(rest, c.parent->0) {
                exists|mid: Seq<Conversation>|
                    delivered(rest, mid, c.parent->0, block) && #[trigger] delivered(
                        mid,
                        final(convs).all(),
                        final(convs).focus(),
                        plain(Role::System, elsewhere_note(c)),
                    )
            } else {
                delivered(rest, final(convs).all(), final(convs).focus(), block)
            }
        }),
{
    let removed = match convs.remove(target) {
        Some(c) => c,
        None => {
            return None;
        },
    };
    let block = result_block_text(&removed, error);
    let focused = convs.focused_id();
    if let Some(pid) = removed.parent {
        if pid != focused && convs.contains(pid) {
            convs.deliver(pid, ChatMessage::system(block.as_str()));
            let ghost mid = convs.all();
            let mut note = label_text(removed.kind);
            note.append(" finished in another chat — ");
            note.append(removed.title.as_str());
            convs.deliver(focused, ChatMessage::system(note.as_str()));
            assert(delivered(mid, convs.all(), focused, plain(Role::System, elsewhere_note(removed))));
            return Some(removed);
        }
    }
    convs.deliver(focused, ChatMessage::system(block.as_str()));
    Some(removed)
}


/// The status line after a compaction of `c` came back with `rebuilt`
/// (`None` when it produced nothing): the run's own `status`, unless it was
/// cancelled, the history shrank under it, or newer messages were kept.
pub open spec fn compaction_status(
    compacting: Option<usize>,
    len: nat,
    rebuilt: bool,
    status: Seq<char>,
) -> Seq<char> {
    match compacting {
        None => "Compaction dropped: it was cancelled."@,
        Some(base) => if !rebuilt {
            status
        } else if base > len {
            "Compaction dropped: this chat's history changed while it ran."@
        } else if len - base == 0 {
            status
        } else {
            status + "; kept "@ + decimal((len - base) as nat) + " newer message(s)"@
        },
    }
}

/// Take a finished compaction of `c`: release its busy state, swap in the
/// rebuilt history when the run still holds its claim and the history has
/// not shrunk (refreshing the context indicator to `tokens_after`, the
/// token count of the history after that swap), and say how it went.
pub fn finish_compaction(
    c: &mut Conversation,
    rebuilt: Option<Vec<ChatMessage>>,
    tokens_after: u32,
    status: String,
) -> (s: String)
    ensures
        s@ == compaction_status(old(c).compacting, old(c).messages@.len(), rebuilt is Some, status@),
        final(c).compacting is None,
        final(c).generation.active == (old(c).generation.active && old(c).compacting is None),
        same_fields(*final(c), Conversation { context_used: final(c).context_used, ..*old(c) }),
        ({
            match (old(c).compacting, rebuilt) {
                (Some(base), Some(r)) => if base <= old(c).messages@.len() {
                    final(c).messages@ == r@ + old(c).messages@.skip(base as int)
                        && final(c).context_used == tokens_after
                } else {
                    final(c).messages@ == old(c).messages@ && final(c).context_used == old(c).context_used
                },
                _ => final(c).messages@ == old(c).messages@ && final(c).context_used == old(c).context_used,
            }
        }),
{
    let ghost len = c.messages@.len();
    match (c.end_compaction(), rebuilt) {
        (Some(base), Some(r)) => match c.swap_compacted(base, r, tokens_after) {
            Some(extra) => {
                assert(extra as int == len - base);
                assert(base <= len);
                if extra == 0 {
                    status
                } else {
                    let mut s = status;
                    s.append("; kept ");
                    push_decimal(&mut s, extra as u64);
                    s.append(" newer message(s)");
                    s
                }
            },
            None => {
                assert(base > len);
                "Compaction dropped: this chat's history changed while it ran.".to_owned()
            },
        },
        (Some(_), None) => status,
        (None, _) => "Compaction dropped: it was cancelled.".to_owned(),
    }
}

/// How a stopped background chat is named: its title, or a stand-in when
/// it has none.
pub open spec fn stopped_name(c: Conversation) -> Seq<char> {
    if c.title@.len() == 0 {
        "(background agent)"@
    } else {
        c.title@
    }
}

/// Stop a background chat: remove it and tell the focused chat. Returns
/// the removed chat, for the caller to abort its task and drop its remote
/// session.
pub fn stop_background(convs: &mut Conversations, target: ConversationId) -> (r: Option<Conversation>)
    ensures
        first_with_id(old(convs).all(), target, 0) is None ==> r is None && final(convs).all() == old(
            convs,
        ).all() && final(convs).focus() == old(convs).focus(),
        first_with_id(old(convs).all(), target, 0) matches Some(p) ==> ({
            let c = old(convs).all()[p];
            let rest = old(convs).all().remove(p);
            &&& r == Some(c)
            &&& if old(convs).focus() == target && rest.len() > 0 {
                is_lowest_id(rest, final(convs).focus())
            } else {
                final(convs).focus() == old(convs).focus()
            }
            &&& delivered(
                rest,
                final(convs).all(),
                final(convs).focus(),
                plain(Role::System, "⏹ Stopped: "@ + stopped_name(c)),
            )
        }),
{
    let removed = match convs.remove(target) {
        Some(c) => c,
        None => {
            return None;
        },
    };
    let mut note = "⏹ Stopped: ".to_owned();
    if removed.title.as_str().unicode_len() == 0 {
        note.append("(background agent)");
    } else {
        note.append(removed.title.as_str());
    }
    let focused = convs.focused_id();
    convs.deliver(focused, ChatMessage::system(note.as_str()));
    Some(removed)
}

/// The note a freshly opened chat starts with.
pub const NEW_CHAT_NOTE: &'static str = "New chat opened. /chats or Tab to switch between chats.";

/// Open a new parallel chat and focus it — not while a modal is open. It
/// starts with a note on how to switch; the returned status line says
/// whether a provider serves it. `None` when nothing was opened.
pub fn open_new_chat(
    convs: &mut Conversations,
    ids: &mut ConversationIds,
    modal_open: bool,
    has_provider: bool,
) -> (status: Option<&'static str>)
    ensures
        modal_open ==> status is None && final(convs).all() == old(convs).all() && final(convs).focus()
            == old(convs).focus() && final(ids).upcoming() == old(ids).upcoming(),
        !modal_open ==> ({
            let c = final(convs).all().last();
            &&& status == Some(if has_provider { "Ready" } else { "No provider" })
            &&& final(convs).all().len() == old(convs).all().len() + 1
            &&& final(convs).all().drop_last() == old(convs).all()
            &&& final(convs).focus() == c.id
            &&& c.id.0 == old(ids).upcoming()
            &&& c.kind == ConversationKind::Session
            &&& c.parent is None
            &&& c.history() == seq![plain(Role::System, NEW_CHAT_NOTE@)]
            &&& !c.generation.active
        }),
{
    if modal_open {
        return None;
    }
    let mut conv = Conversation::fresh_main(ids);
    conv.kind = ConversationKind::Session;
    conv.messages.push(ChatMessage::system(NEW_CHAT_NOTE));
    proof {
        assert(conv.history() =~= seq![plain(Role::System, NEW_CHAT_NOTE@)]);
    }
    let ghost before = convs.all();
    convs.open(conv);
    assert(convs.all().drop_last() =~= before);
    Some(if has_provider { "Ready" } else { "No provider" })
}


/// The record of a background chat (a side chat or a sub-agent) whose turn
/// starts now: a fresh id from `ids`, spawned by `parent`, titled `title`,
/// its history the one prompt, its generation running since `now`. The
/// caller hands it the forked provider and the task that runs the turn.
pub fn background_chat(
    ids: &mut ConversationIds,
    kind: ConversationKind,
    parent: ConversationId,
    title: String,
    prompt: &str,
    now: std::time::Instant,
) -> (c: Conversation)
    ensures
        c.id.0 == old(ids).upcoming(),
        c.kind == kind,
        c.parent == Some(parent),
        c.title == title,
        c.history() == seq![plain(Role::User, prompt@)],
        c.generation.active,
        c.generation.start_time == Some(now),
        c.compacting is None,
        c.context_used == 0,
{
    let mut c = Conversation::fresh_main(ids);
    c.kind = kind;
    c.parent = Some(parent);
    c.title = title;
    c.messages.push(ChatMessage::user(prompt));
    proof {
        assert(c.history() =~= seq![plain(Role::User, prompt@)]);
    }
    c.generation.begin(now);
    c
}

/// The step limits of a background turn: at most eight steps (and at least
/// one), and at least one tool per step.
pub fn background_limits(max_steps: usize, max_tools_per_step: usize) -> (limits: (usize, usize))
    ensures
        limits.0 == if max_steps < 1 { 1 } else if max_steps > 8 { 8 } else { max_steps },
        limits.1 == if max_tools_per_step < 1 { 1 } else { max_tools_per_step },
{
    let steps = if max_steps < 1 { 1 } else if max_steps > 8 { 8 } else { max_steps };
    let tools = if max_tools_per_step < 1 { 1 } else { max_tools_per_step };
    (steps, tools)
}

/// The note the spawning chat gets when a background chat starts.
pub fn started_note(kind: ConversationKind, title: &str) -> (s: String)
    ensures
        s@ == (if kind == ConversationKind::SubAgent {
            "🤖 sub-agent started — "@
        } else {
            "◈ btw started — "@
        }) + title@,
{
    let mut s = if kind == ConversationKind::SubAgent {
        "🤖 sub-agent started — ".to_owned()
    } else {
        "◈ btw started — ".to_owned()
    };
    s.append(title);
    s
}

} // verus!
