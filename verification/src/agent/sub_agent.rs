//! The decisions of a headless sub-agent run: a loop of steps on a forked
//! provider that hands back only its final text. The loop itself (the
//! provider, the tools) lives with the app; after each step it asks here
//! what the reply means, and at the end what the run's answer is.

use vstd::prelude::*;
use crate::agent::retry::{MAX_EMPTY_RESPONSE_RETRIES, MAX_MALFORMED_TOOL_RETRIES, RetryBudget};
use crate::agent::trace::join;
use crate::agent::tools_step::{QUESTION_TOOL_NAME, TASK_TOOL_NAME};
use crate::agent::runner::EMPTY_RESPONSE_FEEDBACK;
use crate::agent::tools_step::{malformed_feedback_spec, malformed_tool_feedback};
use crate::provider::{ChatMessage, MessageView, Role, plain, views};
use crate::text::{str_eq, strings_view, trim, trimmed};

verus! {

/// What a sub-agent step's reply means for the run.
#[derive(Debug, PartialEq, Eq)]
pub enum SubAgentStep {
    /// The run is over with this answer or error.
    Return(Result<String, String>),
    /// Retry a broken tool call with the parse feedback.
    RetryMalformed,
    /// Retry an empty reply with the nudge.
    RetryEmpty,
    /// Run the step's tool calls.
    RunTools,
}

/// `s` is what a sub-agent step means. As in the main loop, except that
/// the run answers with the visible text itself, and a stream that merely
/// closed without its stop signal is no error here: only the final text
/// matters to the parent.
pub open spec fn sub_decided(
    s: SubAgentStep,
    timed_out: bool,
    failure: Option<String>,
    calls: nat,
    errors: Seq<Seq<char>>,
    visible: Seq<char>,
    malformed_taken: nat,
    empty_taken: nat,
) -> bool {
    if timed_out {
        s matches SubAgentStep::Return(Err(e)) && e@ == "sub-agent stream timed out"@
    } else if failure is Some {
        s == SubAgentStep::Return(Err(failure->0))
    } else if calls > 0 {
        s == SubAgentStep::RunTools
    } else if errors.len() > 0 {
        if malformed_taken < MAX_MALFORMED_TOOL_RETRIES {
            s == SubAgentStep::RetryMalformed
        } else {
            s matches SubAgentStep::Return(Err(e)) && e@ == "sub-agent kept emitting malformed tool calls: "@
                + join(errors, " | "@)
        }
    } else if visible.len() > 0 {
        s matches SubAgentStep::Return(Ok(t)) && t@ == visible
    } else if empty_taken < MAX_EMPTY_RESPONSE_RETRIES {
        s == SubAgentStep::RetryEmpty
    } else {
        s matches SubAgentStep::Return(Err(e)) && e@ == "sub-agent returned an empty reply and did nothing"@
    }
}

/// `parts` joined with `sep` between them.
pub(crate) fn join_strings(parts: &[String], sep: &str) -> (s: String)
    ensures
        s@ == join(strings_view(parts@), sep@),
{
    let mut s = String::new();
    let ghost v = strings_view(parts@);
    let mut i: usize = 0;
    while i < parts.len()
        invariant
            i <= parts@.len(),
            v == strings_view(parts@),
            s@ == join(v.take(i as int), sep@),
        decreases parts.len() - i,
    {
        if i > 0 {
            s.append(sep);
        }
        s.append(parts[i].as_str());
        proof {
            let t = v.take(i + 1);
            assert(t.drop_last() == v.take(i as int));
            assert(t.last() == parts@[i as int]@);
            if i == 0 {
                assert(join(t, sep@) == t[0]);
            }
        }
        i += 1;
    }
    assert(v.take(parts@.len() as int) == v);
    s
}

/// Decide what a sub-agent step's reply means. `failure` is the stream's
/// failure (a provider error or a failed stream task), `errors` the parse
/// diagnostics, `visible` the reply's visible text. A retry takes one
/// attempt from `budget`.
pub fn decide_sub_agent_step(
    timed_out: bool,
    failure: Option<String>,
    calls: usize,
    errors: &[String],
    visible: String,
    budget: &mut RetryBudget,
) -> (s: SubAgentStep)
    ensures
        sub_decided(
            s,
            timed_out,
            failure,
            calls as nat,
            strings_view(errors@),
            visible@,
            old(budget).malformed_taken(),
            old(budget).empty_taken(),
        ),
        final(budget).malformed_taken() == old(budget).malformed_taken() + if s is RetryMalformed {
            1nat
        } else {
            0nat
        },
        final(budget).empty_taken() == old(budget).empty_taken() + if s is RetryEmpty {
            1nat
        } else {
            0nat
        },
{
    if timed_out {
        return SubAgentStep::Return(Err("sub-agent stream timed out".to_owned()));
    }
    if let Some(error) = failure {
        return SubAgentStep::Return(Err(error));
    }
    if calls > 0 {
        return SubAgentStep::RunTools;
    }
    if errors.len() > 0 {
        return match budget.take_malformed() {
            Some(_) => SubAgentStep::RetryMalformed,
            None => {
                let mut e = "sub-agent kept emitting malformed tool calls: ".to_owned();
                let joined = join_strings(errors, " | ");
                e.append(joined.as_str());
                SubAgentStep::Return(Err(e))
            },
        };
    }
    if visible.as_str().unicode_len() > 0 {
        return SubAgentStep::Return(Ok(visible));
    }
    match budget.take_empty() {
        Some(_) => SubAgentStep::RetryEmpty,
        None => SubAgentStep::Return(Err("sub-agent returned an empty reply and did nothing".to_owned())),
    }
}

/// The text a sub-agent run that ran out of steps answers with: the last
/// assistant message with any text, trimmed. A step of tool calls alone
/// leaves an empty assistant message, so the last one is often empty.
pub open spec fn final_text_from(h: Seq<MessageView>) -> Option<Seq<char>>
    decreases h.len(),
{
    if h.len() == 0 {
        None
    } else if h.last().role == Role::Assistant && trim(h.last().content).len() > 0 {
        Some(trim(h.last().content))
    } else {
        final_text_from(h.drop_last())
    }
}

/// The answer of a run that ran out of steps: its last assistant text, or
/// an error when it never produced any.
pub fn sub_agent_final_text(messages: &[ChatMessage]) -> (r: Result<String, String>)
    ensures
        final_text_from(views(messages@)) matches Some(t) ==> (r matches Ok(s) && s@ == t),
        final_text_from(views(messages@)) is None ==> (r matches Err(e) && e@
            == "sub-agent ran out of steps without producing any text"@),
{
    let ghost h = views(messages@);
    let mut k = messages.len();
    assert(h.take(k as int) =~= h);
    while k > 0
        invariant
            k <= messages@.len(),
            h == views(messages@),
            final_text_from(h) == final_text_from(h.take(k as int)),
        decreases k,
    {
        let ghost t = h.take(k as int);
        assert(t.drop_last() =~= h.take(k - 1));
        assert(t.last() == messages@[k - 1]@);
        k -= 1;
        if messages[k].role == Role::Assistant {
            let text = trimmed(messages[k].content.as_str());
            if text.as_str().unicode_len() > 0 {
                return Ok(text);
            }
        }
    }
    assert(h.take(0) =~= Seq::<MessageView>::empty());
    Err("sub-agent ran out of steps without producing any text".to_owned())
}

/// What a sub-agent answers instead of running `name`: `task` and
/// `question` are not available inside a sub-agent (no nesting, nobody to
/// ask); `None` for every other tool.
pub fn sub_agent_refusal(name: &str) -> (r: Option<String>)
    ensures
        (name@ == TASK_TOOL_NAME@ || name@ == QUESTION_TOOL_NAME@) ==> (r matches Some(t)
            && t@ == "'"@ + name@ + "' is not available inside a sub-agent."@),
        !(name@ == TASK_TOOL_NAME@ || name@ == QUESTION_TOOL_NAME@) ==> r is None,
{
    if str_eq(name, TASK_TOOL_NAME) || str_eq(name, QUESTION_TOOL_NAME) {
        let mut t = "'".to_owned();
        t.append(name);
        t.append("' is not available inside a sub-agent.");
        Some(t)
    } else {
        None
    }
}

/// The sub-agent's history after a step meant `s`, with the step's raw
/// reply `raw`, its visible text `visible` and its parse diagnostics
/// `errors`: as in the main loop, a broken call keeps the raw reply and
/// adds the parse feedback, an empty reply adds the nudge, a step whose
/// tools run keeps the visible text, and the end of the run adds nothing.
pub open spec fn sub_history_after(
    h: Seq<MessageView>,
    s: SubAgentStep,
    raw: Seq<char>,
    visible: Seq<char>,
    errors: Seq<Seq<char>>,
) -> Seq<MessageView> {
    match s {
        SubAgentStep::RetryMalformed => h.push(plain(Role::Assistant, raw)).push(
            plain(Role::User, malformed_feedback_spec(errors)),
        ),
        SubAgentStep::RetryEmpty => h.push(plain(Role::User, EMPTY_RESPONSE_FEEDBACK@)),
        SubAgentStep::RunTools => h.push(plain(Role::Assistant, visible)),
        SubAgentStep::Return(_) => h,
    }
}

/// Make the history edit a sub-agent step calls for (see
/// [`sub_history_after`]).
pub fn apply_sub_agent_step(
    messages: &mut Vec<ChatMessage>,
    s: &SubAgentStep,
    raw: &str,
    visible: &str,
    errors: &[String],
)
    ensures
        views(final(messages)@) == sub_history_after(
            views(old(messages)@),
            *s,
            raw@,
            visible@,
            errors@.map_values(|e: String| e@),
        ),
{
    let ghost before = views(messages@);
    match s {
        SubAgentStep::RetryMalformed => {
            messages.push(ChatMessage::assistant(raw));
            let ghost mid = views(messages@);
            assert(mid =~= before.push(plain(Role::Assistant, raw@)));
            let feedback = malformed_tool_feedback(errors);
            messages.push(ChatMessage::user(feedback.as_str()));
            assert(views(messages@) =~= mid.push(plain(Role::User, feedback@)));
        },
        SubAgentStep::RetryEmpty => {
            messages.push(ChatMessage::user(EMPTY_RESPONSE_FEEDBACK));
            assert(views(messages@) =~= before.push(plain(Role::User, EMPTY_RESPONSE_FEEDBACK@)));
        },
        SubAgentStep::RunTools => {
            messages.push(ChatMessage::assistant(visible));
            assert(views(messages@) =~= before.push(plain(Role::Assistant, visible@)));
        },
        SubAgentStep::Return(_) => {},
    }
}

} // verus!
