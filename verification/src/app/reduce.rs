//! The one place where an agent-turn event changes a conversation's
//! history, and who owns the tail of a finished turn: the chat on screen, a
//! side chat folding back into its parent, or nobody.

use vstd::prelude::*;
use crate::app::conversation::{
    Conversation, appended, begun, cleared, discarded, ended, same_generation, same_record, settled,
};
use crate::app::events::AgentEvent;
use crate::app::generation::now;
use crate::provider::MessageView;

verus! {

/// How a turn ended. What to do next is up to the caller: the focused chat
/// saves its session and advances goal mode, a background chat folds into
/// its parent, the headless harness closes its run.
#[derive(Debug, Clone, PartialEq, Eq)]
pub enum TurnEnd {
    Done,
    Failed(String),
}

/// Whose tail the end of a turn is. The three cases are easy to confuse,
/// hence the decision stands apart.
#[derive(Debug, Clone, PartialEq, Eq)]
pub enum TurnTail {
    /// A side chat (`/btw`, sub-agent) folds into its parent, with the error
    /// when it failed.
    Background(Option<String>),
    /// The chat on screen: stats, autosave, the goal step.
    Focused(TurnEnd),
    /// The turn did not end, or it is a parallel chat off screen: it updated
    /// its history, and the tail is not its own.
    Unowned,
}

/// The tail for a turn that ended with `end` in a chat that is (or is not)
/// focused and (or is not) a background chat.
pub open spec fn turn_tail_spec(end: Option<TurnEnd>, focused: bool, background: bool) -> TurnTail {
    match end {
        None => TurnTail::Unowned,
        Some(TurnEnd::Done) => if background {
            TurnTail::Background(None)
        } else if !focused {
            TurnTail::Unowned
        } else {
            TurnTail::Focused(TurnEnd::Done)
        },
        Some(TurnEnd::Failed(error)) => if background {
            TurnTail::Background(Some(error))
        } else if !focused {
            TurnTail::Unowned
        } else {
            TurnTail::Focused(TurnEnd::Failed(error))
        },
    }
}

/// Sort the end of a turn by whose it is.
pub fn turn_tail(end: Option<TurnEnd>, focused: bool, background: bool) -> (t: TurnTail)
    ensures
        t == turn_tail_spec(end, focused, background),
{
    match end {
        None => TurnTail::Unowned,
        Some(TurnEnd::Done) => {
            if background {
                TurnTail::Background(None)
            } else if !focused {
                TurnTail::Unowned
            } else {
                TurnTail::Focused(TurnEnd::Done)
            }
        },
        Some(TurnEnd::Failed(error)) => {
            if background {
                TurnTail::Background(Some(error))
            } else if !focused {
                TurnTail::Unowned
            } else {
                TurnTail::Focused(TurnEnd::Failed(error))
            }
        },
    }
}

/// A background chat always folds its result into its parent, focused or
/// not; a foreground chat keeps its own tail only when it is on screen; an
/// unfinished turn has no tail.
pub proof fn lemma_tail_owners(end: Option<TurnEnd>, focused: bool, background: bool)
    ensures
        end is None ==> turn_tail_spec(end, focused, background) is Unowned,
        end is Some && background ==> turn_tail_spec(end, focused, background) is Background,
        end is Some && !background && focused ==> turn_tail_spec(end, focused, background)
            == TurnTail::Focused(end->0),
        end is Some && !background && !focused ==> turn_tail_spec(end, focused, background) is Unowned,
{
}

/// How `event` ends the turn: only a finished or a failed turn ends.
pub open spec fn turn_end_spec(event: AgentEvent) -> Option<TurnEnd> {
    match event {
        AgentEvent::Done(_) => Some(TurnEnd::Done),
        AgentEvent::Failed(error) => Some(TurnEnd::Failed(error)),
        _ => None,
    }
}

/// How the turn ended, without touching any history. For a consumer that
/// does not own the conversation and only counts the turns still open.
pub fn turn_end(event: &AgentEvent) -> (end: Option<TurnEnd>)
    ensures
        end == turn_end_spec(*event),
{
    match event {
        AgentEvent::Done(_) => Some(TurnEnd::Done),
        AgentEvent::Failed(error) => Some(TurnEnd::Failed(error.clone())),
        AgentEvent::Started
        | AgentEvent::BeginAssistantMessage
        | AgentEvent::Chunk(_)
        | AgentEvent::Message(_)
        | AgentEvent::EndAssistantMessage { .. }
        | AgentEvent::DiscardEmptyAssistant
        | AgentEvent::ToolStarted { .. }
        | AgentEvent::ToolDone { .. }
        | AgentEvent::ToolError { .. }
        | AgentEvent::ToolOutputCleared { .. }
        | AgentEvent::SessionReset { .. }
        | AgentEvent::ContextUsage(_) => None,
    }
}

/// Events that only feed the status line and telemetry.
pub open spec fn status_only(event: AgentEvent) -> bool {
    match event {
        AgentEvent::ToolStarted { .. }
        | AgentEvent::ToolDone { .. }
        | AgentEvent::ToolError { .. }
        | AgentEvent::SessionReset { .. } => true,
        _ => false,
    }
}

/// The history after `event`.
pub open spec fn history_after(h: Seq<MessageView>, event: AgentEvent) -> Seq<MessageView> {
    match event {
        AgentEvent::BeginAssistantMessage => begun(h),
        AgentEvent::Chunk(text) => appended(h, text@),
        AgentEvent::Message(message) => h.push(message@),
        AgentEvent::EndAssistantMessage { tool_calls } => ended(h, tool_calls@),
        AgentEvent::DiscardEmptyAssistant => discarded(h),
        AgentEvent::ToolOutputCleared { cleared: pairs, .. } => cleared(h, pairs@),
        AgentEvent::Done(_) => settled(discarded(h)),
        AgentEvent::Failed(_) => settled(discarded(h)),
        _ => h,
    }
}

/// Apply `event` to `conversation`. Returns `Some` only on a terminal
/// event, which is what the caller branches on.
pub fn apply(conversation: &mut Conversation, event: &AgentEvent) -> (end: Option<TurnEnd>)
    ensures
        end == turn_end_spec(*event),
        final(conversation).history() == history_after(old(conversation).history(), *event),
        status_only(*event) ==> *final(conversation) == *old(conversation),
        event matches AgentEvent::ContextUsage(used) ==> final(conversation).context_used == used,
        !(*event is ContextUsage) ==> final(conversation).context_used == old(conversation).context_used,
        same_record(
            *final(conversation),
            Conversation { context_used: final(conversation).context_used, ..*old(conversation) },
        ),
        *event is Started ==> final(conversation).generation.active
            && final(conversation).generation.start_time is Some,
        *event is Done ==> !final(conversation).generation.active
            && final(conversation).generation.last_status.deep_view() == Some("FINISHED"@),
        *event is Failed ==> !final(conversation).generation.active
            && final(conversation).generation.last_status.deep_view() == Some("ABORTED"@),
        !(*event is Started || *event is Done || *event is Failed) ==> same_generation(
            final(conversation).generation,
            old(conversation).generation,
        ),
{
    match event {
        AgentEvent::Started => {
            conversation.generation.begin(now());
            None
        },
        AgentEvent::BeginAssistantMessage => {
            conversation.begin_assistant_message();
            None
        },
        AgentEvent::Chunk(text) => {
            conversation.append_chunk(text.as_str());
            None
        },
        AgentEvent::Message(message) => {
            let ghost before = conversation.messages@;
            conversation.messages.push(message.duplicate());
            proof {
                assert(conversation.history() =~= crate::provider::views(before).push(message@));
            }
            None
        },
        AgentEvent::EndAssistantMessage { tool_calls } => {
            conversation.end_assistant_message(tool_calls.as_slice());
            None
        },
        AgentEvent::DiscardEmptyAssistant => {
            conversation.discard_empty_assistant();
            None
        },
        AgentEvent::ContextUsage(used) => {
            conversation.context_used = *used;
            None
        },
        AgentEvent::ToolOutputCleared { cleared: pairs, .. } => {
            conversation.clear_tool_output(pairs.as_slice());
            None
        },
        AgentEvent::Done(_) => {
            conversation.finish_turn("FINISHED");
            turn_end(event)
        },
        AgentEvent::Failed(_) => {
            conversation.finish_turn("ABORTED");
            turn_end(event)
        },
        AgentEvent::ToolStarted { .. }
        | AgentEvent::ToolDone { .. }
        | AgentEvent::ToolError { .. }
        | AgentEvent::SessionReset { .. } => None,
    }
}

/// What the goal cycle does after a turn of the focused chat ends.
#[derive(Debug, Clone, PartialEq, Eq)]
pub enum GoalFollowup {
    /// The turn finished: the cycle may take its next step.
    Advance,
    /// The turn failed mid-cycle: stop the cycle with this notice, or goal
    /// mode would stay "running" with nothing running.
    Stop(String),
    /// The turn failed and no cycle runs.
    Nothing,
}

/// What the goal cycle does after the focused chat's turn ended with `end`;
/// `goal_running` says a cycle is under way.
pub fn goal_followup(end: &TurnEnd, goal_running: bool) -> (f: GoalFollowup)
    ensures
        *end == TurnEnd::Done ==> f == GoalFollowup::Advance,
        end matches TurnEnd::Failed(e) ==> (if goal_running {
            f matches GoalFollowup::Stop(notice)
                && notice@ == "⚠ Goal cycle stopped after an error: "@ + e@ + ". Use /goal to retry."@
        } else {
            f == GoalFollowup::Nothing
        }),
{
    match end {
        TurnEnd::Done => GoalFollowup::Advance,
        TurnEnd::Failed(error) => {
            if goal_running {
                let mut notice = "⚠ Goal cycle stopped after an error: ".to_owned();
                notice.append(error.as_str());
                notice.append(". Use /goal to retry.");
                GoalFollowup::Stop(notice)
            } else {
                GoalFollowup::Nothing
            }
        },
    }
}

} // verus!
