//! The cross-layer event vocabulary that the verified core speaks: what
//! happens inside an agent turn, goal-mode stages and verdicts, and the
//! screens the app can show.

use vstd::prelude::*;
use crate::provider::{ChatMessage, ToolCall};

verus! {

/// Where the goal-mode worker/evaluator loop stands.
#[derive(Debug, Clone, Copy, PartialEq, Eq, Structural, Default)]
pub enum GoalStage {
    #[default]
    Inactive,
    WaitForGoal,
    RunAgent1,
    RunEvaluator,
    Done,
}

/// The evaluator's judgement of one worker attempt.
#[derive(Debug, Clone)]
pub struct GoalVerdict {
    pub success: bool,
    pub summary: String,
    pub issues: String,
    pub feedback: String,
}

/// What the spawned goal-evaluator task reports back to the event loop.
/// Carries the evaluator's own messages so the verdict handler can persist the
/// evaluation session under the (possibly swapped) evaluator session id.
#[derive(Debug, Clone)]
pub enum GoalEvalOutcome {
    Verdict { verdict: GoalVerdict, eval_messages: Vec<ChatMessage> },
    Failed(String),
}

/// What a finished turn produced: its final text and the tools it ran.
#[derive(Debug, Clone)]
pub struct AgentResult {
    pub text: String,
    pub tool_calls: Vec<ToolCallInfo>,
}

/// One tool the turn ran: its name, the JSON text of its arguments and its
/// output, when it produced one.
#[derive(Debug, Clone)]
pub struct ToolCallInfo {
    pub name: String,
    pub arguments: String,
    pub result: Option<String>,
}

/// What happened inside one agent turn. Three consumers read these: the
/// focused chat, a background chat and the headless harness.
#[derive(Debug, Clone)]
pub enum AgentEvent {
    /// The turn started.
    Started,
    /// Open an empty assistant message for the stream.
    BeginAssistantMessage,
    /// A piece of the stream, for the open message.
    Chunk(String),
    /// A finished message for the history (a tool result, a system note).
    Message(ChatMessage),
    /// Close the assistant message: attach the calls it declared, and drop
    /// it only when neither text nor calls are left.
    EndAssistantMessage { tool_calls: Vec<ToolCall> },
    /// Drop an assistant message that never got text.
    DiscardEmptyAssistant,
    /// The turn finished.
    Done(AgentResult),
    /// The turn broke off.
    Failed(String),
    /// A tool call started.
    ToolStarted { name: String },
    ToolDone { result: String },
    ToolError { error: String },
    /// Old tool bodies were cleared in the turn's copy of the history; each
    /// consumer applies the same edit: (call id, marker) per cleared result.
    ToolOutputCleared { cleared: Vec<(String, String)>, freed_tokens: u32 },
    /// The server-side session was reset: the next request seeds a new one
    /// with the cleared history.
    SessionReset { before_tokens: u32, after_tokens: u32 },
    /// How full the window was for the request just sent.
    ContextUsage(u32),
}

/// The screen on display.
#[derive(Debug, Clone, Copy, PartialEq, Eq, Structural)]
pub enum View {
    Chat,
    Mcp,
    Onboarding,
    /// `/providers` — the provider-management panel.
    Providers,
    /// `/search` — the history-search screen.
    Search,
    /// `/themes` — the theme gallery + create wizard.
    Themes,
}

} // verus!
