//! Step telemetry: every log line of one agent step starts with the same
//! `conversation=… step=…/…` head. Each method returns the line — the event
//! name and the message — for the caller to write to the debug log.

use vstd::prelude::*;
use crate::agent::tool_parser::ParsedToolCall;
use crate::app::conversation::ConversationId;
use crate::text::{decimal, push_decimal};

verus! {

/// One line for the debug log.
#[derive(Debug)]
pub struct TraceLine {
    pub event: &'static str,
    pub message: String,
}

/// `"true"` or `"false"`, as `{}` prints a `bool`.
pub open spec fn bool_text(b: bool) -> Seq<char> {
    if b {
        "true"@
    } else {
        "false"@
    }
}

/// The strings of `parts` joined with `sep` between them (`[String]::join`).
pub open spec fn join(parts: Seq<Seq<char>>, sep: Seq<char>) -> Seq<char>
    decreases parts.len(),
{
    if parts.len() == 0 {
        Seq::empty()
    } else if parts.len() == 1 {
        parts[0]
    } else {
        join(parts.drop_last(), sep) + sep + parts.last()
    }
}

/// The head shared by every line of a step.
pub open spec fn head_text(conversation: u64, step: usize, max_steps: usize) -> Seq<char> {
    "conversation="@ + decimal(conversation as nat) + " step="@ + decimal(step as nat) + "/"@
        + decimal(max_steps as nat)
}

fn push_bool(s: &mut String, b: bool)
    ensures
        final(s)@ == old(s)@ + bool_text(b),
{
    if b {
        s.append("true");
    } else {
        s.append("false");
    }
}

fn push_joined(s: &mut String, parts: &[String], sep: &str)
    ensures
        final(s)@ == old(s)@ + join(parts@.map_values(|p: String| p@), sep@),
{
    let ghost views = parts@.map_values(|p: String| p@);
    let mut i: usize = 0;
    while i < parts.len()
        invariant
            i <= parts@.len(),
            views == parts@.map_values(|p: String| p@),
            s@ == old(s)@ + join(views.take(i as int), sep@),
        decreases parts.len() - i,
    {
        if i > 0 {
            s.append(sep);
        }
        s.append(parts[i].as_str());
        proof {
            let t = views.take(i + 1);
            assert(t.drop_last() == views.take(i as int));
            assert(t.last() == parts@[i as int]@);
            if i == 0 {
                assert(join(t, sep@) == t[0]);
            }
        }
        i += 1;
    }
    assert(views.take(parts@.len() as int) == views);
}

/// Telemetry of one step of a turn.
pub struct StepTrace {
    conversation: ConversationId,
    step: usize,
    max_steps: usize,
}

impl StepTrace {
    pub closed spec fn head(&self) -> Seq<char> {
        head_text(self.conversation.0, self.step, self.max_steps)
    }

    pub fn new(conversation: ConversationId, step: usize, max_steps: usize) -> (t: StepTrace)
        ensures
            t.head() == head_text(conversation.0, step, max_steps),
    {
        StepTrace { conversation, step, max_steps }
    }

    /// The shared prefix of every line of the step.
    fn head_string(&self) -> (s: String)
        ensures
            s@ == self.head(),
    {
        let mut s = "conversation=".to_owned();
        push_decimal(&mut s, self.conversation.0);
        s.append(" step=");
        push_decimal(&mut s, self.step as u64);
        s.append("/");
        push_decimal(&mut s, self.max_steps as u64);
        s
    }

    pub fn start(&self, message_count: usize) -> (l: TraceLine)
        ensures
            l.event@ == "agent.step.start"@,
            l.message@ == self.head() + " message_count="@ + decimal(message_count as nat),
    {
        let mut m = self.head_string();
        m.append(" message_count=");
        push_decimal(&mut m, message_count as u64);
        TraceLine { event: "agent.step.start", message: m }
    }

    /// Why the step failed.
    pub fn error(&self, reason: &str) -> (l: TraceLine)
        ensures
            l.event@ == "agent.step.error"@,
            l.message@ == self.head() + " "@ + reason@,
    {
        let mut m = self.head_string();
        m.append(" ");
        m.append(reason);
        TraceLine { event: "agent.step.error", message: m }
    }

    pub fn stream_closed(&self, bytes: usize) -> (l: TraceLine)
        ensures
            l.event@ == "agent.step.stream_closed"@,
            l.message@ == self.head() + " got_stop=false collected_bytes="@ + decimal(bytes as nat),
    {
        let mut m = self.head_string();
        m.append(" got_stop=false collected_bytes=");
        push_decimal(&mut m, bytes as u64);
        TraceLine { event: "agent.step.stream_closed", message: m }
    }

    /// A stream that ended without its stop signal. The same text goes to the
    /// trace and up as the turn's error.
    pub fn closed_without_stop(&self, bytes: usize) -> (l: TraceLine)
        ensures
            l.event@ == "agent.step.error"@,
            l.message@ == "Stream ended without stop signal. "@ + self.head() + " response_bytes="@
                + decimal(bytes as nat),
    {
        let mut m = "Stream ended without stop signal. ".to_owned();
        let head = self.head_string();
        m.append(head.as_str());
        m.append(" response_bytes=");
        push_decimal(&mut m, bytes as u64);
        TraceLine { event: "agent.step.error", message: m }
    }

    pub fn provider_ok(&self, bytes: usize) -> (l: TraceLine)
        ensures
            l.event@ == "agent.step.provider_ok"@,
            l.message@ == self.head() + " got_stop=true response_bytes="@ + decimal(bytes as nat),
    {
        let mut m = self.head_string();
        m.append(" got_stop=true response_bytes=");
        push_decimal(&mut m, bytes as u64);
        TraceLine { event: "agent.step.provider_ok", message: m }
    }

    /// What the step parsed out of the reply.
    pub fn parsed(&self, got_stop: bool, visible: &str, calls: &[ParsedToolCall]) -> (l: TraceLine)
        ensures
            l.event@ == "agent.step.parsed"@,
            l.message@ == self.head() + " got_stop="@ + bool_text(got_stop) + " visible_chars="@
                + decimal(visible@.len()) + " tool_calls="@ + decimal(calls@.len()),
    {
        let mut m = self.head_string();
        m.append(" got_stop=");
        push_bool(&mut m, got_stop);
        m.append(" visible_chars=");
        push_decimal(&mut m, visible.unicode_len() as u64);
        m.append(" tool_calls=");
        push_decimal(&mut m, calls.len() as u64);
        TraceLine { event: "agent.step.parsed", message: m }
    }

    pub fn salvaged(&self, error: &str, calls: usize) -> (l: TraceLine)
        ensures
            l.event@ == "agent.step.salvaged"@,
            l.message@ == self.head()
                + " reason=provider_error_with_complete_tool_call error="@ + error@
                + " tool_calls="@ + decimal(calls as nat),
    {
        let mut m = self.head_string();
        m.append(" reason=provider_error_with_complete_tool_call error=");
        m.append(error);
        m.append(" tool_calls=");
        push_decimal(&mut m, calls as u64);
        TraceLine { event: "agent.step.salvaged", message: m }
    }

    pub fn malformed(&self, attempt: u32, max: u32, errors: &[String]) -> (l: TraceLine)
        ensures
            l.event@ == "agent.step.malformed_tool_use"@,
            l.message@ == self.head() + " retry="@ + decimal(attempt as nat) + "/"@ + decimal(
                max as nat,
            ) + " errors="@ + join(errors@.map_values(|e: String| e@), " | "@),
    {
        let mut m = self.head_string();
        m.append(" retry=");
        push_decimal(&mut m, attempt as u64);
        m.append("/");
        push_decimal(&mut m, max as u64);
        m.append(" errors=");
        push_joined(&mut m, errors, " | ");
        TraceLine { event: "agent.step.malformed_tool_use", message: m }
    }

    pub fn malformed_exhausted(&self, errors: &[String]) -> (l: TraceLine)
        ensures
            l.event@ == "agent.step.malformed_tool_use_exhausted"@,
            l.message@ == self.head() + " errors="@ + join(errors@.map_values(|e: String| e@), " | "@),
    {
        let mut m = self.head_string();
        m.append(" errors=");
        push_joined(&mut m, errors, " | ");
        TraceLine { event: "agent.step.malformed_tool_use_exhausted", message: m }
    }

    pub fn empty_assistant(&self) -> (l: TraceLine)
        ensures
            l.event@ == "agent.step.empty_assistant"@,
            l.message@ == self.head() + " reason=empty_response_without_tool_calls"@,
    {
        let mut m = self.head_string();
        m.append(" reason=empty_response_without_tool_calls");
        TraceLine { event: "agent.step.empty_assistant", message: m }
    }

    pub fn empty_retry(&self, attempt: u32, max: u32) -> (l: TraceLine)
        ensures
            l.event@ == "agent.step.empty_retry"@,
            l.message@ == self.head() + " retry="@ + decimal(attempt as nat) + "/"@ + decimal(
                max as nat,
            ),
    {
        let mut m = self.head_string();
        m.append(" retry=");
        push_decimal(&mut m, attempt as u64);
        m.append("/");
        push_decimal(&mut m, max as u64);
        TraceLine { event: "agent.step.empty_retry", message: m }
    }

    pub fn tool_call(&self, index: usize, total: usize, name: &str) -> (l: TraceLine)
        ensures
            l.event@ == "agent.tool.call"@,
            l.message@ == self.head() + " index="@ + decimal(index as nat) + "/"@ + decimal(
                total as nat,
            ) + " name="@ + name@,
    {
        let mut m = self.head_string();
        m.append(" index=");
        push_decimal(&mut m, index as u64);
        m.append("/");
        push_decimal(&mut m, total as u64);
        m.append(" name=");
        m.append(name);
        TraceLine { event: "agent.tool.call", message: m }
    }

    pub fn tool_skipped(&self, name: &str) -> (l: TraceLine)
        ensures
            l.event@ == "agent.tool.skipped"@,
            l.message@ == self.head() + " name="@ + name@ + " reason=max_tools_per_step"@,
    {
        let mut m = self.head_string();
        m.append(" name=");
        m.append(name);
        m.append(" reason=max_tools_per_step");
        TraceLine { event: "agent.tool.skipped", message: m }
    }

    pub fn tool_result(&self, name: &str, is_error: bool, result: &str, preview: &str) -> (l: TraceLine)
        ensures
            l.event@ == "agent.tool.result"@,
            l.message@ == self.head() + " name="@ + name@ + " is_error="@ + bool_text(is_error)
                + " result_chars="@ + decimal(result@.len()) + " preview="@ + preview@,
    {
        let mut m = self.head_string();
        m.append(" name=");
        m.append(name);
        m.append(" is_error=");
        push_bool(&mut m, is_error);
        m.append(" result_chars=");
        push_decimal(&mut m, result.unicode_len() as u64);
        m.append(" preview=");
        m.append(preview);
        TraceLine { event: "agent.tool.result", message: m }
    }

    pub fn turn_done(&self, visible: &str, total_calls: usize) -> (l: TraceLine)
        ensures
            l.event@ == "agent.turn.done"@,
            l.message@ == self.head() + " status=success text_chars="@ + decimal(visible@.len())
                + " tool_calls_total="@ + decimal(total_calls as nat),
    {
        let mut m = self.head_string();
        m.append(" status=success text_chars=");
        push_decimal(&mut m, visible.unicode_len() as u64);
        m.append(" tool_calls_total=");
        push_decimal(&mut m, total_calls as u64);
        TraceLine { event: "agent.turn.done", message: m }
    }

    pub fn turn_error(&self, status: &str) -> (l: TraceLine)
        ensures
            l.event@ == "agent.turn.error"@,
            l.message@ == self.head() + " "@ + status@,
    {
        let mut m = self.head_string();
        m.append(" ");
        m.append(status);
        TraceLine { event: "agent.turn.error", message: m }
    }
}

/// The turn ran out of steps — outside any step, so without the step head.
pub fn turn_out_of_steps(conversation: ConversationId, max_steps: usize, total_calls: usize) -> (l: TraceLine)
    ensures
        l.event@ == "agent.turn.error"@,
        l.message@ == "conversation="@ + decimal(conversation.0 as nat)
            + " status=max_steps_exceeded max_steps="@ + decimal(max_steps as nat)
            + " tool_calls_total="@ + decimal(total_calls as nat),
{
    let mut m = "conversation=".to_owned();
    push_decimal(&mut m, conversation.0);
    m.append(" status=max_steps_exceeded max_steps=");
    push_decimal(&mut m, max_steps as u64);
    m.append(" tool_calls_total=");
    push_decimal(&mut m, total_calls as u64);
    TraceLine { event: "agent.turn.error", message: m }
}

} // verus!
