//! The chat vocabulary shared with the model providers: who said a message,
//! what it says, which tools it asked for and which call a tool result
//! answers.

use vstd::prelude::*;
use crate::session::create_session_id;

verus! {

/// Author of a chat message.
#[derive(Debug, Clone, Copy, PartialEq, Eq, Structural)]
pub enum Role {
    System,
    User,
    Assistant,
    Tool,
}

/// A tool call an assistant message declares. The arguments are kept as the
/// JSON text the model wrote; nothing here reads inside them.
#[derive(Debug, Clone, PartialEq)]
pub struct ToolCall {
    pub id: String,
    pub name: String,
    pub arguments: String,
}

impl ToolCall {
    /// A call with a fresh random id (a version-4 UUID).
    pub fn new(name: &str, arguments: String) -> (c: ToolCall)
        ensures
            c.name@ == name@,
            c.arguments == arguments,
            c.id@.len() == 36,
    {
        ToolCall { id: create_session_id(), name: name.to_owned(), arguments }
    }

    /// A copy of this call, field for field.
    pub fn duplicate(&self) -> (c: ToolCall)
        ensures
            c == *self,
    {
        ToolCall { id: self.id.clone(), name: self.name.clone(), arguments: self.arguments.clone() }
    }
}

/// What a message is, as the specifications see it.
pub struct MessageView {
    pub role: Role,
    pub content: Seq<char>,
    pub tool_calls: Seq<ToolCall>,
    pub tool_call_id: Option<Seq<char>>,
    pub tool_name: Option<Seq<char>>,
    pub display: Option<Seq<char>>,
    pub is_error: bool,
    pub ui_only: bool,
}

/// One message of a conversation. A tool result names the call it answers
/// (`tool_call_id`) and may carry a shorter text for the transcript
/// (`display`); a `ui_only` message is shown to the user and never sent to
/// the model.
#[derive(Debug, Clone, PartialEq)]
pub struct ChatMessage {
    pub role: Role,
    pub content: String,
    pub tool_calls: Vec<ToolCall>,
    pub tool_call_id: Option<String>,
    pub tool_name: Option<String>,
    pub display: Option<String>,
    pub is_error: bool,
    pub ui_only: bool,
}

impl View for ChatMessage {
    type V = MessageView;

    open spec fn view(&self) -> MessageView {
        MessageView {
            role: self.role,
            content: self.content@,
            tool_calls: self.tool_calls@,
            tool_call_id: self.tool_call_id.deep_view(),
            tool_name: self.tool_name.deep_view(),
            display: self.display.deep_view(),
            is_error: self.is_error,
            ui_only: self.ui_only,
        }
    }
}

/// A message of `role` saying `content` and nothing else.
pub open spec fn plain(role: Role, content: Seq<char>) -> MessageView {
    MessageView {
        role,
        content,
        tool_calls: Seq::empty(),
        tool_call_id: None,
        tool_name: None,
        display: None,
        is_error: false,
        ui_only: false,
    }
}

/// A tool result answering call `id` of tool `name`.
pub open spec fn tool_result(
    id: Seq<char>,
    name: Option<Seq<char>>,
    content: Seq<char>,
    display: Option<Seq<char>>,
    is_error: bool,
) -> MessageView {
    MessageView {
        role: Role::Tool,
        content,
        tool_calls: Seq::empty(),
        tool_call_id: Some(id),
        tool_name: name,
        display,
        is_error,
        ui_only: false,
    }
}

/// The views of a sequence of messages.
pub open spec fn views(ms: Seq<ChatMessage>) -> Seq<MessageView> {
    ms.map_values(|m: ChatMessage| m@)
}

/// An owned copy of an optional text.
pub fn copy_text(t: &Option<String>) -> (r: Option<String>)
    ensures
        r == *t,
{
    match t {
        Some(s) => Some(s.clone()),
        None => None,
    }
}

/// Copies of `calls`, in order.
pub fn copy_calls(calls: &[ToolCall]) -> (r: Vec<ToolCall>)
    ensures
        r@ == calls@,
{
    let mut r: Vec<ToolCall> = Vec::new();
    let mut i: usize = 0;
    while i < calls.len()
        invariant
            i <= calls@.len(),
            r@ == calls@.take(i as int),
        decreases calls.len() - i,
    {
        r.push(calls[i].duplicate());
        assert(calls@.take(i + 1) == calls@.take(i as int).push(calls@[i as int]));
        i += 1;
    }
    assert(calls@.take(calls@.len() as int) == calls@);
    r
}

impl ChatMessage {
    fn bare(role: Role, content: &str) -> (m: ChatMessage)
        ensures
            m@ == plain(role, content@),
    {
        let m = ChatMessage {
            role,
            content: content.to_owned(),
            tool_calls: Vec::new(),
            tool_call_id: None,
            tool_name: None,
            display: None,
            is_error: false,
            ui_only: false,
        };
        assert(m@ == plain(role, content@));
        m
    }

    pub fn system(content: &str) -> (m: ChatMessage)
        ensures
            m@ == plain(Role::System, content@),
    {
        ChatMessage::bare(Role::System, content)
    }

    pub fn user(content: &str) -> (m: ChatMessage)
        ensures
            m@ == plain(Role::User, content@),
    {
        ChatMessage::bare(Role::User, content)
    }

    pub fn assistant(content: &str) -> (m: ChatMessage)
        ensures
            m@ == plain(Role::Assistant, content@),
    {
        ChatMessage::bare(Role::Assistant, content)
    }

    /// A system note for the transcript only; the model never sees it.
    pub fn ui_system(content: &str) -> (m: ChatMessage)
        ensures
            m@ == (MessageView { ui_only: true, ..plain(Role::System, content@) }),
    {
        let mut m = ChatMessage::bare(Role::System, content);
        m.ui_only = true;
        m
    }

    /// The result of tool call `tool_call_id`.
    pub fn tool(tool_call_id: &str, content: &str) -> (m: ChatMessage)
        ensures
            m@ == tool_result(tool_call_id@, None, content@, None, false),
    {
        let mut m = ChatMessage::bare(Role::Tool, content);
        m.role = Role::Tool;
        m.tool_call_id = Some(tool_call_id.to_owned());
        assert(m@ == tool_result(tool_call_id@, None, content@, None, false));
        m
    }

    /// The result of tool call `tool_call_id` of tool `tool_name`, with a
    /// shorter text for the transcript and whether the tool failed.
    pub fn tool_with_display(
        tool_call_id: &str,
        tool_name: &str,
        content: &str,
        display: &str,
        is_error: bool,
    ) -> (m: ChatMessage)
        ensures
            m@ == tool_result(tool_call_id@, Some(tool_name@), content@, Some(display@), is_error),
    {
        let mut m = ChatMessage::bare(Role::Tool, content);
        m.tool_call_id = Some(tool_call_id.to_owned());
        m.tool_name = Some(tool_name.to_owned());
        m.display = Some(display.to_owned());
        m.is_error = is_error;
        assert(m@ == tool_result(tool_call_id@, Some(tool_name@), content@, Some(display@), is_error));
        m
    }

    /// A copy of this message, field for field.
    pub fn duplicate(&self) -> (m: ChatMessage)
        ensures
            m@ == self@,
    {
        ChatMessage {
            role: self.role,
            content: self.content.clone(),
            tool_calls: copy_calls(self.tool_calls.as_slice()),
            tool_call_id: copy_text(&self.tool_call_id),
            tool_name: copy_text(&self.tool_name),
            display: copy_text(&self.display),
            is_error: self.is_error,
            ui_only: self.ui_only,
        }
    }
}

} // verus!
