//! The Agent Client Protocol server: one JSON-RPC request per line on
//! stdin, one response per line on stdout. Here is what it decides and
//! remembers — which request gets which reply, and the chat history a
//! prompt is answered from; the app reads and writes the lines, frames the
//! JSON and asks the model.

use vstd::prelude::*;
use crate::provider::{ChatMessage, MessageView, Role, plain, views};
use crate::text::str_eq;

verus! {

/// The system prompt every ACP prompt is answered under.
pub const ACP_SYSTEM_PROMPT: &'static str = "You are Pooprusteek, a helpful AI coding assistant.";

/// JSON-RPC error code for a method the server does not know.
pub const METHOD_NOT_FOUND: i64 = -32601;

/// JSON-RPC error code for a failure inside the server.
pub const INTERNAL_ERROR: i64 = -32603;

/// What a request asks of the server, by its method.
#[derive(Debug, Clone, PartialEq, Eq)]
pub enum AcpReply {
    /// `initialize`: answer with the server's name, version and
    /// capabilities.
    Initialize,
    /// `initialized`: a notification, answered by nothing.
    Nothing,
    /// `prompt`: run the prompt and answer with the model's reply.
    Prompt,
    /// `ping`: answer with an empty result.
    Pong,
    /// Any other method: answer with this JSON-RPC error.
    Error { code: i64, message: String },
}

/// `r` is the reply a request with `method` gets.
pub open spec fn replies_to(r: AcpReply, method: Seq<char>) -> bool {
    if method == "initialize"@ {
        r == AcpReply::Initialize
    } else if method == "initialized"@ {
        r == AcpReply::Nothing
    } else if method == "prompt"@ {
        r == AcpReply::Prompt
    } else if method == "ping"@ {
        r == AcpReply::Pong
    } else {
        r matches AcpReply::Error { code, message } && code == METHOD_NOT_FOUND && message@
            == "Unknown method: "@ + method
    }
}

/// The reply a request with `method` gets.
pub fn route(method: &str) -> (r: AcpReply)
    ensures
        replies_to(r, method@),
{
    if str_eq(method, "initialize") {
        AcpReply::Initialize
    } else if str_eq(method, "initialized") {
        AcpReply::Nothing
    } else if str_eq(method, "prompt") {
        AcpReply::Prompt
    } else if str_eq(method, "ping") {
        AcpReply::Pong
    } else {
        let mut message = "Unknown method: ".to_owned();
        message.append(method);
        AcpReply::Error { code: METHOD_NOT_FOUND, message }
    }
}

/// The ACP session: the chat history prompts are answered from.
pub struct AcpServer {
    messages: Vec<ChatMessage>,
}

impl AcpServer {
    /// The user and assistant messages so far.
    pub closed spec fn history(&self) -> Seq<MessageView> {
        views(self.messages@)
    }

    /// A session with no history.
    pub fn new() -> (s: AcpServer)
        ensures
            s.history().len() == 0,
    {
        AcpServer { messages: Vec::new() }
    }

    /// Take a prompt: it joins the history, and the request to the model is
    /// the system prompt followed by the whole history.
    pub fn begin_prompt(&mut self, prompt: &str) -> (request: Vec<ChatMessage>)
        ensures
            final(self).history() == old(self).history().push(plain(Role::User, prompt@)),
            views(request@) == seq![plain(Role::System, ACP_SYSTEM_PROMPT@)] + final(self).history(),
    {
        let ghost before = self.messages@;
        self.messages.push(ChatMessage::user(prompt));
        assert(views(self.messages@) =~= views(before).push(plain(Role::User, prompt@)));
        let mut request: Vec<ChatMessage> = Vec::new();
        request.push(ChatMessage::system(ACP_SYSTEM_PROMPT));
        let ghost head = views(request@);
        assert(head =~= seq![plain(Role::System, ACP_SYSTEM_PROMPT@)]);
        let mut i: usize = 0;
        while i < self.messages.len()
            invariant
                i <= self.messages@.len(),
                views(request@) == head + views(self.messages@.take(i as int)),
            decreases self.messages.len() - i,
        {
            let ghost prior = request@;
            request.push(self.messages[i].duplicate());
            assert(views(request@) =~= views(prior).push(self.messages@[i as int]@));
            assert(views(self.messages@.take(i + 1)) =~= views(self.messages@.take(i as int)).push(
                self.messages@[i as int]@,
            ));
            i += 1;
        }
        assert(self.messages@.take(self.messages@.len() as int) =~= self.messages@);
        request
    }

    /// Take the model's reply to the prompt: a reply joins the history and
    /// is the answer; a failure leaves the history alone and is answered as
    /// `Error: <reason>`.
    pub fn finish_prompt(&mut self, reply: Result<String, String>) -> (text: String)
        ensures
            reply matches Ok(content) ==> final(self).history() == old(self).history().push(
                plain(Role::Assistant, content@),
            ) && text@ == content@,
            reply matches Err(error) ==> final(self).history() == old(self).history() && text@ == "Error: "@
                + error@,
    {
        match reply {
            Ok(content) => {
                let ghost before = self.messages@;
                self.messages.push(ChatMessage::assistant(content.as_str()));
                assert(views(self.messages@) =~= views(before).push(plain(Role::Assistant, content@)));
                content
            },
            Err(error) => {
                let mut text = "Error: ".to_owned();
                text.append(error.as_str());
                text
            },
        }
    }
}

} // verus!
