//! The message window an agent turn is built from: a system prompt and the
//! most recent messages, at most `max_messages` of them.

use vstd::prelude::*;
use crate::provider::{ChatMessage, Role, plain, views};

verus! {

/// The last `n` messages of `s` (all of them when there are fewer).
pub open spec fn keep_last(s: Seq<ChatMessage>, n: nat) -> Seq<ChatMessage> {
    if s.len() > n {
        s.skip(s.len() - n)
    } else {
        s
    }
}

pub struct ContextManager {
    messages: Vec<ChatMessage>,
    max_messages: usize,
    system_prompt: String,
}

impl ContextManager {
    /// The messages kept, oldest first.
    pub closed spec fn kept(&self) -> Seq<ChatMessage> {
        self.messages@
    }

    /// How many messages the window keeps at most.
    pub closed spec fn capacity(&self) -> nat {
        self.max_messages as nat
    }

    /// The system prompt, empty when there is none.
    pub closed spec fn prompt(&self) -> Seq<char> {
        self.system_prompt@
    }

    pub fn new(max_messages: usize) -> (c: ContextManager)
        ensures
            c.kept().len() == 0,
            c.capacity() == max_messages,
            c.prompt().len() == 0,
    {
        ContextManager { messages: Vec::new(), max_messages, system_prompt: String::new() }
    }

    pub fn set_system_prompt(&mut self, prompt: String)
        ensures
            final(self).prompt() == prompt@,
            final(self).kept() == old(self).kept(),
            final(self).capacity() == old(self).capacity(),
    {
        self.system_prompt = prompt;
    }

    /// Append a message, dropping the oldest ones beyond the window.
    pub fn add_message(&mut self, message: ChatMessage)
        ensures
            final(self).kept() == keep_last(old(self).kept().push(message), old(self).capacity()),
            final(self).capacity() == old(self).capacity(),
            final(self).prompt() == old(self).prompt(),
    {
        self.messages.push(message);
        self.trim();
    }

    fn trim(&mut self)
        ensures
            final(self).kept() == keep_last(old(self).kept(), old(self).capacity()),
            final(self).capacity() == old(self).capacity(),
            final(self).prompt() == old(self).prompt(),
    {
        if self.messages.len() > self.max_messages {
            let drain_count = self.messages.len() - self.max_messages;
            let kept = self.messages.split_off(drain_count);
            self.messages = kept;
        }
    }

    pub fn messages(&self) -> (m: &[ChatMessage])
        ensures
            m@ == self.kept(),
    {
        self.messages.as_slice()
    }

    /// The request history: the system prompt first (when there is one),
    /// then the kept messages.
    pub fn build_messages(&self) -> (r: Vec<ChatMessage>)
        ensures
            self.prompt().len() == 0 ==> views(r@) == views(self.kept()),
            self.prompt().len() > 0 ==> views(r@) == seq![plain(Role::System, self.prompt())] + views(
                self.kept(),
            ),
    {
        let mut result: Vec<ChatMessage> = Vec::new();
        if self.system_prompt.as_str().unicode_len() > 0 {
            result.push(ChatMessage::system(self.system_prompt.as_str()));
        }
        let ghost head = views(result@);
        assert(views(self.messages@.take(0)) =~= Seq::<crate::provider::MessageView>::empty());
        assert(views(result@) =~= head + views(self.messages@.take(0)));
        let mut i: usize = 0;
        while i < self.messages.len()
            invariant
                i <= self.messages@.len(),
                views(result@) == head + views(self.messages@.take(i as int)),
            decreases self.messages.len() - i,
        {
            let ghost before = result@;
            result.push(self.messages[i].duplicate());
            assert(self.messages@.take(i + 1) == self.messages@.take(i as int).push(self.messages@[i as int]));
            assert(views(result@) =~= views(before).push(self.messages@[i as int]@));
            assert(views(self.messages@.take(i + 1)) =~= views(self.messages@.take(i as int)).push(
                self.messages@[i as int]@,
            ));
            i += 1;
        }
        assert(self.messages@.take(self.messages@.len() as int) == self.messages@);
        proof {
            if self.system_prompt@.len() > 0 {
                assert(head =~= seq![plain(Role::System, self.prompt())]);
            } else {
                assert(head =~= Seq::<crate::provider::MessageView>::empty());
            }
        }
        result
    }

    pub fn clear(&mut self)
        ensures
            final(self).kept().len() == 0,
            final(self).capacity() == old(self).capacity(),
            final(self).prompt() == old(self).prompt(),
    {
        self.messages.clear();
    }

    pub fn len(&self) -> (n: usize)
        ensures
            n == self.kept().len(),
    {
        self.messages.len()
    }

    pub fn is_empty(&self) -> (b: bool)
        ensures
            b == (self.kept().len() == 0),
    {
        self.messages.len() == 0
    }
}

/// The window never holds more than its capacity, and the message just added
/// is always the newest one kept (unless the window holds none at all).
pub proof fn lemma_window_bounded(kept: Seq<ChatMessage>, message: ChatMessage, capacity: nat)
    ensures
        keep_last(kept.push(message), capacity).len() == if kept.len() + 1 > capacity {
            capacity
        } else {
            kept.len() + 1
        },
        capacity > 0 ==> keep_last(kept.push(message), capacity).last() == message,
        kept.len() < capacity ==> keep_last(kept.push(message), capacity) == kept.push(message),
{
}

} // verus!
