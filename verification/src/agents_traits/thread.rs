//! Conversation threads held in memory.
use vstd::prelude::*;
use crate::agents_traits::message::ChatMessage;
use crate::agents_traits::response::{clone_message_slice, clone_messages, messages_view};

verus! {

/// Default thread that stores messages in memory
#[derive(Debug)]
pub struct InMemoryThread {
    /// The conversation history
    pub messages: Vec<ChatMessage>,
}

impl InMemoryThread {
    /// Create a new empty thread
    pub fn new() -> (r: Self)
        ensures
            r.messages@.len() == 0,
    {
        InMemoryThread { messages: Vec::new() }
    }

    /// Get all messages
    pub fn messages(&self) -> (r: &[ChatMessage])
        ensures
            r@ == self.messages@,
    {
        self.messages.as_slice()
    }

    /// Add a message to the thread
    pub fn add_message(&mut self, message: ChatMessage)
        ensures
            final(self).messages@ == old(self).messages@.push(message),
    {
        self.messages.push(message);
    }

    /// Add multiple messages to the thread, in order
    pub fn add_messages(&mut self, messages: Vec<ChatMessage>)
        ensures
            final(self).messages@ == old(self).messages@ + messages@,
    {
        let mut messages = messages;
        self.messages.append(&mut messages);
    }

    /// Clear all messages
    pub fn clear(&mut self)
        ensures
            final(self).messages@.len() == 0,
    {
        self.messages.clear();
    }

    /// Called when new messages have been contributed to the chat: copies of
    /// them are added, in order.
    pub fn messages_received(&mut self, new_messages: &[ChatMessage])
        ensures
            messages_view(final(self).messages@) == messages_view(old(self).messages@) + messages_view(new_messages@),
    {
        let copies = clone_message_slice(new_messages);
        let ghost before = self.messages@;
        self.add_messages(copies);
        assert(messages_view(self.messages@) =~= messages_view(before) + messages_view(new_messages@));
    }
}

impl Default for InMemoryThread {
    fn default() -> (r: Self)
        ensures
            r.messages@.len() == 0,
    {
        Self::new()
    }
}

impl Clone for InMemoryThread {
    fn clone(&self) -> (r: Self)
        ensures
            messages_view(r.messages@) == messages_view(self.messages@),
    {
        InMemoryThread { messages: clone_messages(&self.messages) }
    }
}

} // verus!
