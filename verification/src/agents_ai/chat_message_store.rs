//! A message store held in memory.
use vstd::prelude::*;
use crate::agents_traits::message::ChatMessage;
use crate::agents_traits::response::{clone_messages, messages_view};

verus! {

/// In-memory store of chat messages
#[derive(Debug)]
pub struct InMemoryChatMessageStore {
    messages: Vec<ChatMessage>,
}

impl View for InMemoryChatMessageStore {
    type V = Seq<ChatMessage>;

    closed spec fn view(&self) -> Seq<ChatMessage> {
        self.messages@
    }
}

impl InMemoryChatMessageStore {
    /// Create a new empty message store
    pub fn new() -> (r: Self)
        ensures
            r@.len() == 0,
    {
        InMemoryChatMessageStore { messages: Vec::new() }
    }

    /// A store holding `messages`, as the deserialized state gives them.
    pub fn from_messages(messages: Vec<ChatMessage>) -> (r: Self)
        ensures
            r@ == messages@,
    {
        InMemoryChatMessageStore { messages }
    }

    /// Get the messages
    pub fn messages(&self) -> (r: &[ChatMessage])
        ensures
            r@ == self@,
    {
        self.messages.as_slice()
    }

    /// Add messages to the store, in order
    pub fn add_messages(&mut self, messages: Vec<ChatMessage>)
        ensures
            final(self)@ == old(self)@ + messages@,
    {
        let mut messages = messages;
        self.messages.append(&mut messages);
    }

    /// Get copies of all messages of the store
    pub fn get_messages(&self) -> (r: Vec<ChatMessage>)
        ensures
            messages_view(r@) == messages_view(self@),
    {
        clone_messages(&self.messages)
    }

    /// Clear all messages from the store
    pub fn clear(&mut self)
        ensures
            final(self)@.len() == 0,
    {
        self.messages.clear();
    }
}

impl Default for InMemoryChatMessageStore {
    fn default() -> (r: Self)
        ensures
            r@.len() == 0,
    {
        Self::new()
    }
}

impl Clone for InMemoryChatMessageStore {
    fn clone(&self) -> (r: Self)
        ensures
            messages_view(r@) == messages_view(self@),
    {
        InMemoryChatMessageStore { messages: clone_messages(&self.messages) }
    }
}

} // verus!
