//! The thread of a chat-client agent: a server-side conversation id, or a
//! local store of messages.
use vstd::prelude::*;
use crate::agents_ai::chat_message_store::InMemoryChatMessageStore;
use crate::agents_traits::error::AgentError;
use crate::agents_traits::message::ChatMessage;
use crate::agents_traits::response::{clone_message_slice, messages_view};

verus! {

/// Thread implementation for a chat-client agent
#[derive(Debug)]
pub struct ChatClientAgentThread {
    /// Optional conversation ID for server-managed threads
    conversation_id: Option<String>,
    /// Message store for client-managed threads
    message_store: Option<InMemoryChatMessageStore>,
}

/// A thread as the contracts see it: its conversation id, and the messages
/// of its store when it has one.
pub struct ThreadView {
    pub conversation_id: Option<Seq<char>>,
    pub store: Option<Seq<ChatMessage>>,
}

impl View for ChatClientAgentThread {
    type V = ThreadView;

    closed spec fn view(&self) -> ThreadView {
        ThreadView {
            conversation_id: match self.conversation_id {
                Some(c) => Some(c@),
                None => None,
            },
            store: match self.message_store {
                Some(s) => Some(s@),
                None => None,
            },
        }
    }
}

impl ChatClientAgentThread {
    /// Create a new thread with an empty local store
    pub fn new() -> (r: Self)
        ensures
            r@.conversation_id is None,
            r@.store == Some(Seq::<ChatMessage>::empty()),
    {
        let store = InMemoryChatMessageStore::new();
        let r = ChatClientAgentThread { conversation_id: None, message_store: Some(store) };
        assert(r@.store->0 =~= Seq::<ChatMessage>::empty());
        r
    }

    /// A thread from its serialized state: a conversation id makes a
    /// server-managed thread without a store; otherwise the stored messages,
    /// or an empty store, make a client-managed one.
    pub fn from_state(conversation_id: Option<String>, store_state: Option<InMemoryChatMessageStore>) -> (r: Self)
        ensures
            match conversation_id {
                Some(c) => r@.conversation_id == Some(c@) && r@.store is None,
                None => r@.conversation_id is None && r@.store == Some(
                    match store_state {
                        Some(s) => s@,
                        None => Seq::<ChatMessage>::empty(),
                    },
                ),
            },
    {
        if let Some(conversation_id) = conversation_id {
            return ChatClientAgentThread { conversation_id: Some(conversation_id), message_store: None };
        }
        let message_store = match store_state {
            Some(s) => s,
            None => InMemoryChatMessageStore::new(),
        };
        let r = ChatClientAgentThread { conversation_id: None, message_store: Some(message_store) };
        proof {
            if store_state is None {
                assert(r@.store->0 =~= Seq::<ChatMessage>::empty());
            }
        }
        r
    }

    /// Get the conversation ID (for server-managed threads)
    pub fn conversation_id(&self) -> (r: Option<&str>)
        ensures
            match r {
                Some(s) => self@.conversation_id == Some(s@),
                None => self@.conversation_id is None,
            },
    {
        match &self.conversation_id {
            Some(c) => Some(c.as_str()),
            None => None,
        }
    }

    /// The local message store, if the thread has one.
    pub fn message_store(&self) -> (r: Option<&InMemoryChatMessageStore>)
        ensures
            match r {
                Some(s) => self@.store == Some(s@),
                None => self@.store is None,
            },
    {
        match &self.message_store {
            Some(s) => Some(s),
            None => None,
        }
    }

    /// Set the conversation ID; refused while the thread has a message store
    pub fn set_conversation_id(&mut self, id: String) -> (r: Result<(), AgentError>)
        ensures
            match old(self)@.store {
                Some(_) => (r matches Err(AgentError::InvalidOperation(m))
                    && m@ == "Cannot set conversation ID when message store is present"@) && final(self)@ == old(self)@,
                None => r is Ok && final(self)@ == (ThreadView { conversation_id: Some(id@), store: None }),
            },
    {
        if self.message_store.is_some() {
            return Err(AgentError::InvalidOperation("Cannot set conversation ID when message store is present".to_owned()));
        }
        self.conversation_id = Some(id);
        Ok(())
    }

    /// Get copies of the messages of the store (none without a store)
    pub fn get_messages(&self) -> (r: Result<Vec<ChatMessage>, AgentError>)
        ensures
            r matches Ok(m) && messages_view(m@) == match self@.store {
                Some(s) => messages_view(s),
                None => Seq::empty(),
            },
    {
        match &self.message_store {
            Some(store) => Ok(store.get_messages()),
            None => {
                let r: Vec<ChatMessage> = Vec::new();
                assert(messages_view(r@) =~= Seq::empty());
                Ok(r)
            },
        }
    }

    /// Add messages to the store (dropped without a store)
    pub fn add_messages(&mut self, messages: Vec<ChatMessage>) -> (r: Result<(), AgentError>)
        ensures
            r is Ok,
            final(self)@ == (ThreadView {
                conversation_id: old(self)@.conversation_id,
                store: match old(self)@.store {
                    Some(s) => Some(s + messages@),
                    None => None,
                },
            }),
    {
        match &mut self.message_store {
            Some(store) => {
                store.add_messages(messages);
            },
            None => {},
        }
        Ok(())
    }

    /// Called when new messages have been contributed to the chat: copies of
    /// them go to the store, if there is one.
    pub fn messages_received(&mut self, new_messages: &[ChatMessage]) -> (r: Result<(), AgentError>)
        ensures
            r is Ok,
            final(self)@.conversation_id == old(self)@.conversation_id,
            match old(self)@.store {
                Some(s) => final(self)@.store matches Some(t) && messages_view(t) == messages_view(s) + messages_view(
                    new_messages@,
                ),
                None => final(self)@.store is None,
            },
    {
        let copies = clone_message_slice(new_messages);
        let ghost cv = copies@;
        let r = self.add_messages(copies);
        proof {
            if let Some(s) = old(self)@.store {
                assert(messages_view(s + cv) =~= messages_view(s) + messages_view(cv));
            }
        }
        r
    }
}

impl Default for ChatClientAgentThread {
    fn default() -> (r: Self)
        ensures
            r@.conversation_id is None,
            r@.store == Some(Seq::<ChatMessage>::empty()),
    {
        Self::new()
    }
}

} // verus!
