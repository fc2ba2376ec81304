//! The state and message handling of an actor that holds a thread's
//! messages. Running the actor, and answering its callers, is left to the
//! actor runtime.
use vstd::prelude::*;
use crate::agents_traits::message::ChatMessage;
use crate::agents_traits::response::{clone_messages, messages_view};

verus! {

/// Requests that the thread actor handles. The requests that expect an
/// answer get it as the result of `ThreadActor::handle`.
pub enum ThreadMessage {
    /// Add messages to the thread
    AddMessages(Vec<ChatMessage>),
    /// Get all messages from the thread
    GetMessages,
    /// Clear all messages
    Clear,
    /// Serialize the thread state
    Serialize,
}

/// What the actor answers a request with.
pub enum ThreadReply {
    /// No answer is owed.
    Nothing,
    /// The messages of the thread.
    Messages(Vec<ChatMessage>),
    /// A copy of the state, to be serialized for the caller.
    State(ThreadState),
}

/// The state of the thread actor
#[derive(Debug)]
pub struct ThreadState {
    pub messages: Vec<ChatMessage>,
}

/// Actor implementation for a thread
pub struct ThreadActor;

impl ThreadActor {
    /// The state the actor starts with: no messages.
    pub fn pre_start(&self) -> (r: ThreadState)
        ensures
            r.messages@.len() == 0,
    {
        ThreadState { messages: Vec::new() }
    }

    /// Handles one request: adds, reports, clears, or copies the messages.
    pub fn handle(&self, message: ThreadMessage, state: &mut ThreadState) -> (r: ThreadReply)
        ensures
            match message {
                ThreadMessage::AddMessages(msgs) => final(state).messages@ == old(state).messages@ + msgs@
                    && r is Nothing,
                ThreadMessage::GetMessages => final(state).messages@ == old(state).messages@
                    && (r matches ThreadReply::Messages(m) && messages_view(m@) == messages_view(old(state).messages@)),
                ThreadMessage::Clear => final(state).messages@.len() == 0 && r is Nothing,
                ThreadMessage::Serialize => final(state).messages@ == old(state).messages@
                    && (r matches ThreadReply::State(s) && messages_view(s.messages@) == messages_view(old(state).messages@)),
            },
    {
        match message {
            ThreadMessage::AddMessages(msgs) => {
                let mut msgs = msgs;
                state.messages.append(&mut msgs);
                ThreadReply::Nothing
            },
            ThreadMessage::GetMessages => ThreadReply::Messages(clone_messages(&state.messages)),
            ThreadMessage::Clear => {
                state.messages.clear();
                ThreadReply::Nothing
            },
            ThreadMessage::Serialize => ThreadReply::State(ThreadState { messages: clone_messages(&state.messages) }),
        }
    }
}

} // verus!
