//! What a chat-client agent decides on its own: its metadata, and the
//! messages it sends to the chat client.
use vstd::prelude::*;
use crate::agents_traits::agent::AIAgentMetadata;
use crate::agents_traits::message::{ChatMessage, ChatRole};
use crate::agents_traits::response::{clone_message_slice, messages_view};
use crate::external::{fresh_uuid, uuid_to_string};

verus! {

/// The metadata of an agent made with the given options: the given id, or a
/// fresh random one, and the given name and description.
pub fn agent_metadata(id: Option<String>, name: Option<String>, description: Option<String>) -> (r: AIAgentMetadata)
    ensures
        match id {
            Some(i) => r.id == i,
            None => r.id@.len() == 36,
        },
        r.name == name,
        r.description == description,
{
    let id = match id {
        Some(i) => i,
        None => {
            let u = fresh_uuid();
            uuid_to_string(&u)
        },
    };
    AIAgentMetadata { id, name, description }
}

/// The messages an agent sends: a system message with its instructions, if
/// it has any, then the thread's history, then the new messages.
pub fn prepare_messages(
    instructions: Option<&str>,
    new_messages: &[ChatMessage],
    thread_messages: Vec<ChatMessage>,
) -> (r: Vec<ChatMessage>)
    ensures
        match instructions {
            Some(text) => r@.len() == 1 + thread_messages@.len() + new_messages@.len()
                && r@[0].is_new_text_message(ChatRole::System, text@)
                && messages_view(r@.skip(1)) == messages_view(thread_messages@) + messages_view(new_messages@),
            None => messages_view(r@) == messages_view(thread_messages@) + messages_view(new_messages@),
        },
{
    let mut messages: Vec<ChatMessage> = Vec::new();
    if let Some(text) = instructions {
        messages.push(ChatMessage::system(text));
    }
    let ghost head = messages@;
    let mut thread_messages = thread_messages;
    let ghost tv = thread_messages@;
    messages.append(&mut thread_messages);
    let mut copies = clone_message_slice(new_messages);
    let ghost cv = copies@;
    messages.append(&mut copies);
    proof {
        assert(messages@ == head + tv + cv);
        if instructions is Some {
            assert(messages@.skip(1) =~= tv + cv);
        } else {
            assert(messages@ =~= tv + cv);
        }
        assert(messages_view(tv + cv) =~= messages_view(tv) + messages_view(cv));
    }
    messages
}

} // verus!
