//! Chat messages: roles, content items and messages.
use vstd::prelude::*;
use std::collections::HashMap;
use crate::external::{Timestamp, fresh_uuid, uuid_text, uuid_to_string, utc_now};
use crate::text::IntoText;

verus! {

/// The role of a participant in a chat conversation.
#[derive(Debug, Clone, Copy, PartialEq, Eq, Structural)]
pub enum ChatRole {
    /// A system message (instructions, context)
    System,
    /// A message from the user
    User,
    /// A message from the AI assistant
    Assistant,
    /// A tool/function call or response
    Tool,
}

/// The kinds of content a message can hold.
#[derive(Debug)]
pub enum MessageContent {
    /// Plain text content
    Text { text: String },
    /// Image content
    Image { url: String, detail: Option<String> },
    /// Function/tool call
    FunctionCall { id: String, name: String, arguments: String },
    /// Function/tool result
    FunctionResult { call_id: String, result: String },
    /// Usage information
    Usage { input_tokens: Option<u32>, output_tokens: Option<u32>, total_tokens: Option<u32> },
}

fn clone_opt_string(s: &Option<String>) -> (r: Option<String>)
    ensures
        r == *s,
{
    match s {
        Some(x) => Some(x.clone()),
        None => None,
    }
}

impl Clone for MessageContent {
    fn clone(&self) -> (r: Self)
        ensures
            r == *self,
    {
        match self {
            MessageContent::Text { text } => MessageContent::Text { text: text.clone() },
            MessageContent::Image { url, detail } => MessageContent::Image {
                url: url.clone(),
                detail: clone_opt_string(detail),
            },
            MessageContent::FunctionCall { id, name, arguments } => MessageContent::FunctionCall {
                id: id.clone(),
                name: name.clone(),
                arguments: arguments.clone(),
            },
            MessageContent::FunctionResult { call_id, result } => MessageContent::FunctionResult {
                call_id: call_id.clone(),
                result: result.clone(),
            },
            MessageContent::Usage { input_tokens, output_tokens, total_tokens } => MessageContent::Usage {
                input_tokens: *input_tokens,
                output_tokens: *output_tokens,
                total_tokens: *total_tokens,
            },
        }
    }
}

/// The text a content item contributes: its text for a text item, nothing
/// for any other kind.
pub open spec fn content_text(c: MessageContent) -> Seq<char> {
    match c {
        MessageContent::Text { text } => text@,
        _ => Seq::empty(),
    }
}

/// The texts of the text items of `cs`, concatenated in order.
pub open spec fn contents_text(cs: Seq<MessageContent>) -> Seq<char>
    decreases cs.len(),
{
    if cs.len() == 0 {
        Seq::empty()
    } else {
        contents_text(cs.drop_last()) + content_text(cs.last())
    }
}

/// A message's text is the text of every text item in order: adding a text
/// item appends its text, adding an item of another kind leaves the text as
/// it was, and a message without items has no text.
pub proof fn law_message_text_covers_every_text_item(cs: Seq<MessageContent>, c: MessageContent)
    ensures
        contents_text(Seq::empty()) == Seq::<char>::empty(),
        contents_text(cs.push(c)) == contents_text(cs) + content_text(c),
        c matches MessageContent::Text { text } ==> contents_text(cs.push(c)) == contents_text(cs) + text@,
        !(c is Text) ==> contents_text(cs.push(c)) == contents_text(cs),
{
    assert(cs.push(c).drop_last() =~= cs);
    if !(c is Text) {
        assert(contents_text(cs) + Seq::<char>::empty() =~= contents_text(cs));
    }
}

impl MessageContent {
    /// Create a text content
    pub fn text<S: IntoText>(text: S) -> (r: Self)
        ensures
            r matches MessageContent::Text { text: t } && t@ == text.text_view(),
    {
        MessageContent::Text { text: text.into_text() }
    }

    /// Create an image content
    pub fn image<S: IntoText>(url: S) -> (r: Self)
        ensures
            r matches MessageContent::Image { url: u, detail } && u@ == url.text_view() && detail is None,
    {
        MessageContent::Image { url: url.into_text(), detail: None }
    }

    /// Extract text from content if it's a text type
    pub fn as_text(&self) -> (r: Option<&str>)
        ensures
            match self {
                MessageContent::Text { text } => r matches Some(s) && s@ == text@,
                _ => r is None,
            },
    {
        match self {
            MessageContent::Text { text } => Some(text.as_str()),
            _ => None,
        }
    }
}

/// A single message in a chat conversation.
#[derive(Debug)]
pub struct ChatMessage {
    /// Unique identifier for this message
    pub message_id: Option<String>,
    /// The role of the message sender
    pub role: ChatRole,
    /// The name of the author (optional)
    pub author_name: Option<String>,
    /// The content items of the message
    pub contents: Vec<MessageContent>,
    /// When the message was created
    pub created_at: Option<Timestamp>,
    /// Additional properties
    pub additional_properties: Option<HashMap<String, serde_json::Value>>,
}

/// A message as the contracts see it.
pub struct ChatMessageView {
    pub message_id: Option<String>,
    pub role: ChatRole,
    pub author_name: Option<String>,
    pub contents: Seq<MessageContent>,
    pub created_at: Option<Timestamp>,
    pub additional_properties: Option<Map<String, serde_json::Value>>,
}

/// The contents of a property map.
pub open spec fn props_view(p: Option<HashMap<String, serde_json::Value>>) -> Option<Map<String, serde_json::Value>> {
    match p {
        Some(m) => Some(m@),
        None => None,
    }
}

impl View for ChatMessage {
    type V = ChatMessageView;

    open spec fn view(&self) -> ChatMessageView {
        ChatMessageView {
            message_id: self.message_id,
            role: self.role,
            author_name: self.author_name,
            contents: self.contents@,
            created_at: self.created_at,
            additional_properties: props_view(self.additional_properties),
        }
    }
}

/// Copies a property map; the copy holds the same entries.
pub fn clone_props(p: &Option<HashMap<String, serde_json::Value>>) -> (r: Option<HashMap<String, serde_json::Value>>)
    ensures
        props_view(r) == props_view(*p),
{
    match p {
        Some(m) => Some(m.clone()),
        None => None,
    }
}

/// Copies a list of content items.
pub fn clone_contents(v: &Vec<MessageContent>) -> (r: Vec<MessageContent>)
    ensures
        r@ == v@,
{
    let mut r: Vec<MessageContent> = Vec::new();
    let mut i: usize = 0;
    while i < v.len()
        invariant
            i <= v@.len(),
            r@ == v@.take(i as int),
        decreases v@.len() - i,
    {
        r.push(v[i].clone());
        i = i + 1;
        assert(r@ =~= v@.take(i as int));
    }
    assert(v@.take(v@.len() as int) =~= v@);
    r
}

impl Clone for ChatMessage {
    fn clone(&self) -> (r: Self)
        ensures
            r@ == self@,
    {
        ChatMessage {
            message_id: clone_opt_string(&self.message_id),
            role: self.role,
            author_name: clone_opt_string(&self.author_name),
            contents: clone_contents(&self.contents),
            created_at: self.created_at,
            additional_properties: clone_props(&self.additional_properties),
        }
    }
}

impl ChatMessage {
    /// Whether this message was made by `new` (or a constructor that calls
    /// it) from `role` and `text`: a fresh identifier, no author, one text
    /// item, a creation time and no additional properties.
    pub open spec fn is_new_text_message(self, role: ChatRole, text: Seq<char>) -> bool {
        &&& self.message_id matches Some(id) && id@.len() == 36
        &&& self.role == role
        &&& self.author_name is None
        &&& self.contents@.len() == 1
        &&& self.contents@[0] matches MessageContent::Text { text: t } && t@ == text
        &&& self.created_at is Some
        &&& self.additional_properties is None
    }

    /// Create a new message with the given role and text content
    pub fn new<S: IntoText>(role: ChatRole, text: S) -> (r: Self)
        ensures
            r.is_new_text_message(role, text.text_view()),
    {
        let id = fresh_uuid();
        let message_id = uuid_to_string(&id);
        let content = MessageContent::text(text);
        let mut contents: Vec<MessageContent> = Vec::new();
        contents.push(content);
        ChatMessage {
            message_id: Some(message_id),
            role,
            author_name: None,
            contents,
            created_at: Some(utc_now()),
            additional_properties: None,
        }
    }

    /// Create a user message
    pub fn user<S: IntoText>(text: S) -> (r: Self)
        ensures
            r.is_new_text_message(ChatRole::User, text.text_view()),
    {
        Self::new(ChatRole::User, text)
    }

    /// Create an assistant message
    pub fn assistant<S: IntoText>(text: S) -> (r: Self)
        ensures
            r.is_new_text_message(ChatRole::Assistant, text.text_view()),
    {
        Self::new(ChatRole::Assistant, text)
    }

    /// Create a system message
    pub fn system<S: IntoText>(text: S) -> (r: Self)
        ensures
            r.is_new_text_message(ChatRole::System, text.text_view()),
    {
        Self::new(ChatRole::System, text)
    }

    /// Create a message with the given role and contents
    pub fn with_contents(role: ChatRole, contents: Vec<MessageContent>) -> (r: Self)
        ensures
            r.message_id matches Some(id) && id@.len() == 36,
            r.role == role,
            r.author_name is None,
            r.contents@ == contents@,
            r.created_at is Some,
            r.additional_properties is None,
    {
        let id = fresh_uuid();
        let message_id = uuid_to_string(&id);
        ChatMessage {
            message_id: Some(message_id),
            role,
            author_name: None,
            contents,
            created_at: Some(utc_now()),
            additional_properties: None,
        }
    }

    /// Get the concatenated text from all text content items
    pub fn text(&self) -> (r: String)
        ensures
            r@ == contents_text(self.contents@),
    {
        let mut r = String::new();
        let mut i: usize = 0;
        while i < self.contents.len()
            invariant
                i <= self.contents@.len(),
                r@ == contents_text(self.contents@.take(i as int)),
            decreases self.contents@.len() - i,
        {
            proof {
                assert(self.contents@.take(i + 1).drop_last() =~= self.contents@.take(i as int));
            }
            match self.contents[i].as_text() {
                Some(t) => {
                    r.append(t);
                },
                None => {
                    assert(content_text(self.contents@[i as int]) =~= Seq::<char>::empty());
                    assert(r@ + Seq::<char>::empty() =~= r@);
                },
            }
            i = i + 1;
        }
        assert(self.contents@.take(self.contents@.len() as int) =~= self.contents@);
        r
    }

    /// Add a content item to this message
    pub fn add_content(&mut self, content: MessageContent)
        ensures
            final(self).contents@ == old(self).contents@.push(content),
            final(self).message_id == old(self).message_id,
            final(self).role == old(self).role,
            final(self).author_name == old(self).author_name,
            final(self).created_at == old(self).created_at,
            final(self).additional_properties == old(self).additional_properties,
    {
        self.contents.push(content);
    }
}

} // verus!
