//! Responses of agent runs, and their streaming updates.
use vstd::prelude::*;
use std::collections::HashMap;
use crate::agents_traits::message::{ChatMessage, ChatMessageView, clone_props, contents_text, props_view};
use crate::agents_traits::usage::{UsageDetails, UsageView};
use crate::external::{Timestamp, utc_now};
use crate::text::seq_join;

verus! {

/// Represents the response to an agent run request
#[derive(Debug)]
pub struct AgentRunResponse {
    /// The response messages
    pub messages: Vec<ChatMessage>,
    /// Identifier of the agent that generated this response
    pub agent_id: Option<String>,
    /// Unique identifier for this response
    pub response_id: Option<String>,
    /// Timestamp when the response was created
    pub created_at: Option<Timestamp>,
    /// Token usage information
    pub usage: Option<UsageDetails>,
    /// Continuation token for background responses
    pub continuation_token: Option<String>,
    /// Additional properties
    pub additional_properties: Option<HashMap<String, serde_json::Value>>,
}

/// Represents an incremental update during streaming agent responses
#[derive(Debug)]
pub struct AgentRunResponseUpdate {
    /// The message update (if any)
    pub message: Option<ChatMessage>,
    /// Identifier of the agent
    pub agent_id: Option<String>,
    /// Response identifier
    pub response_id: Option<String>,
    /// Timestamp
    pub created_at: Option<Timestamp>,
    /// Usage information (typically in final update)
    pub usage: Option<UsageDetails>,
    /// Additional properties
    pub additional_properties: Option<HashMap<String, serde_json::Value>>,
}

/// The views of a list of messages.
pub open spec fn messages_view(v: Seq<ChatMessage>) -> Seq<ChatMessageView> {
    v.map_values(|m: ChatMessage| m@)
}

/// The views of a list of messages are the views of each message, one for
/// one and in order, so the views of two lists joined are the views of each
/// joined.
pub proof fn law_message_views_are_one_for_one(a: Seq<ChatMessage>, b: Seq<ChatMessage>)
    ensures
        messages_view(a).len() == a.len(),
        forall|i: int| 0 <= i < a.len() ==> #[trigger] messages_view(a)[i] == a[i]@,
        messages_view(a + b) == messages_view(a) + messages_view(b),
{
    assert(messages_view(a + b) =~= messages_view(a) + messages_view(b));
}

/// The view of an optional message.
pub open spec fn opt_message_view(m: Option<ChatMessage>) -> Option<ChatMessageView> {
    match m {
        Some(x) => Some(x@),
        None => None,
    }
}

/// The view of optional usage details.
pub open spec fn opt_usage_view(u: Option<UsageDetails>) -> Option<UsageView> {
    match u {
        Some(x) => Some(x@),
        None => None,
    }
}

/// The text of a response: the texts of its messages joined by newlines.
pub open spec fn response_text(messages: Seq<ChatMessage>) -> Seq<char> {
    seq_join(messages.map_values(|m: ChatMessage| contents_text(m.contents@)), "\n"@)
}

/// The text of a response covers every message: no message gives no text,
/// one message gives its own text, and each further message adds a newline
/// and its text after the text of the messages before it.
pub proof fn law_response_text_covers_every_message(ms: Seq<ChatMessage>, m: ChatMessage)
    ensures
        response_text(Seq::empty()) == Seq::<char>::empty(),
        response_text(seq![m]) == contents_text(m.contents@),
        ms.len() > 0 ==> response_text(ms.push(m)) == response_text(ms) + "\n"@ + contents_text(m.contents@),
        ms.len() > 0 ==> response_text(ms.push(m)).len() > response_text(ms).len() + contents_text(m.contents@).len(),
{
    let f = |x: ChatMessage| contents_text(x.contents@);
    let items = ms.push(m).map_values(f);
    assert(items.drop_last() =~= ms.map_values(f));
    assert(items.last() == contents_text(m.contents@));
    assert(seq![m].map_values(f) =~= seq![contents_text(m.contents@)]);
    assert(Seq::<ChatMessage>::empty().map_values(f) =~= Seq::<Seq<char>>::empty());
    reveal_strlit("\n");
}

fn clone_opt(s: &Option<String>) -> (r: Option<String>)
    ensures
        r == *s,
{
    match s {
        Some(x) => Some(x.clone()),
        None => None,
    }
}

fn clone_usage(u: &Option<UsageDetails>) -> (r: Option<UsageDetails>)
    ensures
        opt_usage_view(r) == opt_usage_view(*u),
{
    match u {
        Some(x) => Some(x.clone()),
        None => None,
    }
}

/// Copies a list of messages.
pub fn clone_messages(v: &Vec<ChatMessage>) -> (r: Vec<ChatMessage>)
    ensures
        messages_view(r@) == messages_view(v@),
{
    let mut r: Vec<ChatMessage> = Vec::new();
    let mut i: usize = 0;
    while i < v.len()
        invariant
            i <= v@.len(),
            r@.len() == i,
            forall|j: int| 0 <= j < i ==> #[trigger] r@[j]@ == v@[j]@,
        decreases v@.len() - i,
    {
        r.push(v[i].clone());
        i = i + 1;
    }
    assert(messages_view(r@) =~= messages_view(v@));
    r
}

/// Copies a slice of messages.
pub fn clone_message_slice(v: &[ChatMessage]) -> (r: Vec<ChatMessage>)
    ensures
        messages_view(r@) == messages_view(v@),
{
    let mut r: Vec<ChatMessage> = Vec::new();
    let mut i: usize = 0;
    while i < v.len()
        invariant
            i <= v@.len(),
            r@.len() == i,
            forall|j: int| 0 <= j < i ==> #[trigger] r@[j]@ == v@[j]@,
        decreases v@.len() - i,
    {
        r.push(v[i].clone());
        i = i + 1;
    }
    assert(messages_view(r@) =~= messages_view(v@));
    r
}

/// Whether `u` is the update that carries message `m` of response `r`.
pub open spec fn is_message_update(u: AgentRunResponseUpdate, r: AgentRunResponse, m: ChatMessage) -> bool {
    &&& opt_message_view(u.message) == Some(m@)
    &&& u.agent_id == r.agent_id
    &&& u.response_id == r.response_id
    &&& u.created_at == r.created_at
    &&& u.usage is None
    &&& u.additional_properties is None
}

/// Whether `u` is the closing update that carries the usage of response `r`.
pub open spec fn is_usage_update(u: AgentRunResponseUpdate, r: AgentRunResponse) -> bool {
    &&& u.message is None
    &&& u.agent_id == r.agent_id
    &&& u.response_id == r.response_id
    &&& u.created_at == r.created_at
    &&& opt_usage_view(u.usage) == opt_usage_view(r.usage)
    &&& props_view(u.additional_properties) == props_view(r.additional_properties)
}

impl AgentRunResponse {
    /// Create a new response with a single message
    pub fn new(message: ChatMessage) -> (r: Self)
        ensures
            messages_view(r.messages@) == seq![message@],
            r.agent_id is None,
            r.response_id is None,
            r.created_at is Some,
            r.usage is None,
            r.continuation_token is None,
            r.additional_properties is None,
    {
        let ghost mv = message@;
        let mut messages: Vec<ChatMessage> = Vec::new();
        messages.push(message);
        assert(messages_view(messages@) =~= seq![mv]);
        AgentRunResponse {
            messages,
            agent_id: None,
            response_id: None,
            created_at: Some(utc_now()),
            usage: None,
            continuation_token: None,
            additional_properties: None,
        }
    }

    /// Create a new response with multiple messages
    pub fn with_messages(messages: Vec<ChatMessage>) -> (r: Self)
        ensures
            r.messages == messages,
            r.agent_id is None,
            r.response_id is None,
            r.created_at is Some,
            r.usage is None,
            r.continuation_token is None,
            r.additional_properties is None,
    {
        AgentRunResponse {
            messages,
            agent_id: None,
            response_id: None,
            created_at: Some(utc_now()),
            usage: None,
            continuation_token: None,
            additional_properties: None,
        }
    }

    /// Get the concatenated text from all messages, one per line
    pub fn text(&self) -> (r: String)
        ensures
            r@ == response_text(self.messages@),
    {
        let ghost items = self.messages@.map_values(|m: ChatMessage| contents_text(m.contents@));
        let mut r = String::new();
        let mut i: usize = 0;
        while i < self.messages.len()
            invariant
                i <= self.messages@.len(),
                items == self.messages@.map_values(|m: ChatMessage| contents_text(m.contents@)),
                r@ == seq_join(items.take(i as int), "\n"@),
            decreases self.messages@.len() - i,
        {
            assert(items.take(i + 1).drop_last() =~= items.take(i as int));
            let t = self.messages[i].text();
            if i != 0 {
                r.append("\n");
                r.append(t.as_str());
            } else {
                r.append(t.as_str());
                assert(items.take(1) =~= seq![items[0]]);
                assert(Seq::<char>::empty() + t@ =~= t@);
            }
            i = i + 1;
        }
        assert(items.take(self.messages@.len() as int) =~= items);
        r
    }

    /// The text of the response, as its `Display` writes it.
    pub fn to_string(&self) -> (r: String)
        ensures
            r@ == response_text(self.messages@),
    {
        self.text()
    }

    /// Convert to streaming updates: one per message, in order, then one
    /// carrying the usage when there is usage.
    pub fn to_updates(&self) -> (r: Vec<AgentRunResponseUpdate>)
        ensures
            r@.len() == self.messages@.len() + if self.usage is Some { 1int } else { 0int },
            forall|i: int| 0 <= i < self.messages@.len() ==> is_message_update(#[trigger] r@[i], *self, self.messages@[i]),
            self.usage is Some ==> is_usage_update(r@[self.messages@.len() as int], *self),
    {
        let mut updates: Vec<AgentRunResponseUpdate> = Vec::new();
        let mut i: usize = 0;
        while i < self.messages.len()
            invariant
                i <= self.messages@.len(),
                updates@.len() == i,
                forall|j: int| 0 <= j < i ==> is_message_update(#[trigger] updates@[j], *self, self.messages@[j]),
            decreases self.messages@.len() - i,
        {
            updates.push(AgentRunResponseUpdate {
                message: Some(self.messages[i].clone()),
                agent_id: clone_opt(&self.agent_id),
                response_id: clone_opt(&self.response_id),
                created_at: self.created_at,
                usage: None,
                additional_properties: None,
            });
            i = i + 1;
        }
        if self.usage.is_some() {
            updates.push(AgentRunResponseUpdate {
                message: None,
                agent_id: clone_opt(&self.agent_id),
                response_id: clone_opt(&self.response_id),
                created_at: self.created_at,
                usage: clone_usage(&self.usage),
                additional_properties: clone_props(&self.additional_properties),
            });
        }
        updates
    }
}

impl Clone for AgentRunResponse {
    fn clone(&self) -> (r: Self)
        ensures
            messages_view(r.messages@) == messages_view(self.messages@),
            r.agent_id == self.agent_id,
            r.response_id == self.response_id,
            r.created_at == self.created_at,
            opt_usage_view(r.usage) == opt_usage_view(self.usage),
            r.continuation_token == self.continuation_token,
            props_view(r.additional_properties) == props_view(self.additional_properties),
    {
        AgentRunResponse {
            messages: clone_messages(&self.messages),
            agent_id: clone_opt(&self.agent_id),
            response_id: clone_opt(&self.response_id),
            created_at: self.created_at,
            usage: clone_usage(&self.usage),
            continuation_token: clone_opt(&self.continuation_token),
            additional_properties: clone_props(&self.additional_properties),
        }
    }
}

impl AgentRunResponseUpdate {
    /// Create a new empty response update
    pub fn new() -> (r: Self)
        ensures
            r.message is None,
            r.agent_id is None,
            r.response_id is None,
            r.created_at is Some,
            r.usage is None,
            r.additional_properties is None,
    {
        AgentRunResponseUpdate {
            message: None,
            agent_id: None,
            response_id: None,
            created_at: Some(utc_now()),
            usage: None,
            additional_properties: None,
        }
    }
}

impl Default for AgentRunResponseUpdate {
    fn default() -> (r: Self)
        ensures
            r.message is None,
            r.agent_id is None,
            r.response_id is None,
            r.created_at is Some,
            r.usage is None,
            r.additional_properties is None,
    {
        Self::new()
    }
}

impl Clone for AgentRunResponseUpdate {
    fn clone(&self) -> (r: Self)
        ensures
            opt_message_view(r.message) == opt_message_view(self.message),
            r.agent_id == self.agent_id,
            r.response_id == self.response_id,
            r.created_at == self.created_at,
            opt_usage_view(r.usage) == opt_usage_view(self.usage),
            props_view(r.additional_properties) == props_view(self.additional_properties),
    {
        AgentRunResponseUpdate {
            message: match &self.message {
                Some(m) => Some(m.clone()),
                None => None,
            },
            agent_id: clone_opt(&self.agent_id),
            response_id: clone_opt(&self.response_id),
            created_at: self.created_at,
            usage: clone_usage(&self.usage),
            additional_properties: clone_props(&self.additional_properties),
        }
    }
}

} // verus!
