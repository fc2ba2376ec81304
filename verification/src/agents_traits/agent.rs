//! Agent metadata and run options.
use vstd::prelude::*;
use std::collections::HashMap;
use crate::external::{fresh_uuid, uuid_to_string};
use crate::agents_traits::message::{clone_props, props_view};
use crate::text::IntoText;

verus! {

/// Metadata about an agent
#[derive(Debug)]
pub struct AIAgentMetadata {
    /// Unique identifier for the agent
    pub id: String,
    /// Human-readable name
    pub name: Option<String>,
    /// Description of the agent's purpose
    pub description: Option<String>,
}

fn clone_opt(s: &Option<String>) -> (r: Option<String>)
    ensures
        r == *s,
{
    match s {
        Some(x) => Some(x.clone()),
        None => None,
    }
}

impl Clone for AIAgentMetadata {
    fn clone(&self) -> (r: Self)
        ensures
            r == *self,
    {
        AIAgentMetadata { id: self.id.clone(), name: clone_opt(&self.name), description: clone_opt(&self.description) }
    }
}

impl AIAgentMetadata {
    /// Create new agent metadata
    pub fn new<S: IntoText>(id: S) -> (r: Self)
        ensures
            r.id@ == id.text_view(),
            r.name is None,
            r.description is None,
    {
        AIAgentMetadata { id: id.into_text(), name: None, description: None }
    }

    /// Set the agent name
    pub fn with_name<S: IntoText>(self, name: S) -> (r: Self)
        ensures
            r.id == self.id,
            r.name matches Some(n) && n@ == name.text_view(),
            r.description == self.description,
    {
        let mut s = self;
        s.name = Some(name.into_text());
        s
    }

    /// Set the agent description
    pub fn with_description<S: IntoText>(self, description: S) -> (r: Self)
        ensures
            r.id == self.id,
            r.name == self.name,
            r.description matches Some(d) && d@ == description.text_view(),
    {
        let mut s = self;
        s.description = Some(description.into_text());
        s
    }

    /// Get display name (name or id)
    pub fn display_name(&self) -> (r: &str)
        ensures
            r@ == match self.name {
                Some(n) => n@,
                None => self.id@,
            },
    {
        match &self.name {
            Some(n) => n.as_str(),
            None => self.id.as_str(),
        }
    }
}

impl Default for AIAgentMetadata {
    /// Metadata with a fresh random id.
    fn default() -> (r: Self)
        ensures
            r.id@.len() == 36,
            r.name is None,
            r.description is None,
    {
        let id = fresh_uuid();
        Self::new(uuid_to_string(&id))
    }
}

/// Options for agent execution
#[derive(Debug)]
pub struct AgentRunOptions {
    /// Whether to allow background responses
    pub allow_background_responses: bool,
    /// Continuation token for polling background responses
    pub continuation_token: Option<String>,
    /// Maximum number of function call iterations
    pub max_iterations: Option<u32>,
    /// Additional provider-specific options
    pub additional_properties: Option<HashMap<String, serde_json::Value>>,
}

impl Default for AgentRunOptions {
    fn default() -> (r: Self)
        ensures
            !r.allow_background_responses,
            r.continuation_token is None,
            r.max_iterations is None,
            r.additional_properties is None,
    {
        AgentRunOptions {
            allow_background_responses: false,
            continuation_token: None,
            max_iterations: None,
            additional_properties: None,
        }
    }
}

impl Clone for AgentRunOptions {
    fn clone(&self) -> (r: Self)
        ensures
            r.allow_background_responses == self.allow_background_responses,
            r.continuation_token == self.continuation_token,
            r.max_iterations == self.max_iterations,
            props_view(r.additional_properties) == props_view(self.additional_properties),
    {
        AgentRunOptions {
            allow_background_responses: self.allow_background_responses,
            continuation_token: clone_opt(&self.continuation_token),
            max_iterations: self.max_iterations,
            additional_properties: clone_props(&self.additional_properties),
        }
    }
}

} // verus!
