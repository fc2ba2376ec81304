//! Metadata about a chat client.
use vstd::prelude::*;
use std::collections::HashMap;
use crate::agents_traits::message::props_view;
use crate::text::IntoText;

verus! {

/// Metadata about a chat client
#[derive(Debug)]
pub struct ChatClientMetadata {
    /// The provider name (e.g., "openai", "azure-openai", "anthropic")
    pub provider_name: Option<String>,
    /// The model identifier
    pub model_id: Option<String>,
    /// Additional metadata
    pub additional_properties: Option<HashMap<String, serde_json::Value>>,
}

impl ChatClientMetadata {
    /// Create new chat client metadata
    pub fn new() -> (r: Self)
        ensures
            r.provider_name is None,
            r.model_id is None,
            r.additional_properties is None,
    {
        ChatClientMetadata { provider_name: None, model_id: None, additional_properties: None }
    }

    /// Set the provider name
    pub fn with_provider_name<S: IntoText>(self, name: S) -> (r: Self)
        ensures
            r.provider_name matches Some(p) && p@ == name.text_view(),
            r.model_id == self.model_id,
            props_view(r.additional_properties) == props_view(self.additional_properties),
    {
        let mut s = self;
        s.provider_name = Some(name.into_text());
        s
    }

    /// Set the model ID
    pub fn with_model_id<S: IntoText>(self, model_id: S) -> (r: Self)
        ensures
            r.provider_name == self.provider_name,
            r.model_id matches Some(m) && m@ == model_id.text_view(),
            props_view(r.additional_properties) == props_view(self.additional_properties),
    {
        let mut s = self;
        s.model_id = Some(model_id.into_text());
        s
    }
}

impl Default for ChatClientMetadata {
    fn default() -> (r: Self)
        ensures
            r.provider_name is None,
            r.model_id is None,
            r.additional_properties is None,
    {
        Self::new()
    }
}

} // verus!
