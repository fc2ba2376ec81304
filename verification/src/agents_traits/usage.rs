//! Token usage of an agent run.
use vstd::prelude::*;
use std::collections::HashMap;
use crate::agents_traits::message::{clone_props, props_view};

verus! {

/// Details about token usage for an agent run
#[derive(Debug)]
pub struct UsageDetails {
    /// Number of input tokens consumed
    pub input_tokens: Option<u32>,
    /// Number of output tokens generated
    pub output_tokens: Option<u32>,
    /// Total tokens (input + output)
    pub total_tokens: Option<u32>,
    /// Additional usage metrics
    pub additional_properties: Option<HashMap<String, serde_json::Value>>,
}

/// Usage details as the contracts see them.
pub struct UsageView {
    pub input_tokens: Option<u32>,
    pub output_tokens: Option<u32>,
    pub total_tokens: Option<u32>,
    pub additional_properties: Option<Map<String, serde_json::Value>>,
}

impl View for UsageDetails {
    type V = UsageView;

    open spec fn view(&self) -> UsageView {
        UsageView {
            input_tokens: self.input_tokens,
            output_tokens: self.output_tokens,
            total_tokens: self.total_tokens,
            additional_properties: props_view(self.additional_properties),
        }
    }
}

/// The total of the known token counts: their sum when both are known, the
/// known one when only one is, nothing when neither is.
pub open spec fn usage_total(input: Option<u32>, output: Option<u32>) -> Option<int> {
    match (input, output) {
        (Some(i), Some(o)) => Some(i + o),
        (Some(i), None) => Some(i as int),
        (None, Some(o)) => Some(o as int),
        (None, None) => None,
    }
}

/// The total counts a missing count as zero: it is known exactly when one
/// of the counts is, and then it is the sum of the known counts; it does not
/// depend on which count is the input and which the output.
pub proof fn law_total_is_the_sum_of_known_counts(input: Option<u32>, output: Option<u32>)
    ensures
        (usage_total(input, output) is Some) == (input is Some || output is Some),
        usage_total(input, output) matches Some(t) ==> t == (match input {
            Some(i) => i as int,
            None => 0int,
        }) + (match output {
            Some(o) => o as int,
            None => 0int,
        }),
        usage_total(input, output) == usage_total(output, input),
{
}

impl UsageDetails {
    /// Create new usage details; the sum of the two counts must fit in a
    /// `u32`.
    pub fn new(input_tokens: Option<u32>, output_tokens: Option<u32>) -> (r: Self)
        requires
            usage_total(input_tokens, output_tokens) matches Some(t) ==> t <= u32::MAX,
        ensures
            r.input_tokens == input_tokens,
            r.output_tokens == output_tokens,
            match usage_total(input_tokens, output_tokens) {
                Some(t) => r.total_tokens matches Some(x) && x == t,
                None => r.total_tokens is None,
            },
            r.additional_properties is None,
    {
        let total_tokens = match (input_tokens, output_tokens) {
            (Some(i), Some(o)) => Some(i + o),
            (Some(i), None) => Some(i),
            (None, Some(o)) => Some(o),
            (None, None) => None,
        };
        UsageDetails { input_tokens, output_tokens, total_tokens, additional_properties: None }
    }
}

impl Default for UsageDetails {
    fn default() -> (r: Self)
        ensures
            r.input_tokens is None,
            r.output_tokens is None,
            r.total_tokens is None,
            r.additional_properties is None,
    {
        UsageDetails { input_tokens: None, output_tokens: None, total_tokens: None, additional_properties: None }
    }
}

impl Clone for UsageDetails {
    fn clone(&self) -> (r: Self)
        ensures
            r@ == self@,
    {
        UsageDetails {
            input_tokens: self.input_tokens,
            output_tokens: self.output_tokens,
            total_tokens: self.total_tokens,
            additional_properties: clone_props(&self.additional_properties),
        }
    }
}

} // verus!
