//! Messages sent between executors, and state scopes of an executor context.
use vstd::prelude::*;
use crate::agents_workflows::edge::opt_str_view;

verus! {

/// Message being sent between executors
#[derive(Debug)]
pub struct OutgoingMessage {
    pub message: serde_json::Value,
    pub target_id: Option<String>,
    pub source_id: String,
}

/// The scope a context reads and writes: the one asked for, or the
/// executor's own scope when none is asked for.
pub fn resolve_scope<'a>(default_scope: &'a str, scope: Option<&'a str>) -> (r: &'a str)
    ensures
        r@ == match opt_str_view(scope) {
            Some(s) => s,
            None => default_scope@,
        },
{
    match scope {
        Some(s) => s,
        None => default_scope,
    }
}

} // verus!
