//! Outside types that the library carries through its logic, and the
//! trusted wrappers around the few outside calls it makes.
use vstd::prelude::*;

verus! {

/// A JSON value of `serde_json`. The library never looks inside one: it
/// stores, copies and hands values on.
#[verifier::external_type_specification]
#[verifier::external_body]
pub struct ExJsonValue(serde_json::Value);

/// The error type of `serde_json`.
#[verifier::external_type_specification]
#[verifier::external_body]
pub struct ExJsonError(serde_json::Error);

/// The error type of `std::io`.
#[verifier::external_type_specification]
#[verifier::external_body]
pub struct ExIoError(std::io::Error);

/// A universally unique identifier of the `uuid` crate.
#[verifier::external_type_specification]
#[verifier::external_body]
pub struct ExUuid(uuid::Uuid);

/// A concurrent hash map of the `dashmap` crate. Verus sees nothing inside
/// one; what a map holds is named where it is used.
#[verifier::external_type_specification]
#[verifier::external_body]
#[verifier::reject_recursive_types(K)]
#[verifier::reject_recursive_types(V)]
#[verifier::reject_recursive_types(S)]
pub struct ExDashMap<K, V, S>(dashmap::DashMap<K, V, S>);

/// A point in time, as seconds and nanoseconds since the Unix epoch (UTC).
#[derive(Clone, Copy, Debug, PartialEq, Eq, Structural)]
pub struct Timestamp {
    pub secs: i64,
    pub nanos: u32,
}

/// Calls `serde_json::Value::clone`. The derived `Clone` of `Value` copies the
/// value field by field, so the copy equals the value copied.
#[verifier::external_body]
pub(crate) fn copy_value(v: &serde_json::Value) -> (r: serde_json::Value)
    ensures
        r == *v,
{
    v.clone()
}

/// Calls `uuid::Uuid::new_v4`, which draws a random identifier; nothing is
/// promised of the value it returns.
#[verifier::external_body]
pub(crate) fn fresh_uuid() -> (r: uuid::Uuid) {
    uuid::Uuid::new_v4()
}

/// The text of a `Uuid` in its hyphenated lowercase form, as `uuid`'s
/// `Display` writes it.
pub uninterp spec fn uuid_text(u: uuid::Uuid) -> Seq<char>;

/// Calls `Uuid::to_string`. The text is the hyphenated form, which the `uuid`
/// documentation gives as 36 characters long.
#[verifier::external_body]
pub(crate) fn uuid_to_string(u: &uuid::Uuid) -> (r: String)
    ensures
        r@ == uuid_text(*u),
        r@.len() == 36,
{
    u.to_string()
}

/// Calls `chrono::Utc::now` and splits the result into seconds and
/// nanoseconds since the epoch. What the clock reads is not stated.
#[verifier::external_body]
pub(crate) fn utc_now() -> (r: Timestamp) {
    let t = chrono::Utc::now();
    Timestamp { secs: t.timestamp(), nanos: t.timestamp_subsec_nanos() }
}

} // verus!
