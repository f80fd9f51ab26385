//! JSON values, held as serde_json's `Value` and carried through unread.
use vstd::prelude::*;

verus! {

#[verifier::external_type_specification]
#[verifier::external_body]
pub struct ExValue(serde_json::Value);

/// Relies on serde_json::to_vec: the JSON text of a value, as bytes. Writing a
/// `Value` into a `Vec` does not fail; were it to, the body would stay empty.
#[verifier::external_body]
pub(crate) fn json_bytes(value: &serde_json::Value) -> (r: Vec<u8>) {
    serde_json::to_vec(value).unwrap_or_default()
}

/// Relies on `Clone` of serde_json's `Value` (derived): the copy equals the
/// value copied.
pub assume_specification[ <serde_json::Value as Clone>::clone ](value: &serde_json::Value) -> (r: serde_json::Value)
    ensures
        r == *value,
;

/// Relies on serde_json's `Value::get` with a key: the entry of that name when
/// the value is an object that has one.
#[verifier::external_body]
pub(crate) fn json_entry<'a>(value: &'a serde_json::Value, key: &str) -> (r: Option<&'a serde_json::Value>) {
    value.get(key)
}

/// Relies on serde_json's `Value::Null`.
#[verifier::external_body]
pub(crate) fn json_null() -> (r: serde_json::Value) {
    serde_json::Value::Null
}

} // verus!
