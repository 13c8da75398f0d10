use vstd::prelude::*;

verus! {

/// A JSON document, as serde_json holds it; opaque here.
#[verifier::external_type_specification]
#[verifier::external_body]
pub struct ExJsonValue(serde_json::Value);

/// serde_json derives `Clone` for `Value`: the copy holds the same JSON.
pub assume_specification[ <serde_json::Value as Clone>::clone ](v: &serde_json::Value) -> (r:
    serde_json::Value)
    ensures
        r == *v,
;

/// Whether a JSON value is `null`: what `serde_json::Value::is_null` returns on it.
pub uninterp spec fn json_is_null(v: serde_json::Value) -> bool;

/// Calls `serde_json::Value::is_null`, which is `true` exactly on `Value::Null`.
/// Claimed: the result is `json_is_null` of the value.
#[verifier::external_body]
pub(crate) fn value_is_null(v: &serde_json::Value) -> (r: bool)
    ensures
        r == json_is_null(*v),
{
    v.is_null()
}

/// `v` is JSON `null`: `is_null` holds of it, and of no other value.
pub open spec fn is_json_null(v: serde_json::Value) -> bool {
    &&& json_is_null(v)
    &&& forall|w: serde_json::Value| #[trigger] json_is_null(w) ==> w == v
}

/// Builds `serde_json::Value::Null`. Claimed: `is_null` holds of it, as
/// `Value::is_null` is `self.as_null().is_some()` and `as_null` is `Some` on `Null`
/// alone; and `Null`, a variant without fields, is the only value on which it holds.
#[verifier::external_body]
pub(crate) fn null_value() -> (v: serde_json::Value)
    ensures
        is_json_null(v),
{
    serde_json::Value::Null
}

} // verus!
