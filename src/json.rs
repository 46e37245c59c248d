//! The JSON values that tools take and return, carried through unopened.
use vstd::prelude::*;
use serde_json::Value;

verus! {

#[verifier::external_type_specification]
#[verifier::external_body]
pub struct ExValue(Value);

/// Whether a value is a JSON object.
pub uninterp spec fn json_is_object(v: Value) -> bool;

/// Whether a value is JSON null.
pub uninterp spec fn json_is_null(v: Value) -> bool;

/// The compact JSON text of a value.
pub uninterp spec fn json_text_of(v: Value) -> Seq<char>;

/// Relies on the `Clone` that serde_json derives for `Value`: the copy is
/// equal to the value it copies.
pub assume_specification[ <Value as Clone>::clone ](v: &Value) -> (r: Value)
    ensures
        r == *v,
;

/// Relies on `serde_json::Value::is_object`: whether the value is a JSON
/// object, which depends on the value alone.
pub assume_specification[ Value::is_object ](v: &Value) -> (r: bool)
    ensures
        r == json_is_object(*v),
;

/// Relies on `serde_json::Value::is_null`: whether the value is JSON null,
/// which depends on the value alone.
pub assume_specification[ Value::is_null ](v: &Value) -> (r: bool)
    ensures
        r == json_is_null(*v),
;

/// Relies on serde_json's `Display` for `Value`: the compact JSON text of
/// the value, which depends on the value alone.
#[verifier::external_body]
pub(crate) fn json_text(v: &Value) -> (r: String)
    ensures
        r@ == json_text_of(*v),
{
    v.to_string()
}

} // verus!
