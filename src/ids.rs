//! Fresh identifiers for tasks and tool executions.
use vstd::prelude::*;

verus! {

/// Relies on `uuid::Uuid::new_v4` and the hyphenated text form of its
/// `Display`: a random version-4 identifier. Nothing is promised of its
/// value.
#[verifier::external_body]
pub(crate) fn fresh_id() -> (r: String) {
    uuid::Uuid::new_v4().to_string()
}

} // verus!
