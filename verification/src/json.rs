use vstd::prelude::*;

verus! {

/// A JSON value, carried through the library without being looked into
/// (the event payload of a diff).
#[verifier::external_type_specification]
#[verifier::external_body]
pub struct ExValue(serde_json::Value);

} // verus!
