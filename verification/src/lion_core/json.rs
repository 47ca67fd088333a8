//! The JSON value type of `serde_json`, carried through the library's data.

use vstd::prelude::*;

verus! {

/// `serde_json::Value`, held and handed on as it is.
#[verifier::external_type_specification]
#[verifier::external_body]
pub struct ExJsonValue(serde_json::Value);

/// `serde_json::Value`'s `Clone` (derived in `serde_json`). Nothing is claimed of the copy.
pub assume_specification[ <serde_json::Value as Clone>::clone ](v: &serde_json::Value) -> serde_json::Value;

} // verus!
