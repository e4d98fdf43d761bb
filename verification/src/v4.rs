//! Pacts of version 4 of the specification, read from JSON.

use vstd::prelude::*;
use crate::json::Json;
use crate::pacts::{v4_pact_of, Pact, PactModel, V4Pact};

verus! {

/// Reads a pact of version 4 from its JSON form, where `source` names where
/// it came from. Interactions that cannot be read are left out.
pub fn from_json(source: &str, pact_json: &Json) -> (r: Pact)
    ensures
        r.deep_view() == PactModel::V4(v4_pact_of(source@, pact_json.deep_view())),
{
    Pact::V4(V4Pact::from_json(source, pact_json))
}

} // verus!
