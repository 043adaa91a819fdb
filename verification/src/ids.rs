//! Fresh identities for jobs and rules.

use vstd::prelude::*;

verus! {

/// `uuid::Uuid::new_v4`, written out as text: a random identity. It differs
/// from call to call, so nothing is claimed of it.
#[verifier::external_body]
pub(crate) fn new_id() -> (out: String) {
    uuid::Uuid::new_v4().to_string()
}

} // verus!
