//! Source of raw identifier candidates.

use vstd::prelude::*;

verus! {

/// Relies on `uuid::Uuid::new_v4`, read out with `Uuid::as_u128`: draws a
/// random version-4 UUID. The draw is random, so nothing is promised of the
/// value; the store establishes uniqueness itself, whatever comes back.
#[verifier::external_body]
pub(crate) fn fresh_raw_id() -> u128 {
    uuid::Uuid::new_v4().as_u128()
}

} // verus!
