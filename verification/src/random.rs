//! Ids drawn at random.

use vstd::prelude::*;

verus! {

/// Draws an id with `fastrand::u128` over the full range. Which id comes is left to chance, so
/// nothing is claimed of it.
#[verifier::external_body]
pub(crate) fn random_id() -> (id: u128) {
    fastrand::u128(..)
}

} // verus!
