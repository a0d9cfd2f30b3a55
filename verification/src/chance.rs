//! Chance: what the table and the robots leave to the dice.

use vstd::prelude::*;

verus! {

/// A byte drawn by `rand::random`, from the generator of the calling thread. Any byte may come
/// back, and two calls need not agree: nothing is promised of it. The call fails only where
/// the system has no seed for the generator.
#[verifier::external_body]
pub(crate) fn random_u8() -> (byte: u8) {
    rand::random::<u8>()
}

/// A machine word drawn by `rand::random`, from the generator of the calling thread. Any value
/// may come back, and two calls need not agree: nothing is promised of it. The call fails only
/// where the system has no seed for the generator.
#[verifier::external_body]
pub(crate) fn random_usize() -> (word: usize) {
    rand::random::<usize>()
}

} // verus!
