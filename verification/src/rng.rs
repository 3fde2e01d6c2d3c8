//! The injected randomness for the random-masked register instruction.

use vstd::prelude::*;

verus! {

/// Relies on rand::random: draws one byte from the thread-local generator.
/// Nothing can be promised of a random value; callers state what holds of
/// every byte that may come back.
#[verifier::external_body]
pub(crate) fn random_byte() -> u8 {
    rand::random()
}

} // verus!
