//! The source of the random bytes that `CXNN` reads.

use vstd::prelude::*;

verus! {

/// A byte from `rand::random`, which draws it from the generator that the
/// `rand` crate keeps for the calling thread. Each call may give another
/// byte, so nothing is stated of the value.
#[verifier::external_body]
pub(crate) fn random_byte() -> (byte: u8) {
    rand::random()
}

} // verus!
