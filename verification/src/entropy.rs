//! The machine's source of random bytes.

use vstd::prelude::*;

verus! {

/// A byte from `rand::random`, which draws it from the thread's generator.
/// Nothing is claimed of its value: any byte may come back, and two calls
/// need not agree.
#[verifier::external_body]
pub(crate) fn random_byte() -> (byte: u8) {
    rand::random::<u8>()
}

} // verus!
