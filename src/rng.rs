//! The machine's source of random bytes.

use vstd::prelude::*;

verus! {

/// Relies on rand's `thread_rng().gen_range(0..=255)`: it returns some byte,
/// and nothing is promised of which one. The range is not empty, so the call
/// does not panic.
#[verifier::external_body]
pub(crate) fn random_byte() -> (r: u8) {
    rand::Rng::gen_range(&mut rand::thread_rng(), 0..=255u8)
}

} // verus!
