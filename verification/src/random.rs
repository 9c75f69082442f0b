//! The node's source of random numbers.
//!
//! The generator is handed to the node when it is made. Nothing is known of
//! the numbers it gives, and the node's contracts hold whatever they are.

use rand::rngs::StdRng;
use rand::Rng;
use vstd::prelude::*;

verus! {

/// `rand::rngs::StdRng`, carried through as an opaque value.
#[verifier::external_type_specification]
#[verifier::external_body]
pub struct ExStdRng(StdRng);

/// Draws a `u32` with `rand::Rng::gen`.
///
/// Trusted: nothing is claimed of the number.
#[verifier::external_body]
pub(crate) fn draw_u32(rng: &mut StdRng) -> (x: u32) {
    rng.gen()
}

/// Draws 32 bytes with `rand::Rng::gen`.
///
/// Trusted: nothing is claimed of the bytes.
#[verifier::external_body]
pub(crate) fn draw_key(rng: &mut StdRng) -> (key: [u8; 32]) {
    rng.gen()
}

} // verus!
