//! Random values for spray frames and fresh colours, drawn from a generator
//! that its worker owns.

use vstd::prelude::*;
use rand::Rng;
use crate::color::Color;

verus! {

/// `rand::rngs::StdRng`, carried through as an opaque value.
#[verifier::external_type_specification]
#[verifier::external_body]
pub struct ExStdRng(rand::rngs::StdRng);

/// `Rng::random` at three bytes, one per channel. Any colour may come back.
#[verifier::external_body]
pub(crate) fn random_color(rng: &mut rand::rngs::StdRng) -> Color {
    let (r, g, b): (u8, u8, u8) = rng.random();
    Color::RGB24(r, g, b)
}

/// `Rng::random` at one byte. Any byte may come back.
#[verifier::external_body]
pub(crate) fn random_byte(rng: &mut rand::rngs::StdRng) -> u8 {
    rng.random()
}

/// `Rng::random_range` on `0..bound`: a value of that range. The call
/// panics on an empty range, which `bound > 0` leaves out.
#[verifier::external_body]
pub(crate) fn random_below(rng: &mut rand::rngs::StdRng, bound: u16) -> (v: u16)
    requires
        bound > 0,
    ensures
        v < bound,
{
    rng.random_range(0..bound)
}

} // verus!
