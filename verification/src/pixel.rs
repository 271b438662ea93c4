//! A pixel of an image: where it is and what colour it has.

use vstd::prelude::*;

verus! {

/// The colour of a pixel.
#[derive(Debug, PartialEq, Eq, Clone, Copy, Hash, Structural)]
pub enum Color {
    RGB24(u8, u8, u8),
}

/// One pixel of an image.
#[derive(Debug, PartialEq, Eq, Clone, Copy, Hash, Structural)]
pub struct Pixel {
    pub x: usize,
    pub y: usize,
    pub color: Color,
}

} // verus!
