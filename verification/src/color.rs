use vstd::prelude::*;

verus! {

/// A colour as it goes on the wire: one byte per channel.
#[derive(Debug, PartialEq, Eq, Clone, Copy, Hash, Structural)]
pub enum Color {
    RGB24(u8, u8, u8),
}

impl Color {
    pub open spec fn red(self) -> u8 {
        self->0
    }

    pub open spec fn green(self) -> u8 {
        self->1
    }

    pub open spec fn blue(self) -> u8 {
        self->2
    }
}

} // verus!
