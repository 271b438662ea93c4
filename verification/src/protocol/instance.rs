//! One codec of any of the four protocols, behind the tag that names it.

use vstd::prelude::*;
use crate::color::Color;
use crate::protocol::{
    binary, emitted, flushed_after, flutties, get_commands, palette, scratch_after, set_commands,
    text, CanvasSize, Codec, Proto, Protocol,
};
use crate::transport::Outbound;
use crate::Error;

verus! {

/// `String::with_capacity` gives an empty string.
pub assume_specification[ String::with_capacity ](capacity: usize) -> (string: String)
    ensures
        string@ == Seq::<char>::empty(),
;

/// Room for the longest line of the plaintext protocol.
pub const LINE_CAPACITY: usize = 18;

impl Protocol {
    /// The command that sets the pixel at (`x`, `y`) of `canvas` to `color`.
    pub open spec fn set_pixel(self, canvas: u8, x: u16, y: u16, color: Color) -> Seq<u8> {
        match self {
            Protocol::Plaintext => text::Protocol::set_pixel(canvas, x, y, color),
            Protocol::BinFlurry => binary::Protocol::set_pixel(canvas, x, y, color),
            Protocol::BinFlutties => flutties::Protocol::set_pixel(canvas, x, y, color),
            Protocol::Palette => palette::Protocol::set_pixel(canvas, x, y, color),
        }
    }

    /// The command that asks for the pixel at (`x`, `y`) of `canvas`.
    pub open spec fn get_pixel(self, canvas: u8, x: u16, y: u16) -> Seq<u8> {
        match self {
            Protocol::Plaintext => text::Protocol::get_pixel(canvas, x, y),
            Protocol::BinFlurry => binary::Protocol::get_pixel(canvas, x, y),
            Protocol::BinFlutties => flutties::Protocol::get_pixel(canvas, x, y),
            Protocol::Palette => palette::Protocol::get_pixel(canvas, x, y),
        }
    }

    /// The protocol has a set command for `canvas`.
    pub open spec fn can_set(self, canvas: u8) -> bool {
        self == Protocol::BinFlutties ==> flutties::Protocol::can_set(canvas)
    }

    /// The protocol has a query command for `canvas`.
    pub open spec fn can_get(self, canvas: u8) -> bool {
        self == Protocol::BinFlutties ==> flutties::Protocol::can_get(canvas)
    }

    /// The protocol flushes every set command on its own.
    pub open spec fn flushes(self) -> bool {
        self == Protocol::BinFlutties
    }

    /// One set command for each of `coords`, in their order.
    pub open spec fn set_commands(self, canvas: u8, color: Color, coords: Seq<(u16, u16)>) -> Seq<
        Seq<u8>,
    > {
        Seq::new(coords.len(), |k: int| self.set_pixel(canvas, coords[k].0, coords[k].1, color))
    }

    /// One query command for each of `coords`, in their order.
    pub open spec fn get_commands(self, canvas: u8, coords: Seq<(u16, u16)>) -> Seq<Seq<u8>> {
        Seq::new(coords.len(), |k: int| self.get_pixel(canvas, coords[k].0, coords[k].1))
    }

    /// A fresh codec of this protocol, with no frame counted.
    pub fn instance(self) -> (codec: Instance)
        ensures
            codec.protocol() == self,
            codec.frames() == 0,
            codec.scratch() == Seq::<char>::empty(),
    {
        match self {
            Protocol::Plaintext => Instance::Plaintext(
                text::Protocol { str: String::with_capacity(LINE_CAPACITY), count: 0 },
            ),
            Protocol::BinFlurry => Instance::BinFlurry(binary::Protocol { count: 0 }),
            Protocol::BinFlutties => Instance::BinFlutties(flutties::Protocol { count: 0 }),
            Protocol::Palette => Instance::Palette(palette::Protocol { count: 0 }),
        }
    }
}

/// A codec of one of the four protocols.
pub enum Instance {
    Plaintext(text::Protocol),
    BinFlurry(binary::Protocol),
    BinFlutties(flutties::Protocol),
    Palette(palette::Protocol),
}

impl Instance {
    /// The protocol that this codec speaks.
    pub open spec fn protocol(&self) -> Protocol {
        match self {
            Instance::Plaintext(_) => Protocol::Plaintext,
            Instance::BinFlurry(_) => Protocol::BinFlurry,
            Instance::BinFlutties(_) => Protocol::BinFlutties,
            Instance::Palette(_) => Protocol::Palette,
        }
    }

    /// Frames completed so far.
    pub open spec fn frames(&self) -> u64 {
        match self {
            Instance::Plaintext(codec) => codec.count,
            Instance::BinFlurry(codec) => codec.count,
            Instance::BinFlutties(codec) => codec.count,
            Instance::Palette(codec) => codec.count,
        }
    }

    /// What the codec holds of a command once the command was written.
    pub open spec fn scratch(&self) -> Seq<char> {
        match self {
            Instance::Plaintext(codec) => codec.str@,
            _ => Seq::empty(),
        }
    }

    /// The protocol that this codec speaks.
    pub fn tag(&self) -> (tag: Protocol)
        ensures
            tag == self.protocol(),
    {
        match self {
            Instance::Plaintext(_) => Protocol::Plaintext,
            Instance::BinFlurry(_) => Protocol::BinFlurry,
            Instance::BinFlutties(_) => Protocol::BinFlutties,
            Instance::Palette(_) => Protocol::Palette,
        }
    }

    /// Frames completed so far.
    pub fn count(&self) -> (count: u64)
        ensures
            count == self.frames(),
    {
        match self {
            Instance::Plaintext(codec) => codec.count,
            Instance::BinFlurry(codec) => codec.count,
            Instance::BinFlutties(codec) => codec.count,
            Instance::Palette(codec) => codec.count,
        }
    }

    /// Sets every pixel of the canvas to `color`, in sweep order.
    pub fn send_frame(&mut self, writer: &mut Outbound, canvas: u8, color: Color, size: &CanvasSize) -> (r:
        Result<(), Error>)
        requires
            old(self).protocol().can_set(canvas),
            old(self).frames() < u64::MAX,
        ensures
            final(self).protocol() == old(self).protocol(),
            emitted(
                old(self).frames(),
                final(self).frames(),
                old(writer),
                final(writer),
                r,
                old(self).protocol().set_commands(canvas, color, size.sweep()),
            ),
            final(self).scratch() == scratch_after(old(self).scratch(), size.area()),
            final(writer).flushed() == flushed_after(
                old(writer),
                final(writer),
                old(self).protocol().flushes(),
                size.area(),
            ),
    {
        let ghost commands = self.protocol().set_commands(canvas, color, size.sweep());
        match self {
            Instance::Plaintext(codec) => {
                assert(commands =~= set_commands::<text::Protocol>(canvas, color, size.sweep()));
                codec.send_frame(writer, canvas, color, size)
            },
            Instance::BinFlurry(codec) => {
                assert(commands =~= set_commands::<binary::Protocol>(canvas, color, size.sweep()));
                codec.send_frame(writer, canvas, color, size)
            },
            Instance::BinFlutties(codec) => {
                assert(commands =~= set_commands::<flutties::Protocol>(canvas, color, size.sweep()));
                codec.send_frame(writer, canvas, color, size)
            },
            Instance::Palette(codec) => {
                assert(commands =~= set_commands::<palette::Protocol>(canvas, color, size.sweep()));
                codec.send_frame(writer, canvas, color, size)
            },
        }
    }

    /// Asks for every pixel of the canvas, in sweep order.
    pub fn get_frame(&mut self, writer: &mut Outbound, canvas: u8, size: &CanvasSize) -> (r: Result<
        (),
        Error,
    >)
        requires
            old(self).protocol().can_get(canvas),
            old(self).frames() < u64::MAX,
        ensures
            final(self).protocol() == old(self).protocol(),
            emitted(
                old(self).frames(),
                final(self).frames(),
                old(writer),
                final(writer),
                r,
                old(self).protocol().get_commands(canvas, size.sweep()),
            ),
            final(self).scratch() == scratch_after(old(self).scratch(), size.area()),
            final(writer).flushed() == old(writer).flushed(),
    {
        let ghost commands = self.protocol().get_commands(canvas, size.sweep());
        match self {
            Instance::Plaintext(codec) => {
                assert(commands =~= get_commands::<text::Protocol>(canvas, size.sweep()));
                codec.get_frame(writer, canvas, size)
            },
            Instance::BinFlurry(codec) => {
                assert(commands =~= get_commands::<binary::Protocol>(canvas, size.sweep()));
                codec.get_frame(writer, canvas, size)
            },
            Instance::BinFlutties(codec) => {
                assert(commands =~= get_commands::<flutties::Protocol>(canvas, size.sweep()));
                codec.get_frame(writer, canvas, size)
            },
            Instance::Palette(codec) => {
                assert(commands =~= get_commands::<palette::Protocol>(canvas, size.sweep()));
                codec.get_frame(writer, canvas, size)
            },
        }
    }
    /// Sets as many pixels as the canvas has, each at a coordinate drawn
    /// from `rng`, all to one colour drawn from `rng`.
    pub fn spray_frame(
        &mut self,
        writer: &mut Outbound,
        canvas: u8,
        rng: &mut rand::rngs::StdRng,
        size: &CanvasSize,
    ) -> (r: Result<(), Error>)
        requires
            old(self).protocol().can_set(canvas),
            old(self).frames() < u64::MAX,
        ensures
            final(self).protocol() == old(self).protocol(),
            exists|color: Color, coords: Seq<(u16, u16)>|
                size.covers(coords) && #[trigger] emitted(
                    old(self).frames(),
                    final(self).frames(),
                    old(writer),
                    final(writer),
                    r,
                    old(self).protocol().set_commands(canvas, color, coords),
                ),
            final(self).scratch() == scratch_after(old(self).scratch(), size.area()),
            final(writer).flushed() == flushed_after(
                old(writer),
                final(writer),
                old(self).protocol().flushes(),
                size.area(),
            ),
    {
        let ghost tag = self.protocol();
        let ghost counted = self.frames();
        let r = match self {
            Instance::Plaintext(codec) => codec.spray_frame(writer, canvas, rng, size),
            Instance::BinFlurry(codec) => codec.spray_frame(writer, canvas, rng, size),
            Instance::BinFlutties(codec) => codec.spray_frame(writer, canvas, rng, size),
            Instance::Palette(codec) => codec.spray_frame(writer, canvas, rng, size),
        };
        proof {
            match tag {
                Protocol::Plaintext => {
                    let (color, coords) = choose|color: Color, coords: Seq<(u16, u16)>|
                        size.covers(coords) && #[trigger] emitted(
                            counted,
                            self.frames(),
                            old(writer),
                            writer,
                            r,
                            set_commands::<text::Protocol>(canvas, color, coords),
                        );
                    assert(tag.set_commands(canvas, color, coords) =~= set_commands::<
                        text::Protocol,
                    >(canvas, color, coords));
                },
                Protocol::BinFlurry => {
                    let (color, coords) = choose|color: Color, coords: Seq<(u16, u16)>|
                        size.covers(coords) && #[trigger] emitted(
                            counted,
                            self.frames(),
                            old(writer),
                            writer,
                            r,
                            set_commands::<binary::Protocol>(canvas, color, coords),
                        );
                    assert(tag.set_commands(canvas, color, coords) =~= set_commands::<
                        binary::Protocol,
                    >(canvas, color, coords));
                },
                Protocol::BinFlutties => {
                    let (color, coords) = choose|color: Color, coords: Seq<(u16, u16)>|
                        size.covers(coords) && #[trigger] emitted(
                            counted,
                            self.frames(),
                            old(writer),
                            writer,
                            r,
                            set_commands::<flutties::Protocol>(canvas, color, coords),
                        );
                    assert(tag.set_commands(canvas, color, coords) =~= set_commands::<
                        flutties::Protocol,
                    >(canvas, color, coords));
                },
                Protocol::Palette => {
                    let (color, coords) = choose|color: Color, coords: Seq<(u16, u16)>|
                        size.covers(coords) && #[trigger] emitted(
                            counted,
                            self.frames(),
                            old(writer),
                            writer,
                            r,
                            set_commands::<palette::Protocol>(canvas, color, coords),
                        );
                    assert(tag.set_commands(canvas, color, coords) =~= set_commands::<
                        palette::Protocol,
                    >(canvas, color, coords));
                },
            }
        }
        r
    }
}

} // verus!
