//! The palette protocol: binary records that carry one palette index in
//! place of a colour. The index is the colour's red channel.

use vstd::prelude::*;
use crate::color::Color;
use crate::protocol::{get_sweep, hi, lo, send_sweep, spray_sweep, CanvasSize, Codec, Proto};
use crate::sampling::random_byte;
use crate::transport::Outbound;
use crate::Error;

verus! {

/// Opcode of a set command.
pub const SET_PX_PALETTE_BIN: u8 = 0x21;

/// Opcode of a query command.
pub const GET_PX_BIN: u8 = 0x20;

/// The codec of the palette protocol.
pub struct Protocol {
    /// Frames completed so far.
    pub count: u64,
}

impl Codec for Protocol {
    open spec fn frames(&self) -> u64 {
        self.count
    }

    open spec fn set_pixel(canvas: u8, x: u16, y: u16, color: Color) -> Seq<u8> {
        seq![SET_PX_PALETTE_BIN, canvas, hi(x), lo(x), hi(y), lo(y), color.red()]
    }

    open spec fn get_pixel(canvas: u8, x: u16, y: u16) -> Seq<u8> {
        seq![GET_PX_BIN, canvas, hi(x), lo(x), hi(y), lo(y)]
    }

    open spec fn can_set(canvas: u8) -> bool {
        true
    }

    open spec fn scratch(&self) -> Seq<char> {
        Seq::empty()
    }

    open spec fn flushes() -> bool {
        false
    }

    open spec fn can_get(canvas: u8) -> bool {
        true
    }

    fn put_pixel(&mut self, writer: &mut Outbound, canvas: u8, x: u16, y: u16, color: Color) -> (r:
        Result<(), Error>) {
        let Color::RGB24(index, _, _) = color;
        let record: [u8; 7] = [
            SET_PX_PALETTE_BIN,
            canvas,
            (x / 256) as u8,
            (x % 256) as u8,
            (y / 256) as u8,
            (y % 256) as u8,
            index,
        ];
        assert(record@ =~= Self::set_pixel(canvas, x, y, color));
        writer.write_all(record.as_slice())
    }

    fn query_pixel(&mut self, writer: &mut Outbound, canvas: u8, x: u16, y: u16) -> (r: Result<
        (),
        Error,
    >) {
        let record: [u8; 6] = [
            GET_PX_BIN,
            canvas,
            (x / 256) as u8,
            (x % 256) as u8,
            (y / 256) as u8,
            (y % 256) as u8,
        ];
        assert(record@ =~= Self::get_pixel(canvas, x, y));
        writer.write_all(record.as_slice())
    }

    fn end_frame(&mut self) {
        self.count += 1;
    }
}

impl Proto for Protocol {
    fn send_frame(&mut self, writer: &mut Outbound, canvas: u8, color: Color, size: &CanvasSize) -> (r:
        Result<(), Error>) {
        send_sweep(self, writer, canvas, color, size)
    }

    fn get_frame(&mut self, writer: &mut Outbound, canvas: u8, size: &CanvasSize) -> (r: Result<
        (),
        Error,
    >) {
        get_sweep(self, writer, canvas, size)
    }

    fn spray_frame(
        &mut self,
        writer: &mut Outbound,
        canvas: u8,
        rng: &mut rand::rngs::StdRng,
        size: &CanvasSize,
    ) -> (r: Result<(), Error>) {
        let index = random_byte(rng);
        spray_sweep(self, writer, canvas, Color::RGB24(index, 0, 0), rng, size)
    }
}

} // verus!
