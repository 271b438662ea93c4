//! The paced binary protocol: the canvas is folded into the opcode, the
//! coordinates are little-endian, and every set command is flushed on its
//! own.

use vstd::prelude::*;
use crate::color::Color;
use crate::protocol::{get_sweep, hi, lo, send_sweep, spray_sweep, CanvasSize, Codec, Proto};
use crate::sampling::random_color;
use crate::transport::Outbound;
use crate::Error;

verus! {

/// Opcode of a set command on canvas 0; canvas `c` has opcode `176 + c`.
pub const SET_PX_RGB_BASE: u8 = 176;

/// Opcode of a query command on canvas 0; canvas `c` has opcode `128 + c`.
pub const GET_PX_BASE: u8 = 128;

/// The highest canvas whose set opcode is a byte.
pub const MAX_SET_CANVAS: u8 = 79;

/// The highest canvas whose query opcode is a byte.
pub const MAX_GET_CANVAS: u8 = 127;

/// Length of a set command.
pub const SET_RECORD_LEN: usize = 8;

/// Length of a query command.
pub const GET_RECORD_LEN: usize = 5;

/// Milliseconds between two set commands on a live connection.
pub const PACE_MILLIS: u64 = 1;

/// The codec of the paced binary protocol.
pub struct Protocol {
    /// Frames completed so far.
    pub count: u64,
}

impl Codec for Protocol {
    open spec fn frames(&self) -> u64 {
        self.count
    }

    open spec fn set_pixel(canvas: u8, x: u16, y: u16, color: Color) -> Seq<u8> {
        seq![
            (SET_PX_RGB_BASE + canvas) as u8,
            lo(x),
            hi(x),
            lo(y),
            hi(y),
            color.red(),
            color.green(),
            color.blue(),
        ]
    }

    open spec fn get_pixel(canvas: u8, x: u16, y: u16) -> Seq<u8> {
        seq![(GET_PX_BASE + canvas) as u8, lo(x), hi(x), lo(y), hi(y)]
    }

    open spec fn can_set(canvas: u8) -> bool {
        canvas <= MAX_SET_CANVAS
    }

    open spec fn scratch(&self) -> Seq<char> {
        Seq::empty()
    }

    open spec fn flushes() -> bool {
        true
    }

    open spec fn can_get(canvas: u8) -> bool {
        canvas <= MAX_GET_CANVAS
    }

    fn put_pixel(&mut self, writer: &mut Outbound, canvas: u8, x: u16, y: u16, color: Color) -> (r:
        Result<(), Error>) {
        let Color::RGB24(r, g, b) = color;
        let record: [u8; 8] = [
            SET_PX_RGB_BASE + canvas,
            (x % 256) as u8,
            (x / 256) as u8,
            (y % 256) as u8,
            (y / 256) as u8,
            r,
            g,
            b,
        ];
        assert(record@ =~= Self::set_pixel(canvas, x, y, color));
        match writer.write_all(record.as_slice()) {
            Ok(()) => writer.flush(),
            Err(e) => Err(e),
        }
    }

    fn query_pixel(&mut self, writer: &mut Outbound, canvas: u8, x: u16, y: u16) -> (r: Result<
        (),
        Error,
    >) {
        let record: [u8; 5] = [
            GET_PX_BASE + canvas,
            (x % 256) as u8,
            (x / 256) as u8,
            (y % 256) as u8,
            (y / 256) as u8,
        ];
        assert(record@ =~= Self::get_pixel(canvas, x, y));
        writer.write_all(record.as_slice())
    }

    fn end_frame(&mut self) {
        self.count += 1;
    }
}

impl Proto for Protocol {
    fn send_frame(&mut self, writer: &mut Outbound, canvas: u8, color: Color, size: &CanvasSize) -> (r:
        Result<(), Error>) {
        send_sweep(self, writer, canvas, color, size)
    }

    fn get_frame(&mut self, writer: &mut Outbound, canvas: u8, size: &CanvasSize) -> (r: Result<
        (),
        Error,
    >) {
        get_sweep(self, writer, canvas, size)
    }

    fn spray_frame(
        &mut self,
        writer: &mut Outbound,
        canvas: u8,
        rng: &mut rand::rngs::StdRng,
        size: &CanvasSize,
    ) -> (r: Result<(), Error>) {
        let color = random_color(rng);
        spray_sweep(self, writer, canvas, color, rng, size)
    }
}

} // verus!
