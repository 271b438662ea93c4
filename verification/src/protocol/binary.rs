//! The binary protocol: fixed-width records, coordinates big-endian.

use vstd::prelude::*;
use crate::color::Color;
use crate::protocol::{
    concat, get_commands, get_sweep, hi, lemma_concat_records, lo, send_sweep, set_commands,
    spray_sweep, CanvasSize, Codec, Proto,
};
use crate::sampling::random_color;
use crate::transport::Outbound;
use crate::Error;

verus! {

/// Opcode of a set command.
pub const SET_PX_RGB_BIN: u8 = 0x80;

/// Opcode of a query command.
pub const GET_PX_BIN: u8 = 0x20;

/// The codec of the binary protocol.
pub struct Protocol {
    /// Frames completed so far.
    pub count: u64,
}

impl Codec for Protocol {
    open spec fn frames(&self) -> u64 {
        self.count
    }

    open spec fn set_pixel(canvas: u8, x: u16, y: u16, color: Color) -> Seq<u8> {
        seq![
            SET_PX_RGB_BIN,
            canvas,
            hi(x),
            lo(x),
            hi(y),
            lo(y),
            color.red(),
            color.green(),
            color.blue(),
        ]
    }

    open spec fn get_pixel(canvas: u8, x: u16, y: u16) -> Seq<u8> {
        seq![GET_PX_BIN, canvas, hi(x), lo(x), hi(y), lo(y)]
    }

    open spec fn can_set(canvas: u8) -> bool {
        true
    }

    open spec fn scratch(&self) -> Seq<char> {
        Seq::empty()
    }

    open spec fn flushes() -> bool {
        false
    }

    open spec fn can_get(canvas: u8) -> bool {
        true
    }

    fn put_pixel(&mut self, writer: &mut Outbound, canvas: u8, x: u16, y: u16, color: Color) -> (r:
        Result<(), Error>) {
        let Color::RGB24(r, g, b) = color;
        let record: [u8; 9] = [
            SET_PX_RGB_BIN,
            canvas,
            (x / 256) as u8,
            (x % 256) as u8,
            (y / 256) as u8,
            (y % 256) as u8,
            r,
            g,
            b,
        ];
        assert(record@ =~= Self::set_pixel(canvas, x, y, color));
        writer.write_all(record.as_slice())
    }

    fn query_pixel(&mut self, writer: &mut Outbound, canvas: u8, x: u16, y: u16) -> (r: Result<
        (),
        Error,
    >) {
        let record: [u8; 6] = [
            GET_PX_BIN,
            canvas,
            (x / 256) as u8,
            (x % 256) as u8,
            (y / 256) as u8,
            (y % 256) as u8,
        ];
        assert(record@ =~= Self::get_pixel(canvas, x, y));
        writer.write_all(record.as_slice())
    }

    fn end_frame(&mut self) {
        self.count += 1;
    }
}

impl Proto for Protocol {
    fn send_frame(&mut self, writer: &mut Outbound, canvas: u8, color: Color, size: &CanvasSize) -> (r:
        Result<(), Error>) {
        send_sweep(self, writer, canvas, color, size)
    }

    fn get_frame(&mut self, writer: &mut Outbound, canvas: u8, size: &CanvasSize) -> (r: Result<
        (),
        Error,
    >) {
        get_sweep(self, writer, canvas, size)
    }

    fn spray_frame(
        &mut self,
        writer: &mut Outbound,
        canvas: u8,
        rng: &mut rand::rngs::StdRng,
        size: &CanvasSize,
    ) -> (r: Result<(), Error>) {
        let color = random_color(rng);
        spray_sweep(self, writer, canvas, color, rng, size)
    }
}

/// Length of a set command.
pub const SET_RECORD_LEN: usize = 9;

/// Length of a query command.
pub const GET_RECORD_LEN: usize = 6;

/// A frame of set commands is one record of nine bytes for each pixel, and
/// every record starts with the set opcode and the canvas.
pub proof fn lemma_send_frame_records(canvas: u8, color: Color, size: CanvasSize, k: int)
    requires
        0 <= k < size.x * size.y,
    ensures
        ({
            let stream = concat(set_commands::<Protocol>(canvas, color, size.sweep()));
            &&& stream.len() == size.x * size.y * SET_RECORD_LEN
            &&& 0 <= k * SET_RECORD_LEN
            &&& k * SET_RECORD_LEN + SET_RECORD_LEN <= stream.len()
            &&& stream[k * SET_RECORD_LEN] == SET_PX_RGB_BIN
            &&& stream[k * SET_RECORD_LEN + 1] == canvas
            &&& stream.subrange(k * SET_RECORD_LEN, k * SET_RECORD_LEN + SET_RECORD_LEN)
                == Protocol::set_pixel(canvas, size.at(k).0, size.at(k).1, color)
        }),
{
    let commands = set_commands::<Protocol>(canvas, color, size.sweep());
    lemma_concat_records(commands, SET_RECORD_LEN as nat, k);
    let record = concat(commands).subrange(k * SET_RECORD_LEN, k * SET_RECORD_LEN + SET_RECORD_LEN);
    assert(record[0] == concat(commands)[k * SET_RECORD_LEN]);
    assert(record[1] == concat(commands)[k * SET_RECORD_LEN + 1]);
}

/// A frame of queries is one record of six bytes for each pixel, and every
/// record starts with the query opcode and the canvas.
pub proof fn lemma_get_frame_records(canvas: u8, size: CanvasSize, k: int)
    requires
        0 <= k < size.x * size.y,
    ensures
        ({
            let stream = concat(get_commands::<Protocol>(canvas, size.sweep()));
            &&& stream.len() == size.x * size.y * GET_RECORD_LEN
            &&& 0 <= k * GET_RECORD_LEN
            &&& k * GET_RECORD_LEN + GET_RECORD_LEN <= stream.len()
            &&& stream[k * GET_RECORD_LEN] == GET_PX_BIN
            &&& stream[k * GET_RECORD_LEN + 1] == canvas
            &&& stream.subrange(k * GET_RECORD_LEN, k * GET_RECORD_LEN + GET_RECORD_LEN)
                == Protocol::get_pixel(canvas, size.at(k).0, size.at(k).1)
        }),
{
    let commands = get_commands::<Protocol>(canvas, size.sweep());
    lemma_concat_records(commands, GET_RECORD_LEN as nat, k);
    let record = concat(commands).subrange(k * GET_RECORD_LEN, k * GET_RECORD_LEN + GET_RECORD_LEN);
    assert(record[0] == concat(commands)[k * GET_RECORD_LEN]);
    assert(record[1] == concat(commands)[k * GET_RECORD_LEN + 1]);
}

} // verus!
