//! The four wire protocols and what they have in common.
//!
//! A frame is one command for each pixel of a canvas. Every codec writes
//! its frames with the same three loops, which are here; what differs from
//! one protocol to the next is the bytes of a command.

use vstd::prelude::*;
use vstd::arithmetic::div_mod::lemma_fundamental_div_mod_converse;
use crate::color::Color;
use crate::transport::Outbound;
use crate::sampling::random_below;
use crate::Error;

pub mod binary;
pub mod flutties;
pub mod handshake;
pub mod instance;
pub mod palette;
pub mod text;

verus! {

/// Which protocol a connection speaks.
#[derive(Debug, Clone, Copy, Hash, PartialEq, Eq, Structural)]
pub enum Protocol {
    /// Lines of text.
    Plaintext,
    /// Binary records with big-endian coordinates.
    BinFlurry,
    /// Binary records with the canvas in the opcode and little-endian
    /// coordinates, paced.
    BinFlutties,
    /// Binary records that carry a palette index.
    Palette,
}

impl Default for Protocol {
    fn default() -> (r: Self)
        ensures
            r == Protocol::Plaintext,
    {
        Protocol::Plaintext
    }
}

/// Width and height of a canvas, as the server reported them. A canvas
/// without pixels is a canvas: its frames are empty.
#[derive(Debug, Clone, Copy, PartialEq, Eq, Structural)]
pub struct CanvasSize {
    pub x: u16,
    pub y: u16,
}

impl CanvasSize {
    /// Number of pixels, which is the number of commands in a frame.
    pub open spec fn area(self) -> nat {
        (self.x * self.y) as nat
    }

    /// The `k`-th coordinate of a sweep: rows from the top, each row from
    /// the left.
    pub open spec fn at(self, k: int) -> (u16, u16) {
        ((k % (self.x as int)) as u16, (k / (self.x as int)) as u16)
    }

    /// Every coordinate once, in sweep order.
    pub open spec fn sweep(self) -> Seq<(u16, u16)> {
        Seq::new(self.area(), |k: int| self.at(k))
    }

    /// `coords` holds `area()` coordinates, each on the canvas.
    pub open spec fn covers(self, coords: Seq<(u16, u16)>) -> bool {
        &&& coords.len() == self.area()
        &&& forall|k: int|
            0 <= k < coords.len() ==> (#[trigger] coords[k]).0 < self.x && coords[k].1 < self.y
    }
}

/// The parts one after the other.
pub open spec fn concat(parts: Seq<Seq<u8>>) -> Seq<u8>
    decreases parts.len(),
{
    if parts.len() == 0 {
        Seq::empty()
    } else {
        concat(parts.drop_last()) + parts.last()
    }
}

/// High byte of a coordinate.
pub open spec fn hi(v: u16) -> u8 {
    (v / 256) as u8
}

/// Low byte of a coordinate.
pub open spec fn lo(v: u16) -> u8 {
    (v % 256) as u8
}

/// The commands of one protocol, and the frame counter of one instance.
pub trait Codec: Sized {
    /// Frames completed so far.
    spec fn frames(&self) -> u64;

    /// The command that sets the pixel at (`x`, `y`) of `canvas` to `color`.
    spec fn set_pixel(canvas: u8, x: u16, y: u16, color: Color) -> Seq<u8>;

    /// The command that asks for the pixel at (`x`, `y`) of `canvas`.
    spec fn get_pixel(canvas: u8, x: u16, y: u16) -> Seq<u8>;

    /// The codec has a set command for `canvas`.
    spec fn can_set(canvas: u8) -> bool;

    /// The codec has a query command for `canvas`.
    spec fn can_get(canvas: u8) -> bool;

    /// What the codec holds of a command once the command was written.
    spec fn scratch(&self) -> Seq<char>;

    /// The codec flushes every set command on its own.
    spec fn flushes() -> bool;

    /// Writes one set command.
    fn put_pixel(&mut self, writer: &mut Outbound, canvas: u8, x: u16, y: u16, color: Color) -> (r:
        Result<(), Error>)
        requires
            Self::can_set(canvas),
        ensures
            final(self).frames() == old(self).frames(),
            final(self).scratch() == Seq::<char>::empty(),
            r is Ok <==> old(writer).accepted(1) == 1,
            r is Err ==> r matches Err(Error::Io(_)),
            old(writer).after(
                final(writer),
                1,
                if r is Ok {
                    Self::set_pixel(canvas, x, y, color)
                } else {
                    Seq::empty()
                },
            ),
            final(writer).flushed() == if Self::flushes() && r is Ok {
                final(writer)@.len()
            } else {
                old(writer).flushed()
            },
    ;

    /// Writes one query command.
    fn query_pixel(&mut self, writer: &mut Outbound, canvas: u8, x: u16, y: u16) -> (r: Result<
        (),
        Error,
    >)
        requires
            Self::can_get(canvas),
        ensures
            final(self).frames() == old(self).frames(),
            final(self).scratch() == Seq::<char>::empty(),
            r is Ok <==> old(writer).accepted(1) == 1,
            r is Err ==> r matches Err(Error::Io(_)),
            old(writer).after(
                final(writer),
                1,
                if r is Ok {
                    Self::get_pixel(canvas, x, y)
                } else {
                    Seq::empty()
                },
            ),
            final(writer).flushed() == old(writer).flushed(),
    ;

    /// Counts one more frame.
    fn end_frame(&mut self)
        requires
            old(self).frames() < u64::MAX,
        ensures
            final(self).frames() == old(self).frames() + 1,
            final(self).scratch() == old(self).scratch(),
    ;

}

/// The frame operations that the four codecs have in common.
pub trait Proto: Codec {
    /// Sets every pixel of the canvas to `color`, in sweep order.
    fn send_frame(&mut self, writer: &mut Outbound, canvas: u8, color: Color, size: &CanvasSize) -> (r:
        Result<(), Error>)
        requires
            Self::can_set(canvas),
            old(self).frames() < u64::MAX,
        ensures
            emitted(
                old(self).frames(),
                final(self).frames(),
                old(writer),
                final(writer),
                r,
                set_commands::<Self>(canvas, color, size.sweep()),
            ),
            final(self).scratch() == scratch_after(old(self).scratch(), size.area()),
            final(writer).flushed() == flushed_after(
                old(writer),
                final(writer),
                Self::flushes(),
                size.area(),
            ),
    ;

    /// Asks for every pixel of the canvas, in sweep order.
    fn get_frame(&mut self, writer: &mut Outbound, canvas: u8, size: &CanvasSize) -> (r: Result<
        (),
        Error,
    >)
        requires
            Self::can_get(canvas),
            old(self).frames() < u64::MAX,
        ensures
            emitted(
                old(self).frames(),
                final(self).frames(),
                old(writer),
                final(writer),
                r,
                get_commands::<Self>(canvas, size.sweep()),
            ),
            final(self).scratch() == scratch_after(old(self).scratch(), size.area()),
            final(writer).flushed() == old(writer).flushed(),
    ;

    /// Sets as many pixels as the canvas has, each at a coordinate drawn
    /// from `rng`, all to one colour drawn from `rng`.
    fn spray_frame(
        &mut self,
        writer: &mut Outbound,
        canvas: u8,
        rng: &mut rand::rngs::StdRng,
        size: &CanvasSize,
    ) -> (r: Result<(), Error>)
        requires
            Self::can_set(canvas),
            old(self).frames() < u64::MAX,
        ensures
            exists|color: Color, coords: Seq<(u16, u16)>|
                size.covers(coords) && #[trigger] emitted(
                    old(self).frames(),
                    final(self).frames(),
                    old(writer),
                    final(writer),
                    r,
                    set_commands::<Self>(canvas, color, coords),
                ),
            final(self).scratch() == scratch_after(old(self).scratch(), size.area()),
            final(writer).flushed() == flushed_after(
                old(writer),
                final(writer),
                Self::flushes(),
                size.area(),
            ),
    ;
}

/// What a codec holds of its commands after a frame of `commands`
/// commands: nothing, and what it held before where the frame was empty.
pub open spec fn scratch_after(before: Seq<char>, commands: nat) -> Seq<char> {
    if commands == 0 {
        before
    } else {
        Seq::empty()
    }
}

/// How much of the stream is flushed after a frame of `commands` set
/// commands: all of it where the codec flushes its commands and one was
/// accepted, and as much as before otherwise.
pub open spec fn flushed_after(before: &Outbound, after: &Outbound, flushes: bool, commands: nat) -> nat {
    if flushes && before.accepted(commands) > 0 {
        after@.len()
    } else {
        before.flushed()
    }
}

/// One set command for each of `coords`, in their order.
pub open spec fn set_commands<P: Codec>(canvas: u8, color: Color, coords: Seq<(u16, u16)>) -> Seq<
    Seq<u8>,
> {
    Seq::new(coords.len(), |k: int| P::set_pixel(canvas, coords[k].0, coords[k].1, color))
}

/// One query command for each of `coords`, in their order.
pub open spec fn get_commands<P: Codec>(canvas: u8, coords: Seq<(u16, u16)>) -> Seq<Seq<u8>> {
    Seq::new(coords.len(), |k: int| P::get_pixel(canvas, coords[k].0, coords[k].1))
}

/// What a frame of `commands` does to the stream and to the frame counter.
///
/// The commands are written one by one until the stream refuses one. The
/// frame succeeds when every command was accepted, and only then is it
/// counted.
pub open spec fn emitted(
    frames_before: u64,
    frames_after: u64,
    before: &Outbound,
    after: &Outbound,
    r: Result<(), Error>,
    commands: Seq<Seq<u8>>,
) -> bool {
    let n = before.accepted(commands.len());
    &&& before.after(after, commands.len(), concat(commands.take(n as int)))
    &&& (r is Ok <==> n == commands.len())
    &&& (r is Err ==> r matches Err(Error::Io(_)))
    &&& frames_after == if r is Ok {
        frames_before + 1
    } else {
        frames_before as int
    }
}

/// Column `i` of row `j` is step `j * x + i` of a sweep.
pub proof fn lemma_sweep_position(size: CanvasSize, i: u16, j: u16)
    requires
        i < size.x,
        j < size.y,
    ensures
        0 <= j * size.x + i < size.area(),
        size.at(j * size.x + i) == (i, j),
        size.sweep()[j * size.x + i] == (i, j),
{
    let x = size.x as int;
    let k = j * x + i;
    assert(0 <= j * x && j * x + x <= x * size.y) by (nonlinear_arith)
        requires
            0 <= j < size.y,
            0 < x,
    ;
    assert(x * j == j * x) by (nonlinear_arith);
    lemma_fundamental_div_mod_converse(k, x, j as int, i as int);
}

/// A sweep stays on its canvas.
pub proof fn lemma_sweep_covers(size: CanvasSize)
    ensures
        size.covers(size.sweep()),
{
    let x = size.x as int;
    assert forall|k: int| 0 <= k < size.sweep().len() implies (#[trigger] size.sweep()[k]).0
        < size.x && size.sweep()[k].1 < size.y by {
        assert(0 < x && 0 <= k % x < x && 0 <= k / x < size.y) by (nonlinear_arith)
            requires
                0 <= k < x * size.y,
                0 <= x,
        ;
    }
}

/// The rows of a canvas hold its area.
proof fn lemma_area(size: CanvasSize)
    ensures
        size.y * size.x == size.area(),
{
    assert(size.y * size.x == size.x * size.y) by (nonlinear_arith);
}

/// A row of a sweep ends where the next one starts.
proof fn lemma_rows(x: u16, y: u16, j: u16)
    requires
        j < y,
    ensures
        0 <= j * x,
        j * x + x == (j + 1) * x,
        (j + 1) * x <= x * y,
{
    assert(0 <= j * x && j * x + x == (j + 1) * x && (j + 1) * x <= x * y) by (nonlinear_arith)
        requires
            0 <= j < y,
            0 <= x,
    ;
}

/// Taking one more part appends that part.
pub proof fn lemma_concat_step(parts: Seq<Seq<u8>>, k: int)
    requires
        0 <= k < parts.len(),
    ensures
        concat(parts.take(k + 1)) == concat(parts.take(k)) + parts[k],
{
    assert(parts.take(k + 1).drop_last() =~= parts.take(k));
    assert(parts.take(k + 1).last() == parts[k]);
}

/// Writes `send_frame` for any codec: one set command per pixel.
pub fn send_sweep<P: Codec>(
    codec: &mut P,
    writer: &mut Outbound,
    canvas: u8,
    color: Color,
    size: &CanvasSize,
) -> (r: Result<(), Error>)
    requires
        P::can_set(canvas),
        old(codec).frames() < u64::MAX,
    ensures
        emitted(
            old(codec).frames(),
            final(codec).frames(),
            old(writer),
            final(writer),
            r,
            set_commands::<P>(canvas, color, size.sweep()),
        ),
        final(codec).scratch() == scratch_after(old(codec).scratch(), size.area()),
        final(writer).flushed() == flushed_after(old(writer), final(writer), P::flushes(), size.area()),
{
    let ghost start = *writer;
    let ghost commands = set_commands::<P>(canvas, color, size.sweep());
    let mut j: u16 = 0;
    while j < size.y
        invariant
            j <= size.y,
            P::can_set(canvas),
            start == *old(writer),
            codec.frames() == old(codec).frames(),
            codec.scratch() == scratch_after(old(codec).scratch(), (j * size.x) as nat),
            writer.flushed() == if P::flushes() && (j * size.x) > 0 {
                writer@.len()
            } else {
                start.flushed()
            },
            commands == set_commands::<P>(canvas, color, size.sweep()),
            0 <= j * size.x <= size.area(),
            start.accepted((j * size.x) as nat) == j * size.x,
            start.after(writer, (j * size.x) as nat, concat(commands.take(j * size.x))),
        decreases size.y - j,
    {
        let mut i: u16 = 0;
        proof {
            lemma_rows(size.x, size.y, j);
        }
        while i < size.x
            invariant
                j < size.y,
                i <= size.x,
                P::can_set(canvas),
                start == *old(writer),
                codec.frames() == old(codec).frames(),
                codec.scratch() == scratch_after(old(codec).scratch(), (j * size.x + i) as nat),
                writer.flushed() == if P::flushes() && (j * size.x + i) > 0 {
                    writer@.len()
                } else {
                    start.flushed()
                },
                commands == set_commands::<P>(canvas, color, size.sweep()),
                0 <= j * size.x + i <= size.area(),
                j * size.x + size.x <= size.area(),
                start.accepted((j * size.x + i) as nat) == j * size.x + i,
                start.after(writer, (j * size.x + i) as nat, concat(commands.take(j * size.x + i))),
            decreases size.x - i,
        {
            proof {
                lemma_sweep_position(*size, i, j);
                lemma_concat_step(commands, j * size.x + i);
            }
            match codec.put_pixel(writer, canvas, i, j, color) {
                Ok(()) => {},
                Err(e) => {
                    return Err(e);
                },
            }
            i += 1;
        }
        j += 1;
    }
    codec.end_frame();
    proof {
        lemma_area(*size);
        assert(commands.len() == size.area());
        assert(start.accepted(commands.len()) == commands.len());
    }
    Ok(())
}

/// Writes `get_frame` for any codec: one query command per pixel.
pub fn get_sweep<P: Codec>(codec: &mut P, writer: &mut Outbound, canvas: u8, size: &CanvasSize) -> (r:
    Result<(), Error>)
    requires
        P::can_get(canvas),
        old(codec).frames() < u64::MAX,
    ensures
        emitted(
            old(codec).frames(),
            final(codec).frames(),
            old(writer),
            final(writer),
            r,
            get_commands::<P>(canvas, size.sweep()),
        ),
        final(codec).scratch() == scratch_after(old(codec).scratch(), size.area()),
        final(writer).flushed() == old(writer).flushed(),
{
    let ghost start = *writer;
    let ghost commands = get_commands::<P>(canvas, size.sweep());
    let mut j: u16 = 0;
    while j < size.y
        invariant
            j <= size.y,
            P::can_get(canvas),
            start == *old(writer),
            codec.frames() == old(codec).frames(),
            codec.scratch() == scratch_after(old(codec).scratch(), (j * size.x) as nat),
            writer.flushed() == start.flushed(),
            commands == get_commands::<P>(canvas, size.sweep()),
            0 <= j * size.x <= size.area(),
            start.accepted((j * size.x) as nat) == j * size.x,
            start.after(writer, (j * size.x) as nat, concat(commands.take(j * size.x))),
        decreases size.y - j,
    {
        let mut i: u16 = 0;
        proof {
            lemma_rows(size.x, size.y, j);
        }
        while i < size.x
            invariant
                j < size.y,
                i <= size.x,
                P::can_get(canvas),
                start == *old(writer),
                codec.frames() == old(codec).frames(),
                codec.scratch() == scratch_after(old(codec).scratch(), (j * size.x + i) as nat),
                writer.flushed() == start.flushed(),
                commands == get_commands::<P>(canvas, size.sweep()),
                0 <= j * size.x + i <= size.area(),
                j * size.x + size.x <= size.area(),
                start.accepted((j * size.x + i) as nat) == j * size.x + i,
                start.after(writer, (j * size.x + i) as nat, concat(commands.take(j * size.x + i))),
            decreases size.x - i,
        {
            proof {
                lemma_sweep_position(*size, i, j);
                lemma_concat_step(commands, j * size.x + i);
            }
            match codec.query_pixel(writer, canvas, i, j) {
                Ok(()) => {},
                Err(e) => {
                    return Err(e);
                },
            }
            i += 1;
        }
        j += 1;
    }
    codec.end_frame();
    proof {
        lemma_area(*size);
        assert(commands.len() == size.area());
        assert(start.accepted(commands.len()) == commands.len());
    }
    Ok(())
}

/// `drawn`, filled up with the origin to the area of a canvas that has one.
pub open spec fn padded(size: CanvasSize, drawn: Seq<(u16, u16)>) -> Seq<(u16, u16)> {
    Seq::new(
        size.area(),
        |k: int|
            if k < drawn.len() {
                drawn[k]
            } else {
                (0u16, 0u16)
            },
    )
}

/// Writes `spray_frame` for any codec: as many set commands as the canvas
/// has pixels, in one colour, each at a coordinate drawn from `rng`.
pub fn spray_sweep<P: Codec>(
    codec: &mut P,
    writer: &mut Outbound,
    canvas: u8,
    color: Color,
    rng: &mut rand::rngs::StdRng,
    size: &CanvasSize,
) -> (r: Result<(), Error>)
    requires
        P::can_set(canvas),
        old(codec).frames() < u64::MAX,
    ensures
        exists|coords: Seq<(u16, u16)>|
            size.covers(coords) && #[trigger] emitted(
                old(codec).frames(),
                final(codec).frames(),
                old(writer),
                final(writer),
                r,
                set_commands::<P>(canvas, color, coords),
            ),
        final(codec).scratch() == scratch_after(old(codec).scratch(), size.area()),
        final(writer).flushed() == flushed_after(old(writer), final(writer), P::flushes(), size.area()),
{
    let ghost start = *writer;
    let ghost drawn: Seq<(u16, u16)> = Seq::empty();
    let mut j: u16 = 0;
    while j < size.y
        invariant
            j <= size.y,
            P::can_set(canvas),
            start == *old(writer),
            codec.frames() == old(codec).frames(),
            codec.scratch() == scratch_after(old(codec).scratch(), (j * size.x) as nat),
            writer.flushed() == if P::flushes() && (j * size.x) > 0 {
                writer@.len()
            } else {
                start.flushed()
            },
            0 <= j * size.x <= size.area(),
            drawn.len() == j * size.x,
            forall|k: int| 0 <= k < drawn.len() ==> (#[trigger] drawn[k]).0 < size.x && drawn[k].1 < size.y,
            start.accepted(drawn.len()) == drawn.len(),
            start.after(writer, drawn.len(), concat(set_commands::<P>(canvas, color, drawn))),
        decreases size.y - j,
    {
        let mut i: u16 = 0;
        proof {
            lemma_rows(size.x, size.y, j);
        }
        while i < size.x
            invariant
                j < size.y,
                i <= size.x,
                P::can_set(canvas),
                start == *old(writer),
                codec.frames() == old(codec).frames(),
                codec.scratch() == scratch_after(old(codec).scratch(), (j * size.x + i) as nat),
                writer.flushed() == if P::flushes() && (j * size.x + i) > 0 {
                    writer@.len()
                } else {
                    start.flushed()
                },
                0 <= j * size.x + i <= size.area(),
                j * size.x + size.x <= size.area(),
                drawn.len() == j * size.x + i,
                forall|k: int|
                    0 <= k < drawn.len() ==> (#[trigger] drawn[k]).0 < size.x && drawn[k].1 < size.y,
                start.accepted(drawn.len()) == drawn.len(),
                start.after(writer, drawn.len(), concat(set_commands::<P>(canvas, color, drawn))),
            decreases size.x - i,
        {
            let lx = random_below(rng, size.x);
            let ly = random_below(rng, size.y);
            let ghost before = drawn;
            proof {
                drawn = drawn.push((lx, ly));
                let commands = set_commands::<P>(canvas, color, drawn);
                assert(commands.drop_last() =~= set_commands::<P>(canvas, color, before));
                assert(commands.last() == P::set_pixel(canvas, lx, ly, color));
            }
            match codec.put_pixel(writer, canvas, lx, ly, color) {
                Ok(()) => {},
                Err(e) => {
                    proof {
                        let coords = padded(*size, drawn);
                        let commands = set_commands::<P>(canvas, color, coords);
                        assert(commands.take(before.len() as int) =~= set_commands::<P>(
                            canvas,
                            color,
                            before,
                        ));
                        assert(size.covers(coords));
                        assert(emitted(
                            old(codec).frames(),
                            codec.frames(),
                            &start,
                            writer,
                            Err(e),
                            commands,
                        ));
                    }
                    return Err(e);
                },
            }
            i += 1;
        }
        j += 1;
    }
    codec.end_frame();
    proof {
        lemma_area(*size);
        let commands = set_commands::<P>(canvas, color, drawn);
        assert(commands.take(commands.len() as int) =~= commands);
        assert(size.covers(drawn));
        assert(emitted(old(codec).frames(), codec.frames(), &start, writer, Ok(()), commands));
    }
    Ok(())
}

/// A frame is written row by row: it has one command for each pixel, and
/// the command for column `i` of row `j` has `j` full rows and `i` commands
/// of its own row before it.
pub proof fn lemma_frame_is_row_major<P: Codec>(
    canvas: u8,
    color: Color,
    size: CanvasSize,
    i: u16,
    j: u16,
)
    requires
        i < size.x,
        j < size.y,
    ensures
        set_commands::<P>(canvas, color, size.sweep()).len() == size.x * size.y,
        get_commands::<P>(canvas, size.sweep()).len() == size.x * size.y,
        0 <= j * size.x + i < size.x * size.y,
        set_commands::<P>(canvas, color, size.sweep())[j * size.x + i] == P::set_pixel(
            canvas,
            i,
            j,
            color,
        ),
        get_commands::<P>(canvas, size.sweep())[j * size.x + i] == P::get_pixel(canvas, i, j),
{
    lemma_sweep_position(size, i, j);
}

/// Parts of one length lie in their concatenation at multiples of it.
pub proof fn lemma_concat_records(parts: Seq<Seq<u8>>, len: nat, k: int)
    requires
        forall|at: int| 0 <= at < parts.len() ==> (#[trigger] parts[at]).len() == len,
        0 <= k < parts.len(),
    ensures
        concat(parts).len() == parts.len() * len,
        0 <= k * len,
        k * len + len <= concat(parts).len(),
        concat(parts).subrange(k * len, k * len + len) == parts[k],
    decreases parts.len(),
{
    let n = parts.len() as int;
    let front = parts.drop_last();
    assert((n - 1) * len + len == n * len && 0 <= k * len && (k < n - 1 ==> k * len + len <= (n
        - 1) * len)) by (nonlinear_arith)
        requires
            0 <= k < n,
            0 <= len,
    ;
    if n == 1 {
        assert(front =~= Seq::<Seq<u8>>::empty());
        assert(concat(front).len() == 0);
        assert(concat(parts) =~= parts[0]);
        assert(concat(parts).subrange(0, len as int) =~= parts[0]);
    } else {
        lemma_concat_records(front, len, if k < n - 1 {
            k
        } else {
            0
        });
        assert(concat(front).len() == (n - 1) * len);
        if k < n - 1 {
            assert(concat(parts).subrange(k * len, k * len + len) =~= concat(front).subrange(
                k * len,
                k * len + len,
            ));
            assert(front[k] == parts[k]);
        } else {
            assert(concat(parts).subrange(k * len, k * len + len) =~= parts[k]);
        }
    }
}

/// What a frame appends to a stream that takes it whole depends on its
/// commands alone, which is on the protocol, the canvas, the colour and the
/// coordinates: two codecs that write the same frame to two such streams
/// append the same bytes, whatever they counted and whatever the streams
/// held before.
pub proof fn lemma_frames_are_deterministic(
    commands: Seq<Seq<u8>>,
    counted: (u64, u64),
    stream: (Outbound, Outbound),
    result: Result<(), Error>,
    other_counted: (u64, u64),
    other_stream: (Outbound, Outbound),
    other_result: Result<(), Error>,
)
    requires
        emitted(counted.0, counted.1, &stream.0, &stream.1, result, commands),
        emitted(
            other_counted.0,
            other_counted.1,
            &other_stream.0,
            &other_stream.1,
            other_result,
            commands,
        ),
        stream.0.accepted(commands.len()) == commands.len(),
        other_stream.0.accepted(commands.len()) == commands.len(),
    ensures
        result is Ok,
        other_result is Ok,
        stream.1@.skip(stream.0@.len() as int) == concat(commands),
        other_stream.1@.skip(other_stream.0@.len() as int) == concat(commands),
{
    assert(commands.take(commands.len() as int) =~= commands);
    assert(stream.1@.skip(stream.0@.len() as int) =~= concat(commands));
    assert(other_stream.1@.skip(other_stream.0@.len() as int) =~= concat(commands));
}

} // verus!
