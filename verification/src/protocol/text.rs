//! The plaintext protocol: one line of ASCII per command.
//!
//! A set command is `PX <x> <y> <RRGGBB>` and a query is `PX <x> <y>`, with
//! the coordinates in decimal, the colour as two upper-case hexadecimal
//! digits per channel, and a line feed at the end. The canvas has no place
//! in either.

use vstd::prelude::*;
use vstd::string::StringSliceAdditionalSpecFns;
use vstd::utf8::{encode_utf8, is_ascii_chars, is_ascii_chars_encode_utf8};
use crate::color::Color;
use crate::protocol::{
    concat, get_commands, get_sweep, lemma_frame_is_row_major, send_sweep, set_commands,
    spray_sweep, CanvasSize, Codec, Proto,
};
use crate::sampling::random_color;
use crate::transport::{Outbound, LINE_FEED};
use crate::Error;

verus! {

/// `String::push` appends one character.
pub assume_specification[ String::push ](string: &mut String, ch: char)
    ensures
        final(string)@ == old(string)@.push(ch),
;

/// `String::clear` leaves the string empty.
pub assume_specification[ String::clear ](string: &mut String)
    ensures
        final(string)@ == Seq::<char>::empty(),
;

/// ASCII `0`.
pub const DIGIT_0: u8 = 48;

/// ASCII `A`.
pub const UPPER_A: u8 = 65;

/// ASCII `P`.
pub const UPPER_P: u8 = 80;

/// ASCII `X`.
pub const UPPER_X: u8 = 88;

/// ASCII space.
pub const SPACE: u8 = 32;

/// The digits of `n` in base ten, without leading zeros.
pub open spec fn decimal(n: nat) -> Seq<u8>
    decreases n,
{
    if n < 10 {
        seq![(DIGIT_0 + n) as u8]
    } else {
        decimal(n / 10).push((DIGIT_0 + n % 10) as u8)
    }
}

/// The upper-case hexadecimal digit of a value below sixteen.
pub open spec fn hex_digit(n: u8) -> u8 {
    if n < 10 {
        (DIGIT_0 + n) as u8
    } else {
        (UPPER_A + (n - 10)) as u8
    }
}

/// The two hexadecimal digits of a byte, the higher first.
pub open spec fn hex(b: u8) -> Seq<u8> {
    seq![hex_digit(b / 16), hex_digit(b % 16)]
}

/// The line that sets the pixel at (`x`, `y`) to `color`.
pub open spec fn set_line(x: u16, y: u16, color: Color) -> Seq<u8> {
    seq![UPPER_P, UPPER_X, SPACE] + decimal(x as nat) + seq![SPACE] + decimal(y as nat) + seq![SPACE] + hex(
        color.red(),
    ) + hex(color.green()) + hex(color.blue()) + seq![LINE_FEED]
}

/// The line that asks for the pixel at (`x`, `y`).
pub open spec fn get_line(x: u16, y: u16) -> Seq<u8> {
    seq![UPPER_P, UPPER_X, SPACE] + decimal(x as nat) + seq![SPACE] + decimal(y as nat) + seq![LINE_FEED]
}

/// Bytes below 128, read as the characters they encode.
pub open spec fn ascii(bytes: Seq<u8>) -> Seq<char> {
    Seq::new(bytes.len(), |i: int| bytes[i] as char)
}

/// Every byte is below 128.
pub open spec fn is_ascii_bytes(bytes: Seq<u8>) -> bool {
    forall|i: int| 0 <= i < bytes.len() ==> #[trigger] bytes[i] < 128
}

/// A string of ASCII characters is stored as the bytes that it shows.
pub proof fn lemma_ascii_bytes(bytes: Seq<u8>)
    requires
        is_ascii_bytes(bytes),
    ensures
        encode_utf8(ascii(bytes)) == bytes,
{
    let chars = ascii(bytes);
    assert(is_ascii_chars(chars)) by {
        assert forall|i: int| 0 <= i < chars.len() implies '\0' <= #[trigger] chars[i]
            <= '\u{7f}' by {
            assert(bytes[i] < 128);
        }
    }
    is_ascii_chars_encode_utf8(chars);
    assert forall|i: int| 0 <= i < bytes.len() implies encode_utf8(chars)[i] == bytes[i] by {
        assert(chars[i] as u8 == encode_utf8(chars)[i]);
        assert(bytes[i] < 128);
    }
    assert(encode_utf8(chars) =~= bytes);
}

/// Decimal digits are ASCII.
pub proof fn lemma_decimal_is_ascii(n: nat)
    ensures
        is_ascii_bytes(decimal(n)),
        decimal(n).len() >= 1,
    decreases n,
{
    if n >= 10 {
        lemma_decimal_is_ascii(n / 10);
    }
}

/// Appends one ASCII byte as a character.
pub(crate) fn push_byte(text: &mut String, Ghost(shown): Ghost<Seq<u8>>, b: u8)
    requires
        b < 128,
        old(text)@ == ascii(shown),
    ensures
        final(text)@ == ascii(shown.push(b)),
{
    text.push(b as char);
    assert(text@ =~= ascii(shown.push(b)));
}

/// Appends the decimal digits of `v`.
pub(crate) fn push_decimal(text: &mut String, Ghost(shown): Ghost<Seq<u8>>, v: u16)
    requires
        old(text)@ == ascii(shown),
    ensures
        final(text)@ == ascii(shown + decimal(v as nat)),
    decreases v,
{
    if v >= 10 {
        push_decimal(text, Ghost(shown), v / 10);
        let d = (v % 10) as u8;
        push_byte(text, Ghost(shown + decimal((v / 10) as nat)), DIGIT_0 + d);
        assert(shown + decimal(v as nat) =~= (shown + decimal((v / 10) as nat)).push(
            (DIGIT_0 + d) as u8,
        ));
    } else {
        let d = v as u8;
        push_byte(text, Ghost(shown), DIGIT_0 + d);
        assert(shown + decimal(v as nat) =~= shown.push((DIGIT_0 + d) as u8));
    }
}

/// Appends the two hexadecimal digits of `b`.
fn push_hex(text: &mut String, Ghost(shown): Ghost<Seq<u8>>, b: u8)
    requires
        old(text)@ == ascii(shown),
    ensures
        final(text)@ == ascii(shown + hex(b)),
{
    let high = hex_digit_of(b / 16);
    let low = hex_digit_of(b % 16);
    push_byte(text, Ghost(shown), high);
    push_byte(text, Ghost(shown.push(high)), low);
    assert(shown + hex(b) =~= shown.push(high).push(low));
}

/// The upper-case hexadecimal digit of `n`.
fn hex_digit_of(n: u8) -> (d: u8)
    requires
        n < 16,
    ensures
        d == hex_digit(n),
        d < 128,
{
    if n < 10 {
        DIGIT_0 + n
    } else {
        UPPER_A + (n - 10)
    }
}

/// The codec of the plaintext protocol.
pub struct Protocol {
    /// The line being built. Every command starts it anew and leaves it
    /// empty.
    pub str: String,
    /// Frames completed so far.
    pub count: u64,
}

impl Protocol {
    /// Replaces the scratch line by `PX <x> <y>`.
    fn begin_line(&mut self, x: u16, y: u16)
        ensures
            final(self).str@ == ascii(
                seq![UPPER_P, UPPER_X, SPACE] + decimal(x as nat) + seq![SPACE] + decimal(y as nat),
            ),
            final(self).count == old(self).count,
    {
        self.str.clear();
        let ghost mut shown: Seq<u8> = Seq::empty();
        assert(self.str@ =~= ascii(shown));
        push_byte(&mut self.str, Ghost(shown), UPPER_P);
        proof {
            shown = shown.push(UPPER_P);
        }
        push_byte(&mut self.str, Ghost(shown), UPPER_X);
        proof {
            shown = shown.push(UPPER_X);
        }
        push_byte(&mut self.str, Ghost(shown), SPACE);
        proof {
            shown = shown.push(SPACE);
        }
        push_decimal(&mut self.str, Ghost(shown), x);
        proof {
            shown = shown + decimal(x as nat);
        }
        push_byte(&mut self.str, Ghost(shown), SPACE);
        proof {
            shown = shown.push(SPACE);
        }
        push_decimal(&mut self.str, Ghost(shown), y);
        proof {
            shown = shown + decimal(y as nat);
            assert(shown =~= seq![UPPER_P, UPPER_X, SPACE] + decimal(x as nat) + seq![SPACE] + decimal(
                y as nat,
            ));
        }
    }
}

/// The lines of this protocol are ASCII.
pub proof fn lemma_lines_are_ascii(x: u16, y: u16, color: Color)
    ensures
        is_ascii_bytes(set_line(x, y, color)),
        is_ascii_bytes(get_line(x, y)),
{
    lemma_decimal_is_ascii(x as nat);
    lemma_decimal_is_ascii(y as nat);
}

impl Codec for Protocol {
    open spec fn frames(&self) -> u64 {
        self.count
    }

    open spec fn set_pixel(canvas: u8, x: u16, y: u16, color: Color) -> Seq<u8> {
        set_line(x, y, color)
    }

    open spec fn get_pixel(canvas: u8, x: u16, y: u16) -> Seq<u8> {
        get_line(x, y)
    }

    open spec fn can_set(canvas: u8) -> bool {
        true
    }

    open spec fn scratch(&self) -> Seq<char> {
        self.str@
    }

    open spec fn flushes() -> bool {
        false
    }

    open spec fn can_get(canvas: u8) -> bool {
        true
    }

    fn put_pixel(&mut self, writer: &mut Outbound, canvas: u8, x: u16, y: u16, color: Color) -> (r:
        Result<(), Error>) {
        let Color::RGB24(r, g, b) = color;
        self.begin_line(x, y);
        let ghost mut shown = seq![UPPER_P, UPPER_X, SPACE] + decimal(x as nat) + seq![SPACE]
            + decimal(y as nat);
        push_byte(&mut self.str, Ghost(shown), SPACE);
        proof {
            shown = shown.push(SPACE);
        }
        push_hex(&mut self.str, Ghost(shown), r);
        proof {
            shown = shown + hex(r);
        }
        push_hex(&mut self.str, Ghost(shown), g);
        proof {
            shown = shown + hex(g);
        }
        push_hex(&mut self.str, Ghost(shown), b);
        proof {
            shown = shown + hex(b);
        }
        push_byte(&mut self.str, Ghost(shown), LINE_FEED);
        proof {
            shown = shown.push(LINE_FEED);
            assert(shown =~= set_line(x, y, color));
            lemma_lines_are_ascii(x, y, color);
            lemma_ascii_bytes(shown);
        }
        let r = writer.write_all(self.str.as_str().as_bytes());
        self.str.clear();
        r
    }

    fn query_pixel(&mut self, writer: &mut Outbound, canvas: u8, x: u16, y: u16) -> (r: Result<
        (),
        Error,
    >) {
        self.begin_line(x, y);
        let ghost mut shown = seq![UPPER_P, UPPER_X, SPACE] + decimal(x as nat) + seq![SPACE]
            + decimal(y as nat);
        push_byte(&mut self.str, Ghost(shown), LINE_FEED);
        proof {
            shown = shown.push(LINE_FEED);
            assert(shown =~= get_line(x, y));
            lemma_lines_are_ascii(x, y, Color::RGB24(0, 0, 0));
            lemma_ascii_bytes(shown);
        }
        let r = writer.write_all(self.str.as_str().as_bytes());
        self.str.clear();
        r
    }

    fn end_frame(&mut self) {
        self.count += 1;
    }
}

impl Proto for Protocol {
    fn send_frame(&mut self, writer: &mut Outbound, canvas: u8, color: Color, size: &CanvasSize) -> (r:
        Result<(), Error>) {
        send_sweep(self, writer, canvas, color, size)
    }

    fn get_frame(&mut self, writer: &mut Outbound, canvas: u8, size: &CanvasSize) -> (r: Result<
        (),
        Error,
    >) {
        get_sweep(self, writer, canvas, size)
    }

    fn spray_frame(
        &mut self,
        writer: &mut Outbound,
        canvas: u8,
        rng: &mut rand::rngs::StdRng,
        size: &CanvasSize,
    ) -> (r: Result<(), Error>) {
        let color = random_color(rng);
        spray_sweep(self, writer, canvas, color, rng, size)
    }
}

/// Number of line feeds in `bytes`.
pub open spec fn line_count(bytes: Seq<u8>) -> nat
    decreases bytes.len(),
{
    if bytes.len() == 0 {
        0
    } else {
        line_count(bytes.drop_last()) + if bytes.last() == LINE_FEED {
            1nat
        } else {
            0nat
        }
    }
}

/// Every byte is a letter, a digit or a space.
pub open spec fn is_plain(bytes: Seq<u8>) -> bool {
    forall|i: int| 0 <= i < bytes.len() ==> SPACE <= #[trigger] bytes[i] < 127
}

/// Plain bytes hold no line feed.
proof fn lemma_plain_has_no_line(bytes: Seq<u8>)
    requires
        is_plain(bytes),
    ensures
        line_count(bytes) == 0,
    decreases bytes.len(),
{
    if bytes.len() > 0 {
        assert(bytes.last() == bytes[bytes.len() - 1]);
        lemma_plain_has_no_line(bytes.drop_last());
    }
}

/// Decimal digits are plain.
proof fn lemma_decimal_is_plain(n: nat)
    ensures
        is_plain(decimal(n)),
    decreases n,
{
    if n >= 10 {
        lemma_decimal_is_plain(n / 10);
    }
}

/// The line feeds of two parts add up.
proof fn lemma_line_count_add(left: Seq<u8>, right: Seq<u8>)
    ensures
        line_count(left + right) == line_count(left) + line_count(right),
    decreases right.len(),
{
    if right.len() == 0 {
        assert(left + right =~= left);
    } else {
        assert((left + right).drop_last() =~= left + right.drop_last());
        lemma_line_count_add(left, right.drop_last());
    }
}

/// A command of this protocol is one line: its only line feed is its last
/// byte.
pub proof fn lemma_command_is_one_line(x: u16, y: u16, color: Color)
    ensures
        line_count(set_line(x, y, color)) == 1,
        set_line(x, y, color).last() == LINE_FEED,
        line_count(get_line(x, y)) == 1,
        get_line(x, y).last() == LINE_FEED,
{
    lemma_decimal_is_plain(x as nat);
    lemma_decimal_is_plain(y as nat);
    let head = seq![UPPER_P, UPPER_X, SPACE] + decimal(x as nat) + seq![SPACE] + decimal(y as nat);
    let colored = head + seq![SPACE] + hex(color.red()) + hex(color.green()) + hex(color.blue());
    assert(is_plain(head));
    assert(is_plain(colored));
    lemma_plain_has_no_line(head);
    lemma_plain_has_no_line(colored);
    assert(set_line(x, y, color) =~= colored + seq![LINE_FEED]);
    assert(get_line(x, y) =~= head + seq![LINE_FEED]);
    lemma_line_count_add(colored, seq![LINE_FEED]);
    lemma_line_count_add(head, seq![LINE_FEED]);
    assert(line_count(seq![LINE_FEED]) == 1) by {
        let feed = seq![LINE_FEED];
        assert(feed.drop_last() =~= Seq::<u8>::empty());
        assert(line_count(feed.drop_last()) == 0);
        assert(feed.last() == LINE_FEED);
    }
}

/// Commands of one line each make as many lines as there are commands.
proof fn lemma_lines_of(parts: Seq<Seq<u8>>)
    requires
        forall|k: int| 0 <= k < parts.len() ==> line_count(#[trigger] parts[k]) == 1,
    ensures
        line_count(concat(parts)) == parts.len(),
    decreases parts.len(),
{
    if parts.len() > 0 {
        lemma_lines_of(parts.drop_last());
        lemma_line_count_add(concat(parts.drop_last()), parts.last());
    }
}

/// A frame of set commands is one line `PX <i> <j> <RRGGBB>` for each
/// pixel and nothing else, and the line for column `i` of row `j` comes
/// after `j` rows and `i` lines of its own row.
pub proof fn lemma_send_frame_lines(canvas: u8, color: Color, size: CanvasSize, i: u16, j: u16)
    requires
        i < size.x,
        j < size.y,
    ensures
        ({
            let lines = set_commands::<Protocol>(canvas, color, size.sweep());
            &&& lines.len() == size.x * size.y
            &&& line_count(concat(lines)) == size.x * size.y
            &&& 0 <= j * size.x + i < lines.len()
            &&& lines[j * size.x + i] == set_line(i, j, color)
        }),
{
    let lines = set_commands::<Protocol>(canvas, color, size.sweep());
    lemma_frame_is_row_major::<Protocol>(canvas, color, size, i, j);
    assert forall|k: int| 0 <= k < lines.len() implies line_count(#[trigger] lines[k]) == 1 by {
        lemma_command_is_one_line(size.sweep()[k].0, size.sweep()[k].1, color);
    }
    lemma_lines_of(lines);
}

/// A frame of queries is one line `PX <i> <j>` for each pixel and nothing
/// else, in the order of the set commands.
pub proof fn lemma_get_frame_lines(canvas: u8, size: CanvasSize, i: u16, j: u16)
    requires
        i < size.x,
        j < size.y,
    ensures
        ({
            let lines = get_commands::<Protocol>(canvas, size.sweep());
            &&& lines.len() == size.x * size.y
            &&& line_count(concat(lines)) == size.x * size.y
            &&& 0 <= j * size.x + i < lines.len()
            &&& lines[j * size.x + i] == get_line(i, j)
        }),
{
    let lines = get_commands::<Protocol>(canvas, size.sweep());
    lemma_frame_is_row_major::<Protocol>(canvas, Color::RGB24(0, 0, 0), size, i, j);
    assert forall|k: int| 0 <= k < lines.len() implies line_count(#[trigger] lines[k]) == 1 by {
        lemma_command_is_one_line(size.sweep()[k].0, size.sweep()[k].1, Color::RGB24(0, 0, 0));
    }
    lemma_lines_of(lines);
}

} // verus!
