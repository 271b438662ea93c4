//! The size negotiation that opens a connection: what is sent, what is read
//! back, and which canvas size the answer stands for.

use vstd::prelude::*;
use vstd::slice::slice_subrange;
use vstd::string::StringSliceAdditionalSpecFns;
use crate::protocol::text::{decimal, lemma_ascii_bytes, lemma_decimal_is_ascii, push_decimal};
use crate::protocol::{concat, CanvasSize, Protocol};
use crate::transport::{lemma_line_len_bound, line_len, Inbound, Outbound};
use crate::Error;

verus! {

/// Opcode of the size request of the binary and the palette protocol.
pub const SIZE_BIN: u8 = 115;

/// Opcode of the size request of the paced binary protocol.
pub const SIZE_FLUTTIES: u8 = 32;

/// Number of bytes in a binary answer: two coordinates of two bytes.
pub const SIZE_REPLY_LEN: usize = 4;

/// ASCII `+`, which may stand before the digits of a number.
pub const PLUS: u8 = 43;

/// What is read back after the request.
#[derive(Debug, Clone, Copy, PartialEq, Eq, Structural)]
pub enum Reply {
    /// A line of text, up to its line feed.
    Line,
    /// This many bytes.
    Bytes(usize),
}

/// A byte that separates the words of a line: space, tab, line feed, form
/// feed or carriage return.
pub open spec fn is_space(b: u8) -> bool {
    b == 32 || b == 9 || b == 10 || b == 12 || b == 13
}

/// `line` without the spaces it starts with.
pub open spec fn skip_spaces(line: Seq<u8>) -> Seq<u8>
    decreases line.len(),
{
    if line.len() > 0 && is_space(line[0]) {
        skip_spaces(line.drop_first())
    } else {
        line
    }
}

/// Number of bytes before the first space of `line`.
pub open spec fn word_len(line: Seq<u8>) -> nat
    decreases line.len(),
{
    if line.len() > 0 && !is_space(line[0]) {
        1 + word_len(line.drop_first())
    } else {
        0
    }
}

/// The first word of `line`; empty where the line holds none.
pub open spec fn first_word(line: Seq<u8>) -> Seq<u8> {
    skip_spaces(line).take(word_len(skip_spaces(line)) as int)
}

/// What follows the first word of `line`.
pub open spec fn after_word(line: Seq<u8>) -> Seq<u8> {
    skip_spaces(line).skip(word_len(skip_spaces(line)) as int)
}

/// The word of `line` with `k` words before it; empty where the line has
/// no more than `k` words.
pub open spec fn word(line: Seq<u8>, k: nat) -> Seq<u8>
    decreases k,
{
    if k == 0 {
        first_word(line)
    } else {
        word(after_word(line), (k - 1) as nat)
    }
}

/// The number that the decimal digits `digits` write.
pub open spec fn digits_value(digits: Seq<u8>) -> nat
    decreases digits.len(),
{
    if digits.len() == 0 {
        0
    } else {
        digits_value(digits.drop_last()) * 10 + (digits.last() - 48) as nat
    }
}

/// Every byte is one of `0` to `9`.
pub open spec fn all_digits(digits: Seq<u8>) -> bool {
    forall|i: int| 0 <= i < digits.len() ==> 48 <= #[trigger] digits[i] <= 57
}

/// The 16-bit number that `text` writes in decimal: one digit or more,
/// after one `+` or none, with a value that fits.
pub open spec fn decimal_u16(text: Seq<u8>) -> Option<u16> {
    let digits = if text.len() > 0 && text[0] == PLUS {
        text.drop_first()
    } else {
        text
    };
    if digits.len() > 0 && all_digits(digits) && digits_value(digits) <= u16::MAX {
        Some(digits_value(digits) as u16)
    } else {
        None
    }
}

/// The number with `high` as its upper and `low` as its lower byte.
pub open spec fn be16(high: u8, low: u8) -> u16 {
    (high * 256 + low) as u16
}

/// `atoi_radix10::ParseIntErrorPublic`, carried through as an opaque value.
#[verifier::external_type_specification]
#[verifier::external_body]
pub struct ExParseIntErrorPublic(atoi_radix10::ParseIntErrorPublic);

/// `atoi_radix10::parse` at `u16`. The crate parses as `str::parse` does:
/// it takes one `+` or none, then one decimal digit or more, leading zeros
/// among them, and gives their value where that fits 16 bits. Everything
/// else is an error, whose kind is not looked at.
#[verifier::external_body]
fn parse_u16(digits: &[u8]) -> (r: Result<u16, atoi_radix10::ParseIntErrorPublic>)
    ensures
        r is Ok <==> decimal_u16(digits@) is Some,
        r matches Ok(v) ==> decimal_u16(digits@) == Some(v),
{
    atoi_radix10::parse::<u16>(digits)
}

impl Protocol {
    /// The writes that ask for the size of `canvas`, in their order.
    pub open spec fn request(self, canvas: u8) -> Seq<Seq<u8>> {
        match self {
            Protocol::Plaintext => seq![
                "CANVAS ".spec_bytes() + decimal(canvas as nat) + "\nSIZE\n".spec_bytes(),
            ],
            Protocol::BinFlurry => seq!["PROTOCOL binary\n".spec_bytes(), seq![SIZE_BIN, canvas]],
            Protocol::BinFlutties => seq![seq![SIZE_FLUTTIES, canvas]],
            Protocol::Palette => seq!["PROTOCOL palette\n".spec_bytes(), seq![SIZE_BIN, canvas]],
        }
    }

    /// What is to be read after the request.
    pub open spec fn reply(self) -> Reply {
        match self {
            Protocol::Plaintext => Reply::Line,
            _ => Reply::Bytes(SIZE_REPLY_LEN),
        }
    }

    /// The part of `pending` that is read as the answer.
    pub open spec fn reply_of(self, pending: Seq<u8>) -> Seq<u8> {
        match self {
            Protocol::Plaintext => pending.take(line_len(pending) as int),
            _ => if pending.len() <= SIZE_REPLY_LEN {
                pending
            } else {
                pending.take(SIZE_REPLY_LEN as int)
            },
        }
    }

    /// The size that `reply` stands for, where it stands for one.
    ///
    /// A line gives the size in its second and third word. A binary answer
    /// is the width and then the height, the upper byte of each first.
    pub open spec fn size_of(self, reply: Seq<u8>) -> Option<CanvasSize> {
        match self {
            Protocol::Plaintext => match (decimal_u16(word(reply, 1)), decimal_u16(word(reply, 2))) {
                (Some(x), Some(y)) => Some(CanvasSize { x, y }),
                _ => None,
            },
            _ => if reply.len() == SIZE_REPLY_LEN {
                Some(CanvasSize { x: be16(reply[0], reply[1]), y: be16(reply[2], reply[3]) })
            } else {
                None
            },
        }
    }

    /// What is to be read after the request.
    pub fn expected_reply(&self) -> (r: Reply)
        ensures
            r == self.reply(),
    {
        match self {
            Protocol::Plaintext => Reply::Line,
            _ => Reply::Bytes(SIZE_REPLY_LEN),
        }
    }
}

/// Where the first word of `line` from `from` on starts and ends.
fn scan_word(line: &[u8], from: usize) -> (r: (usize, usize))
    requires
        from <= line.len(),
    ensures
        from <= r.0 <= r.1 <= line.len(),
        line@.subrange(r.0 as int, r.1 as int) == first_word(line@.skip(from as int)),
        line@.skip(r.1 as int) == after_word(line@.skip(from as int)),
{
    let len = line.len();
    let mut start = from;
    while start < len && is_space_byte(line[start])
        invariant
            from <= start <= len,
            len == line.len(),
            skip_spaces(line@.skip(from as int)) == skip_spaces(line@.skip(start as int)),
        decreases len - start,
    {
        proof {
            assert(line@.skip(start as int).drop_first() =~= line@.skip(start + 1));
        }
        start += 1;
    }
    let mut end = start;
    while end < len && !is_space_byte(line[end])
        invariant
            start <= end <= len,
            len == line.len(),
            word_len(line@.skip(start as int)) == (end - start) + word_len(line@.skip(end as int)),
        decreases len - end,
    {
        proof {
            assert(line@.skip(end as int).drop_first() =~= line@.skip(end + 1));
        }
        end += 1;
    }
    proof {
        let rest = line@.skip(start as int);
        assert(skip_spaces(rest) == rest);
        assert(word_len(rest) == end - start);
        assert(line@.subrange(start as int, end as int) =~= rest.take((end - start) as int));
        assert(line@.skip(end as int) =~= rest.skip((end - start) as int));
    }
    (start, end)
}

/// Tells a separating byte.
fn is_space_byte(b: u8) -> (r: bool)
    ensures
        r == is_space(b),
{
    b == 32 || b == 9 || b == 10 || b == 12 || b == 13
}

impl Protocol {
    /// Reads the canvas size out of the answer to the size request.
    pub fn parse_size(&self, reply: &[u8]) -> (r: Result<CanvasSize, Error>)
        ensures
            match self.size_of(reply@) {
                Some(size) => r == Ok::<CanvasSize, Error>(size),
                None => r matches Err(Error::Protocol(_)),
            },
    {
        match self {
            Protocol::Plaintext => {
                let (_, command_end) = scan_word(reply, 0);
                let (x_start, x_end) = scan_word(reply, command_end);
                let (y_start, y_end) = scan_word(reply, x_end);
                proof {
                    reveal_with_fuel(word, 3);
                    assert(reply@.skip(0) =~= reply@);
                }
                let x = match parse_u16(slice_subrange(reply, x_start, x_end)) {
                    Ok(x) => x,
                    Err(_) => {
                        return Err(Error::Protocol("the width is no 16-bit number".to_owned()));
                    },
                };
                let y = match parse_u16(slice_subrange(reply, y_start, y_end)) {
                    Ok(y) => y,
                    Err(_) => {
                        return Err(Error::Protocol("the height is no 16-bit number".to_owned()));
                    },
                };
                Ok(CanvasSize { x, y })
            },
            _ => {
                if reply.len() != SIZE_REPLY_LEN {
                    return Err(Error::Protocol("the size is four bytes long".to_owned()));
                }
                let x = (reply[0] as u16) * 256 + (reply[1] as u16);
                let y = (reply[2] as u16) * 256 + (reply[3] as u16);
                Ok(CanvasSize { x, y })
            },
        }
    }

    /// Writes the size request for `canvas` and flushes it. Nothing is
    /// flushed where the request is not written whole.
    pub fn send_request(&self, writer: &mut Outbound, canvas: u8) -> (r: Result<(), Error>)
        ensures
            ({
                let parts = self.request(canvas);
                let n = old(writer).accepted(parts.len());
                &&& old(writer).after(final(writer), parts.len(), concat(parts.take(n as int)))
                &&& (r is Ok <==> n == parts.len())
                &&& (r is Err ==> r matches Err(Error::Io(_)))
                &&& final(writer).flushed() == if r is Ok {
                    final(writer)@.len()
                } else {
                    old(writer).flushed()
                }
            }),
    {
        let ghost parts = self.request(canvas);
        proof {
            reveal_with_fuel(concat, 3);
            assert(parts.take(0) =~= Seq::<Seq<u8>>::empty());
            assert(parts.take(parts.len() as int) =~= parts);
        }
        match self {
            Protocol::Plaintext => {
                let mut digits = String::new();
                assert(digits@ =~= crate::protocol::text::ascii(Seq::<u8>::empty()));
                push_decimal(&mut digits, Ghost(Seq::empty()), canvas as u16);
                proof {
                    lemma_decimal_is_ascii(canvas as nat);
                    assert(Seq::<u8>::empty() + decimal(canvas as nat) =~= decimal(canvas as nat));
                    lemma_ascii_bytes(decimal(canvas as nat));
                }
                let mut line: Vec<u8> = Vec::new();
                line.extend_from_slice("CANVAS ".as_bytes());
                line.extend_from_slice(digits.as_str().as_bytes());
                line.extend_from_slice("\nSIZE\n".as_bytes());
                assert(line@ =~= parts[0]);
                match writer.write_all(line.as_slice()) {
                    Ok(()) => {},
                    Err(e) => {
                        return Err(e);
                    },
                }
            },
            Protocol::BinFlurry => {
                match writer.write_all("PROTOCOL binary\n".as_bytes()) {
                    Ok(()) => {},
                    Err(e) => {
                        return Err(e);
                    },
                }
                let opcode: [u8; 2] = [SIZE_BIN, canvas];
                assert(opcode@ =~= parts[1]);
                assert(parts.take(1).drop_last() =~= Seq::<Seq<u8>>::empty());
                match writer.write_all(opcode.as_slice()) {
                    Ok(()) => {},
                    Err(e) => {
                        return Err(e);
                    },
                }
            },
            Protocol::BinFlutties => {
                let opcode: [u8; 2] = [SIZE_FLUTTIES, canvas];
                assert(opcode@ =~= parts[0]);
                match writer.write_all(opcode.as_slice()) {
                    Ok(()) => {},
                    Err(e) => {
                        return Err(e);
                    },
                }
            },
            Protocol::Palette => {
                match writer.write_all("PROTOCOL palette\n".as_bytes()) {
                    Ok(()) => {},
                    Err(e) => {
                        return Err(e);
                    },
                }
                let opcode: [u8; 2] = [SIZE_BIN, canvas];
                assert(opcode@ =~= parts[1]);
                assert(parts.take(1).drop_last() =~= Seq::<Seq<u8>>::empty());
                match writer.write_all(opcode.as_slice()) {
                    Ok(()) => {},
                    Err(e) => {
                        return Err(e);
                    },
                }
            },
        }
        writer.flush()
    }

    /// The bytes of the size request for `canvas`.
    pub fn size_request(&self, canvas: u8) -> (bytes: Vec<u8>)
        ensures
            bytes@ == concat(self.request(canvas)),
    {
        let mut writer = Outbound::new();
        let sent = self.send_request(&mut writer, canvas);
        proof {
            let parts = self.request(canvas);
            assert(parts.take(parts.len() as int) =~= parts);
            assert(writer@ =~= concat(parts));
        }
        writer.into_bytes()
    }

    /// Negotiates the canvas size: sends the request for `canvas`, reads
    /// the answer and decodes it.
    ///
    /// A request that cannot be written whole fails with `Error::Io` and
    /// reads nothing. An answer that is short or is no size fails with
    /// `Error::Protocol`.
    pub fn preamble(&self, writer: &mut Outbound, reader: &mut Inbound, canvas: u8) -> (r: Result<
        CanvasSize,
        Error,
    >)
        ensures
            ({
                let parts = self.request(canvas);
                let n = old(writer).accepted(parts.len());
                let reply = self.reply_of(old(reader)@);
                &&& old(writer).after(final(writer), parts.len(), concat(parts.take(n as int)))
                &&& final(writer).flushed() == if n == parts.len() {
                    final(writer)@.len()
                } else {
                    old(writer).flushed()
                }
                &&& n < parts.len() ==> (r matches Err(Error::Io(_))) && final(reader)@ == old(
                    reader,
                )@
                &&& n == parts.len() ==> final(reader)@ == old(reader)@.skip(reply.len() as int)
                    && match self.size_of(reply) {
                    Some(size) => r == Ok::<CanvasSize, Error>(size),
                    None => r matches Err(Error::Protocol(_)),
                }
            }),
    {
        match self.send_request(writer, canvas) {
            Ok(()) => {},
            Err(e) => {
                return Err(e);
            },
        }
        let ghost pending = reader@;
        let reply = match self.expected_reply() {
            Reply::Line => reader.read_line(),
            Reply::Bytes(n) => match reader.read_exact(n) {
                Ok(reply) => reply,
                Err(e) => {
                    proof {
                        assert(pending.skip(pending.len() as int) =~= Seq::<u8>::empty());
                    }
                    return Err(e);
                },
            },
        };
        proof {
            lemma_line_len_bound(pending);
            assert(pending.take(pending.len() as int) =~= pending);
        }
        self.parse_size(reply.as_slice())
    }
}

/// The bytes of `PROTOCOL binary` and a line feed.
pub open spec fn binary_banner() -> Seq<u8> {
    seq![80u8, 82, 79, 84, 79, 67, 79, 76, 32, 98, 105, 110, 97, 114, 121, 10]
}

/// The binary protocol asks for the size with its banner of sixteen bytes
/// and two bytes more, the opcode and the canvas, and reads four bytes
/// back where four have arrived.
pub proof fn lemma_binary_handshake(canvas: u8, pending: Seq<u8>)
    ensures
        Protocol::BinFlurry.request(canvas) == seq![binary_banner(), seq![SIZE_BIN, canvas]],
        binary_banner().len() == 16,
        concat(Protocol::BinFlurry.request(canvas)) == binary_banner() + seq![SIZE_BIN, canvas],
        concat(Protocol::BinFlurry.request(canvas)).len() == 18,
        pending.len() >= 4 ==> Protocol::BinFlurry.reply_of(pending).len() == 4,
        pending.len() >= 4 ==> Protocol::BinFlurry.size_of(Protocol::BinFlurry.reply_of(pending))
            is Some,
{
    let banner = "PROTOCOL binary\n";
    reveal_strlit("PROTOCOL binary\n");
    assert(vstd::string::is_ascii(banner));
    vstd::string::is_ascii_spec_bytes(banner);
    assert(banner.spec_bytes() =~= binary_banner());
    let parts = Protocol::BinFlurry.request(canvas);
    assert(parts =~= seq![binary_banner(), seq![SIZE_BIN, canvas]]);
    reveal_with_fuel(concat, 3);
    assert(parts.drop_last() =~= seq![binary_banner()]);
    assert(parts.drop_last().drop_last() =~= Seq::<Seq<u8>>::empty());
    assert(concat(parts) =~= binary_banner() + seq![SIZE_BIN, canvas]);
}

/// The digits of a number write that number.
proof fn lemma_decimal_value(n: nat)
    ensures
        decimal(n).len() > 0,
        all_digits(decimal(n)),
        digits_value(decimal(n)) == n,
    decreases n,
{
    let digits = decimal(n);
    if n < 10 {
        assert(digits.drop_last() =~= Seq::<u8>::empty());
        assert(digits_value(digits.drop_last()) == 0);
    } else {
        lemma_decimal_value(n / 10);
        assert(digits.drop_last() =~= decimal(n / 10));
    }
}

/// A number that is written as the plaintext protocol writes its
/// coordinates is read back as itself.
pub proof fn lemma_decimal_is_read_back(n: u16)
    ensures
        decimal_u16(decimal(n as nat)) == Some(n),
{
    lemma_decimal_value(n as nat);
}

} // verus!
