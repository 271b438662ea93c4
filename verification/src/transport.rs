//! In-memory halves of a connection.
//!
//! [`Outbound`] records the bytes that were written to it, in order, and can
//! be told to break after a number of writes. [`Inbound`] hands out bytes
//! that were received earlier.

use vstd::prelude::*;
use vstd::slice::{slice_subrange, slice_to_vec};
use crate::Error;
use crate::broken_pipe;

verus! {

/// The writing half of a connection.
pub struct Outbound {
    bytes: Vec<u8>,
    flushed: usize,
    budget: Option<u64>,
    broken: bool,
}

impl View for Outbound {
    type V = Seq<u8>;

    /// Every byte accepted so far, oldest first.
    closed spec fn view(&self) -> Seq<u8> {
        self.bytes@
    }
}

impl Outbound {
    /// How many of the bytes were flushed: the length that the stream had
    /// when it was last flushed.
    pub closed spec fn flushed(&self) -> nat {
        self.flushed as nat
    }

    /// How many more writes are accepted; `None` when there is no limit.
    pub closed spec fn budget(&self) -> Option<u64> {
        self.budget
    }

    /// A write was refused: nothing is accepted any more.
    pub closed spec fn broken(&self) -> bool {
        self.broken
    }

    /// How many of the next `n` writes are accepted.
    pub open spec fn accepted(&self, n: nat) -> nat {
        if self.broken() {
            0
        } else {
            match self.budget() {
                None => n,
                Some(b) => if n <= b { n } else { b as nat },
            }
        }
    }

    /// The budget that is left once `n` writes were tried.
    pub open spec fn budget_after(&self, n: nat) -> Option<u64> {
        match self.budget() {
            None => None,
            Some(b) => Some((b - self.accepted(n)) as u64),
        }
    }

    /// The state in which `n` writes leave the stream, when the writes that
    /// were accepted carried `data` in all.
    pub open spec fn after(&self, next: &Outbound, n: nat, data: Seq<u8>) -> bool {
        &&& next@ =~= self@ + data
        &&& next.budget() == self.budget_after(n)
        &&& next.broken() == (self.broken() || self.accepted(n) < n)
    }

    /// A stream that accepts every write.
    pub fn new() -> (w: Outbound)
        ensures
            w@ == Seq::<u8>::empty(),
            w.flushed() == 0,
            w.budget() is None,
            !w.broken(),
    {
        Outbound { bytes: Vec::new(), flushed: 0, budget: None, broken: false }
    }

    /// A stream that accepts `writes` writes and refuses the next one.
    pub fn failing_after(writes: u64) -> (w: Outbound)
        ensures
            w@ == Seq::<u8>::empty(),
            w.flushed() == 0,
            w.budget() == Some(writes),
            !w.broken(),
    {
        Outbound { bytes: Vec::new(), flushed: 0, budget: Some(writes), broken: false }
    }

    /// Appends `buf` whole, or refuses it whole with `Error::Io`. Nothing
    /// is flushed.
    pub fn write_all(&mut self, buf: &[u8]) -> (r: Result<(), Error>)
        ensures
            r is Ok <==> old(self).accepted(1) == 1,
            r is Err ==> r matches Err(Error::Io(_)),
            old(self).after(final(self), 1, if r is Ok { buf@ } else { Seq::<u8>::empty() }),
            final(self).flushed() == old(self).flushed(),
    {
        if self.broken {
            return Err(Error::Io(broken_pipe()));
        }
        match self.budget {
            Some(b) => {
                if b == 0 {
                    self.broken = true;
                    return Err(Error::Io(broken_pipe()));
                }
                self.budget = Some(b - 1);
            },
            None => {},
        }
        self.bytes.extend_from_slice(buf);
        Ok(())
    }

    /// Flushes what was written so far. Fails with `Error::Io`, and
    /// flushes nothing, once a write was refused.
    pub fn flush(&mut self) -> (r: Result<(), Error>)
        ensures
            r is Ok <==> !old(self).broken(),
            r is Err ==> r matches Err(Error::Io(_)),
            old(self).after(final(self), 0, Seq::<u8>::empty()),
            final(self).flushed() == if r is Ok {
                old(self)@.len()
            } else {
                old(self).flushed()
            },
    {
        if self.broken {
            Err(Error::Io(broken_pipe()))
        } else {
            self.flushed = self.bytes.len();
            Ok(())
        }
    }

    /// Number of bytes that were flushed.
    pub fn flushed_len(&self) -> (n: usize)
        ensures
            n == self.flushed(),
    {
        self.flushed
    }

    /// The bytes accepted so far.
    pub fn as_slice(&self) -> (s: &[u8])
        ensures
            s@ == self@,
    {
        self.bytes.as_slice()
    }

    /// Number of bytes accepted so far.
    pub fn len(&self) -> (n: usize)
        ensures
            n == self@.len(),
    {
        self.bytes.len()
    }

    /// Gives up the stream for the bytes it accepted.
    pub fn into_bytes(self) -> (bytes: Vec<u8>)
        ensures
            bytes@ == self@,
    {
        self.bytes
    }

    /// Forgets the bytes accepted so far; the budget stays.
    pub fn clear(&mut self)
        ensures
            final(self)@ == Seq::<u8>::empty(),
            final(self).flushed() == 0,
            final(self).budget() == old(self).budget(),
            final(self).broken() == old(self).broken(),
    {
        self.bytes.clear();
        self.flushed = 0;
    }
}

/// ASCII line feed, which ends a line.
pub const LINE_FEED: u8 = 10;

/// Length of the first line of `pending`, its line feed included; the
/// length of `pending` where it holds no line feed.
pub open spec fn line_len(pending: Seq<u8>) -> nat
    decreases pending.len(),
{
    if pending.len() == 0 {
        0
    } else if pending[0] == LINE_FEED {
        1
    } else {
        1 + line_len(pending.drop_first())
    }
}

/// A line is never longer than what it is read from.
pub proof fn lemma_line_len_bound(pending: Seq<u8>)
    ensures
        line_len(pending) <= pending.len(),
    decreases pending.len(),
{
    if pending.len() > 0 && pending[0] != LINE_FEED {
        lemma_line_len_bound(pending.drop_first());
    }
}

/// The reading half of a connection: bytes that arrived and were not read
/// yet. No more will arrive.
pub struct Inbound {
    bytes: Vec<u8>,
    at: usize,
}

impl View for Inbound {
    type V = Seq<u8>;

    /// The bytes not read yet, oldest first.
    closed spec fn view(&self) -> Seq<u8> {
        self.bytes@.skip(self.at as int)
    }
}

impl Inbound {
    #[verifier::type_invariant]
    spec fn in_range(&self) -> bool {
        self.at <= self.bytes.len()
    }

    /// A stream on which `bytes` arrived.
    pub fn new(bytes: Vec<u8>) -> (r: Inbound)
        ensures
            r@ == bytes@,
    {
        let r = Inbound { bytes, at: 0 };
        assert(r.bytes@.skip(0) =~= r.bytes@);
        r
    }

    /// Number of bytes not read yet.
    pub fn pending(&self) -> (n: usize)
        ensures
            n == self@.len(),
    {
        proof {
            use_type_invariant(self);
        }
        self.bytes.len() - self.at
    }

    /// Reads `n` bytes. Where fewer are left, they are all taken and the
    /// read fails with `Error::Protocol`.
    pub fn read_exact(&mut self, n: usize) -> (r: Result<Vec<u8>, Error>)
        ensures
            r is Ok <==> n <= old(self)@.len(),
            r matches Ok(got) ==> got@ == old(self)@.take(n as int) && final(self)@ == old(self)@.skip(
                n as int,
            ),
            r is Err ==> (r matches Err(Error::Protocol(_))) && final(self)@ == Seq::<u8>::empty(),
    {
        proof {
            use_type_invariant(&*self);
        }
        let len = self.bytes.len();
        if n > len - self.at {
            self.at = len;
            assert(self.bytes@.skip(len as int) =~= Seq::<u8>::empty());
            return Err(Error::Protocol("the connection closed before the size arrived".to_owned()));
        }
        let start = self.at;
        let got = slice_to_vec(slice_subrange(self.bytes.as_slice(), start, start + n));
        self.at = start + n;
        proof {
            assert(got@ =~= old(self)@.take(n as int));
            assert(self@ =~= old(self)@.skip(n as int));
        }
        Ok(got)
    }

    /// Reads up to the first line feed and takes it along; reads all that
    /// is left where there is none.
    pub fn read_line(&mut self) -> (line: Vec<u8>)
        ensures
            line@ == old(self)@.take(line_len(old(self)@) as int),
            final(self)@ == old(self)@.skip(line_len(old(self)@) as int),
    {
        proof {
            use_type_invariant(&*self);
            lemma_line_len_bound(self@);
        }
        let len = self.bytes.len();
        let start = self.at;
        let mut end = start;
        while end < len && self.bytes[end] != LINE_FEED
            invariant
                start <= end <= len,
                len == self.bytes.len(),
                start == self.at,
                *self == *old(self),
                line_len(self@) == (end - start) + line_len(self.bytes@.skip(end as int)),
            decreases len - end,
        {
            proof {
                let rest = self.bytes@.skip(end as int);
                assert(rest.drop_first() =~= self.bytes@.skip(end + 1));
            }
            end += 1;
        }
        if end < len {
            end += 1;
        }
        let line = slice_to_vec(slice_subrange(self.bytes.as_slice(), start, end));
        self.at = end;
        proof {
            assert(line_len(old(self)@) == end - start);
            assert(line@ =~= old(self)@.take((end - start) as int));
            assert(self@ =~= old(self)@.skip((end - start) as int));
        }
        line
    }
}

} // verus!
