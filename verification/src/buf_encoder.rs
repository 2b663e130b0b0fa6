//! A small fixed-capacity character buffer used to chunk hex output.

use vstd::prelude::*;

use crate::byte_to_hex;
use crate::hex_of_byte;
use crate::Case;

verus! {

/// Relies on `String::push`: appends the given character to the end of the
/// string.
#[verifier::external_body]
pub(crate) fn push_char(s: &mut String, c: char)
    ensures
        final(s)@ == old(s)@.push(c),
{
    s.push(c);
}

/// A fixed-capacity buffer of text characters with an index cursor: filled
/// with hex digits or with a repeated fill character, flushed to the output
/// sink, then cleared for reuse, so that a single rendering call never holds
/// more than `capacity` characters at once.
pub struct BufEncoder {
    buf: Vec<char>,
    cap: usize,
}

impl BufEncoder {
    /// The characters currently held, in write order.
    pub closed spec fn contents(self) -> Seq<char> {
        self.buf@
    }

    /// The fixed capacity chosen at construction.
    pub closed spec fn capacity(self) -> nat {
        self.cap as nat
    }

    /// The buffer never holds more than its capacity.
    pub closed spec fn well_formed(self) -> bool {
        self.buf@.len() <= self.cap
    }

    /// Creates an empty buffer of the given capacity.
    pub fn new(cap: usize) -> (r: Self)
        ensures
            r.well_formed(),
            r.contents() == Seq::<char>::empty(),
            r.capacity() == cap as nat,
    {
        BufEncoder { buf: Vec::with_capacity(cap), cap }
    }

    /// How many more characters fit before a flush is needed.
    pub fn space_remaining(&self) -> (r: usize)
        requires
            self.well_formed(),
        ensures
            r as nat == self.capacity() - self.contents().len(),
    {
        self.cap - self.buf.len()
    }

    /// Appends the two hex characters of one byte.
    pub fn put_byte(&mut self, b: u8, case: Case)
        requires
            old(self).well_formed(),
            old(self).contents().len() + 2 <= old(self).capacity(),
        ensures
            final(self).well_formed(),
            final(self).capacity() == old(self).capacity(),
            final(self).contents() == old(self).contents() + hex_of_byte(b, case.is_upper()),
    {
        let (hi, lo) = byte_to_hex(b, case);
        self.buf.push(hi);
        self.buf.push(lo);
        proof {
            assert(self.buf@ =~= old(self).buf@ + hex_of_byte(b, case.is_upper()));
        }
    }

    /// Appends one copy of the fill character, used to build padding runs.
    pub fn put_filler(&mut self, c: char)
        requires
            old(self).well_formed(),
            old(self).contents().len() + 1 <= old(self).capacity(),
        ensures
            final(self).well_formed(),
            final(self).capacity() == old(self).capacity(),
            final(self).contents() == old(self).contents().push(c),
    {
        self.buf.push(c);
    }

    /// Empties the buffer so its storage can be reused.
    pub fn clear(&mut self)
        ensures
            final(self).well_formed(),
            final(self).capacity() == old(self).capacity(),
            final(self).contents() == Seq::<char>::empty(),
    {
        self.buf.clear();
    }

    /// Appends the buffered characters to the sink, then clears the buffer.
    pub fn flush_into(&mut self, out: &mut String)
        requires
            old(self).well_formed(),
        ensures
            final(self).well_formed(),
            final(self).capacity() == old(self).capacity(),
            final(self).contents() == Seq::<char>::empty(),
            final(out)@ == old(out)@ + old(self).contents(),
    {
        let n = self.buf.len();
        let mut i: usize = 0;
        while i < n
            invariant
                i <= n,
                n == self.buf@.len(),
                self == old(self),
                out@ == old(out)@ + self.buf@.take(i as int),
            decreases n - i,
        {
            push_char(out, self.buf[i]);
            proof {
                assert(old(out)@ + self.buf@.take(i as int) + seq![self.buf@[i as int]] =~= old(
                    out,
                )@ + self.buf@.take(i as int + 1));
            }
            i = i + 1;
        }
        proof {
            assert(self.buf@.take(n as int) =~= self.buf@);
        }
        self.buf.clear();
    }
}

} // verus!
