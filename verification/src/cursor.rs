//! A consumable view over an immutable byte buffer.
//!
//! Every decoder in this crate pulls its input through a `ByteCursor`:
//! reading advances the position, and a failed read leaves the position
//! where the caller can retry or report how many bytes were missing.

use vstd::prelude::*;

verus! {

/// A read position over an immutable byte sequence.
pub struct ByteCursor {
    data: Vec<u8>,
    pos: usize,
}

impl ByteCursor {
    /// The whole underlying byte sequence; it never changes after construction.
    pub closed spec fn bytes(&self) -> Seq<u8> {
        self.data@
    }

    /// The current read position.
    pub closed spec fn position(&self) -> int {
        self.pos as int
    }

    /// The position never runs past the end of the buffer.
    pub open spec fn wf(&self) -> bool {
        0 <= self.position() <= self.bytes().len()
    }

    /// The bytes not yet consumed.
    pub open spec fn remaining_bytes(&self) -> Seq<u8> {
        self.bytes().subrange(self.position(), self.bytes().len() as int)
    }

    /// Wraps a buffer with the read position at its start.
    pub fn new(data: Vec<u8>) -> (c: ByteCursor)
        ensures
            c.wf(),
            c.bytes() == data@,
            c.position() == 0,
    {
        ByteCursor { data, pos: 0 }
    }

    /// How many bytes are left to read.
    pub fn remaining(&self) -> (n: usize)
        requires
            self.wf(),
        ensures
            n == self.remaining_bytes().len(),
    {
        self.data.len() - self.pos
    }

    /// The current read position, for saving and restoring around a
    /// multi-part read that must fail atomically.
    pub fn tell(&self) -> (p: usize)
        ensures
            p == self.position(),
    {
        self.pos
    }

    /// Moves the read position to `p` without touching the buffer.
    pub fn seek(&mut self, p: usize)
        requires
            old(self).wf(),
            p <= old(self).bytes().len(),
        ensures
            final(self).wf(),
            final(self).bytes() == old(self).bytes(),
            final(self).position() == p,
    {
        self.pos = p;
    }

    /// Reads the byte `i` places past the current position, without consuming it.
    pub fn peek(&self, i: usize) -> (b: u8)
        requires
            self.wf(),
            self.position() + i < self.bytes().len(),
        ensures
            b == self.remaining_bytes()[i as int],
    {
        let len = self.data.len();
        assert(self.pos + i < len);
        self.data[self.pos + i]
    }

    /// Consumes the next `n` bytes without looking at them.
    pub fn advance(&mut self, n: usize)
        requires
            old(self).wf(),
            old(self).position() + n <= old(self).bytes().len(),
        ensures
            final(self).wf(),
            final(self).bytes() == old(self).bytes(),
            final(self).position() == old(self).position() + n,
    {
        let len = self.data.len();
        assert(self.pos + n <= len);
        self.pos = self.pos + n;
    }

    /// Consumes the next `n` bytes and returns them as an owned buffer.
    pub fn read_bytes(&mut self, n: usize) -> (out: Vec<u8>)
        requires
            old(self).wf(),
            n <= old(self).remaining_bytes().len(),
        ensures
            final(self).wf(),
            final(self).bytes() == old(self).bytes(),
            final(self).position() == old(self).position() + n,
            out@ == old(self).remaining_bytes().take(n as int),
    {
        let mut out: Vec<u8> = Vec::new();
        let mut i: usize = 0;
        while i < n
            invariant
                self.wf(),
                self.bytes() == old(self).bytes(),
                self.position() == old(self).position(),
                i <= n,
                n <= old(self).remaining_bytes().len(),
                out@ == old(self).remaining_bytes().take(i as int),
            decreases n - i,
        {
            let b = self.peek(i);
            out.push(b);
            i = i + 1;
            proof {
                assert(out@ =~= old(self).remaining_bytes().take(i as int));
            }
        }
        self.advance(n);
        out
    }
}

} // verus!
