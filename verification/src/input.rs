//! The byte cursor: a sequential, forward-only reader over the input
//! buffer. It tracks the current position, reports exhaustion, and reads
//! one byte or one little-endian 16-bit word at a time.

use vstd::prelude::*;

verus! {

/// Combine two bytes read in order into a little-endian 16-bit word.
pub open spec fn word_le(lo: u8, hi: u8) -> u16 {
    (((hi as u16) << 8) | (lo as u16)) as u16
}

/// Forward-only cursor over a byte buffer.
pub struct Input<'a> {
    input: &'a [u8],
    index: usize,
}

impl<'a> Input<'a> {
    /// The whole underlying buffer.
    pub closed spec fn bytes(self) -> Seq<u8> {
        self.input@
    }

    /// The current read position.
    pub closed spec fn pos(self) -> int {
        self.index as int
    }

    /// The cursor never stands past the end of the buffer.
    pub open spec fn wf(self) -> bool {
        0 <= self.pos() <= self.bytes().len()
    }

    /// A cursor at the start of `input`.
    pub fn new(input: &'a [u8]) -> (r: Input<'a>)
        ensures
            r.bytes() == input@,
            r.pos() == 0,
            r.wf(),
    {
        Input { input, index: 0 }
    }

    /// The current read position, for diagnostics.
    pub fn position(&self) -> (r: usize)
        ensures
            r == self.pos(),
    {
        self.index
    }

    /// How many bytes are left to read.
    pub fn remaining(&self) -> (r: usize)
        requires
            self.wf(),
        ensures
            r == self.bytes().len() - self.pos(),
    {
        self.input.len() - self.index
    }

    /// Whether every byte has been consumed.
    pub fn is_empty(&self) -> (r: bool)
        requires
            self.wf(),
        ensures
            r == (self.pos() == self.bytes().len()),
    {
        self.index == self.input.len()
    }

    /// Read the byte at the current position and advance by one.
    pub fn next_byte(&mut self) -> (r: u8)
        requires
            old(self).wf(),
            old(self).pos() < old(self).bytes().len(),
        ensures
            final(self).bytes() == old(self).bytes(),
            final(self).pos() == old(self).pos() + 1,
            final(self).wf(),
            r == old(self).bytes()[old(self).pos()],
    {
        let byte = self.input[self.index];
        self.index += 1;
        byte
    }

    /// Read two bytes as a little-endian word and advance by two.
    pub fn next_word(&mut self) -> (r: u16)
        requires
            old(self).wf(),
            old(self).pos() + 2 <= old(self).bytes().len(),
        ensures
            final(self).bytes() == old(self).bytes(),
            final(self).pos() == old(self).pos() + 2,
            final(self).wf(),
            r == word_le(
                old(self).bytes()[old(self).pos()],
                old(self).bytes()[old(self).pos() + 1],
            ),
    {
        let lo = self.next_byte();
        let hi = self.next_byte();
        ((hi as u16) << 8) | (lo as u16)
    }
}

} // verus!
