use super::{ParseError, ParseErrorKind};
use crate::grammar::fields::byte_at;
use vstd::prelude::*;

verus! {

/// What a [`Parser`] is in contracts: the bytes it reads and the
/// offset of the next byte it will look at.
pub struct Cursor {
    pub input: Seq<u8>,
    pub pos: int,
}

/// A cursor over a byte buffer that decodes one record per call of `next`.
///
/// The buffer is borrowed and never changed. The cursor never leaves it.
pub struct Parser<'a> {
    input: &'a [u8],
    pos: usize,
}

impl<'a> View for Parser<'a> {
    type V = Cursor;

    closed spec fn view(&self) -> Cursor {
        Cursor { input: self.input@, pos: self.pos as int }
    }
}

impl<'a> Parser<'a> {
    #[verifier::type_invariant]
    spec fn inside_buffer(self) -> bool {
        self.pos <= self.input@.len()
    }

    /// A parser at the start of `input`.
    pub fn new(input: &'a [u8]) -> (parser: Self)
        ensures
            parser@ == (Cursor { input: input@, pos: 0 }),
    {
        Self { input, pos: 0 }
    }

    /// Moves the cursor forward by `n` bytes, which the buffer must still hold.
    pub(super) fn advance(&mut self, n: usize)
        requires
            old(self)@.pos + n <= old(self)@.input.len(),
        ensures
            final(self)@ == (Cursor { input: old(self)@.input, pos: old(self)@.pos + n }),
    {
        proof {
            use_type_invariant(&*self);
            assert(self.input@.len() == self.input.len());
        }
        self.pos += n;
    }

    /// The offset of the cursor.
    pub(super) fn get_offset(&self) -> (offset: usize)
        ensures
            offset == self@.pos,
            offset <= self@.input.len() <= usize::MAX,
    {
        proof {
            use_type_invariant(self);
            assert(self.input@.len() == self.input.len());
        }
        self.pos
    }

    /// The bytes from the cursor to the end of the buffer.
    pub(super) fn rest(&self) -> (rest: &'a [u8])
        ensures
            rest@ == self@.input.subrange(self@.pos, self@.input.len() as int),
            0 <= self@.pos <= self@.input.len() <= usize::MAX,
    {
        proof {
            use_type_invariant(self);
            assert(self.input@.len() == self.input.len());
        }
        let input = self.input;
        &input[self.pos..input.len()]
    }

    /// A failure of the given kind at the cursor.
    pub(super) fn error(&self, kind: ParseErrorKind) -> (e: ParseError)
        ensures
            e == (ParseError { offset: self@.pos as usize, kind }),
    {
        ParseError { offset: self.get_offset(), kind }
    }

    /// Moves the cursor over one byte, which must be there.
    pub(super) fn bump(&mut self)
        requires
            old(self)@.pos < old(self)@.input.len(),
        ensures
            final(self)@ == (Cursor { input: old(self)@.input, pos: old(self)@.pos + 1 }),
    {
        self.advance(1);
    }

    /// The byte at the cursor, or `None` at the end of the buffer.
    pub(super) fn current(&self) -> (b: Option<u8>)
        ensures
            b == byte_at(self@.input, self@.pos),
            0 <= self@.pos <= self@.input.len() <= usize::MAX,
    {
        proof {
            use_type_invariant(self);
        }
        if self.pos < self.input.len() {
            Some(self.input[self.pos])
        } else {
            None
        }
    }
}

} // verus!
