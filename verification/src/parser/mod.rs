use crate::ascii::{
    UPPER_C, UPPER_E, UPPER_I, UPPER_K, UPPER_L, UPPER_R, UPPER_S, UPPER_W,
};
use crate::command::Command;
use crate::grammar::progress::{lemma_record_fits, lemma_record_stays_inside};
use crate::grammar::records::{item_at, item_end};
use vstd::prelude::*;

mod primitive;
mod rules;

pub use primitive::{Cursor, Parser};

verus! {

/// Why a record could not be decoded.
#[derive(Debug, Clone, Copy, PartialEq, Eq, Structural)]
pub enum ParseErrorKind {
    /// A line starting with `K` does not begin with the literal `Kanata` and a tab.
    InvalidHeader,
    /// The kind digit of a log record is not `0`, `1` or `2`.
    InvalidLogKind,
    /// The kind digit of a retire record is not `0` or `1`.
    InvalidRetireKind,
    /// The kind digit of a dependency record is not `0`.
    InvalidDepKind,
    /// A number was expected, and the next byte is not a digit.
    ExpectedValue,
    /// A number does not fit the width of its field.
    ValueTooBig,
    /// A free-text field is empty.
    ExpectedText,
    /// A byte other than the one the grammar asks for.
    UnexpectedCharacter,
    /// The buffer ended where a signed number should begin.
    UnexpectedEof,
}

/// A failure, with the byte offset in the buffer at which the failing check was made.
#[derive(Debug, Clone, Copy, PartialEq, Eq, Structural)]
pub struct ParseError {
    pub offset: usize,
    pub kind: ParseErrorKind,
}

impl<'a> Parser<'a> {
    /// Decodes the record at the cursor.
    ///
    /// At the end of the buffer there is no record and the result is
    /// `None`. Anywhere else the result is the offset at which the record
    /// starts and what it decodes to: the command, or the first failure
    /// with the offset at which it was found. The cursor is left after the
    /// record, or at the offset of the failure; nothing is skipped in
    /// search of the next line.
    pub fn next(&mut self) -> (item: Option<(usize, Result<Command, ParseError>)>)
        ensures
            final(self)@.input == old(self)@.input,
            item == item_at(old(self)@.input, old(self)@.pos),
            final(self)@.pos == item_end(old(self)@.input, old(self)@.pos),
            old(self)@.pos <= final(self)@.pos <= old(self)@.input.len(),
            item is None <==> old(self)@.pos == old(self)@.input.len(),
            item matches Some((start, Ok(command))) ==> old(self)@.pos == start < final(self)@.pos
                && command.fits(old(self)@.input.len()),
            item matches Some((start, Err(e))) ==> old(self)@.pos == start <= e.offset
                && e.offset == final(self)@.pos && (start == e.offset ==> e.kind
                == ParseErrorKind::UnexpectedCharacter || e.kind == ParseErrorKind::InvalidHeader),
    {
        let offset = self.get_offset();
        if let Some(b) = self.current() {
            proof {
                lemma_record_stays_inside(self@.input, self@.pos);
                lemma_record_fits(self@.input, self@.pos);
            }
            let res = if b == UPPER_K {
                self.parse_header()
            } else if b == UPPER_C {
                self.parse_c()
            } else if b == UPPER_I {
                self.parse_i()
            } else if b == UPPER_L {
                self.parse_l()
            } else if b == UPPER_S {
                self.parse_pipeline(true)
            } else if b == UPPER_E {
                self.parse_pipeline(false)
            } else if b == UPPER_R {
                self.parse_r()
            } else if b == UPPER_W {
                self.parse_w()
            } else {
                Err(self.error(ParseErrorKind::UnexpectedCharacter))
            };
            Some((offset, res))
        } else {
            None
        }
    }
}

} // verus!
