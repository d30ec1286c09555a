//! What each field of a record decodes to, and where it ends.

use crate::ascii::{CR, LF, MINUS, PLUS, TAB};
use crate::command::StrRef;
use crate::grammar::scan::{decimal_value, run_end, ByteClass};
use crate::parser::{ParseError, ParseErrorKind};
use vstd::prelude::*;

verus! {

/// The outcome of decoding something at an offset of a buffer: the offset
/// at which decoding stopped, and the value or the reason for failing.
/// A failure is always reported at the offset at which decoding stopped.
pub struct Scan<T> {
    pub end: int,
    pub result: Result<T, ParseErrorKind>,
}

impl<T> Scan<T> {
    /// Decoding succeeded with `value` and stopped at `end`.
    pub open spec fn done(end: int, value: T) -> Scan<T> {
        Scan { end, result: Ok(value) }
    }

    /// Decoding failed at `end` for the reason `kind`.
    pub open spec fn fail(end: int, kind: ParseErrorKind) -> Scan<T> {
        Scan { end, result: Err(kind) }
    }

    /// Whether decoding failed.
    pub open spec fn failed(self) -> bool {
        self.result is Err
    }

    /// The decoded value, where decoding succeeded.
    pub open spec fn value(self) -> T
        recommends
            !self.failed(),
    {
        self.result->Ok_0
    }

    /// The same failure, at the same offset, in place of a value of another type.
    pub open spec fn carry<U>(self) -> Scan<U>
        recommends
            self.failed(),
    {
        Scan { end: self.end, result: Err(self.result->Err_0) }
    }

    /// The result as the parser returns it: a failure carries the offset
    /// at which decoding stopped.
    pub open spec fn output(self) -> Result<T, ParseError> {
        match self.result {
            Ok(value) => Ok(value),
            Err(kind) => Err(ParseError { offset: self.end as usize, kind }),
        }
    }
}

/// The byte at `pos`, if the buffer reaches that far.
pub open spec fn byte_at(s: Seq<u8>, pos: int) -> Option<u8> {
    if 0 <= pos < s.len() {
        Some(s[pos])
    } else {
        None
    }
}

/// Whether the bytes of `piece` stand in the buffer from `pos` on.
pub open spec fn holds_at(s: Seq<u8>, pos: int, piece: Seq<u8>) -> bool {
    &&& 0 <= pos
    &&& pos + piece.len() <= s.len()
    &&& s.subrange(pos, pos + piece.len()) == piece
}

/// The byte `expected` must stand at `pos`; it is passed.
pub open spec fn expect_at(s: Seq<u8>, pos: int, expected: u8) -> Scan<()> {
    if byte_at(s, pos) == Some(expected) {
        Scan::done(pos + 1, ())
    } else {
        Scan::fail(pos, ParseErrorKind::UnexpectedCharacter)
    }
}

/// The offset after the byte `expected` if it stands at `pos`, else `pos`.
pub open spec fn eat_at(s: Seq<u8>, pos: int, expected: u8) -> int {
    if byte_at(s, pos) == Some(expected) {
        pos + 1
    } else {
        pos
    }
}

/// The field separator: one tab.
pub open spec fn tab_at(s: Seq<u8>, pos: int) -> Scan<()> {
    expect_at(s, pos, TAB)
}

/// The offset after the spaces and tabs that start at `pos`.
pub open spec fn blanks_end(s: Seq<u8>, pos: int) -> int {
    run_end(s, pos, ByteClass::Blank)
}

/// The offset after the line terminator at `pos`: a carriage return, a
/// line feed, or a carriage return and a line feed. Where none of them
/// stands at `pos`, nothing is passed.
pub open spec fn line_end(s: Seq<u8>, pos: int) -> int {
    eat_at(s, eat_at(s, pos, CR), LF)
}

/// One decimal digit, returned as the byte itself.
pub open spec fn digit_at(s: Seq<u8>, pos: int) -> Scan<u8> {
    match byte_at(s, pos) {
        Some(b) if ByteClass::Digit.has(b) => Scan::done(pos + 1, b),
        _ => Scan::fail(pos, ParseErrorKind::ExpectedValue),
    }
}

/// The maximal run of digits that starts at `pos`.
pub open spec fn digits_at(s: Seq<u8>, pos: int) -> Seq<u8> {
    s.subrange(pos, run_end(s, pos, ByteClass::Digit))
}

/// An unsigned decimal number of at most `max`: the maximal run of digits
/// at `pos`. With no digit at `pos` a value is missing. A run that writes a
/// number above `max` is passed whole and then refused as too big.
pub open spec fn unsigned_at(s: Seq<u8>, pos: int, max: nat) -> Scan<nat> {
    let end = run_end(s, pos, ByteClass::Digit);
    let value = decimal_value(digits_at(s, pos));
    if end == pos {
        Scan::fail(pos, ParseErrorKind::ExpectedValue)
    } else if value > max {
        Scan::fail(end, ParseErrorKind::ValueTooBig)
    } else {
        Scan::done(end, value)
    }
}

/// An unsigned number that fits 64 bits.
pub open spec fn u64_at(s: Seq<u8>, pos: int) -> Scan<u64> {
    let n = unsigned_at(s, pos, u64::MAX as nat);
    match n.result {
        Ok(value) => Scan::done(n.end, value as u64),
        Err(kind) => Scan::fail(n.end, kind),
    }
}

/// An unsigned number that fits 32 bits.
pub open spec fn u32_at(s: Seq<u8>, pos: int) -> Scan<u32> {
    let n = unsigned_at(s, pos, u32::MAX as nat);
    match n.result {
        Ok(value) => Scan::done(n.end, value as u32),
        Err(kind) => Scan::fail(n.end, kind),
    }
}

/// The offset after the sign at `pos`, if a `+` or a `-` stands there.
pub open spec fn sign_end(s: Seq<u8>, pos: int) -> int {
    if byte_at(s, pos) == Some(MINUS) || byte_at(s, pos) == Some(PLUS) {
        pos + 1
    } else {
        pos
    }
}

/// A signed number that fits 32 bits: an optional `+` or `-`, then digits
/// that write a magnitude of at most `i32::MAX`. At the end of the buffer
/// there is nothing to look at for a sign.
pub open spec fn i32_at(s: Seq<u8>, pos: int) -> Scan<i32> {
    match byte_at(s, pos) {
        None => Scan::fail(pos, ParseErrorKind::UnexpectedEof),
        Some(sign) => {
            let n = unsigned_at(s, sign_end(s, pos), i32::MAX as nat);
            match n.result {
                Ok(magnitude) => Scan::done(
                    n.end,
                    if sign == MINUS {
                        (-magnitude) as i32
                    } else {
                        magnitude as i32
                    },
                ),
                Err(kind) => Scan::fail(n.end, kind),
            }
        },
    }
}

/// Free text: the bytes from `pos` up to the next carriage return or line
/// feed, or to the end of the buffer. Empty text is refused.
pub open spec fn text_at(s: Seq<u8>, pos: int) -> Scan<StrRef> {
    let end = run_end(s, pos, ByteClass::Text);
    if end == pos {
        Scan::fail(pos, ParseErrorKind::ExpectedText)
    } else {
        Scan::done(end, StrRef { offset: pos as u64, len: (end - pos) as u64 })
    }
}

} // verus!
