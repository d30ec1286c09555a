//! Well-formed records, written out as bytes.
//!
//! The functions here build the line of each kind of record from the
//! literals of its fields. They are the format as a writer of logs sees it;
//! `crate::grammar::decoding` proves that the grammar reads every such line
//! back to the values that were written.

use crate::ascii::{
    CR, DIGIT_0, EQUALS, LF, MINUS, PLUS, TAB, UPPER_C, UPPER_E, UPPER_I, UPPER_L, UPPER_R,
    UPPER_S, UPPER_W,
};
use crate::grammar::records::header_word;
use crate::grammar::scan::{decimal_value, ByteClass};
use vstd::prelude::*;

verus! {

/// An unsigned number literal: one digit or more.
pub open spec fn is_number(digits: Seq<u8>) -> bool {
    digits.len() > 0 && ByteClass::Digit.has_all(digits)
}

/// A sign literal: nothing, `+` or `-`.
pub open spec fn is_sign(sign: Seq<u8>) -> bool {
    sign == Seq::<u8>::empty() || sign == seq![PLUS] || sign == seq![MINUS]
}

/// The number that a sign literal and the magnitude after it stand for.
pub open spec fn signed_value(sign: Seq<u8>, magnitude: Seq<u8>) -> int {
    if sign == seq![MINUS] {
        -(decimal_value(magnitude) as int)
    } else {
        decimal_value(magnitude) as int
    }
}

/// Free text: one byte or more, none of them a carriage return or a line feed.
pub open spec fn is_text(text: Seq<u8>) -> bool {
    text.len() > 0 && ByteClass::Text.has_all(text)
}

/// Optional padding before the end of a line: spaces and tabs.
pub open spec fn is_padding(pad: Seq<u8>) -> bool {
    ByteClass::Blank.has_all(pad)
}

/// A line terminator: a carriage return, a line feed, or both in this
/// order. The empty terminator stands for a last line that ends with the
/// buffer.
pub open spec fn is_terminator(eol: Seq<u8>) -> bool {
    eol == Seq::<u8>::empty() || eol == seq![CR] || eol == seq![LF] || eol == seq![CR, LF]
}

/// Whether a line that ends with the terminator `eol` just before `end` is
/// cut off cleanly from what follows in `s`: a line without a terminator
/// ends the buffer, and a lone carriage return is not followed by a line
/// feed, which would belong to the same terminator.
pub open spec fn closes(s: Seq<u8>, end: int, eol: Seq<u8>) -> bool {
    &&& is_terminator(eol)
    &&& eol.len() == 0 ==> end == s.len()
    &&& eol == seq![CR] ==> end == s.len() || s[end] != LF
}

/// The canonical literal of a number: its decimal digits without leading zeros.
pub open spec fn decimal_digits(n: nat) -> Seq<u8>
    decreases n,
{
    if n < 10 {
        seq![(DIGIT_0 + n) as u8]
    } else {
        decimal_digits(n / 10).push((DIGIT_0 + n % 10) as u8)
    }
}

/// `Kanata`, tab, version; padding and terminator.
pub open spec fn header_line(version: Seq<u8>, pad: Seq<u8>, eol: Seq<u8>) -> Seq<u8> {
    header_word() + version + pad + eol
}

/// `C`, `=` for an absolute cycle, tab, sign and magnitude; padding and terminator.
pub open spec fn cycle_line(
    abs: bool,
    sign: Seq<u8>,
    magnitude: Seq<u8>,
    pad: Seq<u8>,
    eol: Seq<u8>,
) -> Seq<u8> {
    (if abs {
        seq![UPPER_C, EQUALS, TAB]
    } else {
        seq![UPPER_C, TAB]
    }) + sign + magnitude + pad + eol
}

/// A tag, then two numbers, each after a tab, then one more tab: the
/// part that the records about one instruction share.
pub open spec fn tagged(tag: u8, first: Seq<u8>, second: Seq<u8>) -> Seq<u8> {
    seq![tag, TAB] + first + seq![TAB] + second + seq![TAB]
}

/// `I`, tab, number, tab, number, tab, number; padding and terminator.
pub open spec fn instruction_line(
    id_in_file: Seq<u8>,
    id_in_sim: Seq<u8>,
    thread_id: Seq<u8>,
    pad: Seq<u8>,
    eol: Seq<u8>,
) -> Seq<u8> {
    tagged(UPPER_I, id_in_file, id_in_sim) + thread_id + pad + eol
}

/// `L`, tab, number, tab, kind digit, tab, text; terminator.
pub open spec fn log_line(id: Seq<u8>, kind: u8, text: Seq<u8>, eol: Seq<u8>) -> Seq<u8> {
    tagged(UPPER_L, id, seq![kind]) + text + eol
}

/// `S` or `E`, tab, number, tab, number, tab, name of the stage; terminator.
pub open spec fn pipeline_line(
    start: bool,
    id: Seq<u8>,
    lane_id: Seq<u8>,
    name: Seq<u8>,
    eol: Seq<u8>,
) -> Seq<u8> {
    tagged(if start { UPPER_S } else { UPPER_E }, id, lane_id) + name + eol
}

/// `R`, tab, number, tab, number, tab, kind digit; padding and terminator.
pub open spec fn retire_line(
    id: Seq<u8>,
    retire_id: Seq<u8>,
    kind: u8,
    pad: Seq<u8>,
    eol: Seq<u8>,
) -> Seq<u8> {
    tagged(UPPER_R, id, retire_id) + seq![kind] + pad + eol
}

/// `W`, tab, number, tab, number, tab, kind digit; padding and terminator.
pub open spec fn dependency_line(
    consumer_id: Seq<u8>,
    producer_id: Seq<u8>,
    kind: u8,
    pad: Seq<u8>,
    eol: Seq<u8>,
) -> Seq<u8> {
    tagged(UPPER_W, consumer_id, producer_id) + seq![kind] + pad + eol
}

} // verus!
