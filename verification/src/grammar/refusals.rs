//! Which inputs are refused, and for which reason.

use crate::ascii::MINUS;
use crate::command::Command;
use crate::grammar::fields::{
    byte_at, digits_at, i32_at, sign_end, u32_at, Scan,
};
use crate::grammar::lines::{decimal_digits, is_number};
use crate::grammar::progress::lemma_record_stays_inside;
use crate::grammar::records::{is_tag, record_at};
use crate::grammar::scan::{decimal_value, lemma_run_end, ByteClass};
use crate::parser::ParseErrorKind;
use vstd::prelude::*;

verus! {

/// Whether a digit stands at `pos`.
pub open spec fn digit_stands_at(s: Seq<u8>, pos: int) -> bool {
    byte_at(s, pos) matches Some(b) && ByteClass::Digit.has(b)
}

/// The eight tags, and no other byte, open a record: at any other byte
/// the record is refused as an unexpected character at the offset of that
/// byte, and no record that a tag opens is refused in this way.
pub proof fn law_only_tags_open_records(s: Seq<u8>, pos: int)
    requires
        0 <= pos < s.len(),
    ensures
        !is_tag(s[pos]) <==> record_at(s, pos) == Scan::<Command>::fail(
            pos,
            ParseErrorKind::UnexpectedCharacter,
        ),
{
    lemma_record_stays_inside(s, pos);
}

/// An unsigned 32-bit field is refused for two reasons only. No digit
/// where the number should start: a value is missing, and nothing is
/// passed. Digits that write a number above `u32::MAX`: the value is too
/// big, and all the digits are passed. Any other run of digits decodes to
/// the number that it writes.
pub proof fn law_u32_refusals(s: Seq<u8>, pos: int)
    requires
        0 <= pos <= s.len(),
    ensures
        !digit_stands_at(s, pos) <==> u32_at(s, pos) == Scan::<u32>::fail(
            pos,
            ParseErrorKind::ExpectedValue,
        ),
        digit_stands_at(s, pos) && decimal_value(digits_at(s, pos)) > u32::MAX <==> u32_at(s, pos)
            == Scan::<u32>::fail(pos + digits_at(s, pos).len(), ParseErrorKind::ValueTooBig),
        digit_stands_at(s, pos) && decimal_value(digits_at(s, pos)) <= u32::MAX <==> u32_at(s, pos)
            == Scan::done(
            pos + digits_at(s, pos).len(),
            decimal_value(digits_at(s, pos)) as u32,
        ),
{
    lemma_run_end(s, pos, ByteClass::Digit);
}

/// A signed 32-bit field is refused for three reasons only. The end of
/// the buffer where the field should start. No digit after the optional
/// sign: a value is missing. Digits that write a magnitude above
/// `i32::MAX`: the value is too big, whatever the sign. Any other run of
/// digits decodes to its magnitude, negated after a `-`.
pub proof fn law_i32_refusals(s: Seq<u8>, pos: int)
    requires
        0 <= pos <= s.len(),
    ensures
        pos == s.len() <==> i32_at(s, pos) == Scan::<i32>::fail(
            pos,
            ParseErrorKind::UnexpectedEof,
        ),
        pos < s.len() && !digit_stands_at(s, sign_end(s, pos)) <==> i32_at(s, pos) == Scan::<
            i32,
        >::fail(sign_end(s, pos), ParseErrorKind::ExpectedValue),
        pos < s.len() && digit_stands_at(s, sign_end(s, pos)) && decimal_value(
            digits_at(s, sign_end(s, pos)),
        ) > i32::MAX <==> i32_at(s, pos) == Scan::<i32>::fail(
            sign_end(s, pos) + digits_at(s, sign_end(s, pos)).len(),
            ParseErrorKind::ValueTooBig,
        ),
        pos < s.len() && digit_stands_at(s, sign_end(s, pos)) && decimal_value(
            digits_at(s, sign_end(s, pos)),
        ) <= i32::MAX <==> i32_at(s, pos) == Scan::done(
            sign_end(s, pos) + digits_at(s, sign_end(s, pos)).len(),
            if s[pos] == MINUS {
                (-decimal_value(digits_at(s, sign_end(s, pos)))) as i32
            } else {
                decimal_value(digits_at(s, sign_end(s, pos))) as i32
            },
        ),
{
    lemma_run_end(s, sign_end(s, pos), ByteClass::Digit);
}

/// The canonical literal of a number is a number literal and writes that number.
pub proof fn law_decimal_digits_round_trip(n: nat)
    ensures
        is_number(decimal_digits(n)),
        decimal_value(decimal_digits(n)) == n,
    decreases n,
{
    if n < 10 {
        let d = decimal_digits(n);
        assert(d.drop_last() =~= Seq::<u8>::empty());
        assert(decimal_value(d.drop_last()) == 0);
    } else {
        law_decimal_digits_round_trip(n / 10);
        let head = decimal_digits(n / 10);
        let d = decimal_digits(n);
        assert(d.drop_last() =~= head);
        assert forall|i: int| 0 <= i < d.len() implies ByteClass::Digit.has(#[trigger] d[i]) by {
            if i < head.len() {
                assert(d[i] == head[i]);
            }
        }
    }
}

} // verus!
