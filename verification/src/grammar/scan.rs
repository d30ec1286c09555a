//! Runs of bytes of one class, and the value of a run of digits.

use crate::ascii::{CR, DIGIT_0, DIGIT_9, LF, SPACE, TAB};
use vstd::prelude::*;

verus! {

/// The classes of bytes of which the grammar takes maximal runs.
pub enum ByteClass {
    /// `0` to `9`.
    Digit,
    /// Space and tab.
    Blank,
    /// Everything but carriage return and line feed.
    Text,
}

impl ByteClass {
    /// Whether the byte `b` belongs to the class.
    pub open spec fn has(self, b: u8) -> bool {
        match self {
            ByteClass::Digit => DIGIT_0 <= b && b <= DIGIT_9,
            ByteClass::Blank => b == SPACE || b == TAB,
            ByteClass::Text => b != CR && b != LF,
        }
    }

    /// Whether every byte of `run` belongs to the class.
    pub open spec fn has_all(self, run: Seq<u8>) -> bool {
        forall|i: int| 0 <= i < run.len() ==> self.has(#[trigger] run[i])
    }
}

/// The offset at which the maximal run of bytes of `class` that starts at
/// `from` ends: the first offset from `from` on that holds a byte outside
/// the class, or the length of the buffer.
pub open spec fn run_end(s: Seq<u8>, from: int, class: ByteClass) -> int
    decreases s.len() - from,
{
    if 0 <= from < s.len() && class.has(s[from]) {
        run_end(s, from + 1, class)
    } else {
        from
    }
}

/// `run_end` stays inside the buffer, passes only bytes of the class and
/// stops at the first byte outside it.
pub proof fn lemma_run_end(s: Seq<u8>, from: int, class: ByteClass)
    requires
        0 <= from <= s.len(),
    ensures
        from <= run_end(s, from, class) <= s.len(),
        forall|i: int| from <= i < run_end(s, from, class) ==> class.has(#[trigger] s[i]),
        run_end(s, from, class) < s.len() ==> !class.has(s[run_end(s, from, class)]),
    decreases s.len() - from,
{
    if from < s.len() && class.has(s[from]) {
        lemma_run_end(s, from + 1, class);
    }
}

/// An offset that the run reaches and at which it must stop is its end.
pub proof fn lemma_run_end_is(s: Seq<u8>, from: int, class: ByteClass, end: int)
    requires
        0 <= from <= end <= s.len(),
        forall|i: int| from <= i < end ==> class.has(#[trigger] s[i]),
        end < s.len() ==> !class.has(s[end]),
    ensures
        run_end(s, from, class) == end,
    decreases end - from,
{
    if from < end {
        lemma_run_end_is(s, from + 1, class, end);
    }
}

/// The number that a sequence of decimal digits writes, most significant
/// digit first. Leading zeros are allowed and the empty sequence is zero.
pub open spec fn decimal_value(digits: Seq<u8>) -> nat
    decreases digits.len(),
{
    if digits.len() == 0 {
        0
    } else {
        (decimal_value(digits.drop_last()) * 10 + (digits.last() - DIGIT_0)) as nat
    }
}

/// Appending a digit multiplies the value by ten and adds the digit.
pub proof fn lemma_decimal_value_push(digits: Seq<u8>, d: u8)
    requires
        ByteClass::Digit.has(d),
    ensures
        decimal_value(digits.push(d)) == decimal_value(digits) * 10 + (d - DIGIT_0),
{
    assert(digits.push(d).drop_last() =~= digits);
}

} // verus!
