//! Every well-formed line is read back to the values that were written.

use crate::ascii::{EQUALS, TAB, UPPER_C, UPPER_E, UPPER_I, UPPER_L, UPPER_R, UPPER_S, UPPER_W};
use crate::command::{Command, DepKind, LogKind, RetireKind, StrRef};
use crate::grammar::fields::{
    blanks_end, holds_at, line_end, tab_at, text_at, unsigned_at, Scan,
};
use crate::grammar::lines::{
    closes, cycle_line, dependency_line, header_line, instruction_line, is_number, is_padding,
    is_sign, is_text, log_line, pipeline_line, retire_line, signed_value, tagged,
};
use crate::grammar::records::{header_word, record_at, tab_u32_at, trailer_end};
use crate::grammar::scan::{decimal_value, lemma_run_end_is, ByteClass};
use crate::parser::ParseErrorKind;
use vstd::prelude::*;

verus! {

/// A piece that stands at `pos` gives the buffer its bytes.
pub proof fn lemma_holds_bytes(s: Seq<u8>, pos: int, piece: Seq<u8>)
    requires
        holds_at(s, pos, piece),
    ensures
        forall|i: int| 0 <= i < piece.len() ==> s[pos + i] == #[trigger] piece[i],
{
    assert forall|i: int| 0 <= i < piece.len() implies s[pos + i] == #[trigger] piece[i] by {
        assert(s.subrange(pos, pos + piece.len())[i] == s[pos + i]);
    }
}

/// Two pieces stand one after the other exactly where their concatenation stands.
pub proof fn lemma_holds_split(s: Seq<u8>, pos: int, a: Seq<u8>, b: Seq<u8>)
    ensures
        holds_at(s, pos, a + b) <==> holds_at(s, pos, a) && holds_at(s, pos + a.len(), b),
{
    let ab = a + b;
    if holds_at(s, pos, ab) {
        lemma_holds_bytes(s, pos, ab);
        assert(s.subrange(pos, pos + a.len()) =~= a) by {
            assert forall|i: int| 0 <= i < a.len() implies s[pos + i] == a[i] by {
                assert(ab[i] == a[i]);
            }
        }
        assert(s.subrange(pos + a.len(), pos + a.len() + b.len()) =~= b) by {
            assert forall|i: int| 0 <= i < b.len() implies s[pos + a.len() + i] == b[i] by {
                assert(ab[a.len() + i] == b[i]);
            }
        }
    }
    if holds_at(s, pos, a) && holds_at(s, pos + a.len(), b) {
        lemma_holds_bytes(s, pos, a);
        lemma_holds_bytes(s, pos + a.len(), b);
        assert(s.subrange(pos, pos + ab.len()) =~= ab) by {
            assert forall|i: int| 0 <= i < ab.len() implies s[pos + i] == ab[i] by {
                if i < a.len() {
                    assert(ab[i] == a[i]);
                } else {
                    assert(ab[i] == b[i - a.len()]);
                    assert(s[pos + a.len() + (i - a.len())] == b[i - a.len()]);
                }
            }
        }
    }
}

/// A number literal that stands at `pos` and is not followed by a digit
/// decodes to its value, or is refused as too big.
pub proof fn lemma_number_decodes(s: Seq<u8>, pos: int, digits: Seq<u8>, max: nat)
    requires
        holds_at(s, pos, digits),
        is_number(digits),
        pos + digits.len() == s.len() || !ByteClass::Digit.has(s[pos + digits.len()]),
    ensures
        unsigned_at(s, pos, max) == if decimal_value(digits) <= max {
            Scan::done(pos + digits.len(), decimal_value(digits))
        } else {
            Scan::fail(pos + digits.len(), ParseErrorKind::ValueTooBig)
        },
{
    lemma_holds_bytes(s, pos, digits);
    assert forall|i: int| pos <= i < pos + digits.len() implies ByteClass::Digit.has(
        #[trigger] s[i],
    ) by {
        assert(s[pos + (i - pos)] == digits[i - pos]);
    }
    lemma_run_end_is(s, pos, ByteClass::Digit, pos + digits.len());
}

/// Free text that stands at `pos` and runs up to a line terminator or the
/// end of the buffer decodes to the span that covers exactly its bytes.
pub proof fn lemma_text_decodes(s: Seq<u8>, pos: int, text: Seq<u8>)
    requires
        holds_at(s, pos, text),
        is_text(text),
        pos + text.len() == s.len() || !ByteClass::Text.has(s[pos + text.len()]),
    ensures
        text_at(s, pos) == Scan::done(
            pos + text.len(),
            StrRef { offset: pos as u64, len: text.len() as u64 },
        ),
{
    lemma_holds_bytes(s, pos, text);
    assert forall|i: int| pos <= i < pos + text.len() implies ByteClass::Text.has(
        #[trigger] s[i],
    ) by {
        assert(s[pos + (i - pos)] == text[i - pos]);
    }
    lemma_run_end_is(s, pos, ByteClass::Text, pos + text.len());
}

/// A terminator that stands at `pos` and closes its line is passed whole,
/// and the byte at `pos`, if there is one, continues neither a number nor
/// a text.
pub proof fn lemma_terminator_passed(s: Seq<u8>, pos: int, eol: Seq<u8>)
    requires
        holds_at(s, pos, eol),
        closes(s, pos + eol.len(), eol),
    ensures
        line_end(s, pos) == pos + eol.len(),
        blanks_end(s, pos) == pos,
        pos == s.len() || !ByteClass::Text.has(s[pos]),
        pos == s.len() || !ByteClass::Digit.has(s[pos]),
{
    lemma_holds_bytes(s, pos, eol);
    if eol.len() > 0 {
        assert(s[pos + 0] == eol[0]);
    }
    if eol.len() > 1 {
        assert(s[pos + 1] == eol[1]);
    }
    lemma_run_end_is(s, pos, ByteClass::Blank, pos);
}

/// Padding and a terminator that stand at `pos` and close their line are
/// passed whole, and the byte at `pos`, if there is one, continues no number.
pub proof fn lemma_trailer_passed(s: Seq<u8>, pos: int, pad: Seq<u8>, eol: Seq<u8>)
    requires
        holds_at(s, pos, pad),
        is_padding(pad),
        holds_at(s, pos + pad.len(), eol),
        closes(s, pos + pad.len() + eol.len(), eol),
    ensures
        trailer_end(s, pos) == pos + pad.len() + eol.len(),
        pos == s.len() || !ByteClass::Digit.has(s[pos]),
{
    let mid = pos + pad.len();
    lemma_terminator_passed(s, mid, eol);
    lemma_holds_bytes(s, pos, pad);
    assert forall|i: int| pos <= i < mid implies ByteClass::Blank.has(#[trigger] s[i]) by {
        assert(s[pos + (i - pos)] == pad[i - pos]);
    }
    lemma_run_end_is(s, pos, ByteClass::Blank, mid);
    if pad.len() > 0 {
        assert(s[pos + 0] == pad[0]);
    }
}

/// A header line decodes to the version that its literal writes, and
/// decoding stops after the line.
pub proof fn law_header_decodes(
    s: Seq<u8>,
    pos: int,
    version: Seq<u8>,
    pad: Seq<u8>,
    eol: Seq<u8>,
)
    requires
        is_number(version),
        decimal_value(version) <= u32::MAX,
        is_padding(pad),
        holds_at(s, pos, header_line(version, pad, eol)),
        closes(s, pos + header_line(version, pad, eol).len(), eol),
    ensures
        record_at(s, pos) == Scan::done(
            pos + header_line(version, pad, eol).len(),
            Command::Header { version: decimal_value(version) as u32 },
        ),
{
    let word = header_word();
    lemma_holds_split(s, pos, word + version + pad, eol);
    lemma_holds_split(s, pos, word + version, pad);
    lemma_holds_split(s, pos, word, version);
    lemma_holds_bytes(s, pos, word);
    assert(s[pos + 0] == word[0]);
    let number = pos + word.len();
    let trailer = number + version.len();
    lemma_trailer_passed(s, trailer, pad, eol);
    lemma_number_decodes(s, number, version, u32::MAX as nat);
}

/// What `tagged` puts into the buffer: the tag, and two numbers that
/// decode to their values, each after a tab and followed by a tab.
proof fn lemma_tagged_decodes(s: Seq<u8>, pos: int, tag: u8, first: Seq<u8>, second: Seq<u8>)
    requires
        is_number(first),
        is_number(second),
        decimal_value(first) <= u32::MAX,
        decimal_value(second) <= u32::MAX,
        holds_at(s, pos, tagged(tag, first, second)),
    ensures
        0 <= pos < s.len(),
        s[pos] == tag,
        tab_u32_at(s, pos + 1) == Scan::done(
            pos + 2 + first.len(),
            decimal_value(first) as u32,
        ),
        tab_u32_at(s, pos + 2 + first.len()) == Scan::done(
            pos + 3 + first.len() + second.len(),
            decimal_value(second) as u32,
        ),
        tab_at(s, pos + 3 + first.len() + second.len()) == Scan::done(
            pos + tagged(tag, first, second).len(),
            (),
        ),
        tagged(tag, first, second).len() == 4 + first.len() + second.len(),
        s[pos + 2 + first.len()] == TAB,
        holds_at(s, pos + 3 + first.len(), second),
{
    let head = seq![tag, TAB];
    let tab = seq![TAB];
    lemma_holds_split(s, pos, head + first + tab + second, tab);
    lemma_holds_split(s, pos, head + first + tab, second);
    lemma_holds_split(s, pos, head + first, tab);
    lemma_holds_split(s, pos, head, first);
    lemma_holds_bytes(s, pos, head);
    assert(s[pos + 0] == head[0]);
    assert(s[pos + 1] == head[1]);
    let a = pos + 2;
    let t1 = a + first.len();
    lemma_holds_bytes(s, t1, tab);
    assert(s[t1 + 0] == tab[0]);
    let b = t1 + 1;
    let t2 = b + second.len();
    lemma_holds_bytes(s, t2, tab);
    assert(s[t2 + 0] == tab[0]);
    lemma_number_decodes(s, a, first, u32::MAX as nat);
    lemma_number_decodes(s, b, second, u32::MAX as nat);
}

/// An instruction line decodes to the three numbers that its literals
/// write, and decoding stops after the line.
pub proof fn law_instruction_decodes(
    s: Seq<u8>,
    pos: int,
    id_in_file: Seq<u8>,
    id_in_sim: Seq<u8>,
    thread_id: Seq<u8>,
    pad: Seq<u8>,
    eol: Seq<u8>,
)
    requires
        is_number(id_in_file),
        is_number(id_in_sim),
        is_number(thread_id),
        decimal_value(id_in_file) <= u32::MAX,
        decimal_value(id_in_sim) <= u32::MAX,
        decimal_value(thread_id) <= u32::MAX,
        is_padding(pad),
        holds_at(s, pos, instruction_line(id_in_file, id_in_sim, thread_id, pad, eol)),
        closes(
            s,
            pos + instruction_line(id_in_file, id_in_sim, thread_id, pad, eol).len(),
            eol,
        ),
    ensures
        record_at(s, pos) == Scan::done(
            pos + instruction_line(id_in_file, id_in_sim, thread_id, pad, eol).len(),
            Command::Instruction {
                id_in_file: decimal_value(id_in_file) as u32,
                id_in_sim: decimal_value(id_in_sim) as u32,
                thread_id: decimal_value(thread_id) as u32,
            },
        ),
{
    let head = tagged(UPPER_I, id_in_file, id_in_sim);
    lemma_holds_split(s, pos, head + thread_id + pad, eol);
    lemma_holds_split(s, pos, head + thread_id, pad);
    lemma_holds_split(s, pos, head, thread_id);
    lemma_tagged_decodes(s, pos, UPPER_I, id_in_file, id_in_sim);
    let number = pos + head.len();
    let trailer = number + thread_id.len();
    lemma_trailer_passed(s, trailer, pad, eol);
    lemma_number_decodes(s, number, thread_id, u32::MAX as nat);
}

/// A cycle line decodes to the mark and the signed number that its
/// literals write, and decoding stops after the line.
pub proof fn law_cycle_decodes(
    s: Seq<u8>,
    pos: int,
    abs: bool,
    sign: Seq<u8>,
    magnitude: Seq<u8>,
    pad: Seq<u8>,
    eol: Seq<u8>,
)
    requires
        is_sign(sign),
        is_number(magnitude),
        decimal_value(magnitude) <= i32::MAX,
        is_padding(pad),
        holds_at(s, pos, cycle_line(abs, sign, magnitude, pad, eol)),
        closes(s, pos + cycle_line(abs, sign, magnitude, pad, eol).len(), eol),
    ensures
        record_at(s, pos) == Scan::done(
            pos + cycle_line(abs, sign, magnitude, pad, eol).len(),
            Command::Cycle { abs, value: signed_value(sign, magnitude) as i32 },
        ),
{
    let head = if abs {
        seq![UPPER_C, EQUALS, TAB]
    } else {
        seq![UPPER_C, TAB]
    };
    lemma_holds_split(s, pos, head + sign + magnitude + pad, eol);
    lemma_holds_split(s, pos, head + sign + magnitude, pad);
    lemma_holds_split(s, pos, head + sign, magnitude);
    lemma_holds_split(s, pos, head, sign);
    lemma_holds_bytes(s, pos, head);
    assert(s[pos + 0] == head[0]);
    assert(s[pos + 1] == head[1]);
    if abs {
        assert(s[pos + 2] == head[2]);
    }
    let signed = pos + head.len();
    let number = signed + sign.len();
    let trailer = number + magnitude.len();
    lemma_holds_bytes(s, signed, sign);
    lemma_holds_bytes(s, number, magnitude);
    assert(s[number + 0] == magnitude[0]);
    if sign.len() > 0 {
        assert(s[signed + 0] == sign[0]);
    }
    lemma_trailer_passed(s, trailer, pad, eol);
    lemma_number_decodes(s, number, magnitude, i32::MAX as nat);
}

/// A log line decodes to the number and the kind that its literals write
/// and to the span of its text: the bytes between the tab before the text
/// and the terminator, no more and no less. Decoding stops after the line.
pub proof fn law_log_decodes(
    s: Seq<u8>,
    pos: int,
    id: Seq<u8>,
    kind: u8,
    text: Seq<u8>,
    eol: Seq<u8>,
)
    requires
        s.len() <= usize::MAX,
        is_number(id),
        decimal_value(id) <= u32::MAX,
        LogKind::decode(kind) is Ok,
        is_text(text),
        holds_at(s, pos, log_line(id, kind, text, eol)),
        closes(s, pos + log_line(id, kind, text, eol).len(), eol),
    ensures
        record_at(s, pos) matches Scan {
            end,
            result: Ok(Command::Log { id: decoded_id, kind: decoded_kind, text: decoded_text }),
        } && {
            &&& end == pos + log_line(id, kind, text, eol).len()
            &&& decoded_id == decimal_value(id)
            &&& Ok::<LogKind, ParseErrorKind>(decoded_kind) == LogKind::decode(kind)
            &&& decoded_text.offset == pos + tagged(UPPER_L, id, seq![kind]).len()
            &&& decoded_text.len == text.len()
            &&& decoded_text.fits(s.len())
            &&& decoded_text.span(s) == text
        },
{
    let digit = seq![kind];
    let head = tagged(UPPER_L, id, digit);
    lemma_holds_split(s, pos, head + text, eol);
    lemma_holds_split(s, pos, head, text);
    assert(decimal_value(digit) <= 9) by {
        assert(digit.drop_last() =~= Seq::<u8>::empty());
        assert(decimal_value(digit.drop_last()) == 0);
    }
    lemma_tagged_decodes(s, pos, UPPER_L, id, digit);
    lemma_holds_bytes(s, pos + 3 + id.len(), digit);
    assert(s[pos + 3 + id.len() + 0] == digit[0]);
    let start = pos + head.len();
    lemma_terminator_passed(s, start + text.len(), eol);
    lemma_text_decodes(s, start, text);
}

/// A stage line decodes to the flag and the two numbers that its tag and
/// literals write and to the span of the name of the stage: the bytes
/// between the tab before the name and the terminator, no more and no
/// less. Decoding stops after the line.
pub proof fn law_pipeline_decodes(
    s: Seq<u8>,
    pos: int,
    start: bool,
    id: Seq<u8>,
    lane_id: Seq<u8>,
    name: Seq<u8>,
    eol: Seq<u8>,
)
    requires
        s.len() <= usize::MAX,
        is_number(id),
        is_number(lane_id),
        decimal_value(id) <= u32::MAX,
        decimal_value(lane_id) <= u32::MAX,
        is_text(name),
        holds_at(s, pos, pipeline_line(start, id, lane_id, name, eol)),
        closes(s, pos + pipeline_line(start, id, lane_id, name, eol).len(), eol),
    ensures
        record_at(s, pos) matches Scan {
            end,
            result: Ok(
                Command::PipelineStage {
                    start: decoded_start,
                    id: decoded_id,
                    lane_id: decoded_lane,
                    name: decoded_name,
                },
            ),
        } && {
            &&& end == pos + pipeline_line(start, id, lane_id, name, eol).len()
            &&& decoded_start == start
            &&& decoded_id == decimal_value(id)
            &&& decoded_lane == decimal_value(lane_id)
            &&& decoded_name.offset == pos + tagged(if start { UPPER_S } else { UPPER_E }, id, lane_id).len()
            &&& decoded_name.len == name.len()
            &&& decoded_name.fits(s.len())
            &&& decoded_name.span(s) == name
        },
{
    let tag = if start {
        UPPER_S
    } else {
        UPPER_E
    };
    let head = tagged(tag, id, lane_id);
    lemma_holds_split(s, pos, head + name, eol);
    lemma_holds_split(s, pos, head, name);
    lemma_tagged_decodes(s, pos, tag, id, lane_id);
    let from = pos + head.len();
    lemma_terminator_passed(s, from + name.len(), eol);
    lemma_text_decodes(s, from, name);
}

/// A retire line decodes to the two numbers and the kind that its
/// literals write, and decoding stops after the line.
pub proof fn law_retire_decodes(
    s: Seq<u8>,
    pos: int,
    id: Seq<u8>,
    retire_id: Seq<u8>,
    kind: u8,
    pad: Seq<u8>,
    eol: Seq<u8>,
)
    requires
        is_number(id),
        is_number(retire_id),
        decimal_value(id) <= u32::MAX,
        decimal_value(retire_id) <= u32::MAX,
        RetireKind::decode(kind) is Ok,
        is_padding(pad),
        holds_at(s, pos, retire_line(id, retire_id, kind, pad, eol)),
        closes(s, pos + retire_line(id, retire_id, kind, pad, eol).len(), eol),
    ensures
        record_at(s, pos) == Scan::done(
            pos + retire_line(id, retire_id, kind, pad, eol).len(),
            Command::Retire {
                id: decimal_value(id) as u32,
                retire_id: decimal_value(retire_id) as u32,
                kind: RetireKind::decode(kind)->Ok_0,
            },
        ),
{
    let digit = seq![kind];
    let head = tagged(UPPER_R, id, retire_id);
    lemma_holds_split(s, pos, head + digit + pad, eol);
    lemma_holds_split(s, pos, head + digit, pad);
    lemma_holds_split(s, pos, head, digit);
    lemma_tagged_decodes(s, pos, UPPER_R, id, retire_id);
    let at = pos + head.len();
    lemma_holds_bytes(s, at, digit);
    assert(s[at + 0] == digit[0]);
    lemma_trailer_passed(s, at + 1, pad, eol);
}

/// A dependency line decodes to the two numbers and the kind that its
/// literals write, and decoding stops after the line.
pub proof fn law_dependency_decodes(
    s: Seq<u8>,
    pos: int,
    consumer_id: Seq<u8>,
    producer_id: Seq<u8>,
    kind: u8,
    pad: Seq<u8>,
    eol: Seq<u8>,
)
    requires
        is_number(consumer_id),
        is_number(producer_id),
        decimal_value(consumer_id) <= u32::MAX,
        decimal_value(producer_id) <= u32::MAX,
        DepKind::decode(kind) is Ok,
        is_padding(pad),
        holds_at(s, pos, dependency_line(consumer_id, producer_id, kind, pad, eol)),
        closes(s, pos + dependency_line(consumer_id, producer_id, kind, pad, eol).len(), eol),
    ensures
        record_at(s, pos) == Scan::done(
            pos + dependency_line(consumer_id, producer_id, kind, pad, eol).len(),
            Command::Dependency {
                consumer_id: decimal_value(consumer_id) as u32,
                producer_id: decimal_value(producer_id) as u32,
                kind: DepKind::decode(kind)->Ok_0,
            },
        ),
{
    let digit = seq![kind];
    let head = tagged(UPPER_W, consumer_id, producer_id);
    lemma_holds_split(s, pos, head + digit + pad, eol);
    lemma_holds_split(s, pos, head + digit, pad);
    lemma_holds_split(s, pos, head, digit);
    lemma_tagged_decodes(s, pos, UPPER_W, consumer_id, producer_id);
    let at = pos + head.len();
    lemma_holds_bytes(s, at, digit);
    assert(s[at + 0] == digit[0]);
    lemma_trailer_passed(s, at + 1, pad, eol);
}

} // verus!
