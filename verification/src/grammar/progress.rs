//! Decoding never leaves the buffer and never moves backwards.

use crate::ascii::{EQUALS, UPPER_K};
use crate::command::Command;
use crate::grammar::fields::{
    blanks_end, digit_at, eat_at, i32_at, line_end, tab_at, text_at, u32_at, unsigned_at, Scan,
};
use crate::grammar::records::{
    cycle_at, dependency_at, header_at, instruction_at, is_tag, log_at, pipeline_at, record_at,
    retire_at, tab_digit_at, tab_text_at, tab_u32_at, trailer_end,
};
use crate::grammar::scan::{lemma_run_end, ByteClass};
use crate::parser::ParseErrorKind;
use vstd::prelude::*;

verus! {

impl<T> Scan<T> {
    /// Decoding that started at `pos` stopped at or after `pos`, inside `s`.
    pub open spec fn within(self, s: Seq<u8>, pos: int) -> bool {
        pos <= self.end <= s.len()
    }

    /// As `within`, and a success has passed at least one byte.
    pub open spec fn advances(self, s: Seq<u8>, pos: int) -> bool {
        &&& self.within(s, pos)
        &&& !self.failed() ==> pos < self.end
    }
}

/// Every field stops inside the buffer, at or after the offset at which it
/// started, and every field but the optional ones passes at least one byte
/// where it succeeds.
pub proof fn lemma_fields_stay_inside(s: Seq<u8>, pos: int)
    requires
        0 <= pos <= s.len(),
    ensures
        pos <= blanks_end(s, pos) <= s.len(),
        pos <= line_end(s, pos) <= s.len(),
        pos <= trailer_end(s, pos) <= s.len(),
        forall|b: u8| pos <= #[trigger] eat_at(s, pos, b) <= s.len(),
        forall|max: nat| (#[trigger] unsigned_at(s, pos, max)).advances(s, pos),
        tab_at(s, pos).advances(s, pos),
        digit_at(s, pos).advances(s, pos),
        u32_at(s, pos).advances(s, pos),
        i32_at(s, pos).advances(s, pos),
        text_at(s, pos).advances(s, pos),
        tab_u32_at(s, pos).advances(s, pos),
        tab_digit_at(s, pos).advances(s, pos),
        tab_text_at(s, pos).advances(s, pos),
{
    lemma_run_end(s, pos, ByteClass::Blank);
    lemma_run_end(s, pos, ByteClass::Digit);
    lemma_run_end(s, pos, ByteClass::Text);
    if pos < s.len() {
        lemma_run_end(s, pos + 1, ByteClass::Digit);
        lemma_run_end(s, pos + 1, ByteClass::Text);
    }
}

/// The span of a text or a name that was decoded is not empty and lies
/// inside the buffer.
pub proof fn lemma_record_fits(s: Seq<u8>, pos: int)
    requires
        0 <= pos < s.len() <= usize::MAX,
    ensures
        record_at(s, pos).result matches Ok(command) ==> command.fits(s.len()),
{
    lemma_fields_stay_inside(s, pos + 1);
    let a = tab_u32_at(s, pos + 1);
    lemma_fields_stay_inside(s, a.end);
    let k = tab_digit_at(s, a.end);
    lemma_fields_stay_inside(s, k.end);
    let t = tab_at(s, k.end);
    lemma_fields_stay_inside(s, t.end);
    lemma_run_end(s, t.end, ByteClass::Text);
    let b = tab_u32_at(s, a.end);
    lemma_fields_stay_inside(s, b.end);
    let n = tab_at(s, b.end);
    lemma_fields_stay_inside(s, n.end);
    lemma_run_end(s, n.end, ByteClass::Text);
}

/// A record whose tag stands at `pos` is decoded inside the buffer; the
/// cursor does not move backwards, and a record that was decoded has
/// moved it forwards. Where decoding fails, the tag has been passed too,
/// unless the byte is no tag or the literal of the header is wrong.
pub proof fn lemma_record_stays_inside(s: Seq<u8>, pos: int)
    requires
        0 <= pos < s.len(),
    ensures
        record_at(s, pos).advances(s, pos),
        record_at(s, pos).end == pos ==> {
            ||| !is_tag(s[pos]) && record_at(s, pos).result == Err::<Command, ParseErrorKind>(
                ParseErrorKind::UnexpectedCharacter,
            )
            ||| s[pos] == UPPER_K && record_at(s, pos).result == Err::<
                Command,
                ParseErrorKind,
            >(ParseErrorKind::InvalidHeader)
        },
{
    lemma_header_stays_inside(s, pos);
    lemma_cycle_stays_inside(s, pos);
    lemma_instruction_stays_inside(s, pos);
    lemma_log_stays_inside(s, pos);
    lemma_pipeline_stays_inside(s, pos, true);
    lemma_pipeline_stays_inside(s, pos, false);
    lemma_retire_stays_inside(s, pos);
}

proof fn lemma_header_stays_inside(s: Seq<u8>, pos: int)
    requires
        0 <= pos < s.len(),
    ensures
        header_at(s, pos).advances(s, pos),
        pos < header_at(s, pos).end || header_at(s, pos).result == Err::<Command, ParseErrorKind>(
            ParseErrorKind::InvalidHeader,
        ),
{
    let v = u32_at(s, pos + 7);
    if pos + 7 <= s.len() {
        lemma_fields_stay_inside(s, pos + 7);
        lemma_fields_stay_inside(s, v.end);
    }
}

proof fn lemma_cycle_stays_inside(s: Seq<u8>, pos: int)
    requires
        0 <= pos < s.len(),
    ensures
        cycle_at(s, pos).advances(s, pos),
        pos < cycle_at(s, pos).end,
{
    lemma_fields_stay_inside(s, pos + 1);
    let mark = eat_at(s, pos + 1, EQUALS);
    lemma_fields_stay_inside(s, mark);
    let tab = tab_at(s, mark);
    lemma_fields_stay_inside(s, tab.end);
    let value = i32_at(s, tab.end);
    lemma_fields_stay_inside(s, value.end);
}

proof fn lemma_instruction_stays_inside(s: Seq<u8>, pos: int)
    requires
        0 <= pos < s.len(),
    ensures
        instruction_at(s, pos).advances(s, pos),
        pos < instruction_at(s, pos).end,
{
    lemma_fields_stay_inside(s, pos + 1);
    let a = tab_u32_at(s, pos + 1);
    lemma_fields_stay_inside(s, a.end);
    let b = tab_u32_at(s, a.end);
    lemma_fields_stay_inside(s, b.end);
    let c = tab_u32_at(s, b.end);
    lemma_fields_stay_inside(s, c.end);
}

proof fn lemma_log_stays_inside(s: Seq<u8>, pos: int)
    requires
        0 <= pos < s.len(),
    ensures
        log_at(s, pos).advances(s, pos),
        pos < log_at(s, pos).end,
{
    lemma_fields_stay_inside(s, pos + 1);
    let a = tab_u32_at(s, pos + 1);
    lemma_fields_stay_inside(s, a.end);
    let k = tab_digit_at(s, a.end);
    lemma_fields_stay_inside(s, k.end);
    let t = tab_text_at(s, k.end);
    lemma_fields_stay_inside(s, t.end);
}

proof fn lemma_pipeline_stays_inside(s: Seq<u8>, pos: int, start: bool)
    requires
        0 <= pos < s.len(),
    ensures
        pipeline_at(s, pos, start).advances(s, pos),
        pos < pipeline_at(s, pos, start).end,
{
    lemma_fields_stay_inside(s, pos + 1);
    let a = tab_u32_at(s, pos + 1);
    lemma_fields_stay_inside(s, a.end);
    let b = tab_u32_at(s, a.end);
    lemma_fields_stay_inside(s, b.end);
    let t = tab_text_at(s, b.end);
    lemma_fields_stay_inside(s, t.end);
}

proof fn lemma_retire_stays_inside(s: Seq<u8>, pos: int)
    requires
        0 <= pos < s.len(),
    ensures
        retire_at(s, pos).advances(s, pos),
        dependency_at(s, pos).advances(s, pos),
        pos < retire_at(s, pos).end,
        pos < dependency_at(s, pos).end,
{
    lemma_fields_stay_inside(s, pos + 1);
    let a = tab_u32_at(s, pos + 1);
    lemma_fields_stay_inside(s, a.end);
    let b = tab_u32_at(s, a.end);
    lemma_fields_stay_inside(s, b.end);
    let d = tab_digit_at(s, b.end);
    lemma_fields_stay_inside(s, d.end);
}

} // verus!
