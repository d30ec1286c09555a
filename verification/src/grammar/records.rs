//! What each kind of record decodes to, and which record stands at an offset.
//!
//! A record is decoded field by field, left to right. The first field that
//! fails decides the outcome: decoding stops where that field stopped.

use crate::ascii::{
    EQUALS, LOWER_A, LOWER_N, LOWER_T, TAB, UPPER_C, UPPER_E, UPPER_I, UPPER_K, UPPER_L, UPPER_R,
    UPPER_S, UPPER_W,
};
use crate::command::{Command, DepKind, LogKind, RetireKind, StrRef};
use crate::grammar::fields::{
    blanks_end, digit_at, eat_at, holds_at, i32_at, line_end, tab_at, text_at, u32_at, Scan,
};
use crate::parser::{ParseError, ParseErrorKind};
use vstd::prelude::*;

verus! {

/// The literal that opens a header line: `Kanata` and a tab.
pub open spec fn header_word() -> Seq<u8> {
    seq![UPPER_K, LOWER_A, LOWER_N, LOWER_A, LOWER_T, LOWER_A, TAB]
}

/// The offset after optional spaces and tabs and the line terminator.
pub open spec fn trailer_end(s: Seq<u8>, pos: int) -> int {
    line_end(s, blanks_end(s, pos))
}

/// A tab and an unsigned 32-bit number.
pub open spec fn tab_u32_at(s: Seq<u8>, pos: int) -> Scan<u32> {
    let tab = tab_at(s, pos);
    if tab.failed() {
        tab.carry()
    } else {
        u32_at(s, tab.end)
    }
}

/// A tab and one digit.
pub open spec fn tab_digit_at(s: Seq<u8>, pos: int) -> Scan<u8> {
    let tab = tab_at(s, pos);
    if tab.failed() {
        tab.carry()
    } else {
        digit_at(s, tab.end)
    }
}

/// A tab and free text.
pub open spec fn tab_text_at(s: Seq<u8>, pos: int) -> Scan<StrRef> {
    let tab = tab_at(s, pos);
    if tab.failed() {
        tab.carry()
    } else {
        text_at(s, tab.end)
    }
}

/// The header line at `pos`: the literal, the version, optional spaces and
/// tabs, the line terminator.
pub open spec fn header_at(s: Seq<u8>, pos: int) -> Scan<Command> {
    let version = u32_at(s, pos + header_word().len());
    if !holds_at(s, pos, header_word()) {
        Scan::fail(pos, ParseErrorKind::InvalidHeader)
    } else if version.failed() {
        version.carry()
    } else {
        Scan::done(trailer_end(s, version.end), Command::Header { version: version.value() })
    }
}

/// The cycle record whose tag stands at `pos`: an optional `=` that marks an
/// absolute cycle, a tab, the signed value, optional spaces and tabs, the
/// line terminator.
pub open spec fn cycle_at(s: Seq<u8>, pos: int) -> Scan<Command> {
    let mark = eat_at(s, pos + 1, EQUALS);
    let tab = tab_at(s, mark);
    let value = i32_at(s, tab.end);
    if tab.failed() {
        tab.carry()
    } else if value.failed() {
        value.carry()
    } else {
        Scan::done(
            trailer_end(s, value.end),
            Command::Cycle { abs: mark != pos + 1, value: value.value() },
        )
    }
}

/// The instruction record whose tag stands at `pos`: three numbers, each
/// after a tab, optional spaces and tabs, the line terminator.
pub open spec fn instruction_at(s: Seq<u8>, pos: int) -> Scan<Command> {
    let id_in_file = tab_u32_at(s, pos + 1);
    let id_in_sim = tab_u32_at(s, id_in_file.end);
    let thread_id = tab_u32_at(s, id_in_sim.end);
    if id_in_file.failed() {
        id_in_file.carry()
    } else if id_in_sim.failed() {
        id_in_sim.carry()
    } else if thread_id.failed() {
        thread_id.carry()
    } else {
        Scan::done(
            trailer_end(s, thread_id.end),
            Command::Instruction {
                id_in_file: id_in_file.value(),
                id_in_sim: id_in_sim.value(),
                thread_id: thread_id.value(),
            },
        )
    }
}

/// The log record whose tag stands at `pos`: a number, a kind digit and
/// free text, each after a tab, then the line terminator. A digit that
/// names no kind is refused after it was passed.
pub open spec fn log_at(s: Seq<u8>, pos: int) -> Scan<Command> {
    let id = tab_u32_at(s, pos + 1);
    let digit = tab_digit_at(s, id.end);
    let text = tab_text_at(s, digit.end);
    if id.failed() {
        id.carry()
    } else if digit.failed() {
        digit.carry()
    } else if LogKind::decode(digit.value()) is Err {
        Scan::fail(digit.end, LogKind::decode(digit.value())->Err_0)
    } else if text.failed() {
        text.carry()
    } else {
        Scan::done(
            line_end(s, text.end),
            Command::Log {
                id: id.value(),
                kind: LogKind::decode(digit.value())->Ok_0,
                text: text.value(),
            },
        )
    }
}

/// The stage record whose tag stands at `pos`: two numbers and the name of
/// the stage, each after a tab, then the line terminator. `start` says
/// whether the instruction enters the stage or leaves it.
pub open spec fn pipeline_at(s: Seq<u8>, pos: int, start: bool) -> Scan<Command> {
    let id = tab_u32_at(s, pos + 1);
    let lane_id = tab_u32_at(s, id.end);
    let name = tab_text_at(s, lane_id.end);
    if id.failed() {
        id.carry()
    } else if lane_id.failed() {
        lane_id.carry()
    } else if name.failed() {
        name.carry()
    } else {
        Scan::done(
            line_end(s, name.end),
            Command::PipelineStage {
                start,
                id: id.value(),
                lane_id: lane_id.value(),
                name: name.value(),
            },
        )
    }
}

/// The retire record whose tag stands at `pos`: two numbers and a kind
/// digit, each after a tab, optional spaces and tabs, the line terminator.
pub open spec fn retire_at(s: Seq<u8>, pos: int) -> Scan<Command> {
    let id = tab_u32_at(s, pos + 1);
    let retire_id = tab_u32_at(s, id.end);
    let digit = tab_digit_at(s, retire_id.end);
    if id.failed() {
        id.carry()
    } else if retire_id.failed() {
        retire_id.carry()
    } else if digit.failed() {
        digit.carry()
    } else if RetireKind::decode(digit.value()) is Err {
        Scan::fail(digit.end, RetireKind::decode(digit.value())->Err_0)
    } else {
        Scan::done(
            trailer_end(s, digit.end),
            Command::Retire {
                id: id.value(),
                retire_id: retire_id.value(),
                kind: RetireKind::decode(digit.value())->Ok_0,
            },
        )
    }
}

/// The dependency record whose tag stands at `pos`: the consumer, the
/// producer and a kind digit, each after a tab, optional spaces and tabs,
/// the line terminator.
pub open spec fn dependency_at(s: Seq<u8>, pos: int) -> Scan<Command> {
    let consumer_id = tab_u32_at(s, pos + 1);
    let producer_id = tab_u32_at(s, consumer_id.end);
    let digit = tab_digit_at(s, producer_id.end);
    if consumer_id.failed() {
        consumer_id.carry()
    } else if producer_id.failed() {
        producer_id.carry()
    } else if digit.failed() {
        digit.carry()
    } else if DepKind::decode(digit.value()) is Err {
        Scan::fail(digit.end, DepKind::decode(digit.value())->Err_0)
    } else {
        Scan::done(
            trailer_end(s, digit.end),
            Command::Dependency {
                consumer_id: consumer_id.value(),
                producer_id: producer_id.value(),
                kind: DepKind::decode(digit.value())->Ok_0,
            },
        )
    }
}

/// Whether `tag` opens a record.
pub open spec fn is_tag(tag: u8) -> bool {
    tag == UPPER_K || tag == UPPER_C || tag == UPPER_I || tag == UPPER_L || tag == UPPER_S || tag
        == UPPER_E || tag == UPPER_R || tag == UPPER_W
}

/// The record that starts at `pos`, chosen by the byte at `pos`. A byte
/// that opens no record is refused where it stands.
pub open spec fn record_at(s: Seq<u8>, pos: int) -> Scan<Command>
    recommends
        0 <= pos < s.len(),
{
    let tag = s[pos];
    if tag == UPPER_K {
        header_at(s, pos)
    } else if tag == UPPER_C {
        cycle_at(s, pos)
    } else if tag == UPPER_I {
        instruction_at(s, pos)
    } else if tag == UPPER_L {
        log_at(s, pos)
    } else if tag == UPPER_S {
        pipeline_at(s, pos, true)
    } else if tag == UPPER_E {
        pipeline_at(s, pos, false)
    } else if tag == UPPER_R {
        retire_at(s, pos)
    } else if tag == UPPER_W {
        dependency_at(s, pos)
    } else {
        Scan::fail(pos, ParseErrorKind::UnexpectedCharacter)
    }
}

/// What one pull at `pos` yields: nothing at the end of the buffer, else
/// the offset of the record and what it decodes to.
pub open spec fn item_at(s: Seq<u8>, pos: int) -> Option<(usize, Result<Command, ParseError>)> {
    if 0 <= pos < s.len() {
        Some((pos as usize, record_at(s, pos).output()))
    } else {
        None
    }
}

/// Where the cursor stands after one pull at `pos`.
pub open spec fn item_end(s: Seq<u8>, pos: int) -> int {
    if 0 <= pos < s.len() {
        record_at(s, pos).end
    } else {
        pos
    }
}

} // verus!
