use crate::ascii::{DIGIT_0, DIGIT_1, DIGIT_2};
use crate::parser::ParseErrorKind;
use vstd::prelude::*;
use vstd::std_specs::convert::TryFromSpecImpl;

verus! {

/// Where the text of a log record is shown.
#[derive(Debug, Clone, Copy, PartialEq, Eq, Structural)]
pub enum LogKind {
    LeftPane,
    MouseOver,
    Other,
}

impl LogKind {
    /// The kind that the digit byte of a log record stands for:
    /// `0`, `1` and `2` are the three kinds, any other byte is an error.
    pub open spec fn decode(b: u8) -> Result<LogKind, ParseErrorKind> {
        if b == DIGIT_0 {
            Ok(LogKind::LeftPane)
        } else if b == DIGIT_1 {
            Ok(LogKind::MouseOver)
        } else if b == DIGIT_2 {
            Ok(LogKind::Other)
        } else {
            Err(ParseErrorKind::InvalidLogKind)
        }
    }
}

impl TryFrom<u8> for LogKind {
    type Error = ParseErrorKind;

    fn try_from(b: u8) -> (kind: Result<Self, Self::Error>) {
        if b == DIGIT_0 {
            Ok(LogKind::LeftPane)
        } else if b == DIGIT_1 {
            Ok(LogKind::MouseOver)
        } else if b == DIGIT_2 {
            Ok(LogKind::Other)
        } else {
            Err(ParseErrorKind::InvalidLogKind)
        }
    }
}

impl TryFromSpecImpl<u8> for LogKind {
    open spec fn obeys_try_from_spec() -> bool {
        true
    }

    open spec fn try_from_spec(b: u8) -> Result<Self, Self::Error> {
        LogKind::decode(b)
    }
}

/// How an instruction left the pipeline.
#[derive(Debug, Clone, Copy, PartialEq, Eq, Structural)]
pub enum RetireKind {
    Retire,
    Flush,
}

impl RetireKind {
    /// The kind that the digit byte of a retire record stands for:
    /// `0` retires, `1` flushes, any other byte is an error.
    pub open spec fn decode(b: u8) -> Result<RetireKind, ParseErrorKind> {
        if b == DIGIT_0 {
            Ok(RetireKind::Retire)
        } else if b == DIGIT_1 {
            Ok(RetireKind::Flush)
        } else {
            Err(ParseErrorKind::InvalidRetireKind)
        }
    }
}

impl TryFrom<u8> for RetireKind {
    type Error = ParseErrorKind;

    fn try_from(b: u8) -> (kind: Result<Self, Self::Error>) {
        if b == DIGIT_0 {
            Ok(RetireKind::Retire)
        } else if b == DIGIT_1 {
            Ok(RetireKind::Flush)
        } else {
            Err(ParseErrorKind::InvalidRetireKind)
        }
    }
}

impl TryFromSpecImpl<u8> for RetireKind {
    open spec fn obeys_try_from_spec() -> bool {
        true
    }

    open spec fn try_from_spec(b: u8) -> Result<Self, Self::Error> {
        RetireKind::decode(b)
    }
}

/// How one instruction depends on another.
#[derive(Debug, Clone, Copy, PartialEq, Eq, Structural)]
pub enum DepKind {
    WakeUp,
}

impl DepKind {
    /// The kind that the digit byte of a dependency record stands for:
    /// `0` is a wake-up, any other byte is an error.
    pub open spec fn decode(b: u8) -> Result<DepKind, ParseErrorKind> {
        if b == DIGIT_0 {
            Ok(DepKind::WakeUp)
        } else {
            Err(ParseErrorKind::InvalidDepKind)
        }
    }
}

impl TryFrom<u8> for DepKind {
    type Error = ParseErrorKind;

    fn try_from(b: u8) -> (kind: Result<Self, Self::Error>) {
        if b == DIGIT_0 {
            Ok(DepKind::WakeUp)
        } else {
            Err(ParseErrorKind::InvalidDepKind)
        }
    }
}

impl TryFromSpecImpl<u8> for DepKind {
    open spec fn obeys_try_from_spec() -> bool {
        true
    }

    open spec fn try_from_spec(b: u8) -> Result<Self, Self::Error> {
        DepKind::decode(b)
    }
}

/// A span of the input buffer: the offset of its first byte and its length
/// in bytes. It holds no bytes itself and means something only together
/// with the buffer it was made from.
#[derive(Debug, Clone, Copy, PartialEq, Eq, Structural)]
pub struct StrRef {
    pub offset: u64,
    pub len: u64,
}

impl StrRef {
    /// Whether the span lies inside a buffer of `buffer_len` bytes.
    pub open spec fn inside(self, buffer_len: nat) -> bool {
        self.offset + self.len <= buffer_len
    }

    /// Whether the span is not empty and lies inside a buffer of `buffer_len` bytes.
    pub open spec fn fits(self, buffer_len: nat) -> bool {
        1 <= self.len && self.inside(buffer_len)
    }

    /// The bytes of `buffer` that the span covers.
    pub open spec fn span(self, buffer: Seq<u8>) -> Seq<u8>
        recommends
            self.inside(buffer.len()),
    {
        buffer.subrange(self.offset as int, self.offset + self.len)
    }

    pub fn new(offset: u64, len: u64) -> (s: Self)
        ensures
            s == (StrRef { offset, len }),
    {
        StrRef { offset, len }
    }

    pub fn offset(self) -> (offset: u64)
        ensures
            offset == self.offset,
    {
        self.offset
    }

    #[allow(clippy::len_without_is_empty)]
    pub fn len(self) -> (len: u64)
        ensures
            len == self.len,
    {
        self.len
    }
}

/// One decoded record of a trace log.
#[allow(inconsistent_fields)]
#[derive(Debug, Clone, Copy, PartialEq, Eq, Structural)]
pub enum Command {
    /// The header line, with the version of the format.
    Header { version: u32 },
    /// A clock tick: an absolute cycle number, or a step from the cycle before.
    Cycle { abs: bool, value: i32 },
    /// A new instruction and its identifiers.
    Instruction { id_in_file: u32, id_in_sim: u32, thread_id: u32 },
    /// A line of text attached to an instruction.
    Log { id: u32, kind: LogKind, text: StrRef },
    /// An instruction enters (`start`) or leaves a named stage in a lane.
    PipelineStage { start: bool, id: u32, lane_id: u32, name: StrRef },
    /// An instruction retires or is flushed.
    Retire { id: u32, retire_id: u32, kind: RetireKind },
    /// The producer instruction wakes the consumer instruction.
    Dependency { consumer_id: u32, producer_id: u32, kind: DepKind },
}

impl Command {
    /// Whether the span that the command carries, if it carries one, lies
    /// inside a buffer of `buffer_len` bytes.
    pub open spec fn inside(self, buffer_len: nat) -> bool {
        match self {
            Command::Log { text, .. } => text.inside(buffer_len),
            Command::PipelineStage { name, .. } => name.inside(buffer_len),
            _ => true,
        }
    }

    /// Whether the span that the command carries, if it carries one, is
    /// not empty and lies inside a buffer of `buffer_len` bytes.
    pub open spec fn fits(self, buffer_len: nat) -> bool {
        match self {
            Command::Log { text, .. } => text.fits(buffer_len),
            Command::PipelineStage { name, .. } => name.fits(buffer_len),
            _ => true,
        }
    }
}


} // verus!
