use super::{ParseError, ParseErrorKind, Parser};
use crate::ascii::{
    CR, DIGIT_0, DIGIT_9, EQUALS, LF, LOWER_A, LOWER_N, LOWER_T, MINUS, PLUS, SPACE, TAB, UPPER_K,
};
use crate::command::{Command, DepKind, LogKind, RetireKind, StrRef};
use crate::grammar::fields::{
    blanks_end, byte_at, digit_at, eat_at, expect_at, holds_at, i32_at, line_end, tab_at, text_at,
    u32_at, u64_at, Scan,
};
use crate::grammar::records::{
    cycle_at, dependency_at, header_at, header_word, instruction_at, log_at, pipeline_at,
    retire_at,
};
use crate::grammar::scan::{decimal_value, lemma_decimal_value_push, lemma_run_end_is, ByteClass};
use memchr::memchr2;
use vstd::prelude::*;

verus! {

/// `memchr::memchr2` returns the index of the first byte of `haystack` that
/// equals `needle1` or `needle2`, and `None` where no byte of it does.
pub assume_specification[ memchr::memchr2 ](needle1: u8, needle2: u8, haystack: &[u8]) -> (found:
    Option<usize>)
    ensures
        match found {
            Some(i) => {
                &&& i < haystack@.len()
                &&& haystack@[i as int] == needle1 || haystack@[i as int] == needle2
                &&& forall|j: int|
                    0 <= j < i ==> #[trigger] haystack@[j] != needle1 && haystack@[j] != needle2
            },
            None => forall|j: int|
                0 <= j < haystack@.len() ==> #[trigger] haystack@[j] != needle1 && haystack@[j]
                    != needle2,
        },
;

impl<'a> Parser<'a> {
    /// Whether a call that started at the cursor `before`, left it at
    /// `self` and returned `out` did what `scan` says.
    pub open spec fn follows<T>(&self, before: &Self, out: Result<T, ParseError>, scan: Scan<T>) -> bool {
        &&& self@.input == before@.input
        &&& self@.pos == scan.end
        &&& out == scan.output()
    }

    /// Passes the spaces and tabs at the cursor.
    pub(super) fn spaces(&mut self)
        ensures
            final(self)@.input == old(self)@.input,
            final(self)@.pos == blanks_end(old(self)@.input, old(self)@.pos),
    {
        let ghost s = self@.input;
        let ghost start = self@.pos;
        let mut next = self.current();
        while next == Some(SPACE) || next == Some(TAB)
            invariant
                self@.input == s,
                0 <= start <= self@.pos <= s.len(),
                next == byte_at(s, self@.pos),
                forall|i: int| start <= i < self@.pos ==> ByteClass::Blank.has(#[trigger] s[i]),
            decreases s.len() - self@.pos,
        {
            self.bump();
            next = self.current();
        }
        proof {
            lemma_run_end_is(s, start, ByteClass::Blank, self@.pos);
        }
    }

    /// Passes a carriage return, if one is there, and then a line feed, if
    /// one is there.
    pub(super) fn lineend(&mut self)
        ensures
            final(self)@.input == old(self)@.input,
            final(self)@.pos == line_end(old(self)@.input, old(self)@.pos),
    {
        let _ = self.eat(CR);
        let _ = self.eat(LF);
    }

    /// Passes the byte `expected`, or fails where another byte or none stands.
    pub(super) fn expect(&mut self, expected: u8) -> (out: Result<(), ParseError>)
        ensures
            final(self).follows(old(self), out, expect_at(old(self)@.input, old(self)@.pos, expected)),
    {
        if self.current() == Some(expected) {
            self.bump();
            Ok(())
        } else {
            Err(self.error(ParseErrorKind::UnexpectedCharacter))
        }
    }

    /// Passes the byte `expected` if it stands at the cursor, and says whether it did.
    pub(super) fn eat(&mut self, expected: u8) -> (eaten: bool)
        ensures
            final(self)@.input == old(self)@.input,
            final(self)@.pos == eat_at(old(self)@.input, old(self)@.pos, expected),
            eaten == (final(self)@.pos != old(self)@.pos),
    {
        if self.current() == Some(expected) {
            self.bump();
            true
        } else {
            false
        }
    }

    /// Passes the tab that separates two fields.
    pub(super) fn tab(&mut self) -> (out: Result<(), ParseError>)
        ensures
            final(self).follows(old(self), out, tab_at(old(self)@.input, old(self)@.pos)),
    {
        self.expect(TAB)
    }

    /// Passes one digit and returns it as the byte it is.
    pub(super) fn single_digit(&mut self) -> (out: Result<u8, ParseError>)
        ensures
            final(self).follows(old(self), out, digit_at(old(self)@.input, old(self)@.pos)),
    {
        match self.current() {
            Some(actual) => {
                if DIGIT_0 <= actual && actual <= DIGIT_9 {
                    self.bump();
                    Ok(actual)
                } else {
                    Err(self.error(ParseErrorKind::ExpectedValue))
                }
            },
            None => Err(self.error(ParseErrorKind::ExpectedValue)),
        }
    }

    /// Passes all the digits at the cursor and returns the number they
    /// write. A number that does not fit 64 bits is refused after its last
    /// digit.
    pub(super) fn parse_u64(&mut self) -> (out: Result<u64, ParseError>)
        ensures
            final(self).follows(old(self), out, u64_at(old(self)@.input, old(self)@.pos)),
    {
        let ghost s = self@.input;
        let ghost start = self@.pos;
        let r = self.rest();
        let mut v: u64 = 0;
        let mut fits = true;
        let mut i: usize = 0;
        while i < r.len() && DIGIT_0 <= r[i] && r[i] <= DIGIT_9
            invariant
                0 <= start <= s.len(),
                r@ == s.subrange(start, s.len() as int),
                i <= r.len(),
                forall|j: int| start <= j < start + i ==> ByteClass::Digit.has(#[trigger] s[j]),
                fits ==> v == decimal_value(s.subrange(start, start + i)),
                !fits ==> decimal_value(s.subrange(start, start + i)) > u64::MAX,
            decreases r.len() - i,
        {
            let d = (r[i] - DIGIT_0) as u64;
            proof {
                assert(r@[i as int] == s[start + i]);
                lemma_decimal_value_push(s.subrange(start, start + i), r[i as int]);
                assert(s.subrange(start, start + i + 1) =~= s.subrange(start, start + i).push(
                    r[i as int],
                ));
            }
            if fits && v <= (u64::MAX - d) / 10 {
                v = v * 10 + d;
            } else {
                fits = false;
            }
            i += 1;
        }
        proof {
            assert(i < r.len() ==> r@[i as int] == s[start + i]);
            lemma_run_end_is(s, start, ByteClass::Digit, start + i);
        }
        if i > 0 {
            self.advance(i);
            if fits {
                Ok(v)
            } else {
                Err(self.error(ParseErrorKind::ValueTooBig))
            }
        } else {
            Err(self.error(ParseErrorKind::ExpectedValue))
        }
    }

    /// Passes an optional sign and all the digits after it, and returns the
    /// signed number they write.
    pub(super) fn parse_i32(&mut self) -> (out: Result<i32, ParseError>)
        ensures
            final(self).follows(old(self), out, i32_at(old(self)@.input, old(self)@.pos)),
    {
        match self.current() {
            Some(c) => {
                let mut neg = false;
                if c == MINUS {
                    neg = true;
                    self.bump();
                } else if c == PLUS {
                    self.bump();
                }
                let magnitude = self.parse_u64()?;
                match i32::try_from(magnitude) {
                    Ok(num) => if neg {
                        Ok(-num)
                    } else {
                        Ok(num)
                    },
                    Err(_) => Err(self.error(ParseErrorKind::ValueTooBig)),
                }
            },
            None => Err(self.error(ParseErrorKind::UnexpectedEof)),
        }
    }

    /// Passes all the digits at the cursor and returns the number they write.
    pub(super) fn parse_u32(&mut self) -> (out: Result<u32, ParseError>)
        ensures
            final(self).follows(old(self), out, u32_at(old(self)@.input, old(self)@.pos)),
    {
        let v = self.parse_u64()?;
        match u32::try_from(v) {
            Ok(num) => Ok(num),
            Err(_) => Err(self.error(ParseErrorKind::ValueTooBig)),
        }
    }

    /// Passes the bytes up to the next line break or the end of the buffer
    /// and returns the span they cover.
    pub(super) fn text(&mut self) -> (out: Result<StrRef, ParseError>)
        ensures
            final(self).follows(old(self), out, text_at(old(self)@.input, old(self)@.pos)),
    {
        let ghost s = self@.input;
        let start = self.get_offset();
        let rest = self.rest();

        let len = match memchr2(CR, LF, rest) {
            Some(i) => i,
            None => rest.len(),
        };
        proof {
            assert forall|j: int| start <= j < start + len implies ByteClass::Text.has(
                #[trigger] s[j],
            ) by {
                assert(s[j] == rest@[j - start]);
            }
            assert(len < rest.len() ==> rest@[len as int] == s[start + len]);
            lemma_run_end_is(s, start as int, ByteClass::Text, start + len);
        }

        if len == 0 {
            return Err(self.error(ParseErrorKind::ExpectedText));
        }
        self.advance(len);
        Ok(StrRef::new(start as u64, len as u64))
    }

    /// Whether the bytes of `word` stand at the cursor.
    fn starts_with(&self, word: &[u8]) -> (found: bool)
        ensures
            found == holds_at(self@.input, self@.pos, word@),
    {
        let ghost s = self@.input;
        let ghost pos = self@.pos;
        let rest = self.rest();
        if rest.len() < word.len() {
            return false;
        }
        let mut i: usize = 0;
        while i < word.len()
            invariant
                s == self@.input,
                pos == self@.pos,
                0 <= pos <= s.len(),
                rest@ == s.subrange(pos, s.len() as int),
                word.len() <= rest.len(),
                i <= word.len(),
                forall|j: int| 0 <= j < i ==> rest@[j] == word@[j],
            decreases word.len() - i,
        {
            if rest[i] != word[i] {
                proof {
                    assert(s.subrange(pos, pos + word@.len())[i as int] == rest@[i as int]);
                }
                return false;
            }
            i += 1;
        }
        proof {
            assert(s.subrange(pos, pos + word@.len()) =~= word@) by {
                assert forall|j: int| 0 <= j < word@.len() implies s.subrange(
                    pos,
                    pos + word@.len(),
                )[j] == word@[j] by {
                    assert(rest@[j] == s[pos + j]);
                }
            }
        }
        true
    }

    /// Decodes the header line at the cursor.
    pub(super) fn parse_header(&mut self) -> (out: Result<Command, ParseError>)
        ensures
            final(self).follows(old(self), out, header_at(old(self)@.input, old(self)@.pos)),
    {
        let kanata: [u8; 7] = [UPPER_K, LOWER_A, LOWER_N, LOWER_A, LOWER_T, LOWER_A, TAB];
        assert(kanata@ =~= header_word());
        if !self.starts_with(kanata.as_slice()) {
            return Err(self.error(ParseErrorKind::InvalidHeader));
        }
        self.advance(kanata.len());
        let version = self.parse_u32()?;
        self.spaces();
        self.lineend();
        Ok(Command::Header { version })
    }

    /// Decodes the cycle record whose tag stands at the cursor.
    pub(super) fn parse_c(&mut self) -> (out: Result<Command, ParseError>)
        requires
            old(self)@.pos < old(self)@.input.len(),
        ensures
            final(self).follows(old(self), out, cycle_at(old(self)@.input, old(self)@.pos)),
    {
        self.bump();
        let abs = self.eat(EQUALS);
        self.tab()?;
        let value = self.parse_i32()?;
        self.spaces();
        self.lineend();
        Ok(Command::Cycle { abs, value })
    }

    /// Decodes the instruction record whose tag stands at the cursor.
    pub(super) fn parse_i(&mut self) -> (out: Result<Command, ParseError>)
        requires
            old(self)@.pos < old(self)@.input.len(),
        ensures
            final(self).follows(old(self), out, instruction_at(old(self)@.input, old(self)@.pos)),
    {
        self.bump();
        self.tab()?;
        let id_file = self.parse_u32()?;
        self.tab()?;
        let id_sim = self.parse_u32()?;
        self.tab()?;
        let thread = self.parse_u32()?;
        self.spaces();
        self.lineend();
        Ok(Command::Instruction { id_in_file: id_file, id_in_sim: id_sim, thread_id: thread })
    }

    /// Decodes the log record whose tag stands at the cursor.
    pub(super) fn parse_l(&mut self) -> (out: Result<Command, ParseError>)
        requires
            old(self)@.pos < old(self)@.input.len(),
        ensures
            final(self).follows(old(self), out, log_at(old(self)@.input, old(self)@.pos)),
    {
        self.bump();
        self.tab()?;
        let id = self.parse_u32()?;
        self.tab()?;
        let kind = match LogKind::try_from(self.single_digit()?) {
            Ok(kind) => kind,
            Err(e) => {
                return Err(self.error(e));
            },
        };
        self.tab()?;
        let text = self.text()?;
        self.lineend();
        Ok(Command::Log { id, kind, text })
    }

    /// Decodes the stage record whose tag stands at the cursor; `start` says
    /// which of the two tags it is.
    pub(super) fn parse_pipeline(&mut self, start: bool) -> (out: Result<Command, ParseError>)
        requires
            old(self)@.pos < old(self)@.input.len(),
        ensures
            final(self).follows(
                old(self),
                out,
                pipeline_at(old(self)@.input, old(self)@.pos, start),
            ),
    {
        self.bump();
        self.tab()?;
        let id = self.parse_u32()?;
        self.tab()?;
        let lane = self.parse_u32()?;
        self.tab()?;
        let name = self.text()?;
        self.lineend();
        Ok(Command::PipelineStage { start, id, lane_id: lane, name })
    }

    /// Decodes the retire record whose tag stands at the cursor.
    pub(super) fn parse_r(&mut self) -> (out: Result<Command, ParseError>)
        requires
            old(self)@.pos < old(self)@.input.len(),
        ensures
            final(self).follows(old(self), out, retire_at(old(self)@.input, old(self)@.pos)),
    {
        self.bump();
        self.tab()?;
        let id = self.parse_u32()?;
        self.tab()?;
        let retire = self.parse_u32()?;
        self.tab()?;
        let kind = match RetireKind::try_from(self.single_digit()?) {
            Ok(kind) => kind,
            Err(e) => {
                return Err(self.error(e));
            },
        };
        self.spaces();
        self.lineend();
        Ok(Command::Retire { id, retire_id: retire, kind })
    }

    /// Decodes the dependency record whose tag stands at the cursor.
    pub(super) fn parse_w(&mut self) -> (out: Result<Command, ParseError>)
        requires
            old(self)@.pos < old(self)@.input.len(),
        ensures
            final(self).follows(old(self), out, dependency_at(old(self)@.input, old(self)@.pos)),
    {
        self.bump();
        self.tab()?;
        let c = self.parse_u32()?;
        self.tab()?;
        let p = self.parse_u32()?;
        self.tab()?;
        let kind = match DepKind::try_from(self.single_digit()?) {
            Ok(kind) => kind,
            Err(e) => {
                return Err(self.error(e));
            },
        };
        self.spaces();
        self.lineend();
        Ok(Command::Dependency { consumer_id: c, producer_id: p, kind })
    }
}

} // verus!
