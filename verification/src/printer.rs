//! Commands rendered as lines of text, one line per command.

use crate::ascii::DIGIT_0;
use crate::command::{Command, DepKind, LogKind, RetireKind, StrRef};
use crate::grammar::lines::decimal_digits;
use crate::grammar::progress::lemma_record_stays_inside;
use crate::grammar::records::record_at;
use crate::parser::{ParseError, Parser};
use vstd::prelude::*;
use vstd::string::StringExecFns;

verus! {

/// `String::push` appends the character to the end of the string.
pub assume_specification[ String::push ](s: &mut String, ch: char)
    ensures
        final(s)@ == old(s)@.push(ch),
;

/// The decimal digits of `n` as characters, without leading zeros.
pub open spec fn decimal_text(n: nat) -> Seq<char> {
    decimal_digits(n).map_values(|b: u8| b as char)
}

/// A signed number as text: a `-` before the magnitude of a negative number.
pub open spec fn signed_text(n: int) -> Seq<char> {
    if n < 0 {
        seq!['-'] + decimal_text((-n) as nat)
    } else {
        decimal_text(n as nat)
    }
}

/// Appends the decimal digits of `n` to `out`.
pub fn push_u32(out: &mut String, n: u32)
    ensures
        final(out)@ == old(out)@ + decimal_text(n as nat),
    decreases n,
{
    if n >= 10 {
        push_u32(out, n / 10);
    }
    let digit = DIGIT_0 + (n % 10) as u8;
    out.push(digit as char);
    proof {
        let before = old(out)@;
        if n >= 10 {
            let head = decimal_digits((n / 10) as nat);
            assert(decimal_digits(n as nat) == head.push(digit));
            assert(decimal_text(n as nat) =~= decimal_text((n / 10) as nat).push(digit as char));
            assert(out@ =~= before + decimal_text(n as nat));
        } else {
            assert(decimal_digits(n as nat) == seq![digit]);
            assert(decimal_text(n as nat) =~= seq![digit as char]);
            assert(out@ =~= before + decimal_text(n as nat));
        }
    }
}

/// Appends `n` to `out` in decimal, with a `-` before a negative number.
pub fn push_i32(out: &mut String, n: i32)
    ensures
        final(out)@ == old(out)@ + signed_text(n as int),
{
    if n < 0 {
        out.push('-');
        let magnitude = (-(n as i64)) as u32;
        push_u32(out, magnitude);
        proof {
            assert(out@ =~= old(out)@ + signed_text(n as int));
        }
    } else {
        push_u32(out, n as u32);
    }
}

/// The text that `String::from_utf8_lossy` makes of `bytes`: the bytes
/// decoded as UTF-8, with a replacement character for what is not UTF-8.
pub uninterp spec fn utf8_lossy(bytes: Seq<u8>) -> Seq<char>;

/// `String::from_utf8_lossy`, with its result as an owned string. The
/// result depends on the bytes alone; `utf8_lossy` is the name for it.
#[verifier::external_body]
fn lossy(bytes: &[u8]) -> (text: String)
    ensures
        text@ == utf8_lossy(bytes@),
{
    String::from_utf8_lossy(bytes).into_owned()
}

/// The line for a header.
pub open spec fn header_text(version: u32) -> Seq<char> {
    "Kanata version="@ + decimal_text(version as nat) + "\n"@
}

/// The line for a cycle: `=` before an absolute value, `+` before a step.
pub open spec fn cycle_text(abs: bool, value: i32) -> Seq<char> {
    (if abs {
        "Cycle ="@
    } else {
        "Cycle +"@
    }) + signed_text(value as int) + "\n"@
}

/// The line for an instruction.
pub open spec fn instruction_text(id_in_file: u32, id_in_sim: u32, thread_id: u32) -> Seq<char> {
    "Instr file="@ + decimal_text(id_in_file as nat) + " sim="@ + decimal_text(id_in_sim as nat)
        + " thread="@ + decimal_text(thread_id as nat) + "\n"@
}

/// The word for a kind of log text.
pub open spec fn log_kind_text(kind: LogKind) -> Seq<char> {
    match kind {
        LogKind::LeftPane => "left"@,
        LogKind::MouseOver => "hover"@,
        LogKind::Other => "other"@,
    }
}

/// The line for a log record with the text `text`, which stands between quotes.
pub open spec fn log_text(id: u32, kind: LogKind, text: Seq<char>) -> Seq<char> {
    "Log id="@ + decimal_text(id as nat) + " kind="@ + log_kind_text(kind) + " text=\""@ + text
        + "\"\n"@
}

/// The line for a stage with the name `name`.
pub open spec fn stage_text(start: bool, id: u32, lane_id: u32, name: Seq<char>) -> Seq<char> {
    (if start {
        "Start"@
    } else {
        "End"@
    }) + "Stage id="@ + decimal_text(id as nat) + " lane="@ + decimal_text(lane_id as nat)
        + " name="@ + name + "\n"@
}

/// The word for a kind of retirement.
pub open spec fn retire_kind_text(kind: RetireKind) -> Seq<char> {
    match kind {
        RetireKind::Retire => "retire"@,
        RetireKind::Flush => "flush"@,
    }
}

/// The line for a retirement.
pub open spec fn retire_text(id: u32, retire_id: u32, kind: RetireKind) -> Seq<char> {
    "Retire id="@ + decimal_text(id as nat) + " rid="@ + decimal_text(retire_id as nat)
        + " kind="@ + retire_kind_text(kind) + "\n"@
}

/// The word for a kind of dependency.
pub open spec fn dep_kind_text(kind: DepKind) -> Seq<char> {
    match kind {
        DepKind::WakeUp => "wakeup"@,
    }
}

/// The line for a dependency.
pub open spec fn dependency_text(consumer_id: u32, producer_id: u32, kind: DepKind) -> Seq<char> {
    "Dep "@ + decimal_text(consumer_id as nat) + " <- "@ + decimal_text(producer_id as nat)
        + " ("@ + dep_kind_text(kind) + ")\n"@
}

/// The line for `cmd`, a command that was decoded from `input`. The text
/// of a log record and the name of a stage are the bytes of their spans,
/// read as UTF-8 with replacement characters.
pub open spec fn rendered(cmd: Command, input: Seq<u8>) -> Seq<char> {
    match cmd {
        Command::Header { version } => header_text(version),
        Command::Cycle { abs, value } => cycle_text(abs, value),
        Command::Instruction { id_in_file, id_in_sim, thread_id } => instruction_text(
            id_in_file,
            id_in_sim,
            thread_id,
        ),
        Command::Log { id, kind, text } => log_text(id, kind, utf8_lossy(text.span(input))),
        Command::PipelineStage { start, id, lane_id, name } => stage_text(
            start,
            id,
            lane_id,
            utf8_lossy(name.span(input)),
        ),
        Command::Retire { id, retire_id, kind } => retire_text(id, retire_id, kind),
        Command::Dependency { consumer_id, producer_id, kind } => dependency_text(
            consumer_id,
            producer_id,
            kind,
        ),
    }
}

/// What a [`PrettyPrinter`] is in contracts: the buffer that its
/// commands refer to, and the text written so far.
pub struct Page {
    pub input: Seq<u8>,
    pub out: Seq<char>,
}

/// Collects the lines of the commands it is given.
pub struct PrettyPrinter<'a> {
    input: &'a [u8],
    out: String,
}

impl<'a> View for PrettyPrinter<'a> {
    type V = Page;

    closed spec fn view(&self) -> Page {
        Page { input: self.input@, out: self.out@ }
    }
}

impl<'a> PrettyPrinter<'a> {
    /// A printer for commands decoded from `input`, with nothing written yet.
    pub fn new(input: &'a [u8]) -> (printer: Self)
        ensures
            printer@ == (Page { input: input@, out: Seq::<char>::empty() }),
    {
        Self { input, out: String::new() }
    }

    /// The bytes of the buffer that `s` covers.
    pub fn strref(&self, s: StrRef) -> (bytes: &'a [u8])
        requires
            s.inside(self@.input.len()),
        ensures
            bytes@ == s.span(self@.input),
    {
        let input = self.input;
        assert(input@.len() == input.len());
        let off = s.offset() as usize;
        let len = s.len() as usize;
        &input[off..off + len]
    }

    /// All that was written.
    pub fn finish(self) -> (out: String)
        ensures
            out@ == self@.out,
    {
        self.out
    }

    /// Writes the line for a log record whose text is `text`.
    pub fn print_log(&mut self, id: u32, kind: LogKind, text: &str)
        ensures
            final(self)@.input == old(self)@.input,
            final(self)@.out == old(self)@.out + log_text(id, kind, text@),
    {
        self.out.append("Log id=");
        push_u32(&mut self.out, id);
        self.out.append(" kind=");
        match kind {
            LogKind::LeftPane => self.out.append("left"),
            LogKind::MouseOver => self.out.append("hover"),
            LogKind::Other => self.out.append("other"),
        }
        self.out.append(" text=\"");
        self.out.append(text);
        self.out.append("\"\n");
        assert(self@.out =~= old(self)@.out + log_text(id, kind, text@));
    }

    /// Writes the line for a stage whose name is `name`.
    pub fn print_stage(&mut self, start: bool, id: u32, lane_id: u32, name: &str)
        ensures
            final(self)@.input == old(self)@.input,
            final(self)@.out == old(self)@.out + stage_text(start, id, lane_id, name@),
    {
        if start {
            self.out.append("Start");
        } else {
            self.out.append("End");
        }
        self.out.append("Stage id=");
        push_u32(&mut self.out, id);
        self.out.append(" lane=");
        push_u32(&mut self.out, lane_id);
        self.out.append(" name=");
        self.out.append(name);
        self.out.append("\n");
        assert(self@.out =~= old(self)@.out + stage_text(start, id, lane_id, name@));
    }

    /// Writes the line for `cmd`, a command decoded from the buffer of this printer.
    pub fn print(&mut self, cmd: Command)
        requires
            cmd.inside(old(self)@.input.len()),
        ensures
            final(self)@.input == old(self)@.input,
            final(self)@.out == old(self)@.out + rendered(cmd, old(self)@.input),
    {
        match cmd {
            Command::Header { version } => {
                self.out.append("Kanata version=");
                push_u32(&mut self.out, version);
                self.out.append("\n");
                assert(self@.out =~= old(self)@.out + header_text(version));
            },
            Command::Cycle { abs, value } => {
                if abs {
                    self.out.append("Cycle =");
                } else {
                    self.out.append("Cycle +");
                }
                push_i32(&mut self.out, value);
                self.out.append("\n");
                assert(self@.out =~= old(self)@.out + cycle_text(abs, value));
            },
            Command::Instruction { id_in_file, id_in_sim, thread_id } => {
                self.out.append("Instr file=");
                push_u32(&mut self.out, id_in_file);
                self.out.append(" sim=");
                push_u32(&mut self.out, id_in_sim);
                self.out.append(" thread=");
                push_u32(&mut self.out, thread_id);
                self.out.append("\n");
                assert(self@.out =~= old(self)@.out + instruction_text(
                    id_in_file,
                    id_in_sim,
                    thread_id,
                ));
            },
            Command::Log { id, kind, text } => {
                let txt = lossy(self.strref(text));
                self.print_log(id, kind, txt.as_str());
            },
            Command::PipelineStage { start, id, lane_id, name } => {
                let name = lossy(self.strref(name));
                self.print_stage(start, id, lane_id, name.as_str());
            },
            Command::Retire { id, retire_id, kind } => {
                self.out.append("Retire id=");
                push_u32(&mut self.out, id);
                self.out.append(" rid=");
                push_u32(&mut self.out, retire_id);
                self.out.append(" kind=");
                match kind {
                    RetireKind::Retire => self.out.append("retire"),
                    RetireKind::Flush => self.out.append("flush"),
                }
                self.out.append("\n");
                assert(self@.out =~= old(self)@.out + retire_text(id, retire_id, kind));
            },
            Command::Dependency { consumer_id, producer_id, kind } => {
                self.out.append("Dep ");
                push_u32(&mut self.out, consumer_id);
                self.out.append(" <- ");
                push_u32(&mut self.out, producer_id);
                self.out.append(" (");
                match kind {
                    DepKind::WakeUp => self.out.append("wakeup"),
                }
                self.out.append(")\n");
                assert(self@.out =~= old(self)@.out + dependency_text(
                    consumer_id,
                    producer_id,
                    kind,
                ));
            },
        }
    }
}

/// The lines of all the records of `s` from `pos` on, in their order, or
/// the failure of the first record that cannot be decoded.
pub open spec fn transcript(s: Seq<u8>, pos: int) -> Result<Seq<char>, ParseError>
    decreases s.len() - pos,
    via transcript_decreases
{
    if 0 <= pos < s.len() {
        let record = record_at(s, pos);
        match record.result {
            Err(_) => Err(record.output()->Err_0),
            Ok(cmd) => match transcript(s, record.end) {
                Ok(rest) => Ok(rendered(cmd, s) + rest),
                Err(e) => Err(e),
            },
        }
    } else {
        Ok(Seq::empty())
    }
}

#[via_fn]
proof fn transcript_decreases(s: Seq<u8>, pos: int) {
    if 0 <= pos < s.len() {
        lemma_record_stays_inside(s, pos);
    }
}

/// Decodes the records of `input` one after the other and renders each as
/// a line. Stops at the first record that cannot be decoded and returns
/// its failure.
pub fn parse_and_pretty_print(input: &[u8]) -> (out: Result<String, ParseError>)
    ensures
        match out {
            Ok(text) => transcript(input@, 0) == Ok::<Seq<char>, ParseError>(text@),
            Err(e) => transcript(input@, 0) == Err::<Seq<char>, ParseError>(e),
        },
{
    let mut parser = Parser::new(input);
    let mut pp = PrettyPrinter::new(input);
    loop
        invariant
            parser@.input == input@,
            pp@.input == input@,
            0 <= parser@.pos <= input@.len(),
            match transcript(input@, parser@.pos) {
                Ok(rest) => transcript(input@, 0) == Ok::<Seq<char>, ParseError>(pp@.out + rest),
                Err(e) => transcript(input@, 0) == Err::<Seq<char>, ParseError>(e),
            },
        decreases input@.len() - parser@.pos,
    {
        let ghost before = parser@.pos;
        let ghost written = pp@.out;
        match parser.next() {
            None => {
                assert(pp@.out + Seq::<char>::empty() =~= pp@.out);
                return Ok(pp.finish());
            },
            Some((_, Err(e))) => {
                return Err(e);
            },
            Some((_, Ok(cmd))) => {
                pp.print(cmd);
                proof {
                    let line = rendered(cmd, input@);
                    if let Ok(rest) = transcript(input@, parser@.pos) {
                        assert(written + (line + rest) =~= pp@.out + rest);
                    }
                }
            },
        }
    }
}

} // verus!
