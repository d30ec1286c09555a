use kanata::printer::{parse_and_pretty_print, push_i32, push_u32, PrettyPrinter};
use kanata::{Command, DepKind, LogKind, ParseError, ParseErrorKind, RetireKind, StrRef};

fn line(input: &[u8], cmd: Command) -> String {
    let mut printer = PrettyPrinter::new(input);
    printer.print(cmd);
    printer.finish()
}

#[test]
fn unsigned_numbers_in_decimal() {
    let mut out = String::from("n=");
    push_u32(&mut out, 0);
    out.push(' ');
    push_u32(&mut out, 7);
    out.push(' ');
    push_u32(&mut out, 10);
    out.push(' ');
    push_u32(&mut out, 4294967295);
    assert_eq!(out, "n=0 7 10 4294967295");
}

#[test]
fn signed_numbers_in_decimal() {
    let mut out = String::new();
    push_i32(&mut out, 0);
    out.push(' ');
    push_i32(&mut out, -1);
    out.push(' ');
    push_i32(&mut out, 2147483647);
    out.push(' ');
    push_i32(&mut out, -2147483648);
    assert_eq!(out, "0 -1 2147483647 -2147483648");
}

#[test]
fn one_line_per_command() {
    let input = b"S\t5\t2\tDecode\nL\t10\t1\thello world\n";
    assert_eq!(line(input, Command::Header { version: 4 }), "Kanata version=4\n");
    assert_eq!(line(input, Command::Cycle { abs: true, value: 12 }), "Cycle =12\n");
    assert_eq!(line(input, Command::Cycle { abs: false, value: 1 }), "Cycle +1\n");
    assert_eq!(line(input, Command::Cycle { abs: false, value: -3 }), "Cycle +-3\n");
    assert_eq!(
        line(input, Command::Instruction { id_in_file: 1, id_in_sim: 20, thread_id: 300 }),
        "Instr file=1 sim=20 thread=300\n"
    );
    assert_eq!(
        line(input, Command::Log { id: 10, kind: LogKind::MouseOver, text: StrRef::new(20, 11) }),
        "Log id=10 kind=hover text=\"hello world\"\n"
    );
    assert_eq!(
        line(input, Command::Log { id: 1, kind: LogKind::LeftPane, text: StrRef::new(20, 5) }),
        "Log id=1 kind=left text=\"hello\"\n"
    );
    assert_eq!(
        line(input, Command::Log { id: 1, kind: LogKind::Other, text: StrRef::new(26, 5) }),
        "Log id=1 kind=other text=\"world\"\n"
    );
    assert_eq!(
        line(input, Command::PipelineStage { start: true, id: 5, lane_id: 2, name: StrRef::new(6, 6) }),
        "StartStage id=5 lane=2 name=Decode\n"
    );
    assert_eq!(
        line(input, Command::PipelineStage { start: false, id: 5, lane_id: 2, name: StrRef::new(6, 6) }),
        "EndStage id=5 lane=2 name=Decode\n"
    );
    assert_eq!(
        line(input, Command::Retire { id: 3, retire_id: 4, kind: RetireKind::Retire }),
        "Retire id=3 rid=4 kind=retire\n"
    );
    assert_eq!(
        line(input, Command::Retire { id: 3, retire_id: 4, kind: RetireKind::Flush }),
        "Retire id=3 rid=4 kind=flush\n"
    );
    assert_eq!(
        line(input, Command::Dependency { consumer_id: 8, producer_id: 6, kind: DepKind::WakeUp }),
        "Dep 8 <- 6 (wakeup)\n"
    );
}

#[test]
fn lines_are_appended() {
    let mut printer = PrettyPrinter::new(b"");
    printer.print(Command::Header { version: 4 });
    printer.print(Command::Cycle { abs: true, value: 0 });
    printer.print_log(2, LogKind::Other, "a \"quoted\" word");
    printer.print_stage(true, 1, 0, "F");
    assert_eq!(
        printer.finish(),
        "Kanata version=4\nCycle =0\nLog id=2 kind=other text=\"a \"quoted\" word\"\nStartStage id=1 lane=0 name=F\n"
    );
}

#[test]
fn span_of_the_buffer() {
    let printer = PrettyPrinter::new(b"S\t5\t2\tDecode\n");
    assert_eq!(printer.strref(StrRef::new(6, 6)), b"Decode");
    assert_eq!(printer.strref(StrRef::new(0, 1)), b"S");
    assert_eq!(printer.strref(StrRef::new(13, 0)), b"");
}

#[test]
fn bytes_that_are_not_utf8_are_replaced() {
    let input = [b'L', b'\t', b'1', b'\t', b'0', b'\t', b'a', 0xff, b'b', 0xc3, 0xa9, b'\n'];
    assert_eq!(
        line(&input, Command::Log { id: 1, kind: LogKind::LeftPane, text: StrRef::new(6, 5) }),
        "Log id=1 kind=left text=\"a\u{fffd}b\u{e9}\"\n"
    );
    assert_eq!(
        parse_and_pretty_print(&input),
        Ok(String::from("Log id=1 kind=left text=\"a\u{fffd}b\u{e9}\"\n"))
    );
}

#[test]
fn a_whole_log() {
    let input = b"Kanata\t4\nC=\t0\nI\t0\t1\t2\nL\t0\t0\tadd r1\nS\t0\t0\tF\nC\t1\nE\t0\t0\tF\nR\t0\t0\t0\nW\t1\t0\t0\n";
    assert_eq!(
        parse_and_pretty_print(input),
        Ok(String::from(
            "Kanata version=4\nCycle =0\nInstr file=0 sim=1 thread=2\nLog id=0 kind=left text=\"add r1\"\nStartStage id=0 lane=0 name=F\nCycle +1\nEndStage id=0 lane=0 name=F\nRetire id=0 rid=0 kind=retire\nDep 1 <- 0 (wakeup)\n"
        ))
    );
    assert_eq!(parse_and_pretty_print(b""), Ok(String::new()));
}

#[test]
fn a_log_with_a_bad_record() {
    assert_eq!(
        parse_and_pretty_print(b"Kanata\t4\nC=\t0\nI\t0\t1\n"),
        Err(ParseError { offset: 19, kind: ParseErrorKind::UnexpectedCharacter })
    );
    assert_eq!(
        parse_and_pretty_print(b"Kanata\t4\n\nC=\t0\n"),
        Err(ParseError { offset: 9, kind: ParseErrorKind::UnexpectedCharacter })
    );
}
