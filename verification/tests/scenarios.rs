use kanata::{Command, LogKind, ParseError, ParseErrorKind, Parser, RetireKind, StrRef};

fn first(input: &[u8]) -> Option<(usize, Result<Command, ParseError>)> {
    Parser::new(input).next()
}

fn span(input: &[u8], s: StrRef) -> &[u8] {
    &input[s.offset() as usize..(s.offset() + s.len()) as usize]
}

#[test]
fn header_line() {
    assert_eq!(first(b"Kanata\t3\n"), Some((0, Ok(Command::Header { version: 3 }))));
}

#[test]
fn absolute_cycle() {
    assert_eq!(first(b"C=\t5\n"), Some((0, Ok(Command::Cycle { abs: true, value: 5 }))));
}

#[test]
fn relative_negative_cycle() {
    assert_eq!(first(b"C\t-3\n"), Some((0, Ok(Command::Cycle { abs: false, value: -3 }))));
}

#[test]
fn log_with_text() {
    let input = b"L\t10\t1\thello world\n";
    match first(input) {
        Some((0, Ok(Command::Log { id, kind, text }))) => {
            assert_eq!(id, 10);
            assert_eq!(kind, LogKind::MouseOver);
            assert_eq!(text, StrRef::new(7, 11));
            assert_eq!(span(input, text), b"hello world");
        }
        other => panic!("unexpected {:?}", other),
    }
}

#[test]
fn stage_start() {
    let input = b"S\t5\t2\tDecode\n";
    match first(input) {
        Some((0, Ok(Command::PipelineStage { start, id, lane_id, name }))) => {
            assert!(start);
            assert_eq!(id, 5);
            assert_eq!(lane_id, 2);
            assert_eq!(name, StrRef::new(6, 6));
            assert_eq!(span(input, name), b"Decode");
        }
        other => panic!("unexpected {:?}", other),
    }
}

#[test]
fn stage_end() {
    let input = b"E\t5\t2\tDecode\n";
    assert_eq!(
        first(input),
        Some((
            0,
            Ok(Command::PipelineStage { start: false, id: 5, lane_id: 2, name: StrRef::new(6, 6) })
        ))
    );
}

#[test]
fn retire_flush() {
    assert_eq!(
        first(b"R\t1\t9\t1\n"),
        Some((0, Ok(Command::Retire { id: 1, retire_id: 9, kind: RetireKind::Flush })))
    );
}

#[test]
fn log_kind_digit_out_of_range() {
    assert_eq!(
        first(b"L\t10\t7\thello\n"),
        Some((0, Err(ParseError { offset: 6, kind: ParseErrorKind::InvalidLogKind })))
    );
}

#[test]
fn log_kind_not_a_digit() {
    // A letter in place of the kind digit is a missing value, found where the letter stands.
    assert_eq!(
        first(b"L\t10\tX\thello\n"),
        Some((0, Err(ParseError { offset: 5, kind: ParseErrorKind::ExpectedValue })))
    );
}
