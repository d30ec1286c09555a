use kanata::{Command, DepKind, ParseError, ParseErrorKind, Parser, RetireKind};

fn first(input: &[u8]) -> Option<(usize, Result<Command, ParseError>)> {
    Parser::new(input).next()
}

fn fails(input: &[u8], offset: usize, kind: ParseErrorKind) {
    assert_eq!(first(input), Some((0, Err(ParseError { offset, kind }))));
}

#[test]
fn invalid_header() {
    fails(b"Kanada\t3\n", 0, ParseErrorKind::InvalidHeader);
    fails(b"K", 0, ParseErrorKind::InvalidHeader);
    fails(b"Kanata 3\n", 0, ParseErrorKind::InvalidHeader);
    fails(b"K\t3\n", 0, ParseErrorKind::InvalidHeader);
}

#[test]
fn invalid_log_kind() {
    fails(b"L\t1\t3\ttext\n", 5, ParseErrorKind::InvalidLogKind);
    fails(b"L\t1\t9\ttext\n", 5, ParseErrorKind::InvalidLogKind);
}

#[test]
fn invalid_retire_kind() {
    fails(b"R\t1\t2\t2\n", 7, ParseErrorKind::InvalidRetireKind);
    assert_eq!(
        first(b"R\t1\t2\t0\n"),
        Some((0, Ok(Command::Retire { id: 1, retire_id: 2, kind: RetireKind::Retire })))
    );
}

#[test]
fn invalid_dep_kind() {
    fails(b"W\t1\t2\t1\n", 7, ParseErrorKind::InvalidDepKind);
    assert_eq!(
        first(b"W\t1\t2\t0\n"),
        Some((0, Ok(Command::Dependency { consumer_id: 1, producer_id: 2, kind: DepKind::WakeUp })))
    );
}

#[test]
fn expected_value() {
    fails(b"I\t\t2\t3\n", 2, ParseErrorKind::ExpectedValue);
    fails(b"I\t1\t", 4, ParseErrorKind::ExpectedValue);
    fails(b"Kanata\t\n", 7, ParseErrorKind::ExpectedValue);
    fails(b"Kanata\t", 7, ParseErrorKind::ExpectedValue);
    fails(b"C\t-\n", 3, ParseErrorKind::ExpectedValue);
    fails(b"C\t+", 3, ParseErrorKind::ExpectedValue);
    fails(b"C\tx", 2, ParseErrorKind::ExpectedValue);
    fails(b"R\t1\t2\t", 6, ParseErrorKind::ExpectedValue);
    fails(b"R\t1\t2\tx", 6, ParseErrorKind::ExpectedValue);
}

#[test]
fn value_too_big() {
    fails(b"I\t4294967296\t2\t3\n", 12, ParseErrorKind::ValueTooBig);
    fails(b"Kanata\t99999999999\n", 18, ParseErrorKind::ValueTooBig);
    fails(b"C\t2147483648\n", 12, ParseErrorKind::ValueTooBig);
    fails(b"C\t-2147483648\n", 13, ParseErrorKind::ValueTooBig);
    fails(b"C=\t+2147483648\n", 14, ParseErrorKind::ValueTooBig);
}

#[test]
fn value_beyond_64_bits_is_too_big() {
    // 2^64, and a run of forty digits: every digit is passed before the refusal.
    fails(b"I\t18446744073709551616\t", 22, ParseErrorKind::ValueTooBig);
    fails(b"I\t9999999999999999999999999999999999999999\t1\t1\n", 42, ParseErrorKind::ValueTooBig);
    fails(b"C\t-18446744073709551616", 23, ParseErrorKind::ValueTooBig);
}

#[test]
fn widest_values_are_accepted() {
    assert_eq!(
        first(b"I\t4294967295\t0\t00004294967295\n"),
        Some((
            0,
            Ok(Command::Instruction { id_in_file: 4294967295, id_in_sim: 0, thread_id: 4294967295 })
        ))
    );
    assert_eq!(
        first(b"C\t2147483647\n"),
        Some((0, Ok(Command::Cycle { abs: false, value: 2147483647 })))
    );
    assert_eq!(
        first(b"C=\t-2147483647\n"),
        Some((0, Ok(Command::Cycle { abs: true, value: -2147483647 })))
    );
}

#[test]
fn expected_text() {
    fails(b"L\t1\t0\t\n", 6, ParseErrorKind::ExpectedText);
    fails(b"L\t1\t0\t", 6, ParseErrorKind::ExpectedText);
    fails(b"S\t1\t0\t\r\n", 6, ParseErrorKind::ExpectedText);
    fails(b"E\t1\t0\t", 6, ParseErrorKind::ExpectedText);
}

#[test]
fn unexpected_character() {
    fails(b"X\t1\n", 0, ParseErrorKind::UnexpectedCharacter);
    fails(b"\n", 0, ParseErrorKind::UnexpectedCharacter);
    fails(b" I\t1\t2\t3\n", 0, ParseErrorKind::UnexpectedCharacter);
    fails(b"I1\t2\t3\n", 1, ParseErrorKind::UnexpectedCharacter);
    fails(b"I", 1, ParseErrorKind::UnexpectedCharacter);
    fails(b"I\t1 2\t3\n", 3, ParseErrorKind::UnexpectedCharacter);
    fails(b"C= \t5\n", 2, ParseErrorKind::UnexpectedCharacter);
    fails(b"C==\t5\n", 2, ParseErrorKind::UnexpectedCharacter);
    fails(b"L\t1\t0text\n", 5, ParseErrorKind::UnexpectedCharacter);
}

#[test]
fn unexpected_eof() {
    fails(b"C\t", 2, ParseErrorKind::UnexpectedEof);
    fails(b"C=\t", 3, ParseErrorKind::UnexpectedEof);
}

#[test]
fn every_byte_that_is_no_tag_is_refused_where_it_stands() {
    for b in 0..=255u8 {
        let input = [b'I', b'\t', b'1', b'\t', b'2', b'\t', b'3', b'\n', b, b'\t', b'1', b'\n'];
        let mut parser = Parser::new(&input);
        assert_eq!(
            parser.next(),
            Some((0, Ok(Command::Instruction { id_in_file: 1, id_in_sim: 2, thread_id: 3 })))
        );
        let second = parser.next();
        if b"KCILSERW".contains(&b) {
            match second {
                Some((8, Err(e))) => {
                    assert!(e.kind != ParseErrorKind::UnexpectedCharacter || e.offset > 8)
                }
                Some((8, Ok(_))) => {}
                other => panic!("unexpected {:?}", other),
            }
        } else {
            assert_eq!(
                second,
                Some((8, Err(ParseError { offset: 8, kind: ParseErrorKind::UnexpectedCharacter })))
            );
        }
    }
}
