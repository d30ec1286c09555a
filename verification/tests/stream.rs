use kanata::{Command, DepKind, LogKind, ParseError, ParseErrorKind, Parser, RetireKind, StrRef};

fn all(input: &[u8]) -> Vec<(usize, Result<Command, ParseError>)> {
    let mut parser = Parser::new(input);
    let mut items = Vec::new();
    while let Some(item) = parser.next() {
        let failed = item.1.is_err();
        items.push(item);
        if failed {
            break;
        }
    }
    items
}

#[test]
fn empty_input_has_no_record() {
    let mut parser = Parser::new(b"");
    assert_eq!(parser.next(), None);
    assert_eq!(parser.next(), None);
}

#[test]
fn records_come_with_their_offsets() {
    let input = b"Kanata\t4\nC=\t0\nI\t0\t1\t2\nL\t0\t0\tadd r1\nS\t0\t0\tF\nC\t1\nE\t0\t0\tF\nR\t0\t0\t0\nW\t1\t0\t0\n";
    assert_eq!(
        all(input),
        vec![
            (0, Ok(Command::Header { version: 4 })),
            (9, Ok(Command::Cycle { abs: true, value: 0 })),
            (14, Ok(Command::Instruction { id_in_file: 0, id_in_sim: 1, thread_id: 2 })),
            (22, Ok(Command::Log { id: 0, kind: LogKind::LeftPane, text: StrRef::new(28, 6) })),
            (35, Ok(Command::PipelineStage { start: true, id: 0, lane_id: 0, name: StrRef::new(41, 1) })),
            (43, Ok(Command::Cycle { abs: false, value: 1 })),
            (47, Ok(Command::PipelineStage { start: false, id: 0, lane_id: 0, name: StrRef::new(53, 1) })),
            (55, Ok(Command::Retire { id: 0, retire_id: 0, kind: RetireKind::Retire })),
            (63, Ok(Command::Dependency { consumer_id: 1, producer_id: 0, kind: DepKind::WakeUp })),
        ]
    );
}

#[test]
fn every_terminator_is_accepted() {
    let expected = vec![
        (0, Ok(Command::Cycle { abs: false, value: 1 })),
        (4, Ok(Command::Cycle { abs: false, value: 2 })),
        (9, Ok(Command::Cycle { abs: false, value: 3 })),
        (13, Ok(Command::Cycle { abs: false, value: 4 })),
    ];
    assert_eq!(all(b"C\t1\rC\t2\r\nC\t3\nC\t4"), expected);
}

#[test]
fn padding_before_the_terminator_is_passed() {
    assert_eq!(
        all(b"Kanata\t4 \t \r\nI\t1\t2\t3\t\t\nR\t1\t2\t1  \nW\t1\t2\t0 \nC\t7   "),
        vec![
            (0, Ok(Command::Header { version: 4 })),
            (13, Ok(Command::Instruction { id_in_file: 1, id_in_sim: 2, thread_id: 3 })),
            (23, Ok(Command::Retire { id: 1, retire_id: 2, kind: RetireKind::Flush })),
            (33, Ok(Command::Dependency { consumer_id: 1, producer_id: 2, kind: DepKind::WakeUp })),
            (42, Ok(Command::Cycle { abs: false, value: 7 })),
        ]
    );
}

#[test]
fn text_keeps_its_blanks() {
    let input = b"L\t3\t2\t  a\tb  \r\n";
    assert_eq!(
        all(input),
        vec![(0, Ok(Command::Log { id: 3, kind: LogKind::Other, text: StrRef::new(6, 7) }))]
    );
}

#[test]
fn text_runs_to_the_first_line_break() {
    assert_eq!(
        all(b"S\t1\t2\tab\rcd\n"),
        vec![
            (0, Ok(Command::PipelineStage { start: true, id: 1, lane_id: 2, name: StrRef::new(6, 2) })),
            (9, Err(ParseError { offset: 9, kind: ParseErrorKind::UnexpectedCharacter })),
        ]
    );
    assert_eq!(
        all(b"S\t1\t2\tab\ncd\r"),
        vec![
            (0, Ok(Command::PipelineStage { start: true, id: 1, lane_id: 2, name: StrRef::new(6, 2) })),
            (9, Err(ParseError { offset: 9, kind: ParseErrorKind::UnexpectedCharacter })),
        ]
    );
    assert_eq!(
        all(b"S\t1\t2\tabcd"),
        vec![(0, Ok(Command::PipelineStage { start: true, id: 1, lane_id: 2, name: StrRef::new(6, 4) }))]
    );
}

#[test]
fn long_text_is_covered_whole() {
    let mut input = b"L\t1\t0\t".to_vec();
    input.extend(std::iter::repeat(b'x').take(70_000));
    input.push(b'\n');
    let mut parser = Parser::new(&input);
    match parser.next() {
        Some((0, Ok(Command::Log { text, .. }))) => {
            assert_eq!(text.offset(), 6);
            assert_eq!(text.len(), 70_000);
        }
        other => panic!("unexpected {:?}", other),
    }
    assert_eq!(parser.next(), None);
}

#[test]
fn a_blank_line_is_no_record() {
    let mut parser = Parser::new(b"C\t1\n\nC\t2\n");
    assert_eq!(parser.next(), Some((0, Ok(Command::Cycle { abs: false, value: 1 }))));
    assert_eq!(
        parser.next(),
        Some((4, Err(ParseError { offset: 4, kind: ParseErrorKind::UnexpectedCharacter })))
    );
}

#[test]
fn nothing_is_skipped_after_a_failure() {
    let mut parser = Parser::new(b"I\t1\tx\t3\nC\t1\n");
    assert_eq!(
        parser.next(),
        Some((0, Err(ParseError { offset: 4, kind: ParseErrorKind::ExpectedValue })))
    );
    // The next pull starts at the byte that was refused.
    assert_eq!(
        parser.next(),
        Some((4, Err(ParseError { offset: 4, kind: ParseErrorKind::UnexpectedCharacter })))
    );
    assert_eq!(
        parser.next(),
        Some((4, Err(ParseError { offset: 4, kind: ParseErrorKind::UnexpectedCharacter })))
    );
}

#[test]
fn a_failure_inside_a_record_leaves_the_cursor_there() {
    let mut parser = Parser::new(b"R\t1\t2\t7C\t5\n");
    assert_eq!(
        parser.next(),
        Some((0, Err(ParseError { offset: 7, kind: ParseErrorKind::InvalidRetireKind })))
    );
    assert_eq!(parser.next(), Some((7, Ok(Command::Cycle { abs: false, value: 5 }))));
    assert_eq!(parser.next(), None);
}

#[test]
fn truncated_and_garbled_input_ends_in_nothing_or_a_failure_inside_the_buffer() {
    let log: &[u8] = b"Kanata\t4\r\nC=\t-12\nI\t0\t1\t2\nL\t0\t1\tadd r1, r2\nS\t0\t0\tFetch\nE\t0\t0\tFetch\nR\t0\t0\t1\nW\t1\t0\t0\n";
    for cut in 0..=log.len() {
        for garble in [None, Some(0u8), Some(b'\t'), Some(b'9'), Some(0xff), Some(b'K')] {
            let mut input = log[..cut].to_vec();
            if let (Some(b), Some(last)) = (garble, input.last_mut()) {
                *last = b;
            }
            let mut parser = Parser::new(&input);
            let mut least = 0;
            loop {
                match parser.next() {
                    None => break,
                    Some((start, Ok(_))) => {
                        assert!(least <= start && start < input.len());
                        least = start + 1;
                    }
                    Some((start, Err(e))) => {
                        assert!(least <= start && start < input.len());
                        assert!(start <= e.offset && e.offset <= input.len());
                        break;
                    }
                }
            }
        }
    }
}
