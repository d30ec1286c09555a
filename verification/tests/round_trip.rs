use kanata::{Command, DepKind, LogKind, ParseError, Parser, RetireKind, StrRef};

fn first(input: &[u8]) -> Option<(usize, Result<Command, ParseError>)> {
    Parser::new(input).next()
}

const NUMBERS: [u32; 9] = [0, 1, 9, 10, 99, 100, 65535, 2147483648, 4294967295];

const ENDINGS: [&str; 4] = ["", "\r", "\n", "\r\n"];

const PADDINGS: [&str; 4] = ["", " ", "\t", " \t  "];

#[test]
fn numbers_are_read_back() {
    for a in NUMBERS {
        for pad in PADDINGS {
            for eol in ENDINGS {
                let b = a / 3;
                let c = a ^ 0x5555;
                let input = format!("I\t{}\t{}\t{}{}{}", a, b, c, pad, eol);
                let mut parser = Parser::new(input.as_bytes());
                assert_eq!(
                    parser.next(),
                    Some((0, Ok(Command::Instruction { id_in_file: a, id_in_sim: b, thread_id: c })))
                );
                assert_eq!(parser.next(), None);

                let input = format!("Kanata\t{}{}{}", a, pad, eol);
                assert_eq!(first(input.as_bytes()), Some((0, Ok(Command::Header { version: a }))));

                let input = format!("R\t{}\t{}\t1{}{}", a, c, pad, eol);
                assert_eq!(
                    first(input.as_bytes()),
                    Some((0, Ok(Command::Retire { id: a, retire_id: c, kind: RetireKind::Flush })))
                );

                let input = format!("W\t{}\t{}\t0{}{}", c, a, pad, eol);
                assert_eq!(
                    first(input.as_bytes()),
                    Some((
                        0,
                        Ok(Command::Dependency { consumer_id: c, producer_id: a, kind: DepKind::WakeUp })
                    ))
                );
            }
        }
    }
}

#[test]
fn leading_zeros_do_not_change_a_number() {
    assert_eq!(first(b"Kanata\t0004\n"), Some((0, Ok(Command::Header { version: 4 }))));
    assert_eq!(
        first(b"C\t-000000000000000000000000012\n"),
        Some((0, Ok(Command::Cycle { abs: false, value: -12 })))
    );
}

#[test]
fn signed_numbers_are_read_back() {
    for value in [0, 1, -1, 42, -42, 2147483647, -2147483647] {
        for abs in [false, true] {
            for eol in ENDINGS {
                let mark = if abs { "=" } else { "" };
                let input = format!("C{}\t{}  {}", mark, value, eol);
                let mut parser = Parser::new(input.as_bytes());
                assert_eq!(parser.next(), Some((0, Ok(Command::Cycle { abs, value }))));
                assert_eq!(parser.next(), None);
            }
        }
    }
    assert_eq!(first(b"C\t+17\n"), Some((0, Ok(Command::Cycle { abs: false, value: 17 }))));
    assert_eq!(first(b"C\t-0\n"), Some((0, Ok(Command::Cycle { abs: false, value: 0 }))));
}

#[test]
fn text_is_covered_exactly() {
    for text in ["x", "add r1, r2", " leading", "trailing \t", "\u{e9}t\u{e9}", "a=b\tc"] {
        for eol in ENDINGS {
            for (digit, kind) in [('0', LogKind::LeftPane), ('1', LogKind::MouseOver), ('2', LogKind::Other)] {
                let input = format!("L\t77\t{}\t{}{}", digit, text, eol);
                let bytes = input.as_bytes();
                let mut parser = Parser::new(bytes);
                match parser.next() {
                    Some((0, Ok(Command::Log { id: 77, kind: k, text: span }))) => {
                        assert_eq!(k, kind);
                        assert_eq!(span, StrRef::new(7, text.len() as u64));
                        let from = span.offset() as usize;
                        assert_eq!(&bytes[from..from + span.len() as usize], text.as_bytes());
                    }
                    other => panic!("unexpected {:?}", other),
                }
                assert_eq!(parser.next(), None);
            }
            for (tag, start) in [('S', true), ('E', false)] {
                let input = format!("{}\t1\t23\t{}{}", tag, text, eol);
                let bytes = input.as_bytes();
                let mut parser = Parser::new(bytes);
                match parser.next() {
                    Some((0, Ok(Command::PipelineStage { start: s, id: 1, lane_id: 23, name }))) => {
                        assert_eq!(s, start);
                        let from = name.offset() as usize;
                        assert_eq!(&bytes[from..from + name.len() as usize], text.as_bytes());
                    }
                    other => panic!("unexpected {:?}", other),
                }
                assert_eq!(parser.next(), None);
            }
        }
    }
}
