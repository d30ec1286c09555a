use kanata::{DepKind, LogKind, ParseErrorKind, RetireKind, StrRef};

#[test]
fn str_ref_keeps_offset_and_length() {
    let s = StrRef::new(7, 11);
    assert_eq!(s.offset(), 7);
    assert_eq!(s.len(), 11);
    let wide = StrRef::new(u64::MAX, 1 << 40);
    assert_eq!(wide.offset(), u64::MAX);
    assert_eq!(wide.len(), 1 << 40);
    assert_eq!(StrRef::new(0, 0).len(), 0);
}

#[test]
fn log_kinds_by_digit() {
    assert_eq!(LogKind::try_from(b'0'), Ok(LogKind::LeftPane));
    assert_eq!(LogKind::try_from(b'1'), Ok(LogKind::MouseOver));
    assert_eq!(LogKind::try_from(b'2'), Ok(LogKind::Other));
    assert_eq!(LogKind::try_from(b'3'), Err(ParseErrorKind::InvalidLogKind));
    assert_eq!(LogKind::try_from(0), Err(ParseErrorKind::InvalidLogKind));
}

#[test]
fn retire_kinds_by_digit() {
    assert_eq!(RetireKind::try_from(b'0'), Ok(RetireKind::Retire));
    assert_eq!(RetireKind::try_from(b'1'), Ok(RetireKind::Flush));
    assert_eq!(RetireKind::try_from(b'2'), Err(ParseErrorKind::InvalidRetireKind));
}

#[test]
fn dep_kinds_by_digit() {
    assert_eq!(DepKind::try_from(b'0'), Ok(DepKind::WakeUp));
    assert_eq!(DepKind::try_from(b'1'), Err(ParseErrorKind::InvalidDepKind));
}
