//! A streaming, zero-copy parser for Kanata pipeline trace logs.
//!
//! A log is a sequence of ASCII lines. Each line starts with a one-byte tag
//! and carries tab-separated fields. [`Parser`] walks a byte buffer and
//! decodes one record per call into a [`Command`]; free text is returned as a
//! [`StrRef`] into the buffer, never copied.

pub mod ascii;
pub mod command;
pub mod grammar;
pub mod parser;
pub mod printer;

pub use command::{Command, DepKind, LogKind, RetireKind, StrRef};
pub use parser::{ParseError, ParseErrorKind, Parser};
