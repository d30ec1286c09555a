//! The grammar of a trace log, as mathematics.
//!
//! Every function here is a `spec` function: it says, for a buffer and an
//! offset, what a field or a record at that offset decodes to and where it
//! ends. The executable parser is proved to compute exactly these functions.

pub mod decoding;
pub mod fields;
pub mod lines;
pub mod progress;
pub mod records;
pub mod refusals;
pub mod scan;
