//! The ASCII bytes that the log grammar names.

use vstd::prelude::*;

verus! {

pub const TAB: u8 = 0x09;

pub const LF: u8 = 0x0a;

pub const CR: u8 = 0x0d;

pub const SPACE: u8 = 0x20;

pub const PLUS: u8 = 0x2b;

pub const MINUS: u8 = 0x2d;

pub const DIGIT_0: u8 = 0x30;

pub const DIGIT_1: u8 = 0x31;

pub const DIGIT_2: u8 = 0x32;

pub const DIGIT_9: u8 = 0x39;

pub const EQUALS: u8 = 0x3d;

pub const UPPER_C: u8 = 0x43;

pub const UPPER_E: u8 = 0x45;

pub const UPPER_I: u8 = 0x49;

pub const UPPER_K: u8 = 0x4b;

pub const UPPER_L: u8 = 0x4c;

pub const UPPER_R: u8 = 0x52;

pub const UPPER_S: u8 = 0x53;

pub const UPPER_W: u8 = 0x57;

pub const LOWER_A: u8 = 0x61;

pub const LOWER_N: u8 = 0x6e;

pub const LOWER_T: u8 = 0x74;

} // verus!
