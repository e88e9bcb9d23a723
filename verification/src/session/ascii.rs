//! The bytes that terminal protocols are written with.

use vstd::prelude::*;

verus! {

pub const BELL: u8 = 0x07;

pub const NEWLINE: u8 = 0x0a;

pub const CTRL_V: u8 = 0x16;

pub const ESCAPE: u8 = 0x1b;

pub const SPACE: u8 = 0x20;

pub const PLUS: u8 = 0x2b;

pub const ZERO: u8 = 0x30;

pub const NINE: u8 = 0x39;

pub const COLON: u8 = 0x3a;

pub const SEMICOLON: u8 = 0x3b;

pub const GREATER: u8 = 0x3e;

pub const QUESTION: u8 = 0x3f;

pub const UPPER_R: u8 = 0x52;

pub const UPPER_V: u8 = 0x56;

pub const LEFT_BRACKET: u8 = 0x5b;

pub const BACKSLASH: u8 = 0x5c;

pub const RIGHT_BRACKET: u8 = 0x5d;

pub const LOWER_C: u8 = 0x63;

pub const LOWER_T: u8 = 0x74;

pub const LOWER_U: u8 = 0x75;

pub const LOWER_V: u8 = 0x76;

pub const TILDE: u8 = 0x7e;

} // verus!
