//! The ASCII bytes that the output formats and the path rules are made of.

use vstd::prelude::*;

verus! {

pub const NUL: u8 = 0x00;

pub const NEWLINE: u8 = 0x0a;

pub const BLANK: u8 = 0x20;

pub const COMMA: u8 = 0x2c;

pub const DASH: u8 = 0x2d;

pub const DOT: u8 = 0x2e;

pub const SLASH: u8 = 0x2f;

pub const ZERO: u8 = 0x30;

pub const COLON: u8 = 0x3a;

} // verus!
