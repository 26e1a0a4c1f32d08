//! The ASCII codes that the protocol is written in.

use vstd::prelude::*;

verus! {

pub const TAB: u8 = 0x09;

pub const LINE_FEED: u8 = 0x0A;

pub const FORM_FEED: u8 = 0x0C;

pub const CARRIAGE_RETURN: u8 = 0x0D;

pub const SPACE: u8 = 0x20;

pub const PLUS: u8 = 0x2B;

pub const MINUS: u8 = 0x2D;

pub const DIGIT_0: u8 = 0x30;

pub const DIGIT_9: u8 = 0x39;

pub const LOWER_A: u8 = 0x61;

pub const LOWER_D: u8 = 0x64;

pub const LOWER_H: u8 = 0x68;

pub const LOWER_K: u8 = 0x6B;

pub const LOWER_M: u8 = 0x6D;

pub const LOWER_R: u8 = 0x72;

pub const LOWER_U: u8 = 0x75;

pub const LOWER_W: u8 = 0x77;

} // verus!
