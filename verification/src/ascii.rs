//! Names for the ASCII bytes that the surface syntax and the generated text use.

use vstd::prelude::*;

verus! {

pub const BANG: u8 = 33;

pub const QUOTE: u8 = 34;

pub const PERCENT: u8 = 37;

pub const AMPERSAND: u8 = 38;

pub const APOSTROPHE: u8 = 39;

pub const LEFT_PAREN: u8 = 40;

pub const RIGHT_PAREN: u8 = 41;

pub const STAR: u8 = 42;

pub const PLUS: u8 = 43;

pub const COMMA: u8 = 44;

pub const MINUS: u8 = 45;

pub const DOT: u8 = 46;

pub const SLASH: u8 = 47;

pub const COLON: u8 = 58;

pub const SEMICOLON: u8 = 59;

pub const LESS: u8 = 60;

pub const EQUALS: u8 = 61;

pub const GREATER: u8 = 62;

pub const AT: u8 = 64;

pub const LEFT_BRACKET: u8 = 91;

pub const RIGHT_BRACKET: u8 = 93;

pub const LEFT_BRACE: u8 = 123;

pub const PIPE: u8 = 124;

pub const RIGHT_BRACE: u8 = 125;

pub const TAB: u8 = 9;

pub const LINE_FEED: u8 = 10;

pub const CARRIAGE_RETURN: u8 = 13;

pub const SPACE: u8 = 32;

pub const DIGIT_ZERO: u8 = 48;

pub const DIGIT_NINE: u8 = 57;

pub const UPPER_A: u8 = 65;

pub const UPPER_Z: u8 = 90;

pub const UNDERSCORE: u8 = 95;

pub const LOWER_A: u8 = 97;

pub const LOWER_Z: u8 = 122;

} // verus!
