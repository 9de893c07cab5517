//! Named ASCII byte values used by the wire grammar.

use vstd::prelude::*;

verus! {

pub const CR: u8 = 13;

pub const LF: u8 = 10;

pub const SP: u8 = 32;

pub const HTAB: u8 = 9;

pub const COLON: u8 = 58;

pub const SEMICOLON: u8 = 59;

pub const SLASH: u8 = 47;

pub const DOT: u8 = 46;

pub const HYPHEN: u8 = 45;

pub const UPPER_H: u8 = 72;

pub const UPPER_T: u8 = 84;

pub const UPPER_P: u8 = 80;

pub const DIGIT_0: u8 = 48;

pub const DIGIT_1: u8 = 49;

pub const DIGIT_9: u8 = 57;

pub const LOWER_A: u8 = 97;

pub const LOWER_F: u8 = 102;

pub const LOWER_Z: u8 = 122;

pub const UPPER_A: u8 = 65;

pub const UPPER_F: u8 = 70;

pub const UPPER_Z: u8 = 90;

/// ASCII lowercasing of one byte, for case-insensitive header names.
pub open spec fn to_lower(b: u8) -> u8 {
    if UPPER_A <= b <= UPPER_Z {
        (b + 32) as u8
    } else {
        b
    }
}

/// Exec ASCII lowercasing of one byte.
pub fn lower_byte(b: u8) -> (r: u8)
    ensures
        r == to_lower(b),
{
    if UPPER_A <= b && b <= UPPER_Z {
        b + 32
    } else {
        b
    }
}

} // verus!
