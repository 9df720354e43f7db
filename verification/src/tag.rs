//! Tags of OpenType features: four characters, packed big-endian into 32 bits.

use vstd::prelude::*;

verus! {

/// The tag of the four characters `a`, `b`, `c` and `d`.
pub open spec fn spec_tag(a: u8, b: u8, c: u8, d: u8) -> u32 {
    (a as int * 0x100_0000 + b as int * 0x1_0000 + c as int * 0x100 + d as int) as u32
}

/// The tag of the four characters `a`, `b`, `c` and `d`.
pub fn from_bytes(a: u8, b: u8, c: u8, d: u8) -> (tag: u32)
    ensures
        tag == spec_tag(a, b, c, d),
{
    a as u32 * 0x100_0000 + b as u32 * 0x1_0000 + c as u32 * 0x100 + d as u32
}

/// `calt`
pub const CALT: u32 = 0x63616c74;

/// `ccmp`
pub const CCMP: u32 = 0x63636d70;

/// `fina`
pub const FINA: u32 = 0x66696e61;

/// `init`
pub const INIT: u32 = 0x696e6974;

/// `isol`
pub const ISOL: u32 = 0x69736f6c;

/// `liga`
pub const LIGA: u32 = 0x6c696761;

/// `locl`
pub const LOCL: u32 = 0x6c6f636c;

/// `medi`
pub const MEDI: u32 = 0x6d656469;

/// `mset`
pub const MSET: u32 = 0x6d736574;

/// `rclt`
pub const RCLT: u32 = 0x72636c74;

/// `rlig`
pub const RLIG: u32 = 0x726c6967;

} // verus!
