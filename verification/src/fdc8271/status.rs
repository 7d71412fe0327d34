//! 8271 status register bits.
use vstd::prelude::*;

verus! {

pub const BUSY: u8 = 0x80;
pub const CMD_FULL: u8 = 0x40;
pub const PARAM_FULL: u8 = 0x20;
pub const RESULT_FULL: u8 = 0x10;
pub const INTERRUPT: u8 = 0x08;
pub const NDDR: u8 = 0x04;

} // verus!
