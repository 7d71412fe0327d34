//! Bit numbers of the IC32 addressable latch driven by System VIA port B.
use vstd::prelude::*;

verus! {

pub const SOUND_WE: u8 = 0;
pub const SPEECH_RDY: u8 = 1;
pub const SPEECH_RS: u8 = 2;
pub const KEYBOARD_AUTOSCAN: u8 = 3;
pub const SCREEN_SIZE_S0: u8 = 4;
pub const SCREEN_SIZE_S1: u8 = 5;
pub const CAPS_LOCK_LED: u8 = 6;
pub const SHIFT_LOCK_LED: u8 = 7;

} // verus!
