//! 8271 result codes (the result byte after a command's final interrupt).
use vstd::prelude::*;

verus! {

pub const OK: u8 = 0x00;
/// Clock error: CRC failure on the data field.
pub const DATA_CRC: u8 = 0x0E;
pub const ID_CRC: u8 = 0x0C;
pub const SECTOR_NOT_FOUND: u8 = 0x18;
pub const DELETED_DATA: u8 = 0x20;
pub const DRIVE_NOT_READY: u8 = 0x10;
pub const WRITE_PROTECTED: u8 = 0x12;

} // verus!
