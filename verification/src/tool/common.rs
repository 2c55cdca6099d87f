//! Limits of the radio's memories, and little helpers.
use vstd::prelude::*;

use crate::protocol::wire::le_u32_at;

verus! {

/// Usable flash: everything below the bootloader.
pub const FLASH_MAX: usize = 0xf000;

/// Where RAM starts in the address space.
pub const RAM_START: usize = 0x2000_0000;

/// Size of RAM.
pub const RAM_MAX: usize = 0x4000;

/// Size of the EEPROM.
pub const EEPROM_MAX: usize = 0x2000;

/// Read a little-endian u32 from the start of `data`, if it is long
/// enough.
pub fn read_le_u32(data: &[u8]) -> (r: Option<u32>)
    ensures
        data@.len() < 4 ==> r is None,
        data@.len() >= 4 ==> r == Some(le_u32_at(data@, 0)),
{
    if data.len() < 4 {
        None
    } else {
        Some(crate::protocol::wire::get_le_u32(data, 0))
    }
}

} // verus!
