//! The ROM command bytes of the 1-Wire protocol.

use vstd::prelude::*;

verus! {

/// Addresses the one device whose ROM code follows.
pub const MATCH_ROM: u8 = 0x55;

/// Addresses every device on the bus at once.
pub const SKIP_ROM: u8 = 0xCC;

/// Starts a search pass in which every device takes part.
pub const SEARCH_NORMAL: u8 = 0xF0;

/// Starts a search pass in which only devices in alarm state take part.
pub const SEARCH_ALARM: u8 = 0xEC;

} // verus!
