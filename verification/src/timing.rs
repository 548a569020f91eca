//! The protocol's fixed durations, in microseconds. The electrical side of the bus
//! dictates them; none is a setting.

use vstd::prelude::*;

verus! {

/// How long the idle line may take to reach the pulled-up level.
pub const IDLE_TIMEOUT_US: u32 = 250;

/// How long a reset pulse holds the line low.
pub const RESET_LOW_US: u32 = 480;

/// From the end of the reset pulse to the moment presence is sampled.
pub const PRESENCE_SAMPLE_US: u32 = 70;

/// From the presence sample to the end of the reset sequence.
pub const RESET_RECOVERY_US: u32 = 410;

/// How long a read slot holds the line low.
pub const READ_LOW_US: u32 = 6;

/// From the release of a read slot to the moment the answer is sampled.
pub const READ_SAMPLE_US: u32 = 9;

/// From the sample to the end of a read slot.
pub const READ_RECOVERY_US: u32 = 55;

/// How long a write slot for 1 holds the line low.
pub const WRITE_1_LOW_US: u32 = 6;

/// How long a write slot for 1 leaves the line released.
pub const WRITE_1_HIGH_US: u32 = 64;

/// How long a write slot for 0 holds the line low.
pub const WRITE_0_LOW_US: u32 = 60;

/// How long a write slot for 0 leaves the line released.
pub const WRITE_0_HIGH_US: u32 = 10;

} // verus!
