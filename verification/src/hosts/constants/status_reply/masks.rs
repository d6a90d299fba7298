//! Masks selecting the fields of the status byte.
use vstd::prelude::*;

verus! {

/// Selects the host type bits.
pub const HOST_TYPE: u8 = 0b1100_0000;

/// Selects the state bit.
pub const STATE: u8 = 0b0010_0000;

/// Selects the calibration bit.
pub const CALIBRATED: u8 = 0b0001_0000;

/// All bits set.
pub const ONES: u8 = 0xff;

} // verus!
