//! Values of the state bit.
use vstd::prelude::*;

verus! {

/// The host is running.
pub const RUNNING: u8 = 0b0010_0000;

/// The host is idle.
pub const IDLE: u8 = 0b0000_0000;

} // verus!
