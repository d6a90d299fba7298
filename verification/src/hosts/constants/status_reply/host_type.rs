//! Values of the host type bits.
use vstd::prelude::*;

verus! {

/// A client that needs no configuration (a phone).
pub const CONFIGLESS: u8 = 0b1000_0000;

/// A camera client.
pub const CLIENT: u8 = 0b0100_0000;

/// The location server.
pub const SERVER: u8 = 0b1100_0000;

} // verus!
