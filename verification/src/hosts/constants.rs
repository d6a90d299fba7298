//! Ports and the layout of the status byte that hosts answer a ping with.
use vstd::prelude::*;

pub mod status_reply;

verus! {

/// The largest payload a single UDP datagram can carry.
pub const UDP_MAX_MESSAGE_LENGTH: usize = 65507;

/// The port every host listens on.
pub const MAIN_PORT: u16 = 0xdddd;

/// The port the organizer accepts client connections on.
pub const ORGANIZER_STARTER_PORT: u16 = 0xdddb;

} // verus!
