//! The status byte: bits 7-6 hold the host type, bit 5 the state and bit 4
//! whether a client is calibrated.
pub mod host_type;
pub mod masks;
pub mod state;
