//! Camera-based localisation of a marker cube: the protocol between the
//! organizer, the camera clients and the location server, and the decisions
//! each of them takes, with their contracts.
use vstd::prelude::*;

pub mod bytes;
pub mod position;
pub mod hosts;
pub mod scanning;
pub mod common;
pub mod time;
pub mod values;
pub mod service;
pub mod extrapolations;
pub mod organizer;
pub mod config;
pub mod compass;
pub mod event_frames;
pub mod client;
pub mod camera_info;

verus! {

} // verus!
