//! The binary record of the server's events that a front end reads: each
//! frame starts with a 32-bit big-endian tag (0 position, 1 connect,
//! 2 disconnect, 3 information update); an address is its text behind its
//! 16-bit byte length (modulo 65536); numbers are `f64` bit patterns,
//! big-endian.
use vstd::prelude::*;
use crate::bytes::{be_u16, be_u64, push_u16_be, push_u64_be};
use crate::position::{position_bytes, push_position, Position};
use crate::service::PlacedCamera;
use vstd::string::StringSliceAdditionalSpecFns;

verus! {

/// The tag that starts a frame, as a 32-bit big-endian number.
pub open spec fn frame_tag(t: u8) -> Seq<u8> {
    seq![0u8, 0u8, 0u8, t]
}

/// An address: its byte length, then its bytes.
pub open spec fn address_field(address: Seq<u8>) -> Seq<u8> {
    be_u16(address.len() as u16) + address
}

/// A camera: its pose, then its field of view.
pub open spec fn camera_field(camera: PlacedCamera) -> Seq<u8> {
    position_bytes(camera.position) + be_u64(camera.fov)
}

fn push_tag(out: &mut Vec<u8>, t: u8)
    ensures
        final(out)@ == old(out)@ + frame_tag(t),
{
    out.push(0);
    out.push(0);
    out.push(0);
    out.push(t);
    assert(out@ =~= old(out)@ + frame_tag(t));
}

fn push_address(out: &mut Vec<u8>, address: &str)
    ensures
        final(out)@ == old(out)@ + address_field(address.spec_bytes()),
{
    let bytes = address.as_bytes();
    push_u16_be(out, bytes.len() as u16);
    out.extend_from_slice(bytes);
    assert(out@ =~= old(out)@ + address_field(address.spec_bytes()));
}

fn push_camera(out: &mut Vec<u8>, camera: &PlacedCamera)
    ensures
        final(out)@ == old(out)@ + camera_field(*camera),
{
    push_position(out, &camera.position);
    push_u64_be(out, camera.fov);
    assert(out@ =~= old(out)@ + camera_field(*camera));
}

/// The frame of a computed position.
pub fn position_frame(position: &Position) -> (r: Vec<u8>)
    ensures
        r@ == frame_tag(0) + position_bytes(*position),
{
    let mut out: Vec<u8> = Vec::new();
    push_tag(&mut out, 0);
    push_position(&mut out, position);
    out
}

/// The frame of a camera that connected from `address`.
pub fn connect_frame(address: &str, camera: &PlacedCamera) -> (r: Vec<u8>)
    ensures
        r@ == frame_tag(1) + address_field(address.spec_bytes()) + camera_field(*camera),
{
    let mut out: Vec<u8> = Vec::new();
    push_tag(&mut out, 1);
    push_address(&mut out, address);
    push_camera(&mut out, camera);
    out
}

/// The frame of a camera that disconnected from `address`.
pub fn disconnect_frame(address: &str) -> (r: Vec<u8>)
    ensures
        r@ == frame_tag(2) + address_field(address.spec_bytes()),
{
    let mut out: Vec<u8> = Vec::new();
    push_tag(&mut out, 2);
    push_address(&mut out, address);
    out
}

/// The frame of a camera at `address` whose placement changed.
pub fn info_update_frame(address: &str, camera: &PlacedCamera) -> (r: Vec<u8>)
    ensures
        r@ == frame_tag(3) + address_field(address.spec_bytes()) + camera_field(*camera),
{
    let mut out: Vec<u8> = Vec::new();
    push_tag(&mut out, 3);
    push_address(&mut out, address);
    push_camera(&mut out, camera);
    out
}

} // verus!
