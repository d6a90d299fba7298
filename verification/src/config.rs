//! The start of the configuration the organizer sends a client over TCP:
//! the client's pose and the server's address. The camera calibration (when
//! the client has none) and the ids of the cube's markers follow it.
use vstd::prelude::*;
use crate::bytes::{be_u16, lemma_u16_value_roundtrip, push_u16_be, read_u16_be, u16_from_be};
use crate::position::{
    lemma_position_value_roundtrip, position_bytes, position_from_bytes, push_position,
    read_position, Position,
};
use vstd::string::StringSliceAdditionalSpecFns;

verus! {

/// The bytes that start a client's configuration: the pose (24 bytes), the
/// byte length of the server's address (16 bits, modulo 65536) and the
/// address itself.
pub open spec fn config_header(pose: Position, server_ip: Seq<u8>) -> Seq<u8> {
    position_bytes(pose) + be_u16(server_ip.len() as u16) + server_ip
}

/// The bytes that start a client's configuration.
pub fn config_header_bytes(pose: &Position, server_ip: &str) -> (r: Vec<u8>)
    ensures
        r@ == config_header(*pose, server_ip.spec_bytes()),
{
    let mut out: Vec<u8> = Vec::new();
    push_position(&mut out, pose);
    let ip = server_ip.as_bytes();
    push_u16_be(&mut out, ip.len() as u16);
    out.extend_from_slice(ip);
    assert(out@ =~= config_header(*pose, server_ip.spec_bytes()));
    out
}

/// The fixed part of a configuration header, as the client reads it: the
/// pose and how many address bytes follow.
pub fn parse_config_header(buf: &[u8; 26]) -> (r: (Position, u16))
    ensures
        r == (position_from_bytes(buf@.subrange(0, 24)), u16_from_be(buf@.subrange(24, 26))),
{
    let s: &[u8] = buf.as_slice();
    (read_position(s, 0), read_u16_be(s, 24))
}

/// A client reads back the pose and the address length the organizer wrote,
/// and the address follows right after, for addresses shorter than 65536 bytes.
pub proof fn law_config_header_roundtrip(pose: Position, server_ip: Seq<u8>)
    requires
        server_ip.len() <= 0xffff,
    ensures
        config_header(pose, server_ip).len() == 26 + server_ip.len(),
        position_from_bytes(config_header(pose, server_ip).subrange(0, 24)) == pose,
        u16_from_be(config_header(pose, server_ip).subrange(24, 26)) == server_ip.len(),
        config_header(pose, server_ip).subrange(26, 26 + server_ip.len() as int) == server_ip,
{
    let b = config_header(pose, server_ip);
    lemma_position_value_roundtrip(pose);
    lemma_u16_value_roundtrip(server_ip.len() as u16);
    assert(b.subrange(0, 24) =~= position_bytes(pose));
    assert(b.subrange(24, 26) =~= be_u16(server_ip.len() as u16));
    assert(b.subrange(26, 26 + server_ip.len() as int) =~= server_ip);
}

} // verus!
