//! A camera or robot pose as it travels over the network.
//!
//! Each coordinate is carried as the IEEE-754 bit pattern of its `f64`
//! (what `f64::to_bits` returns), which is exactly what the wire format
//! stores; the arithmetic on poses happens outside this library.
use vstd::prelude::*;
use crate::bytes::{be_u64, byte_of_u64, lemma_u64_bytes_roundtrip, lemma_u64_value_roundtrip, push_u64_be, read_u64_be, u64_from_be};

verus! {

/// A pose whose coordinates are `f64` bit patterns.
#[derive(Debug, Clone, Copy, PartialEq, Eq, Structural)]
pub struct Position {
    /// Bit pattern of the x coordinate.
    pub x: u64,
    /// Bit pattern of the y coordinate.
    pub y: u64,
    /// Bit pattern of the rotation (radians).
    pub rotation: u64,
}

/// The 24 wire bytes of a pose: x, y and rotation, each big-endian.
pub open spec fn position_bytes(p: Position) -> Seq<u8> {
    be_u64(p.x) + be_u64(p.y) + be_u64(p.rotation)
}

/// The pose stored in the first 24 bytes of `b`.
pub open spec fn position_from_bytes(b: Seq<u8>) -> Position {
    Position {
        x: u64_from_be(b.subrange(0, 8)),
        y: u64_from_be(b.subrange(8, 16)),
        rotation: u64_from_be(b.subrange(16, 24)),
    }
}

/// Decoding the wire bytes of a pose gives the pose back.
pub proof fn lemma_position_value_roundtrip(p: Position)
    ensures
        position_bytes(p).len() == 24,
        position_from_bytes(position_bytes(p)) == p,
{
    lemma_u64_value_roundtrip(p.x);
    lemma_u64_value_roundtrip(p.y);
    lemma_u64_value_roundtrip(p.rotation);
    let b = position_bytes(p);
    assert(b.subrange(0, 8) =~= be_u64(p.x));
    assert(b.subrange(8, 16) =~= be_u64(p.y));
    assert(b.subrange(16, 24) =~= be_u64(p.rotation));
}

/// Encoding the pose read from 24 bytes gives those bytes back.
pub proof fn lemma_position_bytes_roundtrip(b: Seq<u8>)
    requires
        b.len() == 24,
    ensures
        position_bytes(position_from_bytes(b)) == b,
{
    lemma_u64_bytes_roundtrip(b.subrange(0, 8));
    lemma_u64_bytes_roundtrip(b.subrange(8, 16));
    lemma_u64_bytes_roundtrip(b.subrange(16, 24));
    assert(position_bytes(position_from_bytes(b)) =~= b);
}

impl Position {
    /// A pose from the bit patterns of its coordinates.
    pub fn new(x: u64, y: u64, rotation: u64) -> (r: Position)
        ensures
            r == (Position { x, y, rotation }),
    {
        Position { x, y, rotation }
    }

    /// Reads a pose from its 24 big-endian wire bytes.
    pub fn from_be_bytes(b: &[u8; 24]) -> (r: Position)
        ensures
            r == position_from_bytes(b@),
    {
        let s: &[u8] = b.as_slice();
        let r = Position { x: read_u64_be(s, 0), y: read_u64_be(s, 8), rotation: read_u64_be(s, 16) };
        r
    }

    /// The 24 big-endian wire bytes of the pose.
    pub fn to_be_bytes(&self) -> (r: [u8; 24])
        ensures
            r@ == position_bytes(*self),
    {
        let x = self.x;
        let y = self.y;
        let t = self.rotation;
        let r = [
            (x >> 56) as u8, (x >> 48) as u8, (x >> 40) as u8, (x >> 32) as u8,
            (x >> 24) as u8, (x >> 16) as u8, (x >> 8) as u8, x as u8,
            (y >> 56) as u8, (y >> 48) as u8, (y >> 40) as u8, (y >> 32) as u8,
            (y >> 24) as u8, (y >> 16) as u8, (y >> 8) as u8, y as u8,
            (t >> 56) as u8, (t >> 48) as u8, (t >> 40) as u8, (t >> 32) as u8,
            (t >> 24) as u8, (t >> 16) as u8, (t >> 8) as u8, t as u8,
        ];
        proof {
            assert forall|v: u64, k: u64| 0 <= k < 8 implies #[trigger] byte_of_u64(v, k) == (v >> (8
                * k)) as u8 by {
                assert(((v >> (8 * k)) & 0xff) as u8 == (v >> (8 * k)) as u8) by (bit_vector);
            }
            assert(byte_of_u64(x, 0) == x as u8) by {
                assert(((x >> 0) & 0xff) as u8 == x as u8) by (bit_vector);
            }
            assert(byte_of_u64(y, 0) == y as u8) by {
                assert(((y >> 0) & 0xff) as u8 == y as u8) by (bit_vector);
            }
            assert(byte_of_u64(t, 0) == t as u8) by {
                assert(((t >> 0) & 0xff) as u8 == t as u8) by (bit_vector);
            }
            assert(r@ =~= position_bytes(*self));
        }
        r
    }
}

/// Reads a pose from the 24 bytes `buf[at .. at + 24]`.
pub fn read_position(buf: &[u8], at: usize) -> (r: Position)
    requires
        at + 24 <= buf@.len(),
    ensures
        r == position_from_bytes(buf@.subrange(at as int, at + 24)),
{
    let _len = buf.len();
    let ghost b = buf@.subrange(at as int, at + 24);
    assert(b.subrange(0, 8) =~= buf@.subrange(at as int, at + 8));
    assert(b.subrange(8, 16) =~= buf@.subrange(at + 8, at + 16));
    assert(b.subrange(16, 24) =~= buf@.subrange(at + 16, at + 24));
    Position { x: read_u64_be(buf, at), y: read_u64_be(buf, at + 8), rotation: read_u64_be(buf, at + 16) }
}

/// Appends the 24 wire bytes of `p` to `out`.
pub fn push_position(out: &mut Vec<u8>, p: &Position)
    ensures
        final(out)@ == old(out)@ + position_bytes(*p),
{
    push_u64_be(out, p.x);
    push_u64_be(out, p.y);
    push_u64_be(out, p.rotation);
    assert(out@ =~= old(out)@ + position_bytes(*p));
}

/// Reading a pose back from its wire bytes gives the same pose.
pub proof fn law_position_roundtrip(p: Position)
    ensures
        position_from_bytes(position_bytes(p)) == p,
{
    lemma_position_value_roundtrip(p);
}

/// The 24 bytes of a pose hold x, then y, then the rotation, eight bytes
/// each, and reading 24 bytes takes x, y and the rotation from them in that
/// order.
pub proof fn law_position_layout(p: Position, b: Seq<u8>)
    requires
        b.len() >= 24,
    ensures
        position_bytes(p).len() == 24,
        position_bytes(p).subrange(0, 8) == be_u64(p.x),
        position_bytes(p).subrange(8, 16) == be_u64(p.y),
        position_bytes(p).subrange(16, 24) == be_u64(p.rotation),
        position_from_bytes(b).x == u64_from_be(b.subrange(0, 8)),
        position_from_bytes(b).y == u64_from_be(b.subrange(8, 16)),
        position_from_bytes(b).rotation == u64_from_be(b.subrange(16, 24)),
{
    lemma_position_value_roundtrip(p);
    let q = position_bytes(p);
    assert(q.subrange(0, 8) =~= be_u64(p.x));
    assert(q.subrange(8, 16) =~= be_u64(p.y));
    assert(q.subrange(16, 24) =~= be_u64(p.rotation));
}

} // verus!
