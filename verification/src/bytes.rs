//! Big-endian (network order) encoding of fixed-width unsigned integers.
//!
//! Floating point values travel on the wire as the big-endian bytes of their
//! IEEE-754 bit pattern, so every number in the protocol is handled here as a
//! plain unsigned integer.
use vstd::prelude::*;

verus! {

/// Byte `k` (counting from the least significant byte, starting at 0) of `v`.
pub open spec fn byte_of_u64(v: u64, k: u64) -> u8 {
    ((v >> (8 * k)) & 0xff) as u8
}

/// The eight big-endian bytes of `v`, most significant first.
pub open spec fn be_u64(v: u64) -> Seq<u8> {
    seq![
        byte_of_u64(v, 7), byte_of_u64(v, 6), byte_of_u64(v, 5), byte_of_u64(v, 4),
        byte_of_u64(v, 3), byte_of_u64(v, 2), byte_of_u64(v, 1), byte_of_u64(v, 0),
    ]
}

/// The value whose big-endian bytes are `b0 .. b7`.
pub open spec fn u64_of_bytes(b0: u8, b1: u8, b2: u8, b3: u8, b4: u8, b5: u8, b6: u8, b7: u8) -> u64 {
    (b0 as u64) << 56 | (b1 as u64) << 48 | (b2 as u64) << 40 | (b3 as u64) << 32
        | (b4 as u64) << 24 | (b5 as u64) << 16 | (b6 as u64) << 8 | (b7 as u64)
}

/// The value read from the first eight bytes of `b` in big-endian order.
pub open spec fn u64_from_be(b: Seq<u8>) -> u64 {
    u64_of_bytes(b[0], b[1], b[2], b[3], b[4], b[5], b[6], b[7])
}

/// The two big-endian bytes of `v`.
pub open spec fn be_u16(v: u16) -> Seq<u8> {
    seq![((v >> 8) & 0xff) as u8, (v & 0xff) as u8]
}

/// The value read from the first two bytes of `b` in big-endian order.
pub open spec fn u16_from_be(b: Seq<u8>) -> u16 {
    (b[0] as u16) << 8 | (b[1] as u16)
}

/// Reading back the bytes of a value gives the value.
pub proof fn lemma_u64_value_roundtrip(v: u64)
    ensures
        u64_from_be(be_u64(v)) == v,
        be_u64(v).len() == 8,
{
    assert(u64_of_bytes(
        ((v >> 56) & 0xff) as u8, ((v >> 48) & 0xff) as u8, ((v >> 40) & 0xff) as u8,
        ((v >> 32) & 0xff) as u8, ((v >> 24) & 0xff) as u8, ((v >> 16) & 0xff) as u8,
        ((v >> 8) & 0xff) as u8, ((v >> 0) & 0xff) as u8,
    ) == v) by (bit_vector);
}

/// Encoding the value read from eight bytes gives those bytes back.
pub proof fn lemma_u64_bytes_roundtrip(b: Seq<u8>)
    requires
        b.len() == 8,
    ensures
        be_u64(u64_from_be(b)) == b,
{
    let (b0, b1, b2, b3, b4, b5, b6, b7) = (b[0], b[1], b[2], b[3], b[4], b[5], b[6], b[7]);
    let v = u64_of_bytes(b0, b1, b2, b3, b4, b5, b6, b7);
    assert(v == u64_of_bytes(b0, b1, b2, b3, b4, b5, b6, b7) ==> {
        &&& ((v >> 56) & 0xff) as u8 == b0
        &&& ((v >> 48) & 0xff) as u8 == b1
        &&& ((v >> 40) & 0xff) as u8 == b2
        &&& ((v >> 32) & 0xff) as u8 == b3
        &&& ((v >> 24) & 0xff) as u8 == b4
        &&& ((v >> 16) & 0xff) as u8 == b5
        &&& ((v >> 8) & 0xff) as u8 == b6
        &&& ((v >> 0) & 0xff) as u8 == b7
    }) by (bit_vector);
    assert(be_u64(v) =~= b);
}

/// Reading back the bytes of a 16-bit value gives the value.
pub proof fn lemma_u16_value_roundtrip(v: u16)
    ensures
        u16_from_be(be_u16(v)) == v,
        be_u16(v).len() == 2,
{
    assert(((((v >> 8) & 0xff) as u8) as u16) << 8 | ((((v & 0xff) as u8) as u16)) == v)
        by (bit_vector);
}

/// Encoding the 16-bit value read from two bytes gives those bytes back.
pub proof fn lemma_u16_bytes_roundtrip(b: Seq<u8>)
    requires
        b.len() == 2,
    ensures
        be_u16(u16_from_be(b)) == b,
{
    let (b0, b1) = (b[0], b[1]);
    let v = (b0 as u16) << 8 | (b1 as u16);
    assert(v == (b0 as u16) << 8 | (b1 as u16) ==> ((v >> 8) & 0xff) as u8 == b0 && (v & 0xff)
        as u8 == b1) by (bit_vector);
    assert(be_u16(v) =~= b);
}

/// Appends the big-endian bytes of `v` to `out`.
pub fn push_u64_be(out: &mut Vec<u8>, v: u64)
    ensures
        final(out)@ == old(out)@ + be_u64(v),
{
    out.push(((v >> 56) & 0xff) as u8);
    out.push(((v >> 48) & 0xff) as u8);
    out.push(((v >> 40) & 0xff) as u8);
    out.push(((v >> 32) & 0xff) as u8);
    out.push(((v >> 24) & 0xff) as u8);
    out.push(((v >> 16) & 0xff) as u8);
    out.push(((v >> 8) & 0xff) as u8);
    out.push((v & 0xff) as u8);
    assert(v >> 0 == v) by (bit_vector);
    assert(out@ =~= old(out)@ + be_u64(v));
}

/// Appends the big-endian bytes of `v` to `out`.
pub fn push_u16_be(out: &mut Vec<u8>, v: u16)
    ensures
        final(out)@ == old(out)@ + be_u16(v),
{
    out.push(((v >> 8) & 0xff) as u8);
    out.push((v & 0xff) as u8);
    assert(out@ =~= old(out)@ + be_u16(v));
}

/// Reads a big-endian 64-bit value from `buf[at .. at + 8]`.
pub fn read_u64_be(buf: &[u8], at: usize) -> (r: u64)
    requires
        at + 8 <= buf@.len(),
    ensures
        r == u64_from_be(buf@.subrange(at as int, at + 8)),
{
    (buf[at] as u64) << 56 | (buf[at + 1] as u64) << 48 | (buf[at + 2] as u64) << 40 | (buf[at
        + 3] as u64) << 32 | (buf[at + 4] as u64) << 24 | (buf[at + 5] as u64) << 16 | (buf[at
        + 6] as u64) << 8 | (buf[at + 7] as u64)
}

/// Reads a big-endian 16-bit value from `buf[at .. at + 2]`.
pub fn read_u16_be(buf: &[u8], at: usize) -> (r: u16)
    requires
        at + 2 <= buf@.len(),
    ensures
        r == u16_from_be(buf@.subrange(at as int, at + 2)),
{
    (buf[at] as u16) << 8 | (buf[at + 1] as u16)
}

/// The bytes of a value are its base-256 digits, most significant first.
pub proof fn law_be_u64_digits(v: u64)
    ensures
        be_u64(v).len() == 8,
        v == be_u64(v)[0] * 0x100_0000_0000_0000 + be_u64(v)[1] * 0x1_0000_0000_0000 + be_u64(
            v,
        )[2] * 0x100_0000_0000 + be_u64(v)[3] * 0x1_0000_0000 + be_u64(v)[4] * 0x100_0000
            + be_u64(v)[5] * 0x1_0000 + be_u64(v)[6] * 0x100 + be_u64(v)[7],
{
    assert(((v >> 56) & 0xff) * 0x100_0000_0000_0000 + ((v >> 48) & 0xff) * 0x1_0000_0000_0000
        + ((v >> 40) & 0xff) * 0x100_0000_0000 + ((v >> 32) & 0xff) * 0x1_0000_0000 + ((v >> 24)
        & 0xff) * 0x100_0000 + ((v >> 16) & 0xff) * 0x1_0000 + ((v >> 8) & 0xff) * 0x100 + ((v
        >> 0) & 0xff) == v) by (bit_vector);
    assert(((v >> 56) & 0xff) < 256 && ((v >> 48) & 0xff) < 256 && ((v >> 40) & 0xff) < 256
        && ((v >> 32) & 0xff) < 256 && ((v >> 24) & 0xff) < 256 && ((v >> 16) & 0xff) < 256 && ((v
        >> 8) & 0xff) < 256 && ((v >> 0) & 0xff) < 256) by (bit_vector);
}

/// Reading eight bytes gives the number whose base-256 digits they are, the
/// first byte the most significant.
pub proof fn law_u64_from_be_digits(b: Seq<u8>)
    requires
        b.len() >= 8,
    ensures
        u64_from_be(b) == b[0] * 0x100_0000_0000_0000 + b[1] * 0x1_0000_0000_0000 + b[2]
            * 0x100_0000_0000 + b[3] * 0x1_0000_0000 + b[4] * 0x100_0000 + b[5] * 0x1_0000 + b[6]
            * 0x100 + b[7],
{
    let (b0, b1, b2, b3, b4, b5, b6, b7) = (b[0], b[1], b[2], b[3], b[4], b[5], b[6], b[7]);
    assert(u64_of_bytes(b0, b1, b2, b3, b4, b5, b6, b7) == b0 * 0x100_0000_0000_0000 + b1
        * 0x1_0000_0000_0000 + b2 * 0x100_0000_0000 + b3 * 0x1_0000_0000 + b4 * 0x100_0000 + b5
        * 0x1_0000 + b6 * 0x100 + b7) by (bit_vector);
}

/// The two bytes of a 16-bit value are its base-256 digits, most significant
/// first, and reading two bytes gives the number whose digits they are.
pub proof fn law_u16_digits(v: u16, b: Seq<u8>)
    requires
        b.len() >= 2,
    ensures
        be_u16(v).len() == 2,
        v == be_u16(v)[0] * 0x100 + be_u16(v)[1],
        u16_from_be(b) == b[0] * 0x100 + b[1],
{
    let (b0, b1) = (b[0], b[1]);
    assert(((v >> 8) & 0xff) * 0x100 + (v & 0xff) == v) by (bit_vector);
    assert(((v >> 8) & 0xff) < 256 && (v & 0xff) < 256) by (bit_vector);
    assert(((b0 as u16) << 8 | (b1 as u16)) == b0 * 0x100 + b1) by (bit_vector);
}

} // verus!
