//! The byte layout of a camera calibration as the organizer sends it to a
//! client: the optimal camera matrix and the camera matrix (3x3 each, row by
//! row), the row count of the distortion coefficients as one byte (modulo
//! 256), then every distortion coefficient. Each number is an `f64` bit
//! pattern, big-endian. The field of view is not part of the layout.
//!
//! A client reads a calibration differently: 72 bytes for each matrix, one
//! byte giving how many bytes of distortion coefficients follow, those bytes,
//! then the field of view (8 bytes, big-endian). The two layouts agree on the
//! matrices only.
use vstd::prelude::*;
use crate::bytes::{be_u64, push_u64_be, read_u64_be, u64_from_be};

verus! {

/// A camera calibration as plain values: the entries of each matrix, row by
/// row, and of the distortion coefficients, as `f64` bit patterns.
#[derive(Debug, Clone)]
pub struct CameraInfo {
    pub optimal_matrix: [u64; 9],
    pub camera_matrix: [u64; 9],
    pub dist_rows: i32,
    pub dist_coeffs: Vec<u64>,
    pub horizontal_fov: u64,
}

/// The big-endian bytes of a sequence of numbers, one after the other.
pub open spec fn numbers_bytes(v: Seq<u64>) -> Seq<u8>
    decreases v.len(),
{
    if v.len() == 0 {
        Seq::empty()
    } else {
        numbers_bytes(v.drop_last()) + be_u64(v.last())
    }
}

/// The bytes of a calibration.
pub open spec fn camera_info_bytes(optimal: Seq<u64>, camera: Seq<u64>, dist_rows: i32, dist: Seq<u64>) -> Seq<u8> {
    numbers_bytes(optimal) + numbers_bytes(camera) + seq![dist_rows as u8] + numbers_bytes(dist)
}

/// Appends the bytes of each number of `v`.
fn push_numbers(out: &mut Vec<u8>, v: &[u64])
    ensures
        final(out)@ == old(out)@ + numbers_bytes(v@),
{
    let mut i: usize = 0;
    while i < v.len()
        invariant
            i <= v@.len(),
            out@ == old(out)@ + numbers_bytes(v@.take(i as int)),
        decreases v@.len() - i,
    {
        assert(v@.take(i + 1).drop_last() =~= v@.take(i as int));
        push_u64_be(out, v[i]);
        i += 1;
        assert(out@ =~= old(out)@ + numbers_bytes(v@.take(i as int)));
    }
    assert(v@.take(v@.len() as int) =~= v@);
}

impl CameraInfo {
    /// The bytes of the calibration.
    pub fn to_be_bytes(&self) -> (r: Vec<u8>)
        ensures
            r@ == camera_info_bytes(
                self.optimal_matrix@,
                self.camera_matrix@,
                self.dist_rows,
                self.dist_coeffs@,
            ),
    {
        let mut out: Vec<u8> = Vec::new();
        push_numbers(&mut out, self.optimal_matrix.as_slice());
        push_numbers(&mut out, self.camera_matrix.as_slice());
        out.push(self.dist_rows as u8);
        push_numbers(&mut out, self.dist_coeffs.as_slice());
        assert(out@ =~= camera_info_bytes(
            self.optimal_matrix@,
            self.camera_matrix@,
            self.dist_rows,
            self.dist_coeffs@,
        ));
        out
    }
}

/// A calibration as a client reads it: the bytes of each matrix and of the
/// distortion coefficients, and the field of view as an `f64` bit pattern.
#[derive(Debug, Clone)]
pub struct CameraInfoRead {
    pub optimal_matrix: Vec<u8>,
    pub camera_matrix: Vec<u8>,
    pub dist_coeffs: Vec<u8>,
    pub horizontal_fov: u64,
}

/// How many bytes a client reads for a calibration whose count byte is `cl`.
pub open spec fn read_length(cl: u8) -> int {
    72 + 72 + 1 + cl + 8
}

/// Copies `len` bytes of `buf` from `start`.
fn copy_bytes(buf: &[u8], start: usize, len: usize) -> (r: Vec<u8>)
    requires
        start + len <= buf@.len(),
    ensures
        r@ == buf@.subrange(start as int, start + len),
{
    let mut out: Vec<u8> = Vec::new();
    let mut i: usize = 0;
    while i < len
        invariant
            start + len <= buf@.len(),
            buf@.len() == buf.len(),
            i <= len,
            out@ == buf@.subrange(start as int, start + i),
        decreases len - i,
    {
        out.push(buf[start + i]);
        i += 1;
        assert(out@ =~= buf@.subrange(start as int, start + i));
    }
    out
}

/// Reads a calibration from the start of `buf` as a client does, with the
/// number of bytes taken; `None` when `buf` ends before the calibration does
/// (where reading from a stream fails with an end-of-input error).
pub fn read_camera_info(buf: &[u8]) -> (r: Option<(CameraInfoRead, usize)>)
    ensures
        r is Some <==> buf@.len() >= 145 && buf@.len() >= read_length(buf@[144]),
        r matches Some((c, used)) ==> {
            let cl = buf@[144] as int;
            &&& used == read_length(buf@[144])
            &&& c.optimal_matrix@ == buf@.subrange(0, 72)
            &&& c.camera_matrix@ == buf@.subrange(72, 144)
            &&& c.dist_coeffs@ == buf@.subrange(145, 145 + cl)
            &&& c.horizontal_fov == u64_from_be(buf@.subrange(145 + cl, 153 + cl))
        },
{
    if buf.len() < 145 {
        return None;
    }
    let cl = buf[144] as usize;
    if buf.len() < 153 + cl {
        return None;
    }
    let info = CameraInfoRead {
        optimal_matrix: copy_bytes(buf, 0, 72),
        camera_matrix: copy_bytes(buf, 72, 72),
        dist_coeffs: copy_bytes(buf, 145, cl),
        horizontal_fov: read_u64_be(buf, 145 + cl),
    };
    Some((info, 153 + cl))
}

/// A client reads back the two matrices the organizer wrote; the byte after
/// them is the row count of the distortion coefficients, which the client
/// takes as their byte length.
pub proof fn law_matrices_read_back(optimal: Seq<u64>, camera: Seq<u64>, dist_rows: i32, dist: Seq<u64>)
    requires
        optimal.len() == 9,
        camera.len() == 9,
    ensures
        ({
            let b = camera_info_bytes(optimal, camera, dist_rows, dist);
            &&& b.len() >= 145
            &&& b.subrange(0, 72) == numbers_bytes(optimal)
            &&& b.subrange(72, 144) == numbers_bytes(camera)
            &&& b[144] == dist_rows as u8
        }),
{
    lemma_numbers_bytes_len(optimal);
    lemma_numbers_bytes_len(camera);
    lemma_numbers_bytes_len(dist);
    let b = camera_info_bytes(optimal, camera, dist_rows, dist);
    assert(b.subrange(0, 72) =~= numbers_bytes(optimal));
    assert(b.subrange(72, 144) =~= numbers_bytes(camera));
}

/// The bytes of `n` numbers are `8 * n` long.
proof fn lemma_numbers_bytes_len(v: Seq<u64>)
    ensures
        numbers_bytes(v).len() == 8 * v.len(),
    decreases v.len(),
{
    if v.len() > 0 {
        lemma_numbers_bytes_len(v.drop_last());
    }
}

} // verus!
