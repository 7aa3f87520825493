//! The VDFS flavour of CRC-32, and checks of a trailing checksum.

use vstd::prelude::*;
use crate::data_source::{le_u32, u32_at};

verus! {

/// CRC-32 of `bytes` with the VDFS parameters: polynomial 0x04C11DB7,
/// reflected input and output, initial value 0, no final xor.
pub uninterp spec fn vdfs_crc32(bytes: Seq<u8>) -> u32;

/// Relies on crc's `Crc::<u32>::checksum`, configured with the VDFS
/// parameters: the checksum is a function of the bytes alone.
#[verifier::external_body]
pub fn crc32(bytes: &[u8]) -> (r: u32)
    ensures
        r == vdfs_crc32(bytes@),
{
    let algorithm = &crc::Algorithm::<u32> {
        width: 32,
        poly: 0x04c11db7,
        init: 0x00000000,
        refin: true,
        refout: true,
        xorout: 0x00000000,
        check: 0x2dfd2d88,
        residue: 0x00000000,
    };
    crc::Crc::<u32>::new(algorithm).checksum(bytes)
}

/// `s` ends in four bytes that hold, little-endian, the CRC-32 of what
/// comes before them.
pub open spec fn crc32_trailer_ok(s: Seq<u8>) -> bool {
    s.len() >= 4 && vdfs_crc32(s.subrange(0, s.len() - 4)) as int == le_u32(s, s.len() - 4)
}

/// The four little-endian bytes of `x`.
pub open spec fn u32_le_bytes(x: u32) -> Seq<u8> {
    seq![
        (x & 0xff) as u8,
        ((x >> 8u32) & 0xff) as u8,
        ((x >> 16u32) & 0xff) as u8,
        ((x >> 24u32) & 0xff) as u8,
    ]
}

/// Checks a body followed by its CRC-32 trailer.
pub fn has_valid_crc32_trailer(bytes: &[u8]) -> (r: bool)
    ensures
        r == crc32_trailer_ok(bytes@),
{
    let n = bytes.len();
    if n < 4 {
        return false;
    }
    let body = crate::data_source::bytes_at(bytes, 0, n - 4);
    let stored = u32_at(bytes, n - 4);
    crc32(body.as_slice()) == stored
}

/// Decoding the four little-endian bytes of `x` gives `x` back.
pub proof fn lemma_u32_le_bytes_round_trip(x: u32)
    ensures
        le_u32(u32_le_bytes(x), 0) == x,
{
    let b = u32_le_bytes(x);
    let b0 = x & 0xff;
    let b1 = (x >> 8u32) & 0xff;
    let b2 = (x >> 16u32) & 0xff;
    let b3 = (x >> 24u32) & 0xff;
    assert(b0 < 256 && b1 < 256 && b2 < 256 && b3 < 256) by (bit_vector)
        requires
            b0 == x & 0xff,
            b1 == (x >> 8u32) & 0xff,
            b2 == (x >> 16u32) & 0xff,
            b3 == (x >> 24u32) & 0xff,
    ;
    assert(b[0] == b0 && b[1] == b1 && b[2] == b2 && b[3] == b3);
    assert(b0 as u64 + 256 * (b1 as u64) + 65536 * (b2 as u64 + 256 * (b3 as u64)) == x as u64)
        by (bit_vector)
        requires
            b0 == x & 0xff,
            b1 == (x >> 8u32) & 0xff,
            b2 == (x >> 16u32) & 0xff,
            b3 == (x >> 24u32) & 0xff,
    ;
}

/// A body followed by the little-endian CRC-32 of that body passes the
/// trailer check, whatever the body.
pub proof fn lemma_crc32_trailer_round_trip(body: Seq<u8>)
    ensures
        crc32_trailer_ok(body + u32_le_bytes(vdfs_crc32(body))),
{
    let t = u32_le_bytes(vdfs_crc32(body));
    let s = body + t;
    lemma_u32_le_bytes_round_trip(vdfs_crc32(body));
    assert(s.subrange(0, s.len() - 4) =~= body);
    let n = body.len() as int;
    assert(s[n] == t[0] && s[n + 1] == t[1] && s[n + 2] == t[2] && s[n + 3] == t[3]);
}

} // verus!
