//! Little-endian integers within byte sequences, read through `byteorder`.

use vstd::prelude::*;
use byteorder::ByteOrder;

verus! {

/// The little-endian `u16` stored at `s[pos..pos + 2]`.
pub open spec fn le_u16(s: Seq<u8>, pos: int) -> int {
    s[pos] + 256 * s[pos + 1]
}

/// The little-endian `u32` stored at `s[pos..pos + 4]`.
pub open spec fn le_u32(s: Seq<u8>, pos: int) -> int {
    s[pos] + 256 * s[pos + 1] + 65536 * s[pos + 2] + 16777216 * s[pos + 3]
}

/// Reads the little-endian `u16` at `bytes[pos..pos + 2]` with
/// `byteorder::LittleEndian::read_u16`, which reads the first two bytes of the
/// slice it is given, least significant first (it panics on a shorter slice,
/// which `requires` rules out).
#[verifier::external_body]
pub(crate) fn read_u16_at(bytes: &[u8], pos: usize) -> (res: u16)
    requires
        pos + 2 <= bytes@.len(),
    ensures
        res == le_u16(bytes@, pos as int),
{
    byteorder::LittleEndian::read_u16(&bytes[pos..pos + 2])
}

/// Reads the little-endian `u32` at `bytes[pos..pos + 4]` with
/// `byteorder::LittleEndian::read_u32`, which reads the first four bytes of the
/// slice it is given, least significant first.
#[verifier::external_body]
pub(crate) fn read_u32_at(bytes: &[u8], pos: usize) -> (res: u32)
    requires
        pos + 4 <= bytes@.len(),
    ensures
        res == le_u32(bytes@, pos as int),
{
    byteorder::LittleEndian::read_u32(&bytes[pos..pos + 4])
}

/// The four bytes that `byteorder::LittleEndian::write_u32` writes for `n`:
/// least significant byte first.
#[verifier::external_body]
pub(crate) fn u32_le_bytes(n: u32) -> (res: [u8; 4])
    ensures
        res@ == le_u32_bytes(n as int),
{
    let mut buf = [0u8; 4];
    byteorder::LittleEndian::write_u32(&mut buf, n);
    buf
}

/// The two bytes that `byteorder::LittleEndian::write_u16` writes for `n`:
/// least significant byte first.
#[verifier::external_body]
pub(crate) fn u16_le_bytes(n: u16) -> (res: [u8; 2])
    ensures
        res@ == le_u16_bytes(n as int),
{
    let mut buf = [0u8; 2];
    byteorder::LittleEndian::write_u16(&mut buf, n);
    buf
}

} // verus!

verus! {

/// The two bytes of `v` in little-endian order.
pub open spec fn le_u16_bytes(v: int) -> Seq<u8> {
    seq![(v % 256) as u8, (v / 256) as u8]
}

/// The four bytes of `v` in little-endian order.
pub open spec fn le_u32_bytes(v: int) -> Seq<u8> {
    seq![(v % 256) as u8, ((v / 256) % 256) as u8, ((v / 65536) % 256) as u8, (v / 16777216) as u8]
}

/// Reading back the bytes of a `u16` gives the `u16`.
pub proof fn lemma_le_u16_bytes(v: int)
    requires
        0 <= v <= u16::MAX,
    ensures
        le_u16(le_u16_bytes(v), 0) == v,
{
    assert(le_u16(le_u16_bytes(v), 0) == v % 256 + 256 * (v / 256)) by (nonlinear_arith)
        requires 0 <= v <= u16::MAX;
}

/// Reading back the bytes of a `u32` gives the `u32`.
pub proof fn lemma_le_u32_bytes(v: int)
    requires
        0 <= v <= u32::MAX,
    ensures
        le_u32(le_u32_bytes(v), 0) == v,
{
    let b = le_u32_bytes(v);
    assert(b[0] + 256 * b[1] + 65536 * b[2] + 16777216 * b[3] == v) by (nonlinear_arith)
        requires
            0 <= v <= u32::MAX,
            b[0] == v % 256,
            b[1] == (v / 256) % 256,
            b[2] == (v / 65536) % 256,
            b[3] == v / 16777216,
    {
        assert(v == v % 256 + 256 * (v / 256));
        assert(v / 256 == (v / 256) % 256 + 256 * (v / 65536));
        assert(v / 65536 == (v / 65536) % 256 + 256 * (v / 16777216));
    }
}

/// The bytes of the `u16` stored at `s[pos..pos + 2]` are those two bytes.
pub proof fn lemma_le_u16_unique(s: Seq<u8>, pos: int)
    requires
        0 <= pos,
        pos + 2 <= s.len(),
    ensures
        le_u16_bytes(le_u16(s, pos)) == s.subrange(pos, pos + 2),
{
    let v = le_u16(s, pos);
    let a = s[pos] as int;
    let b = s[pos + 1] as int;
    assert(v % 256 == a && v / 256 == b) by (nonlinear_arith)
        requires
            v == a + 256 * b,
            0 <= a < 256,
            0 <= b < 256;
    assert(le_u16_bytes(v) =~= s.subrange(pos, pos + 2));
}

/// The bytes of the `u32` stored at `s[pos..pos + 4]` are those four bytes.
pub proof fn lemma_le_u32_unique(s: Seq<u8>, pos: int)
    requires
        0 <= pos,
        pos + 4 <= s.len(),
    ensures
        le_u32_bytes(le_u32(s, pos)) == s.subrange(pos, pos + 4),
{
    let v = le_u32(s, pos);
    let a = s[pos] as int;
    let b = s[pos + 1] as int;
    let c = s[pos + 2] as int;
    let d = s[pos + 3] as int;
    assert(v % 256 == a && (v / 256) % 256 == b && (v / 65536) % 256 == c && v / 16777216 == d)
        by (nonlinear_arith)
        requires
            v == a + 256 * b + 65536 * c + 16777216 * d,
            0 <= a < 256,
            0 <= b < 256,
            0 <= c < 256,
            0 <= d < 256,
    {
        assert(v / 256 == b + 256 * c + 65536 * d);
        assert(v / 65536 == c + 256 * d);
    }
    assert(le_u32_bytes(v) =~= s.subrange(pos, pos + 4));
}

} // verus!
