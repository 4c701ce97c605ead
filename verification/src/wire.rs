//! Little-endian integer fields of the wire format, read and written with
//! `byteorder`, and the byte-level helpers the message builders share.

use byteorder::{ByteOrder, LittleEndian};
use vstd::prelude::*;

verus! {

/// The number that the first two bytes of `b` encode, least significant first.
pub open spec fn spec_le16(b: Seq<u8>) -> int {
    b[0] + b[1] * 256
}

/// The number that the first four bytes of `b` encode, least significant first.
pub open spec fn spec_le32(b: Seq<u8>) -> int {
    b[0] + b[1] * 256 + b[2] * 65536 + b[3] * 16777216
}

/// The number that the first eight bytes of `b` encode, least significant first.
pub open spec fn spec_le64(b: Seq<u8>) -> int {
    spec_le32(b) + spec_le32(b.subrange(4, 8)) * 4294967296
}

/// The four bytes of `n`, least significant first.
pub open spec fn le32(n: u32) -> Seq<u8> {
    seq![(n % 256) as u8, ((n / 256) % 256) as u8, ((n / 65536) % 256) as u8, (n / 16777216) as u8]
}

/// The eight bytes of `n`, least significant first.
pub open spec fn le64(n: u64) -> Seq<u8> {
    le32((n % 4294967296) as u32) + le32((n / 4294967296) as u32)
}

/// The four bytes `b[off..off + 4]`.
pub open spec fn field32(b: Seq<u8>, off: int) -> Seq<u8> {
    b.subrange(off, off + 4)
}

/// The unsigned 32-bit number stored little-endian at `b[off..off + 4]`.
pub open spec fn u32_at(b: Seq<u8>, off: int) -> u32 {
    spec_le32(field32(b, off)) as u32
}

/// `byteorder::LittleEndian::read_u16`: the number in the first two bytes of
/// `buf`, least significant first. It panics on fewer than two bytes.
#[verifier::external_body]
fn read_u16_le(buf: &[u8]) -> (n: u16)
    requires
        buf@.len() >= 2,
    ensures
        n == spec_le16(buf@),
{
    LittleEndian::read_u16(buf)
}

/// `byteorder::LittleEndian::read_u32`: the number in the first four bytes of
/// `buf`, least significant first. It panics on fewer than four bytes.
#[verifier::external_body]
fn read_u32_le(buf: &[u8]) -> (n: u32)
    requires
        buf@.len() >= 4,
    ensures
        n == spec_le32(buf@),
{
    LittleEndian::read_u32(buf)
}

/// `byteorder::LittleEndian::write_u32` into a fresh four-byte buffer: the
/// buffer then holds the bytes of `n`, least significant first.
#[verifier::external_body]
fn write_u32_le(n: u32) -> (buf: Vec<u8>)
    ensures
        buf@ == le32(n),
{
    let mut buf = vec![0u8; 4];
    LittleEndian::write_u32(&mut buf, n);
    buf
}

/// `byteorder::LittleEndian::write_u64` into a fresh eight-byte buffer: the
/// buffer then holds the bytes of `n`, least significant first.
#[verifier::external_body]
fn write_u64_le(n: u64) -> (buf: Vec<u8>)
    ensures
        buf@ == le64(n),
{
    let mut buf = vec![0u8; 8];
    LittleEndian::write_u64(&mut buf, n);
    buf
}

/// Reading four bytes back gives the number that was written, and the
/// bytes of two numbers differ when the numbers do.
pub proof fn lemma_le32_roundtrip(n: u32, m: u32)
    ensures
        spec_le32(le32(n)) == n,
        le32(n).len() == 4,
        le32(n) == le32(m) ==> n == m,
{
    assert(n == (n % 256) + ((n / 256) % 256) * 256 + ((n / 65536) % 256) * 65536 + (n / 16777216)
        * 16777216) by (nonlinear_arith);
    if le32(n) == le32(m) {
        assert(le32(n)[0] == le32(m)[0]);
        assert(le32(n)[1] == le32(m)[1]);
        assert(le32(n)[2] == le32(m)[2]);
        assert(le32(n)[3] == le32(m)[3]);
        assert(m == (m % 256) + ((m / 256) % 256) * 256 + ((m / 65536) % 256) * 65536 + (m
            / 16777216) * 16777216) by (nonlinear_arith);
    }
}

/// Reading eight bytes back gives the number that was written.
pub proof fn lemma_le64_roundtrip(n: u64)
    ensures
        spec_le64(le64(n)) == n,
        le64(n).len() == 8,
{
    let lo = (n % 4294967296) as u32;
    let hi = (n / 4294967296) as u32;
    lemma_le32_roundtrip(lo, lo);
    lemma_le32_roundtrip(hi, hi);
    assert(le64(n).subrange(0, 4) =~= le32(lo));
    assert(le64(n).subrange(4, 8) =~= le32(hi));
    assert(n == (n % 4294967296) + (n / 4294967296) * 4294967296) by (nonlinear_arith);
}

/// The unsigned 32-bit number stored little-endian at `msg[off..off + 4]`.
pub fn get_u32(msg: &[u8], off: usize) -> (n: u32)
    requires
        off + 4 <= msg@.len(),
    ensures
        n == u32_at(msg@, off as int),
{
    let field = vec![msg[off], msg[off + 1], msg[off + 2], msg[off + 3]];
    let n = read_u32_le(field.as_slice());
    assert(field@ =~= field32(msg@, off as int));
    n
}

/// The low sixteen bits of `n`, read back from its little-endian bytes.
pub fn low_u16(n: u32) -> (r: u16)
    ensures
        r == n % 65536,
{
    let bytes = write_u32_le(n);
    let r = read_u16_le(bytes.as_slice());
    assert(n % 65536 == (n % 256) + ((n / 256) % 256) * 256) by (nonlinear_arith);
    r
}

/// Appends the four little-endian bytes of `n` to `out`.
pub fn push_u32(out: &mut Vec<u8>, n: u32)
    ensures
        final(out)@ == old(out)@ + le32(n),
{
    let bytes = write_u32_le(n);
    let mut i: usize = 0;
    while i < 4
        invariant
            bytes@ == le32(n),
            0 <= i <= 4,
            out@ == old(out)@ + le32(n).subrange(0, i as int),
        decreases 4 - i,
    {
        out.push(bytes[i]);
        i = i + 1;
        assert(le32(n).subrange(0, i as int) =~= le32(n).subrange(0, i - 1) + seq![le32(n)[i - 1]]);
    }
    assert(le32(n).subrange(0, 4) =~= le32(n));
}

/// Appends the eight little-endian bytes of `n` to `out`.
pub fn push_u64(out: &mut Vec<u8>, n: u64)
    ensures
        final(out)@ == old(out)@ + le64(n),
{
    let bytes = write_u64_le(n);
    let mut i: usize = 0;
    while i < 8
        invariant
            bytes@ == le64(n),
            bytes@.len() == 8,
            0 <= i <= 8,
            out@ == old(out)@ + le64(n).subrange(0, i as int),
        decreases 8 - i,
    {
        out.push(bytes[i]);
        i = i + 1;
        assert(le64(n).subrange(0, i as int) =~= le64(n).subrange(0, i - 1) + seq![le64(n)[i - 1]]);
    }
    assert(le64(n).subrange(0, 8) =~= le64(n));
}

/// Appends `src[from..]` to `out`.
pub fn push_tail(out: &mut Vec<u8>, src: &[u8], from: usize)
    requires
        from <= src@.len(),
    ensures
        final(out)@ == old(out)@ + src@.subrange(from as int, src@.len() as int),
{
    let mut i: usize = from;
    while i < src.len()
        invariant
            from <= i <= src@.len(),
            out@ == old(out)@ + src@.subrange(from as int, i as int),
        decreases src@.len() - i,
    {
        out.push(src[i]);
        i = i + 1;
        assert(src@.subrange(from as int, i as int) =~= src@.subrange(from as int, i - 1) + seq![
            src@[i - 1],
        ]);
    }
}

/// A copy of `src[from..]`.
pub fn tail(src: &[u8], from: usize) -> (out: Vec<u8>)
    requires
        from <= src@.len(),
    ensures
        out@ == src@.subrange(from as int, src@.len() as int),
{
    let mut out: Vec<u8> = Vec::new();
    push_tail(&mut out, src, from);
    assert(out@ =~= src@.subrange(from as int, src@.len() as int));
    out
}

/// A two-byte message header: channel and route.
pub fn header(channel: u8, route: u8) -> (out: Vec<u8>)
    ensures
        out@ == seq![channel, route],
{
    let out = vec![channel, route];
    assert(out@ =~= seq![channel, route]);
    out
}

/// The id a connection gets from its source port: the port's two bytes in
/// network order placed in the upper half of a little-endian word.
pub open spec fn spec_uid_of_port(port: u16) -> u32 {
    ((port / 256) * 65536 + (port % 256) * 16777216) as u32
}

/// The id of a connection made from `port`: the port's big-endian bytes
/// `[0, 0, hi, lo]` read as a little-endian `u32`.
pub fn uid_of_port(port: u16) -> (uid: u32)
    ensures
        uid == spec_uid_of_port(port),
{
    let hi: u8 = (port / 256) as u8;
    let lo: u8 = (port % 256) as u8;
    let out = vec![0u8, 0u8, hi, lo];
    read_u32_le(out.as_slice())
}

} // verus!
