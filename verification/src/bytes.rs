//! Little-endian byte-level primitives shared by the encoder and decoder.
//!
//! All multibyte integers on the wire are little-endian. The spec functions
//! here are the single definition of that layout; every section codec states
//! its contract in terms of them.

use vstd::prelude::*;

verus! {

/// The two little-endian bytes of a `u16`.
pub open spec fn le16_bytes(x: u16) -> Seq<u8> {
    seq![(x as int % 256) as u8, (x as int / 256) as u8]
}

/// The four little-endian bytes of a `u32`.
pub open spec fn le32_bytes(x: u32) -> Seq<u8> {
    seq![
        (x as int % 256) as u8,
        (x as int / 256 % 256) as u8,
        (x as int / 65536 % 256) as u8,
        (x as int / 16777216 % 256) as u8,
    ]
}

/// The eight little-endian bytes of a `u64`.
pub open spec fn le64_bytes(x: u64) -> Seq<u8> {
    seq![
        (x as int % 256) as u8,
        (x as int / 0x100 % 256) as u8,
        (x as int / 0x10000 % 256) as u8,
        (x as int / 0x1000000 % 256) as u8,
        (x as int / 0x100000000 % 256) as u8,
        (x as int / 0x10000000000 % 256) as u8,
        (x as int / 0x1000000000000 % 256) as u8,
        (x as int / 0x100000000000000 % 256) as u8,
    ]
}

/// The `u16` denoted by two little-endian bytes.
pub open spec fn u16_of_le(b0: u8, b1: u8) -> u16 {
    (b0 + b1 * 256) as u16
}

/// The `u32` denoted by four little-endian bytes.
pub open spec fn u32_of_le(b0: u8, b1: u8, b2: u8, b3: u8) -> u32 {
    (b0 + b1 * 256 + b2 * 65536 + b3 * 16777216) as u32
}

/// The `u64` denoted by eight little-endian bytes.
pub open spec fn u64_of_le(b: Seq<u8>) -> u64
    recommends
        b.len() == 8,
{
    (b[0] + b[1] * 0x100 + b[2] * 0x10000 + b[3] * 0x1000000 + b[4] * 0x100000000 + b[5]
        * 0x10000000000 + b[6] * 0x1000000000000 + b[7] * 0x100000000000000) as u64
}

pub proof fn lemma_le64_roundtrip(x: u64)
    ensures
        u64_of_le(le64_bytes(x)) == x,
{
    assert(((x % 256) as u8) as u64 + (((x / 0x100) % 256) as u8) as u64 * 0x100 + (((x
        / 0x10000) % 256) as u8) as u64 * 0x10000 + (((x / 0x1000000) % 256) as u8) as u64
        * 0x1000000 + (((x / 0x100000000) % 256) as u8) as u64 * 0x100000000 + (((x
        / 0x10000000000) % 256) as u8) as u64 * 0x10000000000 + (((x / 0x1000000000000)
        % 256) as u8) as u64 * 0x1000000000000 + (((x / 0x100000000000000) % 256) as u8) as u64
        * 0x100000000000000 == x) by (bit_vector);
}

/// Append a `u64` to `out` in little-endian order.
pub fn push_u64_le(out: &mut Vec<u8>, x: u64)
    ensures
        final(out)@ == old(out)@ + le64_bytes(x),
{
    let b0: u8 = (x % 256) as u8;
    let b1: u8 = (x / 0x100 % 256) as u8;
    let b2: u8 = (x / 0x10000 % 256) as u8;
    let b3: u8 = (x / 0x1000000 % 256) as u8;
    let b4: u8 = (x / 0x100000000 % 256) as u8;
    let b5: u8 = (x / 0x10000000000 % 256) as u8;
    let b6: u8 = (x / 0x1000000000000 % 256) as u8;
    let b7: u8 = (x / 0x100000000000000 % 256) as u8;
    out.push(b0);
    out.push(b1);
    out.push(b2);
    out.push(b3);
    out.push(b4);
    out.push(b5);
    out.push(b6);
    out.push(b7);
    assert(final(out)@ =~= old(out)@ + le64_bytes(x));
}

/// Read a little-endian `u64` at offset `i`.
pub fn read_u64_le(b: &[u8], i: usize) -> (r: u64)
    requires
        i + 8 <= b@.len(),
    ensures
        r == u64_of_le(b@.subrange(i as int, i + 8)),
{
    let b0: u64 = b[i] as u64;
    let b1: u64 = b[i + 1] as u64;
    let b2: u64 = b[i + 2] as u64;
    let b3: u64 = b[i + 3] as u64;
    let b4: u64 = b[i + 4] as u64;
    let b5: u64 = b[i + 5] as u64;
    let b6: u64 = b[i + 6] as u64;
    let b7: u64 = b[i + 7] as u64;
    let r = b0 + b1 * 0x100 + b2 * 0x10000 + b3 * 0x1000000 + b4 * 0x100000000 + b5
        * 0x10000000000 + b6 * 0x1000000000000 + b7 * 0x100000000000000;
    proof {
        let s = b@.subrange(i as int, i + 8);
        assert(s[0] == b@[i as int] && s[1] == b@[i + 1] && s[2] == b@[i + 2] && s[3] == b@[i + 3]
            && s[4] == b@[i + 4] && s[5] == b@[i + 5] && s[6] == b@[i + 6] && s[7] == b@[i + 7]);
    }
    r
}

pub proof fn lemma_le16_roundtrip(x: u16)
    ensures
        u16_of_le(le16_bytes(x)[0], le16_bytes(x)[1]) == x,
{
}

pub proof fn lemma_le32_roundtrip(x: u32)
    ensures
        u32_of_le(le32_bytes(x)[0], le32_bytes(x)[1], le32_bytes(x)[2], le32_bytes(x)[3]) == x,
{
}

/// Append a `u16` to `out` in little-endian order.
pub fn push_u16_le(out: &mut Vec<u8>, x: u16)
    ensures
        final(out)@ == old(out)@ + le16_bytes(x),
{
    let b0: u8 = (x % 256) as u8;
    let b1: u8 = (x / 256) as u8;
    out.push(b0);
    out.push(b1);
    assert(final(out)@ =~= old(out)@ + le16_bytes(x));
}

/// Append a `u32` to `out` in little-endian order.
pub fn push_u32_le(out: &mut Vec<u8>, x: u32)
    ensures
        final(out)@ == old(out)@ + le32_bytes(x),
{
    let b0: u8 = (x % 256) as u8;
    let b1: u8 = (x / 256 % 256) as u8;
    let b2: u8 = (x / 65536 % 256) as u8;
    let b3: u8 = (x / 16777216 % 256) as u8;
    out.push(b0);
    out.push(b1);
    out.push(b2);
    out.push(b3);
    assert(final(out)@ =~= old(out)@ + le32_bytes(x));
}

/// Read a little-endian `u16` at offset `i`.
pub fn read_u16_le(b: &[u8], i: usize) -> (r: u16)
    requires
        i + 2 <= b@.len(),
    ensures
        r == u16_of_le(b@[i as int], b@[i + 1]),
{
    let b0: u16 = b[i] as u16;
    let b1: u16 = b[i + 1] as u16;
    b0 + b1 * 256
}

/// Read a little-endian `u32` at offset `i`.
pub fn read_u32_le(b: &[u8], i: usize) -> (r: u32)
    requires
        i + 4 <= b@.len(),
    ensures
        r == u32_of_le(b@[i as int], b@[i + 1], b@[i + 2], b@[i + 3]),
{
    let b0: u32 = b[i] as u32;
    let b1: u32 = b[i + 1] as u32;
    let b2: u32 = b[i + 2] as u32;
    let b3: u32 = b[i + 3] as u32;
    b0 + b1 * 256 + b2 * 65536 + b3 * 16777216
}

} // verus!
