//! Fixed-width integers as they stand on the wire.
//!
//! Everything is big-endian but the host port of a basic status report, which
//! the protocol sends low byte first.

use vstd::prelude::*;

verus! {

/// The four bytes of `v`, most significant first.
pub open spec fn be32(v: u32) -> Seq<u8> {
    seq![
        (v / 0x100_0000) as u8,
        (v / 0x1_0000 % 0x100) as u8,
        (v / 0x100 % 0x100) as u8,
        (v % 0x100) as u8,
    ]
}

/// The number whose big-endian bytes are `b0 b1 b2 b3`.
pub open spec fn from_be32(b0: u8, b1: u8, b2: u8, b3: u8) -> u32 {
    (b0 * 0x100_0000 + b1 * 0x1_0000 + b2 * 0x100 + b3) as u32
}

/// The number whose little-endian bytes are `b0 b1`.
pub open spec fn from_le16(b0: u8, b1: u8) -> u16 {
    (b0 + b1 * 0x100) as u16
}

/// Appends the big-endian bytes of `v` to `out`.
pub fn put_u32_be(out: &mut Vec<u8>, v: u32)
    ensures
        final(out)@ == old(out)@ + be32(v),
{
    out.push((v / 0x100_0000) as u8);
    out.push((v / 0x1_0000 % 0x100) as u8);
    out.push((v / 0x100 % 0x100) as u8);
    out.push((v % 0x100) as u8);
}

/// Reads the big-endian 32-bit integer at offset `at` of `buf`, and gives it
/// with the offset after it; `None` where fewer than four bytes are left.
pub fn get_u32_be(buf: &[u8], at: usize) -> (r: Option<(u32, usize)>)
    ensures
        match r {
            Some((v, next)) => {
                &&& at + 4 <= buf@.len()
                &&& v == from_be32(buf@[at as int], buf@[at + 1], buf@[at + 2], buf@[at + 3])
                &&& next == at + 4
            },
            None => at + 4 > buf@.len(),
        },
{
    if buf.len() < 4 || at > buf.len() - 4 {
        return None;
    }
    let b0 = buf[at] as u32;
    let b1 = buf[at + 1] as u32;
    let b2 = buf[at + 2] as u32;
    let b3 = buf[at + 3] as u32;
    Some((b0 * 0x100_0000 + b1 * 0x1_0000 + b2 * 0x100 + b3, at + 4))
}

/// Reads the little-endian 16-bit integer at offset `at` of `buf`, and gives
/// it with the offset after it; `None` where fewer than two bytes are left.
pub fn get_u16_le(buf: &[u8], at: usize) -> (r: Option<(u16, usize)>)
    ensures
        match r {
            Some((v, next)) => {
                &&& at + 2 <= buf@.len()
                &&& v == from_le16(buf@[at as int], buf@[at + 1])
                &&& next == at + 2
            },
            None => at + 2 > buf@.len(),
        },
{
    if buf.len() < 2 || at > buf.len() - 2 {
        return None;
    }
    let b0 = buf[at] as u16;
    let b1 = buf[at + 1] as u16;
    Some((b0 + b1 * 0x100, at + 2))
}

/// Writing a number and reading the four bytes back gives the number.
pub proof fn lemma_be32_round_trip(v: u32)
    ensures
        be32(v).len() == 4,
        from_be32(be32(v)[0], be32(v)[1], be32(v)[2], be32(v)[3]) == v,
{
    let d0: u32 = v / 0x100_0000;
    let d1: u32 = v / 0x1_0000 % 0x100;
    let d2: u32 = v / 0x100 % 0x100;
    let d3: u32 = v % 0x100;
    assert(d0 < 0x100 && d1 < 0x100 && d2 < 0x100 && d3 < 0x100 && d0 * 0x100_0000 + d1 * 0x1_0000
        + d2 * 0x100 + d3 == v) by (bit_vector)
        requires
            d0 == v / 0x100_0000,
            d1 == v / 0x1_0000 % 0x100,
            d2 == v / 0x100 % 0x100,
            d3 == v % 0x100,
    ;
}

/// The bytes of a number read are the bytes it was read from.
pub proof fn lemma_from_be32_bytes(b0: u8, b1: u8, b2: u8, b3: u8)
    ensures
        be32(from_be32(b0, b1, b2, b3)) == seq![b0, b1, b2, b3],
{
    let d0: u32 = b0 as u32;
    let d1: u32 = b1 as u32;
    let d2: u32 = b2 as u32;
    let d3: u32 = b3 as u32;
    let v: u32 = from_be32(b0, b1, b2, b3);
    assert(v == d0 * 0x100_0000 + d1 * 0x1_0000 + d2 * 0x100 + d3);
    assert(v / 0x100_0000 == d0 && v / 0x1_0000 % 0x100 == d1 && v / 0x100 % 0x100 == d2 && v
        % 0x100 == d3) by (bit_vector)
        requires
            d0 < 0x100 && d1 < 0x100 && d2 < 0x100 && d3 < 0x100,
            v == d0 * 0x100_0000 + d1 * 0x1_0000 + d2 * 0x100 + d3,
    ;
    assert(be32(v) =~= seq![b0, b1, b2, b3]);
}

} // verus!
