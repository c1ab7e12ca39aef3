//! Little-endian integer fields of the container wire format.
//!
//! `le4` / `le8` give the value of a 4- or 8-byte little-endian region;
//! `u32_le` / `u64_le` give the bytes of a value. Each direction is proved
//! against the other, which is what the header round-trip rests on.

use vstd::prelude::*;

verus! {

/// Value of a 4-byte little-endian region.
pub open spec fn le4(s: Seq<u8>) -> nat
    recommends
        s.len() == 4,
{
    (s[0] as nat) + 0x100 * (s[1] as nat) + 0x10000 * (s[2] as nat) + 0x1000000 * (s[3] as nat)
}

/// Value of an 8-byte little-endian region.
pub open spec fn le8(s: Seq<u8>) -> nat
    recommends
        s.len() == 8,
{
    (s[0] as nat) + 0x100 * (s[1] as nat) + 0x10000 * (s[2] as nat) + 0x1000000 * (s[3] as nat)
        + 0x100000000 * (s[4] as nat) + 0x10000000000 * (s[5] as nat) + 0x1000000000000 * (
    s[6] as nat) + 0x100000000000000 * (s[7] as nat)
}

/// Little-endian bytes of a `u32`.
pub open spec fn u32_le(v: u32) -> Seq<u8> {
    seq![
        (v % 0x100) as u8,
        ((v / 0x100) % 0x100) as u8,
        ((v / 0x10000) % 0x100) as u8,
        ((v / 0x1000000) % 0x100) as u8,
    ]
}

/// Little-endian bytes of a `u64`.
pub open spec fn u64_le(v: u64) -> Seq<u8> {
    seq![
        (v % 0x100) as u8,
        ((v / 0x100) % 0x100) as u8,
        ((v / 0x10000) % 0x100) as u8,
        ((v / 0x1000000) % 0x100) as u8,
        ((v / 0x100000000) % 0x100) as u8,
        ((v / 0x10000000000) % 0x100) as u8,
        ((v / 0x1000000000000) % 0x100) as u8,
        ((v / 0x100000000000000) % 0x100) as u8,
    ]
}

/// Reading back the bytes of a `u32` gives the value.
pub proof fn lemma_u32_le_roundtrip(v: u32)
    ensures
        le4(u32_le(v)) == v,
{
    assert((v % 0x100) + 0x100 * ((v / 0x100) % 0x100) + 0x10000 * ((v / 0x10000) % 0x100)
        + 0x1000000 * ((v / 0x1000000) % 0x100) == v) by (bit_vector);
}

/// Reading back the bytes of a `u64` gives the value.
pub proof fn lemma_u64_le_roundtrip(v: u64)
    ensures
        le8(u64_le(v)) == v,
{
    assert((v % 0x100) + 0x100 * ((v / 0x100) % 0x100) + 0x10000 * ((v / 0x10000) % 0x100)
        + 0x1000000 * ((v / 0x1000000) % 0x100) + 0x100000000 * ((v / 0x100000000) % 0x100)
        + 0x10000000000 * ((v / 0x10000000000) % 0x100) + 0x1000000000000 * ((v / 0x1000000000000)
        % 0x100) + 0x100000000000000 * ((v / 0x100000000000000) % 0x100) == v) by (bit_vector);
}

/// Read the `u32` at `off`.
pub fn read_u32_le(data: &[u8], off: usize) -> (r: u32)
    requires
        off + 4 <= data@.len(),
    ensures
        r as nat == le4(data@.subrange(off as int, off as int + 4)),
{
    let b0 = data[off] as u32;
    let b1 = data[off + 1] as u32;
    let b2 = data[off + 2] as u32;
    let b3 = data[off + 3] as u32;
    b0 + 0x100 * b1 + 0x10000 * b2 + 0x1000000 * b3
}

/// Read the `u64` at `off`.
pub fn read_u64_le(data: &[u8], off: usize) -> (r: u64)
    requires
        off + 8 <= data@.len(),
    ensures
        r as nat == le8(data@.subrange(off as int, off as int + 8)),
{
    let b0 = data[off] as u64;
    let b1 = data[off + 1] as u64;
    let b2 = data[off + 2] as u64;
    let b3 = data[off + 3] as u64;
    let b4 = data[off + 4] as u64;
    let b5 = data[off + 5] as u64;
    let b6 = data[off + 6] as u64;
    let b7 = data[off + 7] as u64;
    b0 + 0x100 * b1 + 0x10000 * b2 + 0x1000000 * b3 + 0x100000000 * b4 + 0x10000000000 * b5
        + 0x1000000000000 * b6 + 0x100000000000000 * b7
}

/// The signed value whose two's-complement image is `n`.
pub open spec fn i32_of_u32(n: u32) -> i32 {
    if n < 0x80000000 {
        n as i32
    } else {
        (n - 0x100000000) as i32
    }
}

/// The two's-complement image of `i`.
pub open spec fn u32_of_i32(i: i32) -> u32 {
    if i >= 0 {
        i as u32
    } else {
        (i + 0x100000000) as u32
    }
}

/// The two conversions invert each other.
pub proof fn lemma_i32_u32_roundtrip(i: i32)
    ensures
        i32_of_u32(u32_of_i32(i)) == i,
{
}

/// Reinterpret a little-endian `u32` image as the signed value.
pub fn u32_to_i32(n: u32) -> (r: i32)
    ensures
        r == i32_of_u32(n),
{
    if n < 0x80000000 {
        n as i32
    } else {
        let d = n - 0x80000000;
        i32::MIN + (d as i32)
    }
}

/// Two's-complement image of a signed value.
pub fn i32_to_u32(i: i32) -> (r: u32)
    ensures
        r == u32_of_i32(i),
{
    if i >= 0 {
        i as u32
    } else {
        let d = i - i32::MIN;
        0x80000000u32 + (d as u32)
    }
}

/// Append the little-endian bytes of a `u32`.
pub fn push_u32_le(out: &mut Vec<u8>, v: u32)
    ensures
        final(out)@ == old(out)@ + u32_le(v),
{
    out.push((v % 0x100) as u8);
    out.push(((v / 0x100) % 0x100) as u8);
    out.push(((v / 0x10000) % 0x100) as u8);
    out.push(((v / 0x1000000) % 0x100) as u8);
    assert(out@ =~= old(out)@ + u32_le(v));
}

/// Append the little-endian bytes of a `u64`.
pub fn push_u64_le(out: &mut Vec<u8>, v: u64)
    ensures
        final(out)@ == old(out)@ + u64_le(v),
{
    out.push((v % 0x100) as u8);
    out.push(((v / 0x100) % 0x100) as u8);
    out.push(((v / 0x10000) % 0x100) as u8);
    out.push(((v / 0x1000000) % 0x100) as u8);
    out.push(((v / 0x100000000) % 0x100) as u8);
    out.push(((v / 0x10000000000) % 0x100) as u8);
    out.push(((v / 0x1000000000000) % 0x100) as u8);
    out.push(((v / 0x100000000000000) % 0x100) as u8);
    assert(out@ =~= old(out)@ + u64_le(v));
}

} // verus!
