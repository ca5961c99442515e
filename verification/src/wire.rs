//! Fixed-width integers as bytes.
//!
//! Instruction amounts travel little-endian; the integers of the escrow
//! record are stored big-endian. Both orders are part of the wire contract.

use vstd::prelude::*;

verus! {

/// Number of bytes in an encoded amount.
pub const U64_LEN: usize = 8;

/// The number that eight bytes spell, least significant byte first.
pub open spec fn le_u64(b: Seq<u8>) -> u64
    recommends
        b.len() == 8,
{
    (b[0] + 0x100 * b[1] + 0x1_0000 * b[2] + 0x100_0000 * b[3] + 0x1_0000_0000 * b[4]
        + 0x100_0000_0000 * b[5] + 0x1_0000_0000_0000 * b[6] + 0x100_0000_0000_0000 * b[7]) as u64
}

/// The number that eight bytes spell, most significant byte first.
pub open spec fn be_u64(b: Seq<u8>) -> u64
    recommends
        b.len() == 8,
{
    (b[7] + 0x100 * b[6] + 0x1_0000 * b[5] + 0x100_0000 * b[4] + 0x1_0000_0000 * b[3]
        + 0x100_0000_0000 * b[2] + 0x1_0000_0000_0000 * b[1] + 0x100_0000_0000_0000 * b[0]) as u64
}

/// Byte `k` of `x`, counting from the least significant.
pub open spec fn byte_of(x: u64, k: int) -> u8
    recommends
        0 <= k < 8,
{
    if k == 0 {
        (x % 0x100) as u8
    } else if k == 1 {
        (x / 0x100 % 0x100) as u8
    } else if k == 2 {
        (x / 0x1_0000 % 0x100) as u8
    } else if k == 3 {
        (x / 0x100_0000 % 0x100) as u8
    } else if k == 4 {
        (x / 0x1_0000_0000 % 0x100) as u8
    } else if k == 5 {
        (x / 0x100_0000_0000 % 0x100) as u8
    } else if k == 6 {
        (x / 0x1_0000_0000_0000 % 0x100) as u8
    } else {
        (x / 0x100_0000_0000_0000 % 0x100) as u8
    }
}

/// The eight bytes of `x`, least significant first.
pub open spec fn u64_le_bytes(x: u64) -> Seq<u8> {
    Seq::new(8, |k: int| byte_of(x, k))
}

/// The eight bytes of `x`, most significant first.
pub open spec fn u64_be_bytes(x: u64) -> Seq<u8> {
    Seq::new(8, |k: int| byte_of(x, 7 - k))
}

/// Dividing by a power of 256 is dividing by 256 that many times.
proof fn lemma_divide_in_steps(x: u64)
    by (bit_vector)
    ensures
        x / 0x1_0000 == x / 0x100 / 0x100,
        x / 0x100_0000 == x / 0x1_0000 / 0x100,
        x / 0x1_0000_0000 == x / 0x100_0000 / 0x100,
        x / 0x100_0000_0000 == x / 0x1_0000_0000 / 0x100,
        x / 0x1_0000_0000_0000 == x / 0x100_0000_0000 / 0x100,
        x / 0x100_0000_0000_0000 == x / 0x1_0000_0000_0000 / 0x100,
        x / 0x100_0000_0000_0000 < 0x100,
{
}

/// A number is the sum of its bytes, each weighted by its place.
proof fn lemma_sum_of_bytes(x: u64)
    ensures
        x == byte_of(x, 0) + 0x100 * byte_of(x, 1) + 0x1_0000 * byte_of(x, 2) + 0x100_0000
            * byte_of(x, 3) + 0x1_0000_0000 * byte_of(x, 4) + 0x100_0000_0000 * byte_of(x, 5)
            + 0x1_0000_0000_0000 * byte_of(x, 6) + 0x100_0000_0000_0000 * byte_of(x, 7),
{
    lemma_divide_in_steps(x);
    let q1 = x / 0x100;
    let q2 = x / 0x1_0000;
    let q3 = x / 0x100_0000;
    let q4 = x / 0x1_0000_0000;
    let q5 = x / 0x100_0000_0000;
    let q6 = x / 0x1_0000_0000_0000;
    let q7 = x / 0x100_0000_0000_0000;
    assert(x == 0x100 * q1 + x % 0x100);
    assert(q1 == 0x100 * q2 + q1 % 0x100);
    assert(q2 == 0x100 * q3 + q2 % 0x100);
    assert(q3 == 0x100 * q4 + q3 % 0x100);
    assert(q4 == 0x100 * q5 + q4 % 0x100);
    assert(q5 == 0x100 * q6 + q5 % 0x100);
    assert(q6 == 0x100 * q7 + q6 % 0x100);
    assert(q7 == q7 % 0x100);
}

/// The bytes of a sum of eight weighted bytes are those bytes.
proof fn lemma_bytes_of_sum(b0: u8, b1: u8, b2: u8, b3: u8, b4: u8, b5: u8, b6: u8, b7: u8)
    ensures
        ({
            let x = (b0 + 0x100 * b1 + 0x1_0000 * b2 + 0x100_0000 * b3 + 0x1_0000_0000 * b4
                + 0x100_0000_0000 * b5 + 0x1_0000_0000_0000 * b6 + 0x100_0000_0000_0000 * b7) as u64;
            &&& byte_of(x, 0) == b0
            &&& byte_of(x, 1) == b1
            &&& byte_of(x, 2) == b2
            &&& byte_of(x, 3) == b3
            &&& byte_of(x, 4) == b4
            &&& byte_of(x, 5) == b5
            &&& byte_of(x, 6) == b6
            &&& byte_of(x, 7) == b7
        }),
{
    let v7: int = b7 as int;
    let v6: int = b6 + 0x100 * v7;
    let v5: int = b5 + 0x100 * v6;
    let v4: int = b4 + 0x100 * v5;
    let v3: int = b3 + 0x100 * v4;
    let v2: int = b2 + 0x100 * v3;
    let v1: int = b1 + 0x100 * v2;
    let v0: int = b0 + 0x100 * v1;
    let x = v0 as u64;
    assert(x == v0);
    lemma_divide_in_steps(x);
    assert(x / 0x100 == v1 && x % 0x100 == b0);
    assert(v1 / 0x100 == v2 && v1 % 0x100 == b1);
    assert(v2 / 0x100 == v3 && v2 % 0x100 == b2);
    assert(v3 / 0x100 == v4 && v3 % 0x100 == b3);
    assert(v4 / 0x100 == v5 && v4 % 0x100 == b4);
    assert(v5 / 0x100 == v6 && v5 % 0x100 == b5);
    assert(v6 / 0x100 == v7 && v6 % 0x100 == b6);
}

/// Reading back the little-endian bytes of a number gives the number.
pub proof fn lemma_le_bytes_value(x: u64)
    ensures
        le_u64(u64_le_bytes(x)) == x,
{
    lemma_sum_of_bytes(x);
}

/// Reading back the big-endian bytes of a number gives the number.
pub proof fn lemma_be_bytes_value(x: u64)
    ensures
        be_u64(u64_be_bytes(x)) == x,
{
    lemma_sum_of_bytes(x);
}

/// Eight bytes are the little-endian bytes of the number they spell.
pub proof fn lemma_le_value_bytes(b: Seq<u8>)
    requires
        b.len() == 8,
    ensures
        u64_le_bytes(le_u64(b)) == b,
{
    lemma_bytes_of_sum(b[0], b[1], b[2], b[3], b[4], b[5], b[6], b[7]);
    assert(u64_le_bytes(le_u64(b)) =~= b);
}

/// Eight bytes are the big-endian bytes of the number they spell.
pub proof fn lemma_be_value_bytes(b: Seq<u8>)
    requires
        b.len() == 8,
    ensures
        u64_be_bytes(be_u64(b)) == b,
{
    lemma_bytes_of_sum(b[7], b[6], b[5], b[4], b[3], b[2], b[1], b[0]);
    assert(u64_be_bytes(be_u64(b)) =~= b);
}

/// Reads a little-endian amount at `offset`.
pub fn read_u64_le(buf: &[u8], offset: usize) -> (value: u64)
    requires
        offset + U64_LEN <= buf.len(),
    ensures
        value == le_u64(buf@.subrange(offset as int, offset + U64_LEN)),
{
    let b0: u64 = buf[offset] as u64;
    let b1: u64 = buf[offset + 1] as u64;
    let b2: u64 = buf[offset + 2] as u64;
    let b3: u64 = buf[offset + 3] as u64;
    let b4: u64 = buf[offset + 4] as u64;
    let b5: u64 = buf[offset + 5] as u64;
    let b6: u64 = buf[offset + 6] as u64;
    let b7: u64 = buf[offset + 7] as u64;
    b0 + 0x100 * b1 + 0x1_0000 * b2 + 0x100_0000 * b3 + 0x1_0000_0000 * b4 + 0x100_0000_0000 * b5
        + 0x1_0000_0000_0000 * b6 + 0x100_0000_0000_0000 * b7
}

/// Reads a big-endian amount at `offset`.
pub fn read_u64_be(buf: &[u8], offset: usize) -> (value: u64)
    requires
        offset + U64_LEN <= buf.len(),
    ensures
        value == be_u64(buf@.subrange(offset as int, offset + U64_LEN)),
{
    let b0: u64 = buf[offset] as u64;
    let b1: u64 = buf[offset + 1] as u64;
    let b2: u64 = buf[offset + 2] as u64;
    let b3: u64 = buf[offset + 3] as u64;
    let b4: u64 = buf[offset + 4] as u64;
    let b5: u64 = buf[offset + 5] as u64;
    let b6: u64 = buf[offset + 6] as u64;
    let b7: u64 = buf[offset + 7] as u64;
    b7 + 0x100 * b6 + 0x1_0000 * b5 + 0x100_0000 * b4 + 0x1_0000_0000 * b3 + 0x100_0000_0000 * b2
        + 0x1_0000_0000_0000 * b1 + 0x100_0000_0000_0000 * b0
}

/// Byte `k` of `x`, counting from the least significant.
pub fn nth_byte(x: u64, k: usize) -> (byte: u8)
    requires
        k < U64_LEN,
    ensures
        byte == byte_of(x, k as int),
{
    let shifted: u64 = if k == 0 {
        x
    } else if k == 1 {
        x / 0x100
    } else if k == 2 {
        x / 0x1_0000
    } else if k == 3 {
        x / 0x100_0000
    } else if k == 4 {
        x / 0x1_0000_0000
    } else if k == 5 {
        x / 0x100_0000_0000
    } else if k == 6 {
        x / 0x1_0000_0000_0000
    } else {
        x / 0x100_0000_0000_0000
    };
    (shifted % 0x100) as u8
}

} // verus!
