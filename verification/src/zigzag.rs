//! ZigZag mapping between signed and unsigned integers.
//!
//! ZigZag interleaves the negative and the non-negative integers so that
//! values of small magnitude get small images: `0, -1, 1, -2, 2, ...` map to
//! `0, 1, 2, 3, 4, ...`.
use vstd::prelude::*;

verus! {

/// The ZigZag image of a signed integer: a non-negative `n` goes to `2n`,
/// a negative `n` goes to `-2n - 1`.
pub open spec fn zigzag(n: int) -> int {
    if n >= 0 {
        2 * n
    } else {
        -2 * n - 1
    }
}

/// The signed integer whose ZigZag image is `z`.
pub open spec fn unzigzag(z: int) -> int {
    if z % 2 == 0 {
        z / 2
    } else {
        -(z / 2) - 1
    }
}

/// Maps a signed 32-bit integer to its ZigZag image.
pub fn from_i32(n: i32) -> (z: u32)
    ensures
        z == zigzag(n as int),
{
    assert(((n << 1u32) ^ (n >> 31u32)) as u32 == (if n >= 0 {
        2 * n
    } else {
        -2 * n - 1
    })) by (bit_vector);
    ((n << 1) ^ (n >> 31)) as u32
}

/// Maps a signed 64-bit integer to its ZigZag image.
pub fn from_i64(n: i64) -> (z: u64)
    ensures
        z == zigzag(n as int),
{
    assert(((n << 1u32) ^ (n >> 63u32)) as u64 == (if n >= 0 {
        2 * n
    } else {
        -2 * n - 1
    })) by (bit_vector);
    ((n << 1) ^ (n >> 63)) as u64
}

/// The ZigZag image of a 32-bit integer, under the name that the varint
/// writers know it by.
pub fn i32_to_zigzag(n: i32) -> (z: u32)
    ensures
        z == zigzag(n as int),
{
    from_i32(n)
}

/// The ZigZag image of a 64-bit integer, under the name that the varint
/// writers know it by.
pub fn i64_to_zigzag(n: i64) -> (z: u64)
    ensures
        z == zigzag(n as int),
{
    from_i64(n)
}

/// Maps a ZigZag image back to the signed 32-bit integer it stands for.
pub fn to_i32(z: u32) -> (n: i32)
    ensures
        n == unzigzag(z as int),
{
    let low: i32 = (z as i32) & 1;
    assert(low == 0 || low == 1) by (bit_vector)
        requires
            low == (z as i32) & 1i32,
    ;
    let n: i32 = (z >> 1) as i32 ^ -low;
    assert(n == (if z % 2 == 0 {
        (z / 2) as int
    } else {
        -(z / 2) - 1
    })) by (bit_vector)
        requires
            low == (z as i32) & 1i32,
            n == (z >> 1u32) as i32 ^ (-low) as i32,
    ;
    n
}

/// Maps a ZigZag image back to the signed 64-bit integer it stands for.
pub fn to_i64(z: u64) -> (n: i64)
    ensures
        n == unzigzag(z as int),
{
    let low: i64 = (z as i64) & 1;
    assert(low == 0 || low == 1) by (bit_vector)
        requires
            low == (z as i64) & 1i64,
    ;
    let n: i64 = (z >> 1) as i64 ^ -low;
    assert(n == (if z % 2 == 0 {
        (z / 2) as int
    } else {
        -(z / 2) - 1
    })) by (bit_vector)
        requires
            low == (z as i64) & 1i64,
            n == (z >> 1u32) as i64 ^ (-low) as i64,
    ;
    n
}

/// Decoding inverts encoding: `unzigzag(zigzag(n)) == n` for every integer,
/// and the image of an `i32` is a `u32`, that of an `i64` a `u64`.
pub proof fn lemma_unzigzag_zigzag(n: int)
    ensures
        unzigzag(zigzag(n)) == n,
        zigzag(n) >= 0,
        i32::MIN <= n <= i32::MAX ==> zigzag(n) <= u32::MAX,
        i64::MIN <= n <= i64::MAX ==> zigzag(n) <= u64::MAX,
{
}

/// Encoding inverts decoding: `zigzag(unzigzag(z)) == z` for every
/// non-negative integer, and a `u32` decodes to an `i32`, a `u64` to an `i64`.
pub proof fn lemma_zigzag_unzigzag(z: int)
    requires
        z >= 0,
    ensures
        zigzag(unzigzag(z)) == z,
        z <= u32::MAX ==> i32::MIN <= unzigzag(z) <= i32::MAX,
        z <= u64::MAX ==> i64::MIN <= unzigzag(z) <= i64::MAX,
{
}

} // verus!
