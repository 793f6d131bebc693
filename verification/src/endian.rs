//! Fixed-width integers as byte strings, in either byte order.
//!
//! The byte strings are described by four spec functions on natural numbers;
//! signed integers go through their two's-complement image. The conversions
//! themselves are done by the `byteorder` crate.
use byteorder::{BigEndian, ByteOrder, LittleEndian};
use vstd::prelude::*;

verus! {

/// The number that `b` spells in base 256, most significant byte first.
pub open spec fn be_nat(b: Seq<u8>) -> nat
    decreases b.len(),
{
    if b.len() == 0 {
        0
    } else {
        be_nat(b.drop_last()) * 256 + b.last() as nat
    }
}

/// The number that `b` spells in base 256, least significant byte first.
pub open spec fn le_nat(b: Seq<u8>) -> nat
    decreases b.len(),
{
    if b.len() == 0 {
        0
    } else {
        b.first() as nat + 256 * le_nat(b.drop_first())
    }
}

/// The `len` low base-256 digits of `n`, most significant first.
pub open spec fn be_bytes(n: nat, len: nat) -> Seq<u8>
    decreases len,
{
    if len == 0 {
        Seq::empty()
    } else {
        be_bytes(n / 256, (len - 1) as nat).push((n % 256) as u8)
    }
}

/// The `len` low base-256 digits of `n`, least significant first.
pub open spec fn le_bytes(n: nat, len: nat) -> Seq<u8>
    decreases len,
{
    if len == 0 {
        Seq::empty()
    } else {
        seq![(n % 256) as u8] + le_bytes(n / 256, (len - 1) as nat)
    }
}

/// The two's-complement image of `v` in a word of `modulus` values.
pub open spec fn to_unsigned(v: int, modulus: int) -> nat {
    if v < 0 {
        (v + modulus) as nat
    } else {
        v as nat
    }
}

/// The signed integer whose two's-complement image in a word of `modulus`
/// values is `u`.
pub open spec fn to_signed(u: nat, modulus: int) -> int {
    if 2 * u >= modulus {
        u - modulus
    } else {
        u as int
    }
}

/// Whether `n` has at most `len` base-256 digits.
pub open spec fn fits(n: nat, len: nat) -> bool
    decreases len,
{
    if len == 0 {
        n == 0
    } else {
        fits(n / 256, (len - 1) as nat)
    }
}

/// Reading back the big-endian digits of a number that fits gives the number.
pub proof fn lemma_be_round_trip(n: nat, len: nat)
    requires
        fits(n, len),
    ensures
        be_bytes(n, len).len() == len,
        be_nat(be_bytes(n, len)) == n,
    decreases len,
{
    if len > 0 {
        lemma_be_round_trip(n / 256, (len - 1) as nat);
        let front = be_bytes(n / 256, (len - 1) as nat);
        assert(be_bytes(n, len).drop_last() =~= front);
    }
}

/// Reading back the little-endian digits of a number that fits gives the
/// number.
pub proof fn lemma_le_round_trip(n: nat, len: nat)
    requires
        fits(n, len),
    ensures
        le_bytes(n, len).len() == len,
        le_nat(le_bytes(n, len)) == n,
    decreases len,
{
    if len > 0 {
        lemma_le_round_trip(n / 256, (len - 1) as nat);
        let back = le_bytes(n / 256, (len - 1) as nat);
        assert(le_bytes(n, len).drop_first() =~= back);
    }
}

/// Every 16-, 32- and 64-bit word fits its width.
pub proof fn lemma_words_fit(n: nat)
    ensures
        n < 0x1_0000 ==> fits(n, 2),
        n < 0x1_0000_0000 ==> fits(n, 4),
        n < 0x1_0000_0000_0000_0000 ==> fits(n, 8),
{
    reveal_with_fuel(fits, 9);
}

/// `BigEndian::read_u16` of `byteorder`: the first two bytes of `buf`, read
/// as a big-endian number.
#[verifier::external_body]
pub(crate) fn read_u16_be(buf: &[u8]) -> (r: u16)
    requires
        buf@.len() >= 2,
    ensures
        r as nat == be_nat(buf@.subrange(0, 2)),
{
    BigEndian::read_u16(buf)
}

/// `BigEndian::read_i16` of `byteorder`: the first two bytes of `buf`, read
/// as a big-endian number in two's complement.
#[verifier::external_body]
pub(crate) fn read_i16_be(buf: &[u8]) -> (r: i16)
    requires
        buf@.len() >= 2,
    ensures
        r as int == to_signed(be_nat(buf@.subrange(0, 2)), 0x1_0000),
{
    BigEndian::read_i16(buf)
}

/// `BigEndian::read_i32` of `byteorder`: the first four bytes of `buf`, read
/// as a big-endian number in two's complement.
#[verifier::external_body]
pub(crate) fn read_i32_be(buf: &[u8]) -> (r: i32)
    requires
        buf@.len() >= 4,
    ensures
        r as int == to_signed(be_nat(buf@.subrange(0, 4)), 0x1_0000_0000),
{
    BigEndian::read_i32(buf)
}

/// `BigEndian::read_i64` of `byteorder`: the first eight bytes of `buf`, read
/// as a big-endian number in two's complement.
#[verifier::external_body]
pub(crate) fn read_i64_be(buf: &[u8]) -> (r: i64)
    requires
        buf@.len() >= 8,
    ensures
        r as int == to_signed(be_nat(buf@.subrange(0, 8)), 0x1_0000_0000_0000_0000),
{
    BigEndian::read_i64(buf)
}

/// `BigEndian::read_u64` of `byteorder`: the first eight bytes of `buf`, read
/// as a big-endian number.
#[verifier::external_body]
pub(crate) fn read_u64_be(buf: &[u8]) -> (r: u64)
    requires
        buf@.len() >= 8,
    ensures
        r as nat == be_nat(buf@.subrange(0, 8)),
{
    BigEndian::read_u64(buf)
}

/// `LittleEndian::read_u64` of `byteorder`: the first eight bytes of `buf`,
/// read as a little-endian number.
#[verifier::external_body]
pub(crate) fn read_u64_le(buf: &[u8]) -> (r: u64)
    requires
        buf@.len() >= 8,
    ensures
        r as nat == le_nat(buf@.subrange(0, 8)),
{
    LittleEndian::read_u64(buf)
}

/// `BigEndian::write_u16` of `byteorder`, on a buffer of two bytes: the two
/// big-endian bytes of `n`.
#[verifier::external_body]
pub(crate) fn u16_be(n: u16) -> (r: [u8; 2])
    ensures
        r@ == be_bytes(n as nat, 2),
{
    let mut buf = [0u8; 2];
    BigEndian::write_u16(&mut buf, n);
    buf
}

/// `BigEndian::write_i16` of `byteorder`, on a buffer of two bytes: the two
/// big-endian bytes of the two's-complement image of `n`.
#[verifier::external_body]
pub(crate) fn i16_be(n: i16) -> (r: [u8; 2])
    ensures
        r@ == be_bytes(to_unsigned(n as int, 0x1_0000), 2),
{
    let mut buf = [0u8; 2];
    BigEndian::write_i16(&mut buf, n);
    buf
}

/// `BigEndian::write_i32` of `byteorder`, on a buffer of four bytes: the four
/// big-endian bytes of the two's-complement image of `n`.
#[verifier::external_body]
pub(crate) fn i32_be(n: i32) -> (r: [u8; 4])
    ensures
        r@ == be_bytes(to_unsigned(n as int, 0x1_0000_0000), 4),
{
    let mut buf = [0u8; 4];
    BigEndian::write_i32(&mut buf, n);
    buf
}

/// `BigEndian::write_i64` of `byteorder`, on a buffer of eight bytes: the
/// eight big-endian bytes of the two's-complement image of `n`.
#[verifier::external_body]
pub(crate) fn i64_be(n: i64) -> (r: [u8; 8])
    ensures
        r@ == be_bytes(to_unsigned(n as int, 0x1_0000_0000_0000_0000), 8),
{
    let mut buf = [0u8; 8];
    BigEndian::write_i64(&mut buf, n);
    buf
}

/// `BigEndian::write_u64` of `byteorder`, on a buffer of eight bytes: the
/// eight big-endian bytes of `n`.
#[verifier::external_body]
pub(crate) fn u64_be(n: u64) -> (r: [u8; 8])
    ensures
        r@ == be_bytes(n as nat, 8),
{
    let mut buf = [0u8; 8];
    BigEndian::write_u64(&mut buf, n);
    buf
}

/// `LittleEndian::write_u64` of `byteorder`, on a buffer of eight bytes: the
/// eight little-endian bytes of `n`.
#[verifier::external_body]
pub(crate) fn u64_le(n: u64) -> (r: [u8; 8])
    ensures
        r@ == le_bytes(n as nat, 8),
{
    let mut buf = [0u8; 8];
    LittleEndian::write_u64(&mut buf, n);
    buf
}

} // verus!
