//! Variable-length unsigned integers (unsigned LEB128).
//!
//! A varint spells a number in base 128, least significant digit first. Each
//! byte carries one digit in its low seven bits; its high bit is set on every
//! byte but the last.
use crate::error::{Error, ErrorKind};
use crate::wire::{agrees, failed, parsed, put_u8, take_u8, Parsed};
use vstd::prelude::*;

verus! {

/// The varint of `n`.
pub open spec fn varint_bytes(n: nat) -> Seq<u8>
    decreases n,
{
    if n < 128 {
        seq![n as u8]
    } else {
        seq![(n % 128 + 128) as u8] + varint_bytes(n / 128)
    }
}

/// `128` to the power `i`.
pub open spec fn pow128(i: nat) -> nat
    decreases i,
{
    if i == 0 {
        1
    } else {
        128 * pow128((i - 1) as nat)
    }
}

/// Reading a varint of at most `limit` bytes, whatever number it spells:
/// `Other` where the input ends before the last byte of the varint,
/// `InvalidInput` where the varint goes on after `limit` bytes.
pub open spec fn parse_digits(input: Seq<u8>, limit: nat) -> Parsed<nat>
    decreases limit,
{
    if limit == 0 {
        failed(ErrorKind::InvalidInput, input)
    } else if input.len() == 0 {
        failed(ErrorKind::Other, input)
    } else if input[0] < 128 {
        Ok((input[0] as nat, input.skip(1)))
    } else {
        match parse_digits(input.skip(1), (limit - 1) as nat) {
            Ok((v, rest)) => Ok(((input[0] - 128) as nat + 128 * v, rest)),
            Err(k) => Err(k),
        }
    }
}

/// Reading a varint of at most `limit` bytes that spells a number up to
/// `max`; a larger number is `InvalidInput`.
pub open spec fn parse_bounded(input: Seq<u8>, limit: nat, max: nat) -> Parsed<nat> {
    match parse_digits(input, limit) {
        Ok((v, rest)) => if v <= max {
            Ok((v, rest))
        } else {
            failed(ErrorKind::InvalidInput, rest)
        },
        Err(k) => Err(k),
    }
}

/// Reading a 64-bit varint: at most ten bytes, and a number that fits.
pub open spec fn parse_varint(input: Seq<u8>) -> Parsed<u64> {
    match parse_bounded(input, 10, u64::MAX as nat) {
        Ok((v, rest)) => Ok((v as u64, rest)),
        Err(k) => Err(k),
    }
}

/// Reading a 32-bit varint: at most five bytes, and a number that fits.
pub open spec fn parse_varint32(input: Seq<u8>) -> Parsed<u32> {
    match parse_bounded(input, 5, u32::MAX as nat) {
        Ok((v, rest)) => Ok((v as u32, rest)),
        Err(k) => Err(k),
    }
}

/// The outcome of a read that found `acc` in the digits below `scale` and
/// `res` in the digits from there on.
pub open spec fn shifted(res: Parsed<nat>, acc: nat, scale: nat) -> Parsed<nat> {
    match res {
        Ok((v, rest)) => Ok((acc + scale * v, rest)),
        Err(k) => Err(k),
    }
}

proof fn lemma_pow128_values()
    ensures
        pow128(0) == 1,
        pow128(4) == 0x1000_0000,
        pow128(5) == 0x8_0000_0000,
        pow128(9) == 0x8000_0000_0000_0000,
        pow128(10) == 0x40_0000_0000_0000_0000,
        forall|i: nat| #[trigger] pow128(i + 1) == 128 * pow128(i),
{
    reveal_with_fuel(pow128, 11);
}

proof fn lemma_pow128_monotone(i: nat, j: nat)
    requires
        i <= j,
    ensures
        0 < pow128(i) <= pow128(j),
    decreases j,
{
    if j > 0 {
        if i < j {
            lemma_pow128_monotone(i, (j - 1) as nat);
        } else {
            lemma_pow128_monotone((i - 1) as nat, (j - 1) as nat);
        }
    }
}

proof fn lemma_shifted_step(input: Seq<u8>, limit: nat, acc: nat, scale: nat)
    requires
        limit > 0,
        input.len() > 0,
        input[0] >= 128,
    ensures
        shifted(parse_digits(input, limit), acc, scale) == shifted(
            parse_digits(input.skip(1), (limit - 1) as nat),
            acc + scale * (input[0] - 128) as nat,
            scale * 128,
        ),
{
    match parse_digits(input.skip(1), (limit - 1) as nat) {
        Ok((v, rest)) => {
            let d = (input[0] - 128) as nat;
            assert(acc + scale * (d + 128 * v) == (acc + scale * d) + (scale * 128) * v)
                by (nonlinear_arith);
        },
        Err(_) => {},
    }
}

/// Reads a varint of at most `limit` bytes whose last permitted byte may
/// carry a digit up to `top`.
fn read_bounded(reader: &mut &[u8], limit: u32, top: u8, Ghost(max): Ghost<nat>) -> (r: Result<
    u64,
    Error,
>)
    requires
        1 <= limit <= 10,
        1 <= top < 128,
        max + 1 == (top + 1) * pow128((limit - 1) as nat),
        max <= u64::MAX,
    ensures
        match parse_bounded(old(reader)@, limit as nat, max) {
            Ok((v, rest)) => r matches Ok(x) && x == v && final(reader)@ == rest,
            Err((k, rest)) => r matches Err(e) && e@ == k && final(reader)@ == rest,
        },
        final(reader)@.len() <= old(reader)@.len(),
        r is Ok ==> final(reader)@.len() < old(reader)@.len(),
{
    let ghost input = reader@;
    let ghost last = pow128((limit - 1) as nat);
    let mut acc: u64 = 0;
    let mut scale: u64 = 1;
    let mut i: u32 = 0;
    proof {
        lemma_pow128_values();
        lemma_pow128_monotone(0, (limit - 1) as nat);
        assert(2 * last <= (top + 1) * last) by (nonlinear_arith)
            requires
                top >= 1,
                last > 0,
        ;
    }
    while i < limit
        invariant
            input == old(reader)@,
            last == pow128((limit - 1) as nat),
            1 <= limit <= 10,
            i <= limit,
            1 <= top < 128,
            max + 1 == (top + 1) * last,
            2 * last <= max + 1,
            max <= u64::MAX,
            scale == pow128(i as nat),
            acc < scale,
            i < limit ==> scale <= last,
            parse_digits(input, limit as nat) == shifted(
                parse_digits(reader@, (limit - i) as nat),
                acc as nat,
                scale as nat,
            ),
            reader@.len() + i == input.len(),
        decreases limit - i,
    {
        let ghost before = reader@;
        let b = match take_u8(reader) {
            Ok(b) => b,
            Err(e) => {
                return Err(e);
            },
        };
        let digit: u8 = b & 0x7f;
        let more: bool = (b & 0x80) != 0;
        assert(digit == b % 128 && more == (b >= 128)) by (bit_vector)
            requires
                digit == b & 0x7f,
                more == ((b & 0x80) != 0),
        ;
        let ghost here = parse_digits(before, (limit - i) as nat);
        let ghost term: nat = (scale * digit) as nat;
        assert(term == scale * digit && term <= scale * 127) by (nonlinear_arith)
            requires
                term == (scale * digit) as nat,
                0 <= digit <= 127,
                scale > 0,
        ;
        if i == limit - 1 && (more || digit > top) {
            proof {
                if more {
                    assert(parse_digits(before.skip(1), 0) is Err);
                    assert(here == failed::<nat>(ErrorKind::InvalidInput, reader@));
                } else {
                    assert(here == parsed::<nat>(digit as nat, reader@));
                    assert(scale * digit >= scale * (top + 1)) by (nonlinear_arith)
                        requires
                            digit > top,
                            scale > 0,
                    ;
                    assert(scale * (top + 1) == (top + 1) * last) by (nonlinear_arith)
                        requires
                            scale == last,
                    ;
                }
            }
            return Err(Error::invalid_input());
        }
        proof {
            if i == limit - 1 {
                assert(scale * digit + scale <= scale * (top + 1)) by (nonlinear_arith)
                    requires
                        digit <= top,
                        scale > 0,
                ;
                assert(scale * (top + 1) == (top + 1) * last) by (nonlinear_arith)
                    requires
                        scale == last,
                ;
            } else {
                lemma_pow128_monotone((i + 1) as nat, (limit - 1) as nat);
                assert(scale * 128 == pow128((i + 1) as nat));
            }
            assert(acc + term <= max);
        }
        acc = acc + scale * (digit as u64);
        if !more {
            proof {
                assert(here == parsed::<nat>(digit as nat, reader@));
            }
            return Ok(acc);
        }
        proof {
            lemma_shifted_step(before, (limit - i) as nat, (acc - term) as nat, scale as nat);
        }
        scale = scale * 128;
        i = i + 1;
    }
    Err(Error::invalid_input())
}

/// Reads a 64-bit varint from the front of `reader`.
pub fn read_varint(reader: &mut &[u8]) -> (r: Result<u64, Error>)
    ensures
        agrees(r, final(reader)@, parse_varint(old(reader)@)),
        final(reader)@.len() <= old(reader)@.len(),
        r is Ok ==> final(reader)@.len() < old(reader)@.len(),
{
    proof {
        lemma_pow128_values();
    }
    read_bounded(reader, 10, 1, Ghost(u64::MAX as nat))
}

/// Reads a 32-bit varint from the front of `reader`.
pub fn read_varint32(reader: &mut &[u8]) -> (r: Result<u32, Error>)
    ensures
        agrees(r, final(reader)@, parse_varint32(old(reader)@)),
        final(reader)@.len() <= old(reader)@.len(),
        r is Ok ==> final(reader)@.len() < old(reader)@.len(),
{
    proof {
        lemma_pow128_values();
    }
    match read_bounded(reader, 5, 15, Ghost(u32::MAX as nat)) {
        Ok(v) => Ok(v as u32),
        Err(e) => Err(e),
    }
}

/// Appends the varint of `n` to `writer`.
pub fn write_varint(writer: &mut Vec<u8>, n: u64)
    ensures
        final(writer)@ == old(writer)@ + varint_bytes(n as nat),
{
    let mut n = n;
    let ghost start = writer@;
    let ghost whole = varint_bytes(n as nat);
    loop
        invariant_except_break
            start + whole == writer@ + varint_bytes(n as nat),
        ensures
            writer@ == start + whole,
        decreases n,
    {
        let ghost before = writer@;
        let ghost m = n;
        let mut b: u8 = #[verifier::truncate] ((n & 0x7f) as u8);
        n = n >> 7;
        assert(b == m % 128 && n == m / 128) by (bit_vector)
            requires
                b == (m & 0x7f) as u8,
                n == m >> 7u64,
        ;
        if n != 0 {
            let low: u8 = b;
            b = b | 0x80;
            assert(b == low + 128) by (bit_vector)
                requires
                    b == low | 0x80,
                    low < 128,
            ;
        }
        put_u8(writer, b);
        proof {
            if m < 128 {
                assert(before + varint_bytes(m as nat) =~= writer@);
            } else {
                assert(before + varint_bytes(m as nat) =~= writer@ + varint_bytes(n as nat));
            }
        }
        if n == 0 {
            break ;
        }
    }
}

/// Appends the varint of a 32-bit number to `writer`.
pub fn write_var32(writer: &mut Vec<u8>, n: u32)
    ensures
        final(writer)@ == old(writer)@ + varint_bytes(n as nat),
{
    write_varint(writer, n as u64)
}

/// Appends the varint of a 64-bit number to `writer`.
pub fn write_var64(writer: &mut Vec<u8>, n: u64)
    ensures
        final(writer)@ == old(writer)@ + varint_bytes(n as nat),
{
    write_varint(writer, n)
}

/// A varint of a number below `128` to the `limit` has between one and `limit`
/// bytes, and reading reverses writing: the varint of such a number, followed
/// by anything, reads back as that number and leaves what followed.
pub proof fn lemma_digits_round_trip(n: nat, limit: nat, tail: Seq<u8>)
    requires
        limit >= 1,
        n < pow128(limit),
    ensures
        1 <= varint_bytes(n).len() <= limit,
        parse_digits(varint_bytes(n) + tail, limit) == parsed::<nat>(n, tail),
    decreases n,
{
    let input = varint_bytes(n) + tail;
    if n < 128 {
        assert(input.skip(1) =~= tail);
    } else {
        assert(limit >= 2) by {
            reveal_with_fuel(pow128, 2);
        }
        lemma_digits_round_trip(n / 128, (limit - 1) as nat, tail);
        assert(input.skip(1) =~= varint_bytes(n / 128) + tail);
    }
}

/// Reading reverses writing: the varint of any `u64`, followed by anything,
/// reads back as that number and leaves what followed. It has at most ten
/// bytes.
pub proof fn lemma_varint_round_trip(n: u64, tail: Seq<u8>)
    ensures
        1 <= varint_bytes(n as nat).len() <= 10,
        parse_varint(varint_bytes(n as nat) + tail) == parsed::<u64>(n, tail),
{
    lemma_pow128_values();
    lemma_digits_round_trip(n as nat, 10, tail);
}

/// Reading reverses writing for 32-bit numbers: the varint of any `u32`,
/// followed by anything, reads back as that number, also as a 64-bit varint,
/// and leaves what followed. It has at most five bytes.
pub proof fn lemma_varint32_round_trip(n: u32, tail: Seq<u8>)
    ensures
        1 <= varint_bytes(n as nat).len() <= 5,
        parse_varint32(varint_bytes(n as nat) + tail) == parsed::<u32>(n, tail),
{
    lemma_pow128_values();
    lemma_digits_round_trip(n as nat, 5, tail);
}

/// A varint that goes on after `limit` bytes is rejected: where the first
/// `limit` bytes of the input all have their high bit set, reading fails with
/// `InvalidInput`.
pub proof fn lemma_digits_too_long(input: Seq<u8>, limit: nat)
    requires
        input.len() >= limit,
        forall|i: int| 0 <= i < limit ==> #[trigger] input[i] >= 128,
    ensures
        parse_digits(input, limit) == failed::<nat>(
            ErrorKind::InvalidInput,
            input.skip(limit as int),
        ),
    decreases limit,
{
    if limit > 0 {
        let rest = input.skip(1);
        assert forall|i: int| 0 <= i < limit - 1 implies #[trigger] rest[i] >= 128 by {
            assert(rest[i] == input[i + 1]);
        }
        lemma_digits_too_long(rest, (limit - 1) as nat);
        assert(rest.skip(limit - 1) =~= input.skip(limit as int));
    } else {
        assert(input.skip(0) =~= input);
    }
}

/// A varint of more than ten bytes is rejected as a 64-bit number, one of
/// more than five bytes as a 32-bit number: both fail with `InvalidInput`.
pub proof fn lemma_varint_too_long(input: Seq<u8>)
    ensures
        input.len() >= 10 && (forall|i: int| 0 <= i < 10 ==> #[trigger] input[i] >= 128)
            ==> parse_varint(input) == failed::<u64>(ErrorKind::InvalidInput, input.skip(10)),
        input.len() >= 5 && (forall|i: int| 0 <= i < 5 ==> #[trigger] input[i] >= 128)
            ==> parse_varint32(input) == failed::<u32>(ErrorKind::InvalidInput, input.skip(5)),
{
    if input.len() >= 10 && (forall|i: int| 0 <= i < 10 ==> #[trigger] input[i] >= 128) {
        lemma_digits_too_long(input, 10);
    }
    if input.len() >= 5 && (forall|i: int| 0 <= i < 5 ==> #[trigger] input[i] >= 128) {
        lemma_digits_too_long(input, 5);
    }
}

/// Reading a varint moves forward: what is left is shorter than the input.
pub proof fn lemma_digits_shorten(input: Seq<u8>, limit: nat)
    ensures
        parse_digits(input, limit) matches Ok((_, rest)) ==> rest.len() < input.len(),
    decreases limit,
{
    if limit > 0 && input.len() > 0 && input[0] >= 128 {
        lemma_digits_shorten(input.skip(1), (limit - 1) as nat);
    }
}

/// Reading a 64-bit or a 32-bit varint moves forward: what is left is
/// shorter than the input.
pub proof fn lemma_varint_shortens(input: Seq<u8>)
    ensures
        parse_varint(input) matches Ok((_, rest)) ==> rest.len() < input.len(),
        parse_varint32(input) matches Ok((_, rest)) ==> rest.len() < input.len(),
{
    lemma_digits_shorten(input, 10);
    lemma_digits_shorten(input, 5);
}

} // verus!
