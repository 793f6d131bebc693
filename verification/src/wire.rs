//! Reading from the front of a byte slice and appending to a byte vector.
use crate::error::{Error, ErrorKind};
use vstd::prelude::*;
use vstd::slice::slice_subrange;

verus! {

/// What reading a value from the front of a byte string gives: the value and
/// the unread rest, or the kind of the failure and what was unread when it was
/// found.
pub type Parsed<T> = Result<(T, Seq<u8>), (ErrorKind, Seq<u8>)>;

/// The outcome of a read that gave `v` and left `rest`.
pub open spec fn parsed<T>(v: T, rest: Seq<u8>) -> Parsed<T> {
    Ok((v, rest))
}

/// The outcome of a read that failed with an error of the kind `kind` when
/// `rest` was unread.
pub open spec fn failed<T>(kind: ErrorKind, rest: Seq<u8>) -> Parsed<T> {
    Err((kind, rest))
}

/// Whether a read failed with an error of the kind `kind`.
pub open spec fn fails<T>(outcome: Parsed<T>, kind: ErrorKind) -> bool {
    outcome matches Err((k, _)) && k == kind
}

/// Whether the outcome `r` of a decoder that left `rest` unread is the one
/// that `expected` describes: the same value, or an error of the same kind,
/// and the same rest.
pub open spec fn agrees<T: View>(r: Result<T, Error>, rest: Seq<u8>, expected: Parsed<T::V>) -> bool {
    match expected {
        Ok((v, s)) => r matches Ok(x) && x@ == v && rest == s,
        Err((k, s)) => r matches Err(e) && e@ == k && rest == s,
    }
}

/// Whether a decoder that found `before` and left `after` moved forward: it
/// never leaves more than it found, and less where it succeeded.
pub open spec fn advanced<T>(r: Result<T, Error>, before: Seq<u8>, after: Seq<u8>) -> bool {
    after.len() <= before.len() && (r is Ok ==> after.len() < before.len())
}

/// Whether the outcome `r` of an encoder that turned the output `before`
/// into `after` is the one that `expected` describes: the bytes were
/// appended, or the encoder failed with `InvalidInput` and left the output as
/// it was.
pub open spec fn appended(
    r: Result<(), Error>,
    before: Seq<u8>,
    after: Seq<u8>,
    expected: Option<Seq<u8>>,
) -> bool {
    match expected {
        Some(bytes) => r is Ok && after == before + bytes,
        None => r matches Err(e) && e@ == ErrorKind::InvalidInput && after == before,
    }
}

/// Reading one byte: the first byte, or `Other` at the end of the input.
pub open spec fn parse_u8(input: Seq<u8>) -> Parsed<u8> {
    if input.len() < 1 {
        failed(ErrorKind::Other, input)
    } else {
        Ok((input[0], input.skip(1)))
    }
}

/// Reading `n` bytes: the first `n` bytes, or `Other` where the input is
/// shorter.
pub open spec fn parse_bytes(input: Seq<u8>, n: nat) -> Parsed<Seq<u8>> {
    if input.len() < n {
        failed(ErrorKind::Other, input)
    } else {
        Ok((input.take(n as int), input.skip(n as int)))
    }
}

/// Takes the first byte off `reader`.
pub fn take_u8(reader: &mut &[u8]) -> (r: Result<u8, Error>)
    ensures
        agrees(r, final(reader)@, parse_u8(old(reader)@)),
        final(reader)@.len() <= old(reader)@.len(),
{
    if reader.len() < 1 {
        return Err(Error::other());
    }
    let b = reader[0];
    *reader = slice_subrange(*reader, 1, reader.len());
    Ok(b)
}

/// Takes the first `n` bytes off `reader`.
pub fn take_bytes<'a>(reader: &mut &'a [u8], n: usize) -> (r: Result<&'a [u8], Error>)
    ensures
        agrees(r, final(reader)@, parse_bytes(old(reader)@, n as nat)),
        final(reader)@.len() <= old(reader)@.len(),
{
    if reader.len() < n {
        return Err(Error::other());
    }
    let head = slice_subrange(*reader, 0, n);
    *reader = slice_subrange(*reader, n, reader.len());
    Ok(head)
}

/// Appends one byte to `writer`.
pub fn put_u8(writer: &mut Vec<u8>, b: u8)
    ensures
        final(writer)@ == old(writer)@ + seq![b],
{
    writer.push(b);
    assert(writer@ =~= old(writer)@ + seq![b]);
}

/// Appends `bytes` to `writer`.
pub fn put_bytes(writer: &mut Vec<u8>, bytes: &[u8])
    ensures
        final(writer)@ == old(writer)@ + bytes@,
{
    writer.extend_from_slice(bytes);
    assert(writer@ =~= old(writer)@ + bytes@);
}

/// Concatenation is associative.
pub proof fn lemma_concat(a: Seq<u8>, b: Seq<u8>, c: Seq<u8>)
    ensures
        (a + b) + c == a + (b + c),
{
    assert((a + b) + c =~= a + (b + c));
}

} // verus!
