//! Decoding of values and messages from either protocol.
use crate::data::{Double, List, Struct, TMap, TSet, Uuid};
use crate::error::Error;
use crate::message::Message;
use crate::wire::{advanced, agrees, parse_bytes, take_bytes, Parsed};
use vstd::prelude::*;

verus! {

/// Reading a uuid: sixteen bytes.
pub open spec fn parse_uuid(input: Seq<u8>) -> Parsed<Seq<u8>> {
    parse_bytes(input, 16)
}

/// Reads a uuid; both protocols write it as its sixteen bytes.
pub fn decode_uuid(reader: &mut &[u8]) -> (r: Result<Uuid, Error>)
    ensures
        agrees(r, final(reader)@, parse_uuid(old(reader)@)),
        advanced(r, old(reader)@, final(reader)@),
{
    let bytes = take_bytes(reader, 16)?;
    let mut buf = [0u8;16];
    let mut i: usize = 0;
    while i < 16
        invariant
            i <= 16,
            bytes@.len() == 16,
            forall|j: int| 0 <= j < i ==> buf@[j] == bytes@[j],
        decreases 16 - i,
    {
        buf[i] = bytes[i];
        i = i + 1;
    }
    assert(buf@ =~= bytes@);
    Ok(Uuid::new(buf))
}

/// This trait allows to decode objects which encoded by the Thrift Binary
/// protocol encoding.
pub trait BinaryDecode: Sized + View {
    /// What reading an object from the front of `input` gives in the binary
    /// protocol.
    spec fn binary_parse(input: Seq<u8>) -> Parsed<Self::V>;

    /// Decodes an object from the front of `reader` and leaves `reader` at
    /// the first byte after it. Where decoding fails, `reader` is left where
    /// the failure was found: at the end of the input where the input ended
    /// early, else after the last byte that was read.
    fn binary_decode(reader: &mut &[u8]) -> (r: Result<Self, Error>)
        ensures
            agrees(r, final(reader)@, Self::binary_parse(old(reader)@)),
            advanced(r, old(reader)@, final(reader)@),
    ;
}

impl BinaryDecode for bool {
    open spec fn binary_parse(input: Seq<u8>) -> Parsed<<bool as View>::V> {
        crate::binary::format::parse_bool(input)
    }

    fn binary_decode(reader: &mut &[u8]) -> (r: Result<Self, Error>) {
        crate::binary::decode::decode_bool(reader)
    }
}

impl BinaryDecode for i8 {
    open spec fn binary_parse(input: Seq<u8>) -> Parsed<<i8 as View>::V> {
        crate::binary::format::parse_i8(input)
    }

    fn binary_decode(reader: &mut &[u8]) -> (r: Result<Self, Error>) {
        crate::binary::decode::decode_i8(reader)
    }
}

impl BinaryDecode for i16 {
    open spec fn binary_parse(input: Seq<u8>) -> Parsed<<i16 as View>::V> {
        crate::binary::format::parse_i16(input)
    }

    fn binary_decode(reader: &mut &[u8]) -> (r: Result<Self, Error>) {
        crate::binary::decode::decode_i16(reader)
    }
}

impl BinaryDecode for i32 {
    open spec fn binary_parse(input: Seq<u8>) -> Parsed<<i32 as View>::V> {
        crate::binary::format::parse_i32(input)
    }

    fn binary_decode(reader: &mut &[u8]) -> (r: Result<Self, Error>) {
        crate::binary::decode::decode_i32(reader)
    }
}

impl BinaryDecode for i64 {
    open spec fn binary_parse(input: Seq<u8>) -> Parsed<<i64 as View>::V> {
        crate::binary::format::parse_i64(input)
    }

    fn binary_decode(reader: &mut &[u8]) -> (r: Result<Self, Error>) {
        crate::binary::decode::decode_i64(reader)
    }
}

impl BinaryDecode for Double {
    open spec fn binary_parse(input: Seq<u8>) -> Parsed<<Double as View>::V> {
        crate::binary::format::parse_double(input)
    }

    fn binary_decode(reader: &mut &[u8]) -> (r: Result<Self, Error>) {
        crate::binary::decode::decode_double(reader)
    }
}

impl BinaryDecode for Vec<u8> {
    open spec fn binary_parse(input: Seq<u8>) -> Parsed<<Vec<u8> as View>::V> {
        crate::binary::format::parse_binary(input)
    }

    fn binary_decode(reader: &mut &[u8]) -> (r: Result<Self, Error>) {
        crate::binary::decode::decode_binary(reader)
    }
}

impl BinaryDecode for Message {
    open spec fn binary_parse(input: Seq<u8>) -> Parsed<<Message as View>::V> {
        crate::binary::format::parse_message(input)
    }

    fn binary_decode(reader: &mut &[u8]) -> (r: Result<Self, Error>) {
        crate::binary::decode::decode_message(reader)
    }
}

impl BinaryDecode for Struct {
    open spec fn binary_parse(input: Seq<u8>) -> Parsed<<Struct as View>::V> {
        crate::binary::format::parse_struct(input)
    }

    fn binary_decode(reader: &mut &[u8]) -> (r: Result<Self, Error>) {
        crate::binary::decode::decode_struct(reader)
    }
}

impl BinaryDecode for TMap {
    open spec fn binary_parse(input: Seq<u8>) -> Parsed<<TMap as View>::V> {
        crate::binary::format::parse_map(input)
    }

    fn binary_decode(reader: &mut &[u8]) -> (r: Result<Self, Error>) {
        crate::binary::decode::decode_map(reader)
    }
}

impl BinaryDecode for TSet {
    open spec fn binary_parse(input: Seq<u8>) -> Parsed<<TSet as View>::V> {
        crate::binary::format::parse_column(input)
    }

    fn binary_decode(reader: &mut &[u8]) -> (r: Result<Self, Error>) {
        crate::binary::decode::decode_set(reader)
    }
}

impl BinaryDecode for List {
    open spec fn binary_parse(input: Seq<u8>) -> Parsed<<List as View>::V> {
        crate::binary::format::parse_column(input)
    }

    fn binary_decode(reader: &mut &[u8]) -> (r: Result<Self, Error>) {
        crate::binary::decode::decode_list(reader)
    }
}

impl BinaryDecode for Uuid {
    open spec fn binary_parse(input: Seq<u8>) -> Parsed<<Uuid as View>::V> {
        parse_uuid(input)
    }

    fn binary_decode(reader: &mut &[u8]) -> (r: Result<Self, Error>) {
        decode_uuid(reader)
    }
}

/// This trait allows to decode objects which encoded by the Thrift Compact
/// protocol encoding.
pub trait CompactDecode: Sized + View {
    /// What reading an object from the front of `input` gives in the compact
    /// protocol.
    spec fn compact_parse(input: Seq<u8>) -> Parsed<Self::V>;

    /// Decodes an object from the front of `reader` and leaves `reader` at
    /// the first byte after it. Where decoding fails, `reader` is left where
    /// the failure was found: at the end of the input where the input ended
    /// early, else after the last byte that was read.
    fn compact_decode(reader: &mut &[u8]) -> (r: Result<Self, Error>)
        ensures
            agrees(r, final(reader)@, Self::compact_parse(old(reader)@)),
            advanced(r, old(reader)@, final(reader)@),
    ;
}

impl CompactDecode for bool {
    open spec fn compact_parse(input: Seq<u8>) -> Parsed<<bool as View>::V> {
        crate::binary::format::parse_bool(input)
    }

    fn compact_decode(reader: &mut &[u8]) -> (r: Result<Self, Error>) {
        crate::binary::decode::decode_bool(reader)
    }
}

impl CompactDecode for i8 {
    open spec fn compact_parse(input: Seq<u8>) -> Parsed<<i8 as View>::V> {
        crate::binary::format::parse_i8(input)
    }

    fn compact_decode(reader: &mut &[u8]) -> (r: Result<Self, Error>) {
        crate::binary::decode::decode_i8(reader)
    }
}

impl CompactDecode for i16 {
    open spec fn compact_parse(input: Seq<u8>) -> Parsed<<i16 as View>::V> {
        crate::compact::format::parse_i16(input)
    }

    fn compact_decode(reader: &mut &[u8]) -> (r: Result<Self, Error>) {
        crate::compact::decode::decode_i16(reader)
    }
}

impl CompactDecode for i32 {
    open spec fn compact_parse(input: Seq<u8>) -> Parsed<<i32 as View>::V> {
        crate::compact::format::parse_i32(input)
    }

    fn compact_decode(reader: &mut &[u8]) -> (r: Result<Self, Error>) {
        crate::compact::decode::decode_i32(reader)
    }
}

impl CompactDecode for i64 {
    open spec fn compact_parse(input: Seq<u8>) -> Parsed<<i64 as View>::V> {
        crate::compact::format::parse_i64(input)
    }

    fn compact_decode(reader: &mut &[u8]) -> (r: Result<Self, Error>) {
        crate::compact::decode::decode_i64(reader)
    }
}

impl CompactDecode for Double {
    open spec fn compact_parse(input: Seq<u8>) -> Parsed<<Double as View>::V> {
        crate::compact::format::parse_double(input)
    }

    fn compact_decode(reader: &mut &[u8]) -> (r: Result<Self, Error>) {
        crate::compact::decode::decode_double(reader)
    }
}

impl CompactDecode for Vec<u8> {
    open spec fn compact_parse(input: Seq<u8>) -> Parsed<<Vec<u8> as View>::V> {
        crate::compact::format::parse_binary(input)
    }

    fn compact_decode(reader: &mut &[u8]) -> (r: Result<Self, Error>) {
        crate::compact::decode::decode_binary(reader)
    }
}

impl CompactDecode for Message {
    open spec fn compact_parse(input: Seq<u8>) -> Parsed<<Message as View>::V> {
        crate::compact::format::parse_message(input)
    }

    fn compact_decode(reader: &mut &[u8]) -> (r: Result<Self, Error>) {
        crate::compact::decode::decode_message(reader)
    }
}

impl CompactDecode for Struct {
    open spec fn compact_parse(input: Seq<u8>) -> Parsed<<Struct as View>::V> {
        crate::compact::format::parse_struct(input)
    }

    fn compact_decode(reader: &mut &[u8]) -> (r: Result<Self, Error>) {
        crate::compact::decode::decode_struct(reader)
    }
}

impl CompactDecode for TMap {
    open spec fn compact_parse(input: Seq<u8>) -> Parsed<<TMap as View>::V> {
        crate::compact::format::parse_map(input)
    }

    fn compact_decode(reader: &mut &[u8]) -> (r: Result<Self, Error>) {
        crate::compact::decode::decode_map(reader)
    }
}

impl CompactDecode for TSet {
    open spec fn compact_parse(input: Seq<u8>) -> Parsed<<TSet as View>::V> {
        crate::compact::format::parse_column(input)
    }

    fn compact_decode(reader: &mut &[u8]) -> (r: Result<Self, Error>) {
        crate::compact::decode::decode_set(reader)
    }
}

impl CompactDecode for List {
    open spec fn compact_parse(input: Seq<u8>) -> Parsed<<List as View>::V> {
        crate::compact::format::parse_column(input)
    }

    fn compact_decode(reader: &mut &[u8]) -> (r: Result<Self, Error>) {
        crate::compact::decode::decode_list(reader)
    }
}

impl CompactDecode for Uuid {
    open spec fn compact_parse(input: Seq<u8>) -> Parsed<<Uuid as View>::V> {
        parse_uuid(input)
    }

    fn compact_decode(reader: &mut &[u8]) -> (r: Result<Self, Error>) {
        decode_uuid(reader)
    }
}

} // verus!
