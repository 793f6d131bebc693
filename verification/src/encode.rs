//! Encoding of values and messages into either protocol.
use crate::data::{Data, DataRef, Double, List, Struct, TMap, TSet};
use crate::error::Error;
use crate::message::Message;
use crate::wire::appended;
use vstd::prelude::*;

verus! {

/// This trait allows to encode objects to the binaries specified by
/// the Thrift Binary protocol encoding.
pub trait BinaryEncode {
    /// The bytes of `self` in the binary protocol, where it can be encoded.
    spec fn binary_wire(&self) -> Option<Seq<u8>>;

    /// Encodes an object: appends its bytes to `writer`. Where the object
    /// cannot be encoded, fails with `InvalidInput` and leaves `writer` as it
    /// was.
    fn binary_encode(&self, writer: &mut Vec<u8>) -> (r: Result<(), Error>)
        ensures
            appended(r, old(writer)@, final(writer)@, self.binary_wire()),
    ;
}

impl BinaryEncode for bool {
    open spec fn binary_wire(&self) -> Option<Seq<u8>> {
        Some(crate::binary::format::bool_bytes(*self))
    }

    fn binary_encode(&self, writer: &mut Vec<u8>) -> (r: Result<(), Error>) {
        crate::binary::encode::encode_bool(*self, writer);
        Ok(())
    }
}

impl BinaryEncode for i8 {
    open spec fn binary_wire(&self) -> Option<Seq<u8>> {
        Some(crate::binary::format::i8_bytes(*self))
    }

    fn binary_encode(&self, writer: &mut Vec<u8>) -> (r: Result<(), Error>) {
        crate::binary::encode::encode_i8(*self, writer);
        Ok(())
    }
}

impl BinaryEncode for i16 {
    open spec fn binary_wire(&self) -> Option<Seq<u8>> {
        Some(crate::binary::format::i16_bytes(*self))
    }

    fn binary_encode(&self, writer: &mut Vec<u8>) -> (r: Result<(), Error>) {
        crate::binary::encode::encode_i16(*self, writer);
        Ok(())
    }
}

impl BinaryEncode for i32 {
    open spec fn binary_wire(&self) -> Option<Seq<u8>> {
        Some(crate::binary::format::i32_bytes(*self))
    }

    fn binary_encode(&self, writer: &mut Vec<u8>) -> (r: Result<(), Error>) {
        crate::binary::encode::encode_i32(*self, writer);
        Ok(())
    }
}

impl BinaryEncode for i64 {
    open spec fn binary_wire(&self) -> Option<Seq<u8>> {
        Some(crate::binary::format::i64_bytes(*self))
    }

    fn binary_encode(&self, writer: &mut Vec<u8>) -> (r: Result<(), Error>) {
        crate::binary::encode::encode_i64(*self, writer);
        Ok(())
    }
}

impl BinaryEncode for Double {
    open spec fn binary_wire(&self) -> Option<Seq<u8>> {
        Some(crate::binary::format::double_bytes(self@))
    }

    fn binary_encode(&self, writer: &mut Vec<u8>) -> (r: Result<(), Error>) {
        crate::binary::encode::encode_double(*self, writer);
        Ok(())
    }
}

impl<'a> BinaryEncode for &'a [u8] {
    open spec fn binary_wire(&self) -> Option<Seq<u8>> {
        crate::binary::format::binary_wire(self@)
    }

    fn binary_encode(&self, writer: &mut Vec<u8>) -> (r: Result<(), Error>) {
        crate::binary::encode::encode_binary(*self, writer)
    }
}

impl BinaryEncode for Message {
    open spec fn binary_wire(&self) -> Option<Seq<u8>> {
        crate::binary::format::message_wire(self@)
    }

    fn binary_encode(&self, writer: &mut Vec<u8>) -> (r: Result<(), Error>) {
        crate::binary::encode::encode_message(self, writer)
    }
}

impl BinaryEncode for Data {
    open spec fn binary_wire(&self) -> Option<Seq<u8>> {
        crate::binary::format::data_wire(self@)
    }

    fn binary_encode(&self, writer: &mut Vec<u8>) -> (r: Result<(), Error>) {
        crate::binary::encode::encode_data(self, writer)
    }
}

impl<'a> BinaryEncode for DataRef<'a> {
    open spec fn binary_wire(&self) -> Option<Seq<u8>> {
        crate::binary::format::data_wire(self@)
    }

    fn binary_encode(&self, writer: &mut Vec<u8>) -> (r: Result<(), Error>) {
        crate::binary::encode::encode_data_ref(*self, writer)
    }
}

impl BinaryEncode for Struct {
    open spec fn binary_wire(&self) -> Option<Seq<u8>> {
        crate::binary::format::struct_wire(self@)
    }

    fn binary_encode(&self, writer: &mut Vec<u8>) -> (r: Result<(), Error>) {
        crate::binary::encode::encode_struct(self, writer)
    }
}

impl BinaryEncode for TMap {
    open spec fn binary_wire(&self) -> Option<Seq<u8>> {
        crate::binary::format::map_wire(self@)
    }

    fn binary_encode(&self, writer: &mut Vec<u8>) -> (r: Result<(), Error>) {
        crate::binary::encode::encode_map(self, writer)
    }
}

impl BinaryEncode for TSet {
    open spec fn binary_wire(&self) -> Option<Seq<u8>> {
        crate::binary::format::column_wire(self@)
    }

    fn binary_encode(&self, writer: &mut Vec<u8>) -> (r: Result<(), Error>) {
        crate::binary::encode::encode_column(self, writer)
    }
}

impl BinaryEncode for List {
    open spec fn binary_wire(&self) -> Option<Seq<u8>> {
        crate::binary::format::column_wire(self@)
    }

    fn binary_encode(&self, writer: &mut Vec<u8>) -> (r: Result<(), Error>) {
        crate::binary::encode::encode_column(self, writer)
    }
}

/// This trait allows to encode objects to the binaries specified by
/// the Thrift Compact protocol encoding.
pub trait CompactEncode {
    /// The bytes of `self` in the compact protocol, where it can be encoded.
    spec fn compact_wire(&self) -> Option<Seq<u8>>;

    /// Encodes an object: appends its bytes to `writer`. Where the object
    /// cannot be encoded, fails with `InvalidInput` and leaves `writer` as it
    /// was.
    fn compact_encode(&self, writer: &mut Vec<u8>) -> (r: Result<(), Error>)
        ensures
            appended(r, old(writer)@, final(writer)@, self.compact_wire()),
    ;
}

impl CompactEncode for bool {
    open spec fn compact_wire(&self) -> Option<Seq<u8>> {
        Some(crate::binary::format::bool_bytes(*self))
    }

    fn compact_encode(&self, writer: &mut Vec<u8>) -> (r: Result<(), Error>) {
        crate::binary::encode::encode_bool(*self, writer);
        Ok(())
    }
}

impl CompactEncode for i8 {
    open spec fn compact_wire(&self) -> Option<Seq<u8>> {
        Some(crate::binary::format::i8_bytes(*self))
    }

    fn compact_encode(&self, writer: &mut Vec<u8>) -> (r: Result<(), Error>) {
        crate::binary::encode::encode_i8(*self, writer);
        Ok(())
    }
}

impl CompactEncode for i16 {
    open spec fn compact_wire(&self) -> Option<Seq<u8>> {
        Some(crate::compact::format::i16_bytes(*self))
    }

    fn compact_encode(&self, writer: &mut Vec<u8>) -> (r: Result<(), Error>) {
        crate::compact::encode::encode_i16(*self, writer);
        Ok(())
    }
}

impl CompactEncode for i32 {
    open spec fn compact_wire(&self) -> Option<Seq<u8>> {
        Some(crate::compact::format::i32_bytes(*self))
    }

    fn compact_encode(&self, writer: &mut Vec<u8>) -> (r: Result<(), Error>) {
        crate::compact::encode::encode_i32(*self, writer);
        Ok(())
    }
}

impl CompactEncode for i64 {
    open spec fn compact_wire(&self) -> Option<Seq<u8>> {
        Some(crate::compact::format::i64_bytes(*self))
    }

    fn compact_encode(&self, writer: &mut Vec<u8>) -> (r: Result<(), Error>) {
        crate::compact::encode::encode_i64(*self, writer);
        Ok(())
    }
}

impl CompactEncode for Double {
    open spec fn compact_wire(&self) -> Option<Seq<u8>> {
        Some(crate::compact::format::double_bytes(self@))
    }

    fn compact_encode(&self, writer: &mut Vec<u8>) -> (r: Result<(), Error>) {
        crate::compact::encode::encode_double(*self, writer);
        Ok(())
    }
}

impl<'a> CompactEncode for &'a [u8] {
    open spec fn compact_wire(&self) -> Option<Seq<u8>> {
        crate::compact::format::binary_wire(self@)
    }

    fn compact_encode(&self, writer: &mut Vec<u8>) -> (r: Result<(), Error>) {
        crate::compact::encode::encode_binary(*self, writer)
    }
}

impl CompactEncode for Message {
    open spec fn compact_wire(&self) -> Option<Seq<u8>> {
        crate::compact::format::message_wire(self@)
    }

    fn compact_encode(&self, writer: &mut Vec<u8>) -> (r: Result<(), Error>) {
        crate::compact::encode::encode_message(self, writer)
    }
}

impl CompactEncode for Data {
    open spec fn compact_wire(&self) -> Option<Seq<u8>> {
        crate::compact::format::data_wire(self@)
    }

    fn compact_encode(&self, writer: &mut Vec<u8>) -> (r: Result<(), Error>) {
        crate::compact::encode::encode_data(self, writer)
    }
}

impl<'a> CompactEncode for DataRef<'a> {
    open spec fn compact_wire(&self) -> Option<Seq<u8>> {
        crate::compact::format::data_wire(self@)
    }

    fn compact_encode(&self, writer: &mut Vec<u8>) -> (r: Result<(), Error>) {
        crate::compact::encode::encode_data_ref(*self, writer)
    }
}

impl CompactEncode for Struct {
    open spec fn compact_wire(&self) -> Option<Seq<u8>> {
        crate::compact::format::struct_wire(self@)
    }

    fn compact_encode(&self, writer: &mut Vec<u8>) -> (r: Result<(), Error>) {
        crate::compact::encode::encode_struct(self, writer)
    }
}

impl CompactEncode for TMap {
    open spec fn compact_wire(&self) -> Option<Seq<u8>> {
        crate::compact::format::map_wire(self@)
    }

    fn compact_encode(&self, writer: &mut Vec<u8>) -> (r: Result<(), Error>) {
        crate::compact::encode::encode_map(self, writer)
    }
}

impl CompactEncode for TSet {
    open spec fn compact_wire(&self) -> Option<Seq<u8>> {
        crate::compact::format::column_wire(self@)
    }

    fn compact_encode(&self, writer: &mut Vec<u8>) -> (r: Result<(), Error>) {
        crate::compact::encode::encode_column(self, writer)
    }
}

impl CompactEncode for List {
    open spec fn compact_wire(&self) -> Option<Seq<u8>> {
        crate::compact::format::column_wire(self@)
    }

    fn compact_encode(&self, writer: &mut Vec<u8>) -> (r: Result<(), Error>) {
        crate::compact::encode::encode_column(self, writer)
    }
}

} // verus!
