//! Decoding inverts encoding: the laws of both protocols, on the library's
//! own values.
//!
//! The laws are proved on models in [`crate::binary::laws`] and
//! [`crate::compact::laws`]; here they are stated of what the codec traits
//! promise.
use crate::compact::laws::{data_tight, struct_tight};
use crate::data::Data;
use crate::decode::{BinaryDecode, CompactDecode};
use crate::encode::{BinaryEncode, CompactEncode};
use crate::message::Message;
use crate::wire::parsed;
use vstd::prelude::*;

verus! {

/// In the binary protocol, decoding inverts encoding: where a message can
/// be encoded, decoding its bytes, whatever follows them, gives a message
/// with the same method name, kind, sequence id and body, fields in order,
/// and leaves what followed.
pub proof fn lemma_binary_message_round_trip(m: Message, tail: Seq<u8>)
    requires
        m.binary_wire() is Some,
    ensures
        Message::binary_parse(m.binary_wire().unwrap() + tail) == parsed(m@, tail),
{
    crate::binary::laws::lemma_message(m@, tail);
}

/// In the compact protocol, decoding inverts encoding: where a message can
/// be encoded and no map in it has columns without entries, decoding its
/// bytes, whatever follows them, gives a message with the same method name,
/// kind, sequence id and body, fields in order, and leaves what followed.
pub proof fn lemma_compact_message_round_trip(m: Message, tail: Seq<u8>)
    requires
        m.compact_wire() is Some,
        struct_tight(m@.body),
    ensures
        Message::compact_parse(m.compact_wire().unwrap() + tail) == parsed(m@, tail),
{
    crate::compact::laws::lemma_message(m@, tail);
}

/// In the binary protocol, every value that can be encoded reads back as a
/// value of its kind: scalars, byte strings, structs and containers. A map
/// without columns cannot be encoded.
pub proof fn lemma_binary_data_round_trip(d: Data, tail: Seq<u8>)
    requires
        d.binary_wire() is Some,
    ensures
        crate::binary::format::parse_data(d.binary_wire().unwrap() + tail, d@.kind()) == parsed(
            d@,
            tail,
        ),
{
    crate::binary::laws::lemma_data(d@, tail);
}

/// In the compact protocol, every value that can be encoded and in which no
/// map has columns without entries reads back as a value of its kind, where
/// it stands in a container.
pub proof fn lemma_compact_data_round_trip(d: Data, tail: Seq<u8>)
    requires
        d.compact_wire() is Some,
        data_tight(d@),
    ensures
        crate::compact::format::parse_data(d.compact_wire().unwrap() + tail, d@.kind())
            == parsed(d@, tail),
{
    crate::compact::laws::lemma_data(d@, tail);
}

} // verus!
