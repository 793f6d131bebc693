//! Encoders of the compact protocol.
use crate::binary::encode::{encode_bool, encode_i8};
use crate::binary::format::MAX_SIZE;
use crate::compact::format::{
    binary_bytes, binary_wire, column_bytes, column_header, column_ok, column_wire, data_wire,
    double_bytes, element_bytes, element_ok, elements_bytes, elements_ok, entries_bytes,
    field_bytes, field_type, fields_bytes, i16_bytes, i32_bytes, i64_bytes, id_delta, map_bytes,
    map_ok, map_wire, message_bytes, message_wire, prev_id, struct_bytes, struct_ok,
    struct_wire, data_ok, FIELD_BINARY, FIELD_BOOLEAN_FALSE, FIELD_BOOLEAN_TRUE, FIELD_DOUBLE,
    FIELD_I16, FIELD_I32, FIELD_I64, FIELD_I8, FIELD_LIST, FIELD_MAP, FIELD_SET, FIELD_STRUCT,
    PROTOCOL_ID, VERSION,
};
use crate::data::{field_models, Data, DataRef, Double, Elements, MapModel, Struct, TMap};
use crate::endian::{to_unsigned, u64_le};
use crate::error::Error;
use crate::message::Message;
use crate::varint::{varint_bytes, write_varint};
use crate::wire::{appended, put_bytes, put_u8};
use crate::zigzag::{from_i32, from_i64};
use vstd::pervasive::trigger;
use vstd::prelude::*;

verus! {

/// Appends an `i16` to `writer`.
pub fn encode_i16(v: i16, writer: &mut Vec<u8>)
    ensures
        final(writer)@ == old(writer)@ + i16_bytes(v),
{
    write_varint(writer, from_i32(v as i32) as u64);
}

/// Appends an `i32` to `writer`.
pub fn encode_i32(v: i32, writer: &mut Vec<u8>)
    ensures
        final(writer)@ == old(writer)@ + i32_bytes(v),
{
    write_varint(writer, from_i32(v) as u64);
}

/// Appends an `i64` to `writer`.
pub fn encode_i64(v: i64, writer: &mut Vec<u8>)
    ensures
        final(writer)@ == old(writer)@ + i64_bytes(v),
{
    write_varint(writer, from_i64(v));
}

/// Appends a double to `writer`.
pub fn encode_double(v: Double, writer: &mut Vec<u8>)
    ensures
        final(writer)@ == old(writer)@ + double_bytes(v@),
{
    let bytes = u64_le(v.to_bits());
    put_bytes(writer, bytes.as_slice());
}

/// Appends a byte string to `writer`; fails where it has more than
/// `MAX_SIZE` bytes.
pub fn encode_binary(v: &[u8], writer: &mut Vec<u8>) -> (r: Result<(), Error>)
    ensures
        appended(r, old(writer)@, final(writer)@, binary_wire(v@)),
{
    if v.len() > MAX_SIZE {
        return Err(Error::invalid_input());
    }
    write_varint(writer, v.len() as u64);
    put_bytes(writer, v);
    assert(writer@ =~= old(writer)@ + (varint_bytes(v@.len()) + v@));
    Ok(())
}

/// Appends a value to `writer`, as it stands in a container; fails where
/// the value cannot be encoded.
pub fn encode_data(d: &Data, writer: &mut Vec<u8>) -> (r: Result<(), Error>)
    ensures
        appended(r, old(writer)@, final(writer)@, data_wire(d@)),
    decreases d@, 1nat,
{
    encode_data_ref(d.as_ref(), writer)
}

/// Appends a borrowed value to `writer`, as it stands in a container; fails
/// where the value cannot be encoded.
pub fn encode_data_ref(d: DataRef<'_>, writer: &mut Vec<u8>) -> (r: Result<(), Error>)
    ensures
        appended(r, old(writer)@, final(writer)@, data_wire(d@)),
    decreases d@, 0nat,
{
    match d {
        DataRef::Bool(v) => {
            encode_bool(*v, writer);
            Ok(())
        },
        DataRef::I8(v) => {
            encode_i8(*v, writer);
            Ok(())
        },
        DataRef::I16(v) => {
            encode_i16(*v, writer);
            Ok(())
        },
        DataRef::I32(v) => {
            encode_i32(*v, writer);
            Ok(())
        },
        DataRef::I64(v) => {
            encode_i64(*v, writer);
            Ok(())
        },
        DataRef::Double(v) => {
            encode_double(*v, writer);
            Ok(())
        },
        DataRef::Binary(v) => encode_binary(v, writer),
        DataRef::Struct(v) => encode_struct(v, writer),
        DataRef::TMap(v) => encode_map(v, writer),
        DataRef::TSet(v) => encode_column(v, writer),
        DataRef::List(v) => encode_column(v, writer),
    }
}

/// The type code that the header of a field holding `d` carries.
fn field_type_of(d: &Data) -> (code: u8)
    ensures
        code == field_type(d@),
        1 <= code <= 12,
{
    match d {
        Data::Bool(true) => FIELD_BOOLEAN_TRUE,
        Data::Bool(false) => FIELD_BOOLEAN_FALSE,
        Data::I8(_) => FIELD_I8,
        Data::I16(_) => FIELD_I16,
        Data::I32(_) => FIELD_I32,
        Data::I64(_) => FIELD_I64,
        Data::Double(_) => FIELD_DOUBLE,
        Data::Binary(_) => FIELD_BINARY,
        Data::Struct(_) => FIELD_STRUCT,
        Data::TMap(_) => FIELD_MAP,
        Data::TSet(_) => FIELD_SET,
        Data::List(_) => FIELD_LIST,
    }
}

/// Appends a struct to `writer`; fails where one of its fields cannot be
/// encoded.
pub fn encode_struct(s: &Struct, writer: &mut Vec<u8>) -> (r: Result<(), Error>)
    ensures
        appended(r, old(writer)@, final(writer)@, struct_wire(s@)),
    decreases s@, 1nat,
{
    let start = writer.len();
    let fields = s.fields();
    let mut prev: i16 = 0;
    let mut i: usize = 0;
    while i < fields.len()
        invariant
            start == old(writer)@.len(),
            i <= fields.len(),
            fields@.len() == s@.len(),
            field_models(fields@) == s@,
            prev == prev_id(s@, i as int),
            forall|j: int| 0 <= j < i ==> data_ok(#[trigger] s@[j].data),
            writer@ == old(writer)@ + fields_bytes(s@, i as nat),
        decreases fields.len() - i,
    {
        let field = &fields[i];
        let ghost before = writer@;
        assert(field@ == s@[i as int]);
        let difference: i32 = field.id() as i32 - prev as i32;
        let delta: u8 = if 1 <= difference && difference <= 15 {
            difference as u8
        } else {
            0
        };
        assert(delta == id_delta(field@.id, prev));
        let code = field_type_of(field.data());
        put_u8(writer, delta * 16 + code);
        if delta == 0 {
            encode_i16(field.id(), writer);
        }
        let ghost head = writer@;
        let ghost prefix = seq![(id_delta(field@.id, prev) * 16 + field_type(field@.data)) as u8]
            + (if id_delta(field@.id, prev) == 0 {
            i16_bytes(field@.id)
        } else {
            Seq::empty()
        });
        assert(head =~= before + prefix);
        match field.data() {
            Data::Bool(_) => {},
            data => {
                assert(decreases_to!(s@ => s@[i as int].data));
                match encode_data(data, writer) {
                    Ok(()) => {},
                    Err(e) => {
                        writer.truncate(start);
                        assert(writer@ =~= old(writer)@);
                        return Err(e);
                    },
                }
            },
        }
        assert(writer@ =~= before + field_bytes(s@[i as int], prev));
        prev = field.id();
        i = i + 1;
    }
    put_u8(writer, 0);
    assert(struct_ok(s@));
    assert(writer@ =~= old(writer)@ + struct_bytes(s@));
    Ok(())
}

/// Appends the element at index `i` of `e` to `writer`; fails where it cannot
/// be encoded.
fn encode_element(e: &Elements, i: usize, writer: &mut Vec<u8>) -> (r: Result<(), Error>)
    requires
        i < e@.len(),
    ensures
        appended(
            r,
            old(writer)@,
            final(writer)@,
            if element_ok(e@, i as int) {
                Some(element_bytes(e@, i as int))
            } else {
                None
            },
        ),
    decreases e@, 0nat,
{
    match e {
        Elements::Bool(v) => {
            encode_bool(v[i], writer);
            Ok(())
        },
        Elements::I8(v) => {
            encode_i8(v[i], writer);
            Ok(())
        },
        Elements::I16(v) => {
            encode_i16(v[i], writer);
            Ok(())
        },
        Elements::I32(v) => {
            encode_i32(v[i], writer);
            Ok(())
        },
        Elements::I64(v) => {
            encode_i64(v[i], writer);
            Ok(())
        },
        Elements::Double(v) => {
            encode_double(v[i], writer);
            Ok(())
        },
        Elements::Binary(v) => encode_binary(v[i].as_slice(), writer),
        Elements::Struct(v) => {
            assert(decreases_to!(e@ => e@->Struct_0[i as int]));
            encode_struct(&v[i], writer)
        },
        Elements::TMap(v) => {
            assert(decreases_to!(e@ => e@->TMap_0[i as int]));
            encode_map(&v[i], writer)
        },
        Elements::TSet(v) => {
            assert(decreases_to!(e@ => e@->TSet_0[i as int]));
            encode_column(&v[i], writer)
        },
        Elements::List(v) => {
            assert(decreases_to!(e@ => e@->List_0[i as int]));
            encode_column(&v[i], writer)
        },
    }
}

/// Appends a list or a set to `writer`; fails where it has more than
/// `MAX_SIZE` elements or one of them cannot be encoded.
pub fn encode_column(e: &Elements, writer: &mut Vec<u8>) -> (r: Result<(), Error>)
    ensures
        appended(r, old(writer)@, final(writer)@, column_wire(e@)),
    decreases e@, 1nat,
{
    let start = writer.len();
    let n = e.len();
    if n > MAX_SIZE {
        return Err(Error::invalid_input());
    }
    let code = e.kind().to_u8();
    if n < 15 {
        put_u8(writer, (n as u8) * 16 + code);
    } else {
        put_u8(writer, 0xF0 + code);
        encode_i32(n as i32, writer);
    }
    let ghost head = writer@;
    assert(head =~= old(writer)@ + column_header(e@.kind(), e@.len()));
    let mut i: usize = 0;
    while i < n
        invariant
            start == old(writer)@.len(),
            i <= n,
            n == e@.len(),
            n <= MAX_SIZE,
            head == old(writer)@ + column_header(e@.kind(), e@.len()),
            forall|j: int| 0 <= j < i && #[trigger] trigger(j) ==> element_ok(e@, j),
            writer@ == head + elements_bytes(e@, i as nat),
        decreases n - i,
    {
        let ghost before = writer@;
        match encode_element(e, i, writer) {
            Ok(()) => {},
            Err(err) => {
                proof {
                    assert(!element_ok(e@, i as int) && trigger(i as int));
                    assert(!elements_ok(e@));
                }
                writer.truncate(start);
                assert(writer@ =~= old(writer)@);
                return Err(err);
            },
        }
        assert(writer@ =~= head + elements_bytes(e@, (i + 1) as nat));
        i = i + 1;
    }
    assert(elements_ok(e@));
    assert(column_ok(e@));
    assert(writer@ =~= old(writer)@ + column_bytes(e@));
    Ok(())
}

/// Appends a map to `writer`; fails where it has more than `MAX_SIZE`
/// entries or one of its keys or values cannot be encoded.
pub fn encode_map(m: &TMap, writer: &mut Vec<u8>) -> (r: Result<(), Error>)
    ensures
        appended(r, old(writer)@, final(writer)@, map_wire(m@)),
    decreases m@, 1nat,
{
    let start = writer.len();
    let n = m.len();
    if n > MAX_SIZE {
        assert(!map_ok(m@));
        return Err(Error::invalid_input());
    }
    let columns = match m.keys() {
        Some(keys) => match m.values() {
            Some(values) => Some((keys, values)),
            None => None,
        },
        None => None,
    };
    let (keys, values) = match columns {
        Some(columns) => columns,
        None => {
            put_u8(writer, 0);
            return Ok(());
        },
    };
    if n == 0 {
        put_u8(writer, 0);
        assert(elements_ok(keys@));
        assert(elements_ok(values@));
        return Ok(());
    }
    write_varint(writer, n as u64);
    put_u8(writer, keys.kind().to_u8() * 16 + values.kind().to_u8());
    let ghost kinds = varint_bytes(n as nat) + seq![
        (keys@.kind().code() * 16 + values@.kind().code()) as u8,
    ];
    let ghost head = writer@;
    assert(head =~= old(writer)@ + kinds);
    let mut i: usize = 0;
    while i < n
        invariant
            start == old(writer)@.len(),
            i <= n,
            0 < n,
            n == keys@.len(),
            n == values@.len(),
            n <= MAX_SIZE,
            m@ == (MapModel::Entries { keys: keys@, values: values@ }),
            head == old(writer)@ + kinds,
            forall|j: int| 0 <= j < i && #[trigger] trigger(j) ==> element_ok(keys@, j),
            forall|j: int| 0 <= j < i && #[trigger] trigger(j) ==> element_ok(values@, j),
            writer@ == head + entries_bytes(m@, i as nat),
        decreases n - i,
    {
        let ghost before = writer@;
        assert(decreases_to!(m@ => m@->keys));
        match encode_element(keys, i, writer) {
            Ok(()) => {},
            Err(err) => {
                proof {
                    assert(!element_ok(keys@, i as int) && trigger(i as int));
                    assert(!elements_ok(keys@));
                }
                writer.truncate(start);
                assert(writer@ =~= old(writer)@);
                return Err(err);
            },
        }
        let ghost middle = writer@;
        assert(decreases_to!(m@ => m@->values));
        match encode_element(values, i, writer) {
            Ok(()) => {},
            Err(err) => {
                proof {
                    assert(!element_ok(values@, i as int) && trigger(i as int));
                    assert(!elements_ok(values@));
                }
                writer.truncate(start);
                assert(writer@ =~= old(writer)@);
                return Err(err);
            },
        }
        assert(writer@ =~= head + entries_bytes(m@, (i + 1) as nat));
        i = i + 1;
    }
    assert(elements_ok(keys@));
    assert(elements_ok(values@));
    assert(map_ok(m@));
    assert(writer@ =~= old(writer)@ + map_bytes(m@));
    Ok(())
}

/// Appends a message to `writer`; fails where its method name has more than
/// `MAX_SIZE` bytes or its body cannot be encoded.
pub fn encode_message(m: &Message, writer: &mut Vec<u8>) -> (r: Result<(), Error>)
    ensures
        appended(r, old(writer)@, final(writer)@, message_wire(m@)),
{
    let start = writer.len();
    put_u8(writer, PROTOCOL_ID);
    put_u8(writer, m.kind().to_u8() * 32 + VERSION);
    let id: i32 = m.sequence_id();
    let unsigned: u32 = id as u32;
    assert(unsigned == (if id < 0 { id + 0x1_0000_0000 } else { id as int })) by (bit_vector)
        requires
            unsigned == id as u32,
    ;
    write_varint(writer, unsigned as u64);
    let ghost head = writer@;
    let ghost first = seq![PROTOCOL_ID, (m@.kind.code() * 32 + VERSION) as u8] + varint_bytes(
        to_unsigned(m@.sequence_id as int, 0x1_0000_0000),
    );
    assert(head =~= old(writer)@ + first);
    match encode_binary(m.method_name().as_bytes(), writer) {
        Ok(()) => {},
        Err(e) => {
            writer.truncate(start);
            assert(writer@ =~= old(writer)@);
            return Err(e);
        },
    }
    let ghost middle = writer@;
    let ghost second = first + binary_bytes(vstd::utf8::encode_utf8(m@.method_name));
    assert(middle =~= old(writer)@ + second);
    match encode_struct(m.body(), writer) {
        Ok(()) => {},
        Err(e) => {
            writer.truncate(start);
            assert(writer@ =~= old(writer)@);
            return Err(e);
        },
    }
    assert(writer@ =~= old(writer)@ + message_bytes(m@));
    Ok(())
}

} // verus!
