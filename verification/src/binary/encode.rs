//! Encoders of the binary protocol.
use crate::binary::format::{
    binary_wire, bool_bytes, column_bytes, column_ok, column_wire, data_ok, data_wire,
    double_bytes, element_bytes, element_ok, elements_bytes, elements_ok, entries_bytes,
    field_bytes, fields_bytes, i16_bytes, i32_bytes, i64_bytes, i8_bytes, map_bytes, map_ok,
    map_wire, message_wire, size_bytes, struct_bytes, struct_ok, struct_wire, MAX_SIZE,
    VERSION_WORD,
};
use crate::data::{
    field_models, Data, DataRef, Double, Elements, List, MapModel, Struct, TMap, TSet,
};
use crate::endian::{i16_be, i32_be, i64_be, u16_be, u64_be};
use crate::error::Error;
use crate::message::Message;
use crate::wire::{appended, put_bytes, put_u8};
use vstd::pervasive::trigger;
use vstd::prelude::*;

verus! {

/// Appends a boolean to `writer`.
pub fn encode_bool(v: bool, writer: &mut Vec<u8>)
    ensures
        final(writer)@ == old(writer)@ + bool_bytes(v),
{
    put_u8(writer, if v { 1 } else { 0 });
}

/// Appends an `i8` to `writer`.
pub fn encode_i8(v: i8, writer: &mut Vec<u8>)
    ensures
        final(writer)@ == old(writer)@ + i8_bytes(v),
{
    let b: u8 = v as u8;
    assert(b == (if v < 0 { v + 0x100 } else { v as int })) by (bit_vector)
        requires
            b == v as u8,
    ;
    put_u8(writer, b);
}

/// Appends an `i16` to `writer`.
pub fn encode_i16(v: i16, writer: &mut Vec<u8>)
    ensures
        final(writer)@ == old(writer)@ + i16_bytes(v),
{
    let bytes = i16_be(v);
    put_bytes(writer, bytes.as_slice());
}

/// Appends an `i32` to `writer`.
pub fn encode_i32(v: i32, writer: &mut Vec<u8>)
    ensures
        final(writer)@ == old(writer)@ + i32_bytes(v),
{
    let bytes = i32_be(v);
    put_bytes(writer, bytes.as_slice());
}

/// Appends an `i64` to `writer`.
pub fn encode_i64(v: i64, writer: &mut Vec<u8>)
    ensures
        final(writer)@ == old(writer)@ + i64_bytes(v),
{
    let bytes = i64_be(v);
    put_bytes(writer, bytes.as_slice());
}

/// Appends a double to `writer`.
pub fn encode_double(v: Double, writer: &mut Vec<u8>)
    ensures
        final(writer)@ == old(writer)@ + double_bytes(v@),
{
    let bytes = u64_be(v.to_bits());
    put_bytes(writer, bytes.as_slice());
}

/// Appends a length or an element count to `writer`.
fn encode_size(n: usize, writer: &mut Vec<u8>)
    requires
        n <= MAX_SIZE,
    ensures
        final(writer)@ == old(writer)@ + size_bytes(n as nat),
{
    encode_i32(n as i32, writer);
}

/// Appends a byte string to `writer`; fails where it has more than
/// `MAX_SIZE` bytes.
pub fn encode_binary(v: &[u8], writer: &mut Vec<u8>) -> (r: Result<(), Error>)
    ensures
        appended(r, old(writer)@, final(writer)@, binary_wire(v@)),
{
    if v.len() > MAX_SIZE {
        return Err(Error::invalid_input());
    }
    encode_size(v.len(), writer);
    put_bytes(writer, v);
    assert(writer@ =~= old(writer)@ + (size_bytes(v@.len()) + v@));
    Ok(())
}

/// Appends a value to `writer`; fails where the value cannot be encoded.
pub fn encode_data(d: &Data, writer: &mut Vec<u8>) -> (r: Result<(), Error>)
    ensures
        appended(r, old(writer)@, final(writer)@, data_wire(d@)),
    decreases d@, 1nat,
{
    encode_data_ref(d.as_ref(), writer)
}

/// Appends a borrowed value to `writer`; fails where the value cannot be
/// encoded.
pub fn encode_data_ref(d: DataRef<'_>, writer: &mut Vec<u8>) -> (r: Result<(), Error>)
    ensures
        appended(r, old(writer)@, final(writer)@, data_wire(d@)),
    decreases d@, 0nat,
{
    match d {
        DataRef::Bool(v) => {
            encode_bool(*v, writer);
            Ok(())
        },
        DataRef::I8(v) => {
            encode_i8(*v, writer);
            Ok(())
        },
        DataRef::I16(v) => {
            encode_i16(*v, writer);
            Ok(())
        },
        DataRef::I32(v) => {
            encode_i32(*v, writer);
            Ok(())
        },
        DataRef::I64(v) => {
            encode_i64(*v, writer);
            Ok(())
        },
        DataRef::Double(v) => {
            encode_double(*v, writer);
            Ok(())
        },
        DataRef::Binary(v) => encode_binary(v, writer),
        DataRef::Struct(v) => encode_struct(v, writer),
        DataRef::TMap(v) => encode_map(v, writer),
        DataRef::TSet(v) => encode_column(v, writer),
        DataRef::List(v) => encode_column(v, writer),
    }
}

/// Appends a struct to `writer`; fails where one of its fields cannot be
/// encoded.
pub fn encode_struct(s: &Struct, writer: &mut Vec<u8>) -> (r: Result<(), Error>)
    ensures
        appended(r, old(writer)@, final(writer)@, struct_wire(s@)),
    decreases s@, 1nat,
{
    let start = writer.len();
    let fields = s.fields();
    let mut i: usize = 0;
    while i < fields.len()
        invariant
            start == old(writer)@.len(),
            i <= fields.len(),
            fields@.len() == s@.len(),
            field_models(fields@) == s@,
            forall|j: int| 0 <= j < i ==> data_ok(#[trigger] s@[j].data),
            writer@ == old(writer)@ + fields_bytes(s@, i as nat),
        decreases fields.len() - i,
    {
        let field = &fields[i];
        let ghost before = writer@;
        assert(field@ == s@[i as int]);
        put_u8(writer, field.data().kind().to_u8());
        encode_i16(field.id(), writer);
        let ghost head = writer@;
        assert(decreases_to!(s@ => s@[i as int].data));
        match encode_data(field.data(), writer) {
            Ok(()) => {},
            Err(e) => {
                proof {
                    assert(head =~= before + (seq![field@.data.kind().code()] + i16_bytes(
                        field@.id,
                    )));
                }
                writer.truncate(start);
                assert(writer@ =~= old(writer)@);
                return Err(e);
            },
        }
        assert(writer@ =~= before + field_bytes(s@[i as int]));
        i = i + 1;
    }
    put_u8(writer, 0);
    assert(struct_ok(s@));
    assert(writer@ =~= old(writer)@ + struct_bytes(s@));
    Ok(())
}

/// Appends the element at index `i` of `e` to `writer`; fails where it cannot
/// be encoded.
fn encode_element(e: &Elements, i: usize, writer: &mut Vec<u8>) -> (r: Result<(), Error>)
    requires
        i < e@.len(),
    ensures
        appended(
            r,
            old(writer)@,
            final(writer)@,
            if element_ok(e@, i as int) {
                Some(element_bytes(e@, i as int))
            } else {
                None
            },
        ),
    decreases e@, 0nat,
{
    match e {
        Elements::Bool(v) => {
            encode_bool(v[i], writer);
            Ok(())
        },
        Elements::I8(v) => {
            encode_i8(v[i], writer);
            Ok(())
        },
        Elements::I16(v) => {
            encode_i16(v[i], writer);
            Ok(())
        },
        Elements::I32(v) => {
            encode_i32(v[i], writer);
            Ok(())
        },
        Elements::I64(v) => {
            encode_i64(v[i], writer);
            Ok(())
        },
        Elements::Double(v) => {
            encode_double(v[i], writer);
            Ok(())
        },
        Elements::Binary(v) => encode_binary(v[i].as_slice(), writer),
        Elements::Struct(v) => {
            assert(decreases_to!(e@ => e@->Struct_0[i as int]));
            encode_struct(&v[i], writer)
        },
        Elements::TMap(v) => {
            assert(decreases_to!(e@ => e@->TMap_0[i as int]));
            encode_map(&v[i], writer)
        },
        Elements::TSet(v) => {
            assert(decreases_to!(e@ => e@->TSet_0[i as int]));
            encode_column(&v[i], writer)
        },
        Elements::List(v) => {
            assert(decreases_to!(e@ => e@->List_0[i as int]));
            encode_column(&v[i], writer)
        },
    }
}

/// Appends a list or a set to `writer`; fails where it has more than
/// `MAX_SIZE` elements or one of them cannot be encoded.
pub fn encode_column(e: &Elements, writer: &mut Vec<u8>) -> (r: Result<(), Error>)
    ensures
        appended(r, old(writer)@, final(writer)@, column_wire(e@)),
    decreases e@, 1nat,
{
    let start = writer.len();
    let n = e.len();
    if n > MAX_SIZE {
        return Err(Error::invalid_input());
    }
    put_u8(writer, e.kind().to_u8());
    encode_size(n, writer);
    let ghost head = writer@;
    assert(head =~= old(writer)@ + (seq![e@.kind().code()] + size_bytes(e@.len())));
    let mut i: usize = 0;
    while i < n
        invariant
            start == old(writer)@.len(),
            i <= n,
            n == e@.len(),
            n <= MAX_SIZE,
            head == old(writer)@ + (seq![e@.kind().code()] + size_bytes(e@.len())),
            forall|j: int| 0 <= j < i && #[trigger] trigger(j) ==> element_ok(e@, j),
            writer@ == head + elements_bytes(e@, i as nat),
        decreases n - i,
    {
        let ghost before = writer@;
        match encode_element(e, i, writer) {
            Ok(()) => {},
            Err(err) => {
                proof {
                    assert(!element_ok(e@, i as int) && trigger(i as int));
                    assert(!elements_ok(e@));
                    assert(!column_ok(e@));
                }
                writer.truncate(start);
                assert(writer@ =~= old(writer)@);
                return Err(err);
            },
        }
        assert(writer@ =~= head + elements_bytes(e@, (i + 1) as nat));
        i = i + 1;
    }
    assert(elements_ok(e@));
    assert(column_ok(e@));
    assert(writer@ =~= old(writer)@ + column_bytes(e@));
    Ok(())
}

/// Appends a map to `writer`; fails where it has no columns, has more than
/// `MAX_SIZE` entries, or one of its keys or values cannot be encoded.
pub fn encode_map(m: &TMap, writer: &mut Vec<u8>) -> (r: Result<(), Error>)
    ensures
        appended(r, old(writer)@, final(writer)@, map_wire(m@)),
    decreases m@, 1nat,
{
    let start = writer.len();
    let n = m.len();
    if n > MAX_SIZE {
        return Err(Error::invalid_input());
    }
    let keys = match m.keys() {
        Some(keys) => keys,
        None => {
            return Err(Error::invalid_input());
        },
    };
    let values = match m.values() {
        Some(values) => values,
        None => {
            return Err(Error::invalid_input());
        },
    };
    put_u8(writer, keys.kind().to_u8());
    put_u8(writer, values.kind().to_u8());
    encode_size(n, writer);
    let ghost kinds = seq![keys@.kind().code(), values@.kind().code()] + size_bytes(n as nat);
    let ghost head = writer@;
    assert(head =~= old(writer)@ + kinds);
    let mut i: usize = 0;
    while i < n
        invariant
            start == old(writer)@.len(),
            i <= n,
            n == keys@.len(),
            n == values@.len(),
            n <= MAX_SIZE,
            m@ == (MapModel::Entries { keys: keys@, values: values@ }),
            head == old(writer)@ + kinds,
            forall|j: int| 0 <= j < i && #[trigger] trigger(j) ==> element_ok(keys@, j),
            forall|j: int| 0 <= j < i && #[trigger] trigger(j) ==> element_ok(values@, j),
            writer@ == head + entries_bytes(m@, i as nat),
        decreases n - i,
    {
        let ghost before = writer@;
        assert(decreases_to!(m@ => m@->keys));
        match encode_element(keys, i, writer) {
            Ok(()) => {},
            Err(err) => {
                proof {
                    assert(!element_ok(keys@, i as int) && trigger(i as int));
                    assert(!elements_ok(keys@));
                }
                writer.truncate(start);
                assert(writer@ =~= old(writer)@);
                return Err(err);
            },
        }
        let ghost middle = writer@;
        assert(decreases_to!(m@ => m@->values));
        match encode_element(values, i, writer) {
            Ok(()) => {},
            Err(err) => {
                proof {
                    assert(!element_ok(values@, i as int) && trigger(i as int));
                    assert(!elements_ok(values@));
                }
                writer.truncate(start);
                assert(writer@ =~= old(writer)@);
                return Err(err);
            },
        }
        assert(writer@ =~= head + entries_bytes(m@, (i + 1) as nat));
        i = i + 1;
    }
    assert(elements_ok(keys@));
    assert(elements_ok(values@));
    assert(map_ok(m@));
    assert(writer@ =~= old(writer)@ + map_bytes(m@));
    Ok(())
}

/// Appends a message to `writer`; fails where its method name has more than
/// `MAX_SIZE` bytes or its body cannot be encoded.
pub fn encode_message(m: &Message, writer: &mut Vec<u8>) -> (r: Result<(), Error>)
    ensures
        appended(r, old(writer)@, final(writer)@, message_wire(m@)),
{
    let start = writer.len();
    let version = u16_be(VERSION_WORD);
    put_bytes(writer, version.as_slice());
    put_u8(writer, 0);
    put_u8(writer, m.kind().to_u8());
    let ghost head = writer@;
    let ghost first = crate::endian::be_bytes(VERSION_WORD as nat, 2) + seq![0u8, m@.kind.code()];
    assert(head =~= old(writer)@ + first);
    match encode_binary(m.method_name().as_bytes(), writer) {
        Ok(()) => {},
        Err(e) => {
            writer.truncate(start);
            assert(writer@ =~= old(writer)@);
            return Err(e);
        },
    }
    encode_i32(m.sequence_id(), writer);
    let ghost middle = writer@;
    let ghost name = vstd::utf8::encode_utf8(m@.method_name);
    let ghost second = first + crate::binary::format::binary_bytes(name) + i32_bytes(
        m@.sequence_id,
    );
    assert(middle =~= old(writer)@ + second);
    match encode_struct(m.body(), writer) {
        Ok(()) => {},
        Err(e) => {
            writer.truncate(start);
            assert(writer@ =~= old(writer)@);
            return Err(e);
        },
    }
    assert(writer@ =~= old(writer)@ + crate::binary::format::message_bytes(m@));
    Ok(())
}

} // verus!
