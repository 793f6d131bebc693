//! Decoders of the compact protocol.
use crate::binary::decode::{decode_bool, decode_i8};
use crate::compact::format::{
    lemma_parse_data_kind, parse_binary, parse_column, parse_count, parse_data, parse_double,
    parse_elements, parse_entries, parse_field_data, parse_field_id, parse_fields, parse_i16,
    parse_i32, parse_i64, parse_kinds, parse_map, parse_message, parse_size, parse_struct,
    FIELD_BINARY, FIELD_BOOLEAN_FALSE, FIELD_BOOLEAN_TRUE, FIELD_DOUBLE, FIELD_I16, FIELD_I32,
    FIELD_I64, FIELD_I8, FIELD_LIST, FIELD_MAP, FIELD_SET, FIELD_STRUCT, PROTOCOL_ID, VERSION,
};
use crate::data::{
    field_models, Data, DataKind, Double, Elements, ElementsModel, Field, FieldModel, List, Struct,
    TMap, TSet,
};
use crate::endian::read_u64_le;
use crate::error::Error;
use crate::message::{Message, MessageKind};
use crate::varint::{read_varint, read_varint32};
use crate::wire::{advanced, agrees, parsed, take_bytes, take_u8};
use crate::zigzag::{to_i32, to_i64};
use vstd::prelude::*;
use vstd::slice::slice_to_vec;

verus! {

/// Reads an `i32`.
pub fn decode_i32(reader: &mut &[u8]) -> (r: Result<i32, Error>)
    ensures
        agrees(r, final(reader)@, parse_i32(old(reader)@)),
        advanced(r, old(reader)@, final(reader)@),
{
    let z = read_varint32(reader)?;
    Ok(to_i32(z))
}

/// Reads an `i16`.
pub fn decode_i16(reader: &mut &[u8]) -> (r: Result<i16, Error>)
    ensures
        agrees(r, final(reader)@, parse_i16(old(reader)@)),
        advanced(r, old(reader)@, final(reader)@),
{
    let v = decode_i32(reader)?;
    if v < -0x8000 || v > 0x7FFF {
        return Err(Error::invalid_input());
    }
    Ok(v as i16)
}

/// Reads an `i64`.
pub fn decode_i64(reader: &mut &[u8]) -> (r: Result<i64, Error>)
    ensures
        agrees(r, final(reader)@, parse_i64(old(reader)@)),
        advanced(r, old(reader)@, final(reader)@),
{
    let z = read_varint(reader)?;
    Ok(to_i64(z))
}

/// Reads a double.
pub fn decode_double(reader: &mut &[u8]) -> (r: Result<Double, Error>)
    ensures
        agrees(r, final(reader)@, parse_double(old(reader)@)),
        advanced(r, old(reader)@, final(reader)@),
{
    let bytes = take_bytes(reader, 8)?;
    assert(bytes@.subrange(0, 8) =~= bytes@);
    Ok(Double::from_bits(read_u64_le(bytes)))
}

/// Reads a length or an entry count.
fn decode_size(reader: &mut &[u8]) -> (r: Result<usize, Error>)
    ensures
        match parse_size(old(reader)@) {
            Ok((n, rest)) => r matches Ok(x) && x == n && final(reader)@ == rest,
            Err((k, rest)) => r matches Err(e) && e@ == k && final(reader)@ == rest,
        },
        advanced(r, old(reader)@, final(reader)@),
{
    let n = read_varint32(reader)?;
    if n > 0x7FFF_FFFF {
        return Err(Error::invalid_input());
    }
    Ok(n as usize)
}

/// Reads a byte string.
pub fn decode_binary(reader: &mut &[u8]) -> (r: Result<Vec<u8>, Error>)
    ensures
        agrees(r, final(reader)@, parse_binary(old(reader)@)),
        advanced(r, old(reader)@, final(reader)@),
{
    let n = decode_size(reader)?;
    let bytes = take_bytes(reader, n)?;
    Ok(slice_to_vec(bytes))
}

/// Reads a value of the given kind, as it stands in a container.
pub fn decode_data(reader: &mut &[u8], kind: DataKind) -> (r: Result<Data, Error>)
    ensures
        agrees(r, final(reader)@, parse_data(old(reader)@, kind)),
        advanced(r, old(reader)@, final(reader)@),
    decreases old(reader)@.len(), 2nat,
{
    match kind {
        DataKind::Bool => Ok(Data::Bool(decode_bool(reader)?)),
        DataKind::I8 => Ok(Data::I8(decode_i8(reader)?)),
        DataKind::I16 => Ok(Data::I16(decode_i16(reader)?)),
        DataKind::I32 => Ok(Data::I32(decode_i32(reader)?)),
        DataKind::I64 => Ok(Data::I64(decode_i64(reader)?)),
        DataKind::Double => Ok(Data::Double(decode_double(reader)?)),
        DataKind::Binary => Ok(Data::Binary(decode_binary(reader)?)),
        DataKind::Struct => Ok(Data::Struct(decode_struct(reader)?)),
        DataKind::TMap => Ok(Data::TMap(decode_map(reader)?)),
        DataKind::TSet => Ok(Data::TSet(decode_set(reader)?)),
        DataKind::List => Ok(Data::List(decode_list(reader)?)),
    }
}

/// Reads the value of a field whose header carries the type code `code`.
fn decode_field_data(reader: &mut &[u8], code: u8) -> (r: Result<Data, Error>)
    ensures
        agrees(r, final(reader)@, parse_field_data(old(reader)@, code)),
        final(reader)@.len() <= old(reader)@.len(),
    decreases old(reader)@.len(), 3nat,
{
    if code == FIELD_BOOLEAN_TRUE {
        Ok(Data::Bool(true))
    } else if code == FIELD_BOOLEAN_FALSE {
        Ok(Data::Bool(false))
    } else if code == FIELD_I8 {
        decode_data(reader, DataKind::I8)
    } else if code == FIELD_I16 {
        decode_data(reader, DataKind::I16)
    } else if code == FIELD_I32 {
        decode_data(reader, DataKind::I32)
    } else if code == FIELD_I64 {
        decode_data(reader, DataKind::I64)
    } else if code == FIELD_DOUBLE {
        decode_data(reader, DataKind::Double)
    } else if code == FIELD_BINARY {
        decode_data(reader, DataKind::Binary)
    } else if code == FIELD_LIST {
        decode_data(reader, DataKind::List)
    } else if code == FIELD_SET {
        decode_data(reader, DataKind::TSet)
    } else if code == FIELD_MAP {
        decode_data(reader, DataKind::TMap)
    } else if code == FIELD_STRUCT {
        decode_data(reader, DataKind::Struct)
    } else {
        Err(Error::invalid_input())
    }
}

/// Reads the identifier of a field whose header carries the difference
/// `delta`, after a field with the identifier `prev`.
fn decode_field_id(reader: &mut &[u8], delta: u8, prev: i16) -> (r: Result<i16, Error>)
    requires
        delta < 16,
    ensures
        agrees(r, final(reader)@, parse_field_id(old(reader)@, delta, prev)),
        final(reader)@.len() <= old(reader)@.len(),
{
    if delta != 0 {
        let sum: i32 = prev as i32 + delta as i32;
        if sum > 0x7FFF {
            return Err(Error::invalid_input());
        }
        Ok(sum as i16)
    } else {
        decode_i16(reader)
    }
}

/// Reads a struct.
pub fn decode_struct(reader: &mut &[u8]) -> (r: Result<Struct, Error>)
    ensures
        agrees(r, final(reader)@, parse_struct(old(reader)@)),
        advanced(r, old(reader)@, final(reader)@),
    decreases old(reader)@.len(), 1nat,
{
    let ghost input = reader@;
    let mut prev: i16 = 0;
    let mut fields: Vec<Field> = Vec::new();
    assert(field_models(fields@) =~= Seq::empty());
    loop
        invariant_except_break
            parse_struct(input) == parse_fields(reader@, prev, field_models(fields@)),
        invariant
            input == old(reader)@,
            reader@.len() <= input.len(),
        ensures
            parse_struct(input) == parsed(field_models(fields@), reader@),
            reader@.len() < input.len(),
        decreases reader@.len(),
    {
        let ghost done = field_models(fields@);
        let header = take_u8(reader)?;
        if header == 0 {
            break ;
        }
        let id = decode_field_id(reader, header / 16, prev)?;
        let data = decode_field_data(reader, header % 16)?;
        fields.push(Field::new(id, data));
        assert(field_models(fields@) =~= done.push(FieldModel { id, data: data@ }));
        prev = id;
    }
    Ok(Struct::new(fields))
}

/// Reads a value of the kind of `elements` and adds it at their end.
fn decode_element(reader: &mut &[u8], elements: &mut Elements) -> (r: Result<(), Error>)
    ensures
        match parse_data(old(reader)@, old(elements)@.kind()) {
            Ok((d, rest)) => r is Ok && final(elements)@ == old(elements)@.push(d)
                && final(reader)@ == rest,
            Err((k, rest)) => r matches Err(e) && e@ == k && final(reader)@ == rest,
        },
        r is Ok ==> final(elements)@.kind() == old(elements)@.kind() && final(elements)@.len()
            == old(elements)@.len() + 1,
        advanced(r, old(reader)@, final(reader)@),
    decreases old(reader)@.len(), 3nat,
{
    let kind = elements.kind();
    let data = decode_data(reader, kind)?;
    proof {
        lemma_parse_data_kind(old(reader)@, kind);
    }
    elements.push(data)
}

/// Reads the element count of a list or a set whose header carries `high` in
/// its high half.
fn decode_count(reader: &mut &[u8], high: u8) -> (r: Result<usize, Error>)
    requires
        high < 16,
    ensures
        match parse_count(old(reader)@, high) {
            Ok((n, rest)) => r matches Ok(x) && x == n && final(reader)@ == rest,
            Err((k, rest)) => r matches Err(e) && e@ == k && final(reader)@ == rest,
        },
        final(reader)@.len() <= old(reader)@.len(),
{
    if high != 15 {
        return Ok(high as usize);
    }
    let n = decode_i32(reader)?;
    if n < 15 {
        return Err(Error::invalid_input());
    }
    Ok(n as usize)
}

/// Reads the header and the elements of a list or a set.
fn decode_column(reader: &mut &[u8]) -> (r: Result<Elements, Error>)
    ensures
        agrees(r, final(reader)@, parse_column(old(reader)@)),
        advanced(r, old(reader)@, final(reader)@),
    decreases old(reader)@.len(), 0nat,
{
    let header = take_u8(reader)?;
    let n = decode_count(reader, header / 16)?;
    let kind = match DataKind::from_u8(header % 16) {
        Some(kind) => kind,
        None => {
            return Err(Error::invalid_input());
        },
    };
    let ghost start = reader@;
    let mut elements = Elements::new(kind);
    let mut i: usize = 0;
    while i < n
        invariant
            i <= n,
            start.len() < old(reader)@.len(),
            reader@.len() <= start.len(),
            elements@.kind() == kind,
            parse_column(old(reader)@) == parse_elements(
                start,
                n as nat,
                ElementsModel::empty(kind),
            ),
            parse_elements(start, n as nat, ElementsModel::empty(kind)) == parse_elements(
                reader@,
                (n - i) as nat,
                elements@,
            ),
        decreases n - i,
    {
        decode_element(reader, &mut elements)?;
        i = i + 1;
    }
    Ok(elements)
}

/// Reads a list.
pub fn decode_list(reader: &mut &[u8]) -> (r: Result<List, Error>)
    ensures
        agrees(r, final(reader)@, parse_column(old(reader)@)),
        advanced(r, old(reader)@, final(reader)@),
    decreases old(reader)@.len(), 1nat,
{
    Ok(List::new(decode_column(reader)?))
}

/// Reads a set.
pub fn decode_set(reader: &mut &[u8]) -> (r: Result<TSet, Error>)
    ensures
        agrees(r, final(reader)@, parse_column(old(reader)@)),
        advanced(r, old(reader)@, final(reader)@),
    decreases old(reader)@.len(), 1nat,
{
    Ok(TSet::new(decode_column(reader)?))
}

/// Reads the byte with the kinds of the keys and of the values of a map.
fn decode_kinds(reader: &mut &[u8]) -> (r: Result<(DataKind, DataKind), Error>)
    ensures
        match parse_kinds(old(reader)@) {
            Ok((kinds, rest)) => r == Ok::<(DataKind, DataKind), Error>(kinds) && final(reader)@
                == rest,
            Err((k, rest)) => r matches Err(e) && e@ == k && final(reader)@ == rest,
        },
        advanced(r, old(reader)@, final(reader)@),
{
    let b = take_u8(reader)?;
    let key_kind = match DataKind::from_u8(b / 16) {
        Some(kind) => kind,
        None => {
            return Err(Error::invalid_input());
        },
    };
    let value_kind = match DataKind::from_u8(b % 16) {
        Some(kind) => kind,
        None => {
            return Err(Error::invalid_input());
        },
    };
    Ok((key_kind, value_kind))
}

/// Reads a map.
pub fn decode_map(reader: &mut &[u8]) -> (r: Result<TMap, Error>)
    ensures
        agrees(r, final(reader)@, parse_map(old(reader)@)),
        advanced(r, old(reader)@, final(reader)@),
    decreases old(reader)@.len(), 1nat,
{
    if reader.len() == 0 {
        return Err(Error::other());
    }
    if reader[0] == 0 {
        let _zero = take_u8(reader)?;
        return Ok(TMap::empty());
    }
    let n = decode_size(reader)?;
    let (key_kind, value_kind) = decode_kinds(reader)?;
    let ghost start = reader@;
    let mut keys = Elements::new(key_kind);
    let mut values = Elements::new(value_kind);
    let mut i: usize = 0;
    while i < n
        invariant
            i <= n,
            start.len() < old(reader)@.len(),
            reader@.len() <= start.len(),
            keys@.len() == i,
            values@.len() == i,
            keys@.kind() == key_kind,
            values@.kind() == value_kind,
            parse_map(old(reader)@) == parse_entries(reader@, (n - i) as nat, keys@, values@),
        decreases n - i,
    {
        let ghost here = reader@;
        let ghost whole = parse_entries(here, (n - i) as nat, keys@, values@);
        let ghost first = parse_data(here, key_kind);
        assert(first is Err ==> whole is Err && whole->Err_0 == first->Err_0);
        decode_element(reader, &mut keys)?;
        let ghost second = parse_data(reader@, value_kind);
        assert(second is Err ==> whole is Err && whole->Err_0 == second->Err_0);
        decode_element(reader, &mut values)?;
        assert(whole == parse_entries(reader@, (n - i - 1) as nat, keys@, values@));
        i = i + 1;
    }
    TMap::from_keys_and_values(keys, values)
}

/// Reads a message.
pub fn decode_message(reader: &mut &[u8]) -> (r: Result<Message, Error>)
    ensures
        agrees(r, final(reader)@, parse_message(old(reader)@)),
        advanced(r, old(reader)@, final(reader)@),
{
    let id = take_u8(reader)?;
    if id != PROTOCOL_ID {
        return Err(Error::invalid_input());
    }
    let b = take_u8(reader)?;
    let kind = match MessageKind::from_u8(b / 32) {
        Some(kind) => kind,
        None => {
            return Err(Error::invalid_input());
        },
    };
    if b % 32 != VERSION {
        return Err(Error::invalid_input());
    }
    let unsigned = read_varint32(reader)?;
    let sequence_id: i32 = unsigned as i32;
    assert(sequence_id == (if unsigned >= 0x8000_0000 {
        unsigned - 0x1_0000_0000
    } else {
        unsigned as int
    })) by (bit_vector)
        requires
            sequence_id == unsigned as i32,
    ;
    let name = decode_binary(reader)?;
    let name = match String::from_utf8(name) {
        Ok(name) => name,
        Err(_) => {
            return Err(Error::invalid_input());
        },
    };
    let body = decode_struct(reader)?;
    Ok(Message::new(name.as_str(), kind, sequence_id, body))
}

} // verus!
