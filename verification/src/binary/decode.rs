//! Decoders of the binary protocol.
use crate::binary::format::{
    lemma_parse_data_kind, parse_binary, parse_bool, parse_column, parse_data, parse_double,
    parse_elements, parse_entries, parse_fields, parse_i16, parse_i32, parse_i64, parse_i8,
    parse_kind, parse_map, parse_message, parse_size, parse_struct, VERSION_WORD,
};
use crate::data::{
    field_models, Data, DataKind, Double, Elements, ElementsModel, Field, FieldModel, List, Struct,
    TMap, TSet,
};
use crate::endian::{read_i16_be, read_i32_be, read_i64_be, read_u16_be, read_u64_be};
use crate::error::Error;
use crate::message::{Message, MessageKind};
use crate::wire::{advanced, agrees, parsed, take_bytes, take_u8};
use vstd::prelude::*;
use vstd::slice::slice_to_vec;

verus! {

/// Reads a boolean.
pub fn decode_bool(reader: &mut &[u8]) -> (r: Result<bool, Error>)
    ensures
        agrees(r, final(reader)@, parse_bool(old(reader)@)),
        advanced(r, old(reader)@, final(reader)@),
{
    let b = take_u8(reader)?;
    if b >= 2 {
        return Err(Error::invalid_input());
    }
    Ok(b == 1)
}

/// Reads an `i8`.
pub fn decode_i8(reader: &mut &[u8]) -> (r: Result<i8, Error>)
    ensures
        agrees(r, final(reader)@, parse_i8(old(reader)@)),
        advanced(r, old(reader)@, final(reader)@),
{
    let b = take_u8(reader)?;
    let v: i8 = b as i8;
    assert(v == (if b >= 0x80 { b - 0x100 } else { b as int })) by (bit_vector)
        requires
            v == b as i8,
    ;
    Ok(v)
}

/// Reads an `i16`.
pub fn decode_i16(reader: &mut &[u8]) -> (r: Result<i16, Error>)
    ensures
        agrees(r, final(reader)@, parse_i16(old(reader)@)),
        advanced(r, old(reader)@, final(reader)@),
{
    let bytes = take_bytes(reader, 2)?;
    assert(bytes@.subrange(0, 2) =~= bytes@);
    Ok(read_i16_be(bytes))
}

/// Reads an `i32`.
pub fn decode_i32(reader: &mut &[u8]) -> (r: Result<i32, Error>)
    ensures
        agrees(r, final(reader)@, parse_i32(old(reader)@)),
        advanced(r, old(reader)@, final(reader)@),
{
    let bytes = take_bytes(reader, 4)?;
    assert(bytes@.subrange(0, 4) =~= bytes@);
    Ok(read_i32_be(bytes))
}

/// Reads an `i64`.
pub fn decode_i64(reader: &mut &[u8]) -> (r: Result<i64, Error>)
    ensures
        agrees(r, final(reader)@, parse_i64(old(reader)@)),
        advanced(r, old(reader)@, final(reader)@),
{
    let bytes = take_bytes(reader, 8)?;
    assert(bytes@.subrange(0, 8) =~= bytes@);
    Ok(read_i64_be(bytes))
}

/// Reads a double.
pub fn decode_double(reader: &mut &[u8]) -> (r: Result<Double, Error>)
    ensures
        agrees(r, final(reader)@, parse_double(old(reader)@)),
        advanced(r, old(reader)@, final(reader)@),
{
    let bytes = take_bytes(reader, 8)?;
    assert(bytes@.subrange(0, 8) =~= bytes@);
    Ok(Double::from_bits(read_u64_be(bytes)))
}

/// Reads a length or an element count.
fn decode_size(reader: &mut &[u8]) -> (r: Result<usize, Error>)
    ensures
        match parse_size(old(reader)@) {
            Ok((n, rest)) => r matches Ok(x) && x == n && final(reader)@ == rest,
            Err((k, rest)) => r matches Err(e) && e@ == k && final(reader)@ == rest,
        },
        advanced(r, old(reader)@, final(reader)@),
{
    let n = decode_i32(reader)?;
    if n < 0 {
        return Err(Error::invalid_input());
    }
    Ok(n as usize)
}

/// Reads the code of a kind.
fn decode_kind(reader: &mut &[u8]) -> (r: Result<DataKind, Error>)
    ensures
        match parse_kind(old(reader)@) {
            Ok((k, rest)) => r == Ok::<DataKind, Error>(k) && final(reader)@ == rest,
            Err((k, rest)) => r matches Err(e) && e@ == k && final(reader)@ == rest,
        },
        advanced(r, old(reader)@, final(reader)@),
{
    let code = take_u8(reader)?;
    match DataKind::from_u8(code) {
        Some(kind) => Ok(kind),
        None => Err(Error::invalid_input()),
    }
}

/// Reads a byte string.
pub fn decode_binary(reader: &mut &[u8]) -> (r: Result<Vec<u8>, Error>)
    ensures
        agrees(r, final(reader)@, parse_binary(old(reader)@)),
        advanced(r, old(reader)@, final(reader)@),
{
    let n = decode_size(reader)?;
    let bytes = take_bytes(reader, n)?;
    Ok(slice_to_vec(bytes))
}

/// Reads a value of the given kind.
pub fn decode_data(reader: &mut &[u8], kind: DataKind) -> (r: Result<Data, Error>)
    ensures
        agrees(r, final(reader)@, parse_data(old(reader)@, kind)),
        advanced(r, old(reader)@, final(reader)@),
    decreases old(reader)@.len(), 2nat,
{
    match kind {
        DataKind::Bool => Ok(Data::Bool(decode_bool(reader)?)),
        DataKind::I8 => Ok(Data::I8(decode_i8(reader)?)),
        DataKind::I16 => Ok(Data::I16(decode_i16(reader)?)),
        DataKind::I32 => Ok(Data::I32(decode_i32(reader)?)),
        DataKind::I64 => Ok(Data::I64(decode_i64(reader)?)),
        DataKind::Double => Ok(Data::Double(decode_double(reader)?)),
        DataKind::Binary => Ok(Data::Binary(decode_binary(reader)?)),
        DataKind::Struct => Ok(Data::Struct(decode_struct(reader)?)),
        DataKind::TMap => Ok(Data::TMap(decode_map(reader)?)),
        DataKind::TSet => Ok(Data::TSet(decode_set(reader)?)),
        DataKind::List => Ok(Data::List(decode_list(reader)?)),
    }
}

/// Reads a struct.
pub fn decode_struct(reader: &mut &[u8]) -> (r: Result<Struct, Error>)
    ensures
        agrees(r, final(reader)@, parse_struct(old(reader)@)),
        advanced(r, old(reader)@, final(reader)@),
    decreases old(reader)@.len(), 1nat,
{
    let ghost input = reader@;
    let mut fields: Vec<Field> = Vec::new();
    assert(field_models(fields@) =~= Seq::empty());
    loop
        invariant_except_break
            parse_struct(input) == parse_fields(reader@, field_models(fields@)),
        invariant
            input == old(reader)@,
            reader@.len() <= input.len(),
        ensures
            parse_struct(input) == parsed(field_models(fields@), reader@),
            reader@.len() < input.len(),
        decreases reader@.len(),
    {
        let ghost here = reader@;
        let ghost done = field_models(fields@);
        let code = take_u8(reader)?;
        if code == 0 {
            break ;
        }
        let kind = match DataKind::from_u8(code) {
            Some(kind) => kind,
            None => {
                return Err(Error::invalid_input());
            },
        };
        let id = decode_i16(reader)?;
        let data = decode_data(reader, kind)?;
        fields.push(Field::new(id, data));
        assert(field_models(fields@) =~= done.push(FieldModel { id, data: data@ }));
    }
    Ok(Struct::new(fields))
}

/// Reads a value of the kind of `elements` and adds it at their end.
fn decode_element(reader: &mut &[u8], elements: &mut Elements) -> (r: Result<(), Error>)
    ensures
        match parse_data(old(reader)@, old(elements)@.kind()) {
            Ok((d, rest)) => r is Ok && final(elements)@ == old(elements)@.push(d)
                && final(reader)@ == rest,
            Err((k, rest)) => r matches Err(e) && e@ == k && final(reader)@ == rest,
        },
        r is Ok ==> final(elements)@.kind() == old(elements)@.kind() && final(elements)@.len()
            == old(elements)@.len() + 1,
        advanced(r, old(reader)@, final(reader)@),
    decreases old(reader)@.len(), 3nat,
{
    let kind = elements.kind();
    let data = decode_data(reader, kind)?;
    proof {
        lemma_parse_data_kind(old(reader)@, kind);
    }
    elements.push(data)
}

/// Reads the kind, the element count and the elements of a list or a set.
fn decode_column(reader: &mut &[u8]) -> (r: Result<Elements, Error>)
    ensures
        agrees(r, final(reader)@, parse_column(old(reader)@)),
        advanced(r, old(reader)@, final(reader)@),
    decreases old(reader)@.len(), 0nat,
{
    let kind = decode_kind(reader)?;
    let n = decode_size(reader)?;
    let ghost start = reader@;
    let mut elements = Elements::new(kind);
    let mut i: usize = 0;
    while i < n
        invariant
            i <= n,
            start.len() < old(reader)@.len(),
            reader@.len() <= start.len(),
            elements@.kind() == kind,
            parse_column(old(reader)@) == parse_elements(
                start,
                n as nat,
                ElementsModel::empty(kind),
            ),
            parse_elements(start, n as nat, ElementsModel::empty(kind)) == parse_elements(
                reader@,
                (n - i) as nat,
                elements@,
            ),
        decreases n - i,
    {
        decode_element(reader, &mut elements)?;
        i = i + 1;
    }
    Ok(elements)
}

/// Reads a list.
pub fn decode_list(reader: &mut &[u8]) -> (r: Result<List, Error>)
    ensures
        agrees(r, final(reader)@, parse_column(old(reader)@)),
        advanced(r, old(reader)@, final(reader)@),
    decreases old(reader)@.len(), 1nat,
{
    Ok(List::new(decode_column(reader)?))
}

/// Reads a set.
pub fn decode_set(reader: &mut &[u8]) -> (r: Result<TSet, Error>)
    ensures
        agrees(r, final(reader)@, parse_column(old(reader)@)),
        advanced(r, old(reader)@, final(reader)@),
    decreases old(reader)@.len(), 1nat,
{
    Ok(TSet::new(decode_column(reader)?))
}

/// Reads a map.
pub fn decode_map(reader: &mut &[u8]) -> (r: Result<TMap, Error>)
    ensures
        agrees(r, final(reader)@, parse_map(old(reader)@)),
        advanced(r, old(reader)@, final(reader)@),
    decreases old(reader)@.len(), 1nat,
{
    let key_kind = decode_kind(reader)?;
    let value_kind = decode_kind(reader)?;
    let n = decode_size(reader)?;
    let ghost start = reader@;
    let mut keys = Elements::new(key_kind);
    let mut values = Elements::new(value_kind);
    let mut i: usize = 0;
    while i < n
        invariant
            i <= n,
            start.len() < old(reader)@.len(),
            reader@.len() <= start.len(),
            keys@.len() == i,
            values@.len() == i,
            keys@.kind() == key_kind,
            values@.kind() == value_kind,
            parse_map(old(reader)@) == parse_entries(reader@, (n - i) as nat, keys@, values@),
        decreases n - i,
    {
        let ghost here = reader@;
        let ghost whole = parse_entries(here, (n - i) as nat, keys@, values@);
        let ghost first = parse_data(here, key_kind);
        assert(first is Err ==> whole is Err && whole->Err_0 == first->Err_0);
        decode_element(reader, &mut keys)?;
        let ghost second = parse_data(reader@, value_kind);
        assert(second is Err ==> whole is Err && whole->Err_0 == second->Err_0);
        decode_element(reader, &mut values)?;
        assert(whole == parse_entries(reader@, (n - i - 1) as nat, keys@, values@));
        i = i + 1;
    }
    TMap::from_keys_and_values(keys, values)
}

/// Reads a message.
pub fn decode_message(reader: &mut &[u8]) -> (r: Result<Message, Error>)
    ensures
        agrees(r, final(reader)@, parse_message(old(reader)@)),
        advanced(r, old(reader)@, final(reader)@),
{
    let word = take_bytes(reader, 2)?;
    assert(word@.subrange(0, 2) =~= word@);
    let version = read_u16_be(word);
    if version < 0x8000 {
        return Err(Error::other());
    }
    if version != VERSION_WORD {
        return Err(Error::invalid_input());
    }
    let _unused = take_u8(reader)?;
    let b = take_u8(reader)?;
    let low: u8 = b & 0b111;
    assert(low == b % 8) by (bit_vector)
        requires
            low == b & 0b111,
    ;
    let kind = match MessageKind::from_u8(low) {
        Some(kind) => kind,
        None => {
            return Err(Error::invalid_input());
        },
    };
    let name = decode_binary(reader)?;
    let name = match String::from_utf8(name) {
        Ok(name) => name,
        Err(_) => {
            return Err(Error::invalid_input());
        },
    };
    let sequence_id = decode_i32(reader)?;
    let body = decode_struct(reader)?;
    Ok(Message::new(name.as_str(), kind, sequence_id, body))
}

} // verus!
