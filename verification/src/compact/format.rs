//! The compact protocol as a description on models: the bytes of each value,
//! the values that have bytes, and what reading a byte string gives.
//!
//! Booleans and `i8` are written as in the binary protocol. Doubles are
//! written least significant byte first, as the mainstream implementations
//! of the protocol do.
use crate::binary::format::{bool_bytes, i8_bytes, parse_bool, parse_i8, MAX_SIZE};
use crate::data::{DataKind, DataModel, ElementsModel, FieldModel, MapModel};
use crate::endian::{le_bytes, le_nat, to_signed, to_unsigned};
use crate::error::ErrorKind;
use crate::message::{MessageKind, MessageModel};
use crate::varint::{parse_varint, parse_varint32, varint_bytes};
use crate::wire::{failed, parse_bytes, parse_u8, Parsed};
use crate::zigzag::{unzigzag, zigzag};
use vstd::pervasive::trigger;
use vstd::prelude::*;
use vstd::utf8::{decode_utf8, encode_utf8, valid_utf8};

verus! {

/// The first byte of every message.
pub const PROTOCOL_ID: u8 = 0x82;

/// The version of the protocol, in the low five bits of the second byte of
/// every message.
pub const VERSION: u8 = 1;

/// The type code of a boolean field that is true.
pub const FIELD_BOOLEAN_TRUE: u8 = 1;

/// The type code of a boolean field that is false.
pub const FIELD_BOOLEAN_FALSE: u8 = 2;

/// The type code of an `i8` field.
pub const FIELD_I8: u8 = 3;

/// The type code of an `i16` field.
pub const FIELD_I16: u8 = 4;

/// The type code of an `i32` field.
pub const FIELD_I32: u8 = 5;

/// The type code of an `i64` field.
pub const FIELD_I64: u8 = 6;

/// The type code of a double field.
pub const FIELD_DOUBLE: u8 = 7;

/// The type code of a byte string field.
pub const FIELD_BINARY: u8 = 8;

/// The type code of a list field.
pub const FIELD_LIST: u8 = 9;

/// The type code of a set field.
pub const FIELD_SET: u8 = 10;

/// The type code of a map field.
pub const FIELD_MAP: u8 = 11;

/// The type code of a struct field.
pub const FIELD_STRUCT: u8 = 12;

/// The type code that the header of a field holding `d` carries. A boolean
/// has its value in the code.
pub open spec fn field_type(d: DataModel) -> u8 {
    match d {
        DataModel::Bool(v) => if v {
            FIELD_BOOLEAN_TRUE
        } else {
            FIELD_BOOLEAN_FALSE
        },
        DataModel::I8(_) => FIELD_I8,
        DataModel::I16(_) => FIELD_I16,
        DataModel::I32(_) => FIELD_I32,
        DataModel::I64(_) => FIELD_I64,
        DataModel::Double(_) => FIELD_DOUBLE,
        DataModel::Binary(_) => FIELD_BINARY,
        DataModel::Struct(_) => FIELD_STRUCT,
        DataModel::TMap(_) => FIELD_MAP,
        DataModel::TSet(_) => FIELD_SET,
        DataModel::List(_) => FIELD_LIST,
    }
}

/// The kind of the value that follows a field header with the type code
/// `code`; none for the two boolean codes, which no value follows, and for
/// the codes that are not in use.
pub open spec fn field_kind(code: u8) -> Option<DataKind> {
    if code == FIELD_I8 {
        Some(DataKind::I8)
    } else if code == FIELD_I16 {
        Some(DataKind::I16)
    } else if code == FIELD_I32 {
        Some(DataKind::I32)
    } else if code == FIELD_I64 {
        Some(DataKind::I64)
    } else if code == FIELD_DOUBLE {
        Some(DataKind::Double)
    } else if code == FIELD_BINARY {
        Some(DataKind::Binary)
    } else if code == FIELD_LIST {
        Some(DataKind::List)
    } else if code == FIELD_SET {
        Some(DataKind::TSet)
    } else if code == FIELD_MAP {
        Some(DataKind::TMap)
    } else if code == FIELD_STRUCT {
        Some(DataKind::Struct)
    } else {
        None
    }
}

/// An `i16`: the varint of its ZigZag image.
pub open spec fn i16_bytes(v: i16) -> Seq<u8> {
    varint_bytes(zigzag(v as int) as nat)
}

/// An `i32`: the varint of its ZigZag image.
pub open spec fn i32_bytes(v: i32) -> Seq<u8> {
    varint_bytes(zigzag(v as int) as nat)
}

/// An `i64`: the varint of its ZigZag image.
pub open spec fn i64_bytes(v: i64) -> Seq<u8> {
    varint_bytes(zigzag(v as int) as nat)
}

/// A double: the eight bytes of its bits, least significant first.
pub open spec fn double_bytes(bits: u64) -> Seq<u8> {
    le_bytes(bits as nat, 8)
}

/// A byte string: the varint of its length, then its bytes.
pub open spec fn binary_bytes(b: Seq<u8>) -> Seq<u8> {
    varint_bytes(b.len()) + b
}

/// A value that stands in a container.
pub open spec fn data_bytes(d: DataModel) -> Seq<u8>
    decreases d, 0nat,
{
    match d {
        DataModel::Bool(v) => bool_bytes(v),
        DataModel::I8(v) => i8_bytes(v),
        DataModel::I16(v) => i16_bytes(v),
        DataModel::I32(v) => i32_bytes(v),
        DataModel::I64(v) => i64_bytes(v),
        DataModel::Double(v) => double_bytes(v),
        DataModel::Binary(v) => binary_bytes(v),
        DataModel::Struct(v) => struct_bytes(v),
        DataModel::TMap(v) => map_bytes(v),
        DataModel::TSet(v) => column_bytes(v),
        DataModel::List(v) => column_bytes(v),
    }
}

/// The difference that the header of a field with the identifier `id`
/// carries after a field with the identifier `prev`: `id - prev` where that
/// is between `1` and `15`, else `0`.
pub open spec fn id_delta(id: i16, prev: i16) -> int {
    if 1 <= id - prev <= 15 {
        id - prev
    } else {
        0
    }
}

/// The identifier of the field before the field at index `i`; `0` before
/// the first.
pub open spec fn prev_id(fields: Seq<FieldModel>, i: int) -> i16 {
    if 0 < i <= fields.len() {
        fields[i - 1].id
    } else {
        0
    }
}

/// A field after a field with the identifier `prev`: a header byte with the
/// difference of the identifiers in its high half and the type code in its low
/// half; the identifier, where the difference is `0`; the value, unless it is
/// a boolean.
pub open spec fn field_bytes(f: FieldModel, prev: i16) -> Seq<u8>
    decreases f, 1nat,
{
    seq![(id_delta(f.id, prev) * 16 + field_type(f.data)) as u8] + (if id_delta(f.id, prev) == 0 {
        i16_bytes(f.id)
    } else {
        Seq::empty()
    }) + (if f.data is Bool {
        Seq::empty()
    } else {
        data_bytes(f.data)
    })
}

/// The first `n` fields of a struct, one after the other.
pub open spec fn fields_bytes(fields: Seq<FieldModel>, n: nat) -> Seq<u8>
    decreases fields, n,
{
    if 0 < n <= fields.len() {
        fields_bytes(fields, (n - 1) as nat) + field_bytes(fields[n - 1], prev_id(fields, n - 1))
    } else {
        Seq::empty()
    }
}

/// A struct: its fields, then a zero byte.
pub open spec fn struct_bytes(fields: Seq<FieldModel>) -> Seq<u8>
    decreases fields, fields.len() + 1,
{
    fields_bytes(fields, fields.len()) + seq![0u8]
}

/// The element at index `i` of a column.
pub open spec fn element_bytes(e: ElementsModel, i: int) -> Seq<u8>
    decreases e, 0nat,
{
    if 0 <= i < e.len() {
        match e {
            ElementsModel::Bool(v) => bool_bytes(v[i]),
            ElementsModel::I8(v) => i8_bytes(v[i]),
            ElementsModel::I16(v) => i16_bytes(v[i]),
            ElementsModel::I32(v) => i32_bytes(v[i]),
            ElementsModel::I64(v) => i64_bytes(v[i]),
            ElementsModel::Double(v) => double_bytes(v[i]),
            ElementsModel::Binary(v) => binary_bytes(v[i]),
            ElementsModel::Struct(v) => struct_bytes(v[i]),
            ElementsModel::TMap(v) => map_bytes(v[i]),
            ElementsModel::TSet(v) => column_bytes(v[i]),
            ElementsModel::List(v) => column_bytes(v[i]),
        }
    } else {
        Seq::empty()
    }
}

/// The first `n` elements of a column, one after the other.
pub open spec fn elements_bytes(e: ElementsModel, n: nat) -> Seq<u8>
    decreases e, n,
{
    if 0 < n <= e.len() {
        elements_bytes(e, (n - 1) as nat) + element_bytes(e, n - 1)
    } else {
        Seq::empty()
    }
}

/// The header of a list or a set of `len` elements of the kind `kind`: one
/// byte with the count in its high half and the code of the kind in its low
/// half; from `15` elements on, `15` in the high half and the count after
/// it, as an `i32`.
pub open spec fn column_header(kind: DataKind, len: nat) -> Seq<u8> {
    if len < 15 {
        seq![(len * 16 + kind.code()) as u8]
    } else {
        seq![(0xF0 + kind.code()) as u8] + i32_bytes(len as i32)
    }
}

/// A list or a set: its header, then its elements.
pub open spec fn column_bytes(e: ElementsModel) -> Seq<u8>
    decreases e, e.len() + 1,
{
    column_header(e.kind(), e.len()) + elements_bytes(e, e.len())
}

/// The first `n` entries of a map: each key followed by its value.
pub open spec fn entries_bytes(m: MapModel, n: nat) -> Seq<u8>
    decreases m, n,
{
    match m {
        MapModel::Entries { keys, values } => if 0 < n <= keys.len() {
            entries_bytes(m, (n - 1) as nat) + element_bytes(keys, n - 1) + element_bytes(
                values,
                n - 1,
            )
        } else {
            Seq::empty()
        },
        MapModel::Empty => Seq::empty(),
    }
}

/// A map: a zero byte where it has no entries; else the varint of its
/// entry count, a byte with the code of the kind of its keys in its high half
/// and that of its values in its low half, then its entries.
pub open spec fn map_bytes(m: MapModel) -> Seq<u8>
    decreases m, m.len() + 1,
{
    match m {
        MapModel::Entries { keys, values } => if keys.len() == 0 {
            seq![0u8]
        } else {
            varint_bytes(keys.len()) + seq![(keys.kind().code() * 16 + values.kind().code()) as u8]
                + entries_bytes(m, keys.len())
        },
        MapModel::Empty => seq![0u8],
    }
}

/// A message: the protocol id, a byte with the code of its kind in its high
/// three bits and the version below, the varint of its sequence id as an
/// unsigned number, its method name in UTF-8, then its body.
pub open spec fn message_bytes(m: MessageModel) -> Seq<u8> {
    seq![PROTOCOL_ID, (m.kind.code() * 32 + VERSION) as u8] + varint_bytes(
        to_unsigned(m.sequence_id as int, 0x1_0000_0000),
    ) + binary_bytes(encode_utf8(m.method_name)) + struct_bytes(m.body)
}

/// Whether a value can be encoded: every byte string and every container in
/// it has at most `MAX_SIZE` bytes or elements, and every map in it has as
/// many values as keys.
pub open spec fn data_ok(d: DataModel) -> bool
    decreases d,
{
    match d {
        DataModel::Binary(v) => v.len() <= MAX_SIZE,
        DataModel::Struct(v) => struct_ok(v),
        DataModel::TMap(v) => map_ok(v),
        DataModel::TSet(v) => column_ok(v),
        DataModel::List(v) => column_ok(v),
        _ => true,
    }
}

/// Whether a struct can be encoded: each of its fields can.
pub open spec fn struct_ok(fields: Seq<FieldModel>) -> bool
    decreases fields,
{
    forall|i: int| 0 <= i < fields.len() ==> data_ok(#[trigger] fields[i].data)
}

/// Whether the element at index `i` of a column can be encoded.
pub open spec fn element_ok(e: ElementsModel, i: int) -> bool
    decreases e, 0nat,
{
    if 0 <= i < e.len() {
        match e {
            ElementsModel::Binary(v) => v[i].len() <= MAX_SIZE,
            ElementsModel::Struct(v) => struct_ok(v[i]),
            ElementsModel::TMap(v) => map_ok(v[i]),
            ElementsModel::TSet(v) => column_ok(v[i]),
            ElementsModel::List(v) => column_ok(v[i]),
            _ => true,
        }
    } else {
        true
    }
}

/// Whether the elements of a column can be encoded.
pub open spec fn elements_ok(e: ElementsModel) -> bool
    decreases e, 1nat,
{
    forall|i: int| 0 <= i < e.len() && #[trigger] trigger(i) ==> element_ok(e, i)
}

/// Whether a list or a set can be encoded.
pub open spec fn column_ok(e: ElementsModel) -> bool
    decreases e, 2nat,
{
    e.len() <= MAX_SIZE && elements_ok(e)
}

/// Whether a map can be encoded.
pub open spec fn map_ok(m: MapModel) -> bool
    decreases m,
{
    match m {
        MapModel::Entries { keys, values } => keys.len() == values.len() && column_ok(keys)
            && column_ok(values),
        MapModel::Empty => true,
    }
}

/// Whether a message can be encoded.
pub open spec fn message_ok(m: MessageModel) -> bool {
    encode_utf8(m.method_name).len() <= MAX_SIZE && struct_ok(m.body)
}

/// The bytes of a value, where it has any.
pub open spec fn data_wire(d: DataModel) -> Option<Seq<u8>> {
    if data_ok(d) {
        Some(data_bytes(d))
    } else {
        None
    }
}

/// The bytes of a struct, where it has any.
pub open spec fn struct_wire(fields: Seq<FieldModel>) -> Option<Seq<u8>> {
    if struct_ok(fields) {
        Some(struct_bytes(fields))
    } else {
        None
    }
}

/// The bytes of a list or a set, where it has any.
pub open spec fn column_wire(e: ElementsModel) -> Option<Seq<u8>> {
    if column_ok(e) {
        Some(column_bytes(e))
    } else {
        None
    }
}

/// The bytes of a map, where it has any.
pub open spec fn map_wire(m: MapModel) -> Option<Seq<u8>> {
    if map_ok(m) {
        Some(map_bytes(m))
    } else {
        None
    }
}

/// The bytes of a byte string, where it has any.
pub open spec fn binary_wire(b: Seq<u8>) -> Option<Seq<u8>> {
    if b.len() <= MAX_SIZE {
        Some(binary_bytes(b))
    } else {
        None
    }
}

/// The bytes of a message, where it has any.
pub open spec fn message_wire(m: MessageModel) -> Option<Seq<u8>> {
    if message_ok(m) {
        Some(message_bytes(m))
    } else {
        None
    }
}

/// Reading an `i32`: a 32-bit varint, taken back through ZigZag.
pub open spec fn parse_i32(input: Seq<u8>) -> Parsed<i32> {
    match parse_varint32(input) {
        Ok((z, rest)) => Ok((unzigzag(z as int) as i32, rest)),
        Err(k) => Err(k),
    }
}

/// Reading an `i16`: an `i32` that fits.
pub open spec fn parse_i16(input: Seq<u8>) -> Parsed<i16> {
    match parse_i32(input) {
        Ok((v, rest)) => if i16::MIN <= v <= i16::MAX {
            Ok((v as i16, rest))
        } else {
            failed(ErrorKind::InvalidInput, rest)
        },
        Err(k) => Err(k),
    }
}

/// Reading an `i64`: a 64-bit varint, taken back through ZigZag.
pub open spec fn parse_i64(input: Seq<u8>) -> Parsed<i64> {
    match parse_varint(input) {
        Ok((z, rest)) => Ok((unzigzag(z as int) as i64, rest)),
        Err(k) => Err(k),
    }
}

/// Reading the bits of a double.
pub open spec fn parse_double(input: Seq<u8>) -> Parsed<u64> {
    match parse_bytes(input, 8) {
        Ok((b, rest)) => Ok((le_nat(b) as u64, rest)),
        Err(k) => Err(k),
    }
}

/// Reading a length or an entry count: a 32-bit varint up to `MAX_SIZE`.
pub open spec fn parse_size(input: Seq<u8>) -> Parsed<nat> {
    match parse_varint32(input) {
        Ok((n, rest)) => if n <= MAX_SIZE {
            Ok((n as nat, rest))
        } else {
            failed(ErrorKind::InvalidInput, rest)
        },
        Err(k) => Err(k),
    }
}

/// Reading a byte string: its length, then as many bytes.
pub open spec fn parse_binary(input: Seq<u8>) -> Parsed<Seq<u8>> {
    match parse_size(input) {
        Ok((n, rest)) => parse_bytes(rest, n),
        Err(k) => Err(k),
    }
}

/// Reading a value of the given kind from a container.
pub open spec fn parse_data(input: Seq<u8>, kind: DataKind) -> Parsed<DataModel>
    decreases input.len(), 2nat,
{
    match kind {
        DataKind::Bool => match parse_bool(input) {
            Ok((v, rest)) => Ok((DataModel::Bool(v), rest)),
            Err(k) => Err(k),
        },
        DataKind::I8 => match parse_i8(input) {
            Ok((v, rest)) => Ok((DataModel::I8(v), rest)),
            Err(k) => Err(k),
        },
        DataKind::I16 => match parse_i16(input) {
            Ok((v, rest)) => Ok((DataModel::I16(v), rest)),
            Err(k) => Err(k),
        },
        DataKind::I32 => match parse_i32(input) {
            Ok((v, rest)) => Ok((DataModel::I32(v), rest)),
            Err(k) => Err(k),
        },
        DataKind::I64 => match parse_i64(input) {
            Ok((v, rest)) => Ok((DataModel::I64(v), rest)),
            Err(k) => Err(k),
        },
        DataKind::Double => match parse_double(input) {
            Ok((v, rest)) => Ok((DataModel::Double(v), rest)),
            Err(k) => Err(k),
        },
        DataKind::Binary => match parse_binary(input) {
            Ok((v, rest)) => Ok((DataModel::Binary(v), rest)),
            Err(k) => Err(k),
        },
        DataKind::Struct => match parse_struct(input) {
            Ok((v, rest)) => Ok((DataModel::Struct(v), rest)),
            Err(k) => Err(k),
        },
        DataKind::TMap => match parse_map(input) {
            Ok((v, rest)) => Ok((DataModel::TMap(v), rest)),
            Err(k) => Err(k),
        },
        DataKind::TSet => match parse_column(input) {
            Ok((v, rest)) => Ok((DataModel::TSet(v), rest)),
            Err(k) => Err(k),
        },
        DataKind::List => match parse_column(input) {
            Ok((v, rest)) => Ok((DataModel::List(v), rest)),
            Err(k) => Err(k),
        },
    }
}

/// Reading the identifier of a field whose header carries the difference
/// `delta`, after a field with the identifier `prev`: `prev + delta` where the
/// difference is not `0` (`InvalidInput` where that is no `i16`), else an
/// `i16` from the input.
pub open spec fn parse_field_id(input: Seq<u8>, delta: u8, prev: i16) -> Parsed<i16> {
    if delta != 0 {
        if prev + delta <= i16::MAX {
            Ok(((prev + delta) as i16, input))
        } else {
            failed(ErrorKind::InvalidInput, input)
        }
    } else {
        parse_i16(input)
    }
}

/// Reading the value of a field whose header carries the type code `code`:
/// nothing for a boolean; `InvalidInput` for a code that is not in use.
pub open spec fn parse_field_data(input: Seq<u8>, code: u8) -> Parsed<DataModel>
    decreases input.len(), 3nat,
{
    if code == FIELD_BOOLEAN_TRUE {
        Ok((DataModel::Bool(true), input))
    } else if code == FIELD_BOOLEAN_FALSE {
        Ok((DataModel::Bool(false), input))
    } else {
        match field_kind(code) {
            Some(kind) => parse_data(input, kind),
            None => failed(ErrorKind::InvalidInput, input),
        }
    }
}

/// Reading the fields of a struct after the fields `done`, the last of which
/// had the identifier `prev`: a zero byte ends the struct; any other byte is
/// a field header, and the identifier and the value follow as the header
/// says.
///
/// A header takes a byte, so what is left after the identifier and after
/// the value of a field is shorter than `input`; the tests of this are what
/// shows that the definition terminates, and never fail
/// (`laws::lemma_headers_shorten`).
pub open spec fn parse_fields(input: Seq<u8>, prev: i16, done: Seq<FieldModel>) -> Parsed<
    Seq<FieldModel>,
>
    decreases input.len(), 0nat,
{
    match parse_u8(input) {
        Ok((header, after_header)) => if header == 0 {
            Ok((done, after_header))
        } else {
            match parse_field_id(after_header, header / 16, prev) {
                Ok((id, after_id)) => if after_id.len() < input.len() {
                    match parse_field_data(after_id, header % 16) {
                        Ok((data, rest)) => if rest.len() < input.len() {
                            parse_fields(rest, id, done.push(FieldModel { id, data }))
                        } else {
                            failed(ErrorKind::Other, rest)
                        },
                        Err(k) => Err(k),
                    }
                } else {
                    failed(ErrorKind::Other, after_id)
                },
                Err(k) => Err(k),
            }
        },
        Err(k) => Err(k),
    }
}

/// Reading a struct.
pub open spec fn parse_struct(input: Seq<u8>) -> Parsed<Seq<FieldModel>>
    decreases input.len(), 1nat,
{
    parse_fields(input, 0, Seq::empty())
}

/// Reading `n` more elements of a column after the elements `done`.
///
/// A value takes at least one byte, so what is left after an element is
/// shorter than `input`; the test of this is what shows that the definition
/// terminates, and never fails (`laws::lemma_data_shortens`).
pub open spec fn parse_elements(input: Seq<u8>, n: nat, done: ElementsModel) -> Parsed<
    ElementsModel,
>
    decreases input.len(), 3nat,
{
    if n == 0 {
        Ok((done, input))
    } else {
        match parse_data(input, done.kind()) {
            Ok((d, rest)) => if rest.len() < input.len() {
                parse_elements(rest, (n - 1) as nat, done.push(d))
            } else {
                failed(ErrorKind::Other, rest)
            },
            Err(k) => Err(k),
        }
    }
}

/// Reading the element count of a list or a set whose header carries `high`
/// in its high half: `high` itself below `15`, else an `i32` from the input,
/// which must be `15` or more.
pub open spec fn parse_count(input: Seq<u8>, high: u8) -> Parsed<nat> {
    if high != 15 {
        Ok((high as nat, input))
    } else {
        match parse_i32(input) {
            Ok((n, rest)) => if n >= 15 {
                Ok((n as nat, rest))
            } else {
                failed(ErrorKind::InvalidInput, rest)
            },
            Err(k) => Err(k),
        }
    }
}

/// Reading a list or a set: the header byte, the element count where the
/// header does not hold it, then as many values of the kind whose code the
/// header carries; `InvalidInput` where that is the code of no kind.
///
/// The header takes a byte, so what is left after the element count is
/// shorter than `input`; the test of this is what shows that the definition
/// terminates, and never fails (`laws::lemma_headers_shorten`).
pub open spec fn parse_column(input: Seq<u8>) -> Parsed<ElementsModel>
    decreases input.len(), 1nat,
{
    match parse_u8(input) {
        Ok((header, after_header)) => match parse_count(after_header, header / 16) {
            Ok((n, rest)) => match DataKind::from_code(header % 16) {
                Some(kind) => if rest.len() < input.len() {
                    parse_elements(rest, n, ElementsModel::empty(kind))
                } else {
                    failed(ErrorKind::Other, rest)
                },
                None => failed(ErrorKind::InvalidInput, rest),
            },
            Err(k) => Err(k),
        },
        Err(k) => Err(k),
    }
}

/// Reading `n` more entries of a map after the entries in `keys` and
/// `values`: a key, then a value.
///
/// A value takes at least one byte, so what is left after an entry is shorter
/// than `input`; the tests of this are what shows that the definition
/// terminates, and never fail (`laws::lemma_data_shortens`).
pub open spec fn parse_entries(
    input: Seq<u8>,
    n: nat,
    keys: ElementsModel,
    values: ElementsModel,
) -> Parsed<MapModel>
    decreases input.len(), 3nat,
{
    if n == 0 {
        Ok((MapModel::Entries { keys, values }, input))
    } else {
        match parse_data(input, keys.kind()) {
            Ok((k, after_key)) => if after_key.len() < input.len() {
                match parse_data(after_key, values.kind()) {
                    Ok((v, rest)) => if rest.len() < input.len() {
                        parse_entries(rest, (n - 1) as nat, keys.push(k), values.push(v))
                    } else {
                        failed(ErrorKind::Other, rest)
                    },
                    Err(e) => Err(e),
                }
            } else {
                failed(ErrorKind::Other, after_key)
            },
            Err(e) => Err(e),
        }
    }
}

/// Reading the byte with the kinds of the keys and of the values of a map;
/// `InvalidInput` where either half is the code of no kind.
pub open spec fn parse_kinds(input: Seq<u8>) -> Parsed<(DataKind, DataKind)> {
    match parse_u8(input) {
        Ok((b, rest)) => match DataKind::from_code(b / 16) {
            Some(key_kind) => match DataKind::from_code(b % 16) {
                Some(value_kind) => Ok(((key_kind, value_kind), rest)),
                None => failed(ErrorKind::InvalidInput, rest),
            },
            None => failed(ErrorKind::InvalidInput, rest),
        },
        Err(k) => Err(k),
    }
}

/// Reading a map: a zero byte is the map without entries and without
/// columns; else the entry count, the byte with the kinds, then as many
/// entries.
///
/// What is left after the kinds is shorter than `input`; the test of this is
/// what shows that the definition terminates, and never fails
/// (`laws::lemma_headers_shorten`).
pub open spec fn parse_map(input: Seq<u8>) -> Parsed<MapModel>
    decreases input.len(), 1nat,
{
    match parse_u8(input) {
        Ok((first, after_first)) => if first == 0 {
            Ok((MapModel::Empty, after_first))
        } else {
            match parse_size(input) {
                Ok((n, after_size)) => match parse_kinds(after_size) {
                    Ok((kinds, rest)) => if rest.len() < input.len() {
                        parse_entries(
                            rest,
                            n,
                            ElementsModel::empty(kinds.0),
                            ElementsModel::empty(kinds.1),
                        )
                    } else {
                        failed(ErrorKind::Other, rest)
                    },
                    Err(k) => Err(k),
                },
                Err(k) => Err(k),
            }
        },
        Err(k) => Err(k),
    }
}

/// Reading the protocol id; any other byte is `InvalidInput`.
pub open spec fn parse_protocol_id(input: Seq<u8>) -> Parsed<()> {
    match parse_u8(input) {
        Ok((b, rest)) => if b == PROTOCOL_ID {
            Ok(((), rest))
        } else {
            failed(ErrorKind::InvalidInput, rest)
        },
        Err(k) => Err(k),
    }
}

/// Reading the kind of a message: the high three bits of a byte whose low
/// five bits are the version.
pub open spec fn parse_message_kind(input: Seq<u8>) -> Parsed<MessageKind> {
    match parse_u8(input) {
        Ok((b, rest)) => match MessageKind::from_code(b / 32) {
            Some(kind) => if b % 32 == VERSION {
                Ok((kind, rest))
            } else {
                failed(ErrorKind::InvalidInput, rest)
            },
            None => failed(ErrorKind::InvalidInput, rest),
        },
        Err(k) => Err(k),
    }
}

/// Reading a sequence id: a 32-bit varint, taken as a number in two's
/// complement.
pub open spec fn parse_sequence_id(input: Seq<u8>) -> Parsed<i32> {
    match parse_varint32(input) {
        Ok((v, rest)) => Ok((to_signed(v as nat, 0x1_0000_0000) as i32, rest)),
        Err(k) => Err(k),
    }
}

/// Reading a method name: a byte string that is valid UTF-8.
pub open spec fn parse_name(input: Seq<u8>) -> Parsed<Seq<char>> {
    match parse_binary(input) {
        Ok((b, rest)) => if valid_utf8(b) {
            Ok((decode_utf8(b), rest))
        } else {
            failed(ErrorKind::InvalidInput, rest)
        },
        Err(k) => Err(k),
    }
}

/// Reading a message: the protocol id, the kind and the version, the
/// sequence id, the method name, then the body.
pub open spec fn parse_message(input: Seq<u8>) -> Parsed<MessageModel> {
    match parse_protocol_id(input) {
        Ok((_, after_id)) => match parse_message_kind(after_id) {
            Ok((kind, after_kind)) => match parse_sequence_id(after_kind) {
                Ok((sequence_id, after_sequence_id)) => match parse_name(after_sequence_id) {
                    Ok((method_name, after_name)) => match parse_struct(after_name) {
                        Ok((body, rest)) => Ok(
                            (MessageModel { method_name, kind, sequence_id, body }, rest),
                        ),
                        Err(k) => Err(k),
                    },
                    Err(k) => Err(k),
                },
                Err(k) => Err(k),
            },
            Err(k) => Err(k),
        },
        Err(k) => Err(k),
    }
}

/// A value that was read as one of a kind is of that kind.
pub proof fn lemma_parse_data_kind(input: Seq<u8>, kind: DataKind)
    ensures
        parse_data(input, kind) matches Ok((d, _)) ==> d.kind() == kind,
{
}

} // verus!
