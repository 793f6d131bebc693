//! The binary protocol as a description on models: the bytes of each value,
//! the values that have bytes, and what reading a byte string gives.
use crate::data::{DataKind, DataModel, ElementsModel, FieldModel, MapModel};
use crate::endian::{be_bytes, be_nat, to_signed, to_unsigned};
use crate::error::ErrorKind;
use crate::message::{MessageKind, MessageModel};
use crate::wire::{failed, parse_bytes, parse_u8, Parsed};
use vstd::pervasive::trigger;
use vstd::prelude::*;
use vstd::utf8::{decode_utf8, encode_utf8, valid_utf8};

verus! {

/// The largest length or element count that either protocol carries.
pub const MAX_SIZE: usize = 0x7FFF_FFFF;

/// The version word of a message: the top bit, and version `1` below it.
pub const VERSION_WORD: u16 = 0x8001;

/// A boolean: one byte, `1` or `0`.
pub open spec fn bool_bytes(v: bool) -> Seq<u8> {
    seq![if v { 1u8 } else { 0u8 }]
}

/// An `i8`: one byte, in two's complement.
pub open spec fn i8_bytes(v: i8) -> Seq<u8> {
    seq![to_unsigned(v as int, 0x100) as u8]
}

/// An `i16`: two bytes, in two's complement.
pub open spec fn i16_bytes(v: i16) -> Seq<u8> {
    be_bytes(to_unsigned(v as int, 0x1_0000), 2)
}

/// An `i32`: four bytes, in two's complement.
pub open spec fn i32_bytes(v: i32) -> Seq<u8> {
    be_bytes(to_unsigned(v as int, 0x1_0000_0000), 4)
}

/// An `i64`: eight bytes, in two's complement.
pub open spec fn i64_bytes(v: i64) -> Seq<u8> {
    be_bytes(to_unsigned(v as int, 0x1_0000_0000_0000_0000), 8)
}

/// A double: the eight bytes of its bits.
pub open spec fn double_bytes(bits: u64) -> Seq<u8> {
    be_bytes(bits as nat, 8)
}

/// A length or an element count: four bytes.
pub open spec fn size_bytes(n: nat) -> Seq<u8> {
    be_bytes(n, 4)
}

/// A byte string: its length, then its bytes.
pub open spec fn binary_bytes(b: Seq<u8>) -> Seq<u8> {
    size_bytes(b.len()) + b
}

/// A value.
pub open spec fn data_bytes(d: DataModel) -> Seq<u8>
    decreases d, 0nat,
{
    match d {
        DataModel::Bool(v) => bool_bytes(v),
        DataModel::I8(v) => i8_bytes(v),
        DataModel::I16(v) => i16_bytes(v),
        DataModel::I32(v) => i32_bytes(v),
        DataModel::I64(v) => i64_bytes(v),
        DataModel::Double(v) => double_bytes(v),
        DataModel::Binary(v) => binary_bytes(v),
        DataModel::Struct(v) => struct_bytes(v),
        DataModel::TMap(v) => map_bytes(v),
        DataModel::TSet(v) => column_bytes(v),
        DataModel::List(v) => column_bytes(v),
    }
}

/// A field: the code of its kind, its identifier, then its value.
pub open spec fn field_bytes(f: FieldModel) -> Seq<u8>
    decreases f, 1nat,
{
    seq![f.data.kind().code()] + i16_bytes(f.id) + data_bytes(f.data)
}

/// The first `n` fields of a struct, one after the other.
pub open spec fn fields_bytes(fields: Seq<FieldModel>, n: nat) -> Seq<u8>
    decreases fields, n,
{
    if 0 < n <= fields.len() {
        fields_bytes(fields, (n - 1) as nat) + field_bytes(fields[n - 1])
    } else {
        Seq::empty()
    }
}

/// A struct: its fields, then a zero byte.
pub open spec fn struct_bytes(fields: Seq<FieldModel>) -> Seq<u8>
    decreases fields, fields.len() + 1,
{
    fields_bytes(fields, fields.len()) + seq![0u8]
}

/// The element at index `i` of a column.
pub open spec fn element_bytes(e: ElementsModel, i: int) -> Seq<u8>
    decreases e, 0nat,
{
    if 0 <= i < e.len() {
        match e {
            ElementsModel::Bool(v) => bool_bytes(v[i]),
            ElementsModel::I8(v) => i8_bytes(v[i]),
            ElementsModel::I16(v) => i16_bytes(v[i]),
            ElementsModel::I32(v) => i32_bytes(v[i]),
            ElementsModel::I64(v) => i64_bytes(v[i]),
            ElementsModel::Double(v) => double_bytes(v[i]),
            ElementsModel::Binary(v) => binary_bytes(v[i]),
            ElementsModel::Struct(v) => struct_bytes(v[i]),
            ElementsModel::TMap(v) => map_bytes(v[i]),
            ElementsModel::TSet(v) => column_bytes(v[i]),
            ElementsModel::List(v) => column_bytes(v[i]),
        }
    } else {
        Seq::empty()
    }
}

/// The first `n` elements of a column, one after the other.
pub open spec fn elements_bytes(e: ElementsModel, n: nat) -> Seq<u8>
    decreases e, n,
{
    if 0 < n <= e.len() {
        elements_bytes(e, (n - 1) as nat) + element_bytes(e, n - 1)
    } else {
        Seq::empty()
    }
}

/// A list or a set: the code of its kind, its element count, then its
/// elements.
pub open spec fn column_bytes(e: ElementsModel) -> Seq<u8>
    decreases e, e.len() + 1,
{
    seq![e.kind().code()] + size_bytes(e.len()) + elements_bytes(e, e.len())
}

/// The first `n` entries of a map: each key followed by its value.
pub open spec fn entries_bytes(m: MapModel, n: nat) -> Seq<u8>
    decreases m, n,
{
    match m {
        MapModel::Entries { keys, values } => if 0 < n <= keys.len() {
            entries_bytes(m, (n - 1) as nat) + element_bytes(keys, n - 1) + element_bytes(
                values,
                n - 1,
            )
        } else {
            Seq::empty()
        },
        MapModel::Empty => Seq::empty(),
    }
}

/// A map with columns: the codes of the kinds of its keys and values, its
/// entry count, then its entries. A map without columns has no bytes.
pub open spec fn map_bytes(m: MapModel) -> Seq<u8>
    decreases m, m.len() + 1,
{
    match m {
        MapModel::Entries { keys, values } => seq![keys.kind().code(), values.kind().code()]
            + size_bytes(keys.len()) + entries_bytes(m, keys.len()),
        MapModel::Empty => Seq::empty(),
    }
}

/// A message: the version word, a zero byte, the code of its kind, its
/// method name in UTF-8, its sequence id, then its body.
pub open spec fn message_bytes(m: MessageModel) -> Seq<u8> {
    be_bytes(VERSION_WORD as nat, 2) + seq![0u8, m.kind.code()] + binary_bytes(
        encode_utf8(m.method_name),
    ) + i32_bytes(m.sequence_id) + struct_bytes(m.body)
}

/// Whether a value can be encoded: every byte string and every container in
/// it has at most `MAX_SIZE` bytes or elements, and every map in it has
/// columns, of one length.
pub open spec fn data_ok(d: DataModel) -> bool
    decreases d,
{
    match d {
        DataModel::Binary(v) => v.len() <= MAX_SIZE,
        DataModel::Struct(v) => struct_ok(v),
        DataModel::TMap(v) => map_ok(v),
        DataModel::TSet(v) => column_ok(v),
        DataModel::List(v) => column_ok(v),
        _ => true,
    }
}

/// Whether a struct can be encoded: each of its fields can.
pub open spec fn struct_ok(fields: Seq<FieldModel>) -> bool
    decreases fields,
{
    forall|i: int| 0 <= i < fields.len() ==> data_ok(#[trigger] fields[i].data)
}

/// Whether the element at index `i` of a column can be encoded.
pub open spec fn element_ok(e: ElementsModel, i: int) -> bool
    decreases e, 0nat,
{
    if 0 <= i < e.len() {
        match e {
            ElementsModel::Binary(v) => v[i].len() <= MAX_SIZE,
            ElementsModel::Struct(v) => struct_ok(v[i]),
            ElementsModel::TMap(v) => map_ok(v[i]),
            ElementsModel::TSet(v) => column_ok(v[i]),
            ElementsModel::List(v) => column_ok(v[i]),
            _ => true,
        }
    } else {
        true
    }
}

/// Whether the elements of a column can be encoded.
pub open spec fn elements_ok(e: ElementsModel) -> bool
    decreases e, 1nat,
{
    forall|i: int| 0 <= i < e.len() && #[trigger] trigger(i) ==> element_ok(e, i)
}

/// Whether a list or a set can be encoded.
pub open spec fn column_ok(e: ElementsModel) -> bool
    decreases e, 2nat,
{
    e.len() <= MAX_SIZE && elements_ok(e)
}

/// Whether a map can be encoded.
pub open spec fn map_ok(m: MapModel) -> bool
    decreases m,
{
    match m {
        MapModel::Entries { keys, values } => keys.len() == values.len() && column_ok(keys)
            && column_ok(values),
        MapModel::Empty => false,
    }
}

/// Whether a message can be encoded.
pub open spec fn message_ok(m: MessageModel) -> bool {
    encode_utf8(m.method_name).len() <= MAX_SIZE && struct_ok(m.body)
}

/// The bytes of a value, where it has any.
pub open spec fn data_wire(d: DataModel) -> Option<Seq<u8>> {
    if data_ok(d) {
        Some(data_bytes(d))
    } else {
        None
    }
}

/// The bytes of a struct, where it has any.
pub open spec fn struct_wire(fields: Seq<FieldModel>) -> Option<Seq<u8>> {
    if struct_ok(fields) {
        Some(struct_bytes(fields))
    } else {
        None
    }
}

/// The bytes of a list or a set, where it has any.
pub open spec fn column_wire(e: ElementsModel) -> Option<Seq<u8>> {
    if column_ok(e) {
        Some(column_bytes(e))
    } else {
        None
    }
}

/// The bytes of a map, where it has any.
pub open spec fn map_wire(m: MapModel) -> Option<Seq<u8>> {
    if map_ok(m) {
        Some(map_bytes(m))
    } else {
        None
    }
}

/// The bytes of a byte string, where it has any.
pub open spec fn binary_wire(b: Seq<u8>) -> Option<Seq<u8>> {
    if b.len() <= MAX_SIZE {
        Some(binary_bytes(b))
    } else {
        None
    }
}

/// The bytes of a message, where it has any.
pub open spec fn message_wire(m: MessageModel) -> Option<Seq<u8>> {
    if message_ok(m) {
        Some(message_bytes(m))
    } else {
        None
    }
}

/// Reading a boolean: a byte that is `0` or `1`.
pub open spec fn parse_bool(input: Seq<u8>) -> Parsed<bool> {
    match parse_u8(input) {
        Ok((b, rest)) => if b < 2 {
            Ok((b == 1, rest))
        } else {
            failed(ErrorKind::InvalidInput, rest)
        },
        Err(k) => Err(k),
    }
}

/// Reading an `i8`.
pub open spec fn parse_i8(input: Seq<u8>) -> Parsed<i8> {
    match parse_u8(input) {
        Ok((b, rest)) => Ok((to_signed(b as nat, 0x100) as i8, rest)),
        Err(k) => Err(k),
    }
}

/// Reading an `i16`.
pub open spec fn parse_i16(input: Seq<u8>) -> Parsed<i16> {
    match parse_bytes(input, 2) {
        Ok((b, rest)) => Ok((to_signed(be_nat(b), 0x1_0000) as i16, rest)),
        Err(k) => Err(k),
    }
}

/// Reading an `i32`.
pub open spec fn parse_i32(input: Seq<u8>) -> Parsed<i32> {
    match parse_bytes(input, 4) {
        Ok((b, rest)) => Ok((to_signed(be_nat(b), 0x1_0000_0000) as i32, rest)),
        Err(k) => Err(k),
    }
}

/// Reading an `i64`.
pub open spec fn parse_i64(input: Seq<u8>) -> Parsed<i64> {
    match parse_bytes(input, 8) {
        Ok((b, rest)) => Ok((to_signed(be_nat(b), 0x1_0000_0000_0000_0000) as i64, rest)),
        Err(k) => Err(k),
    }
}

/// Reading the bits of a double.
pub open spec fn parse_double(input: Seq<u8>) -> Parsed<u64> {
    match parse_bytes(input, 8) {
        Ok((b, rest)) => Ok((be_nat(b) as u64, rest)),
        Err(k) => Err(k),
    }
}

/// Reading a length or an element count: an `i32` that is not negative.
pub open spec fn parse_size(input: Seq<u8>) -> Parsed<nat> {
    match parse_i32(input) {
        Ok((n, rest)) => if n < 0 {
            failed(ErrorKind::InvalidInput, rest)
        } else {
            Ok((n as nat, rest))
        },
        Err(k) => Err(k),
    }
}

/// Reading a byte string: its length, then as many bytes.
pub open spec fn parse_binary(input: Seq<u8>) -> Parsed<Seq<u8>> {
    match parse_size(input) {
        Ok((n, rest)) => parse_bytes(rest, n),
        Err(k) => Err(k),
    }
}

/// Reading the code of a kind; an unknown code is `InvalidInput`.
pub open spec fn parse_kind(input: Seq<u8>) -> Parsed<DataKind> {
    match parse_u8(input) {
        Ok((code, rest)) => match DataKind::from_code(code) {
            Some(kind) => Ok((kind, rest)),
            None => failed(ErrorKind::InvalidInput, rest),
        },
        Err(k) => Err(k),
    }
}

/// Reading a value of the given kind.
pub open spec fn parse_data(input: Seq<u8>, kind: DataKind) -> Parsed<DataModel>
    decreases input.len(), 2nat,
{
    match kind {
        DataKind::Bool => match parse_bool(input) {
            Ok((v, rest)) => Ok((DataModel::Bool(v), rest)),
            Err(k) => Err(k),
        },
        DataKind::I8 => match parse_i8(input) {
            Ok((v, rest)) => Ok((DataModel::I8(v), rest)),
            Err(k) => Err(k),
        },
        DataKind::I16 => match parse_i16(input) {
            Ok((v, rest)) => Ok((DataModel::I16(v), rest)),
            Err(k) => Err(k),
        },
        DataKind::I32 => match parse_i32(input) {
            Ok((v, rest)) => Ok((DataModel::I32(v), rest)),
            Err(k) => Err(k),
        },
        DataKind::I64 => match parse_i64(input) {
            Ok((v, rest)) => Ok((DataModel::I64(v), rest)),
            Err(k) => Err(k),
        },
        DataKind::Double => match parse_double(input) {
            Ok((v, rest)) => Ok((DataModel::Double(v), rest)),
            Err(k) => Err(k),
        },
        DataKind::Binary => match parse_binary(input) {
            Ok((v, rest)) => Ok((DataModel::Binary(v), rest)),
            Err(k) => Err(k),
        },
        DataKind::Struct => match parse_struct(input) {
            Ok((v, rest)) => Ok((DataModel::Struct(v), rest)),
            Err(k) => Err(k),
        },
        DataKind::TMap => match parse_map(input) {
            Ok((v, rest)) => Ok((DataModel::TMap(v), rest)),
            Err(k) => Err(k),
        },
        DataKind::TSet => match parse_column(input) {
            Ok((v, rest)) => Ok((DataModel::TSet(v), rest)),
            Err(k) => Err(k),
        },
        DataKind::List => match parse_column(input) {
            Ok((v, rest)) => Ok((DataModel::List(v), rest)),
            Err(k) => Err(k),
        },
    }
}

/// Reading the fields of a struct after the fields `done`: a zero byte ends
/// the struct; any other byte is the code of a kind, and an identifier and a
/// value of that kind follow.
///
/// A value takes at least one byte, so what is left after a field is shorter
/// than `input`; the test of this is what shows that the definition
/// terminates, and never fails (`laws::lemma_data_shortens`).
pub open spec fn parse_fields(input: Seq<u8>, done: Seq<FieldModel>) -> Parsed<Seq<FieldModel>>
    decreases input.len(), 0nat,
{
    match parse_u8(input) {
        Ok((code, after_code)) => if code == 0 {
            Ok((done, after_code))
        } else {
            match DataKind::from_code(code) {
                Some(kind) => match parse_i16(after_code) {
                    Ok((id, after_id)) => match parse_data(after_id, kind) {
                        Ok((data, rest)) => if rest.len() < input.len() {
                            parse_fields(rest, done.push(FieldModel { id, data }))
                        } else {
                            failed(ErrorKind::Other, rest)
                        },
                        Err(k) => Err(k),
                    },
                    Err(k) => Err(k),
                },
                None => failed(ErrorKind::InvalidInput, after_code),
            }
        },
        Err(k) => Err(k),
    }
}

/// Reading a struct.
pub open spec fn parse_struct(input: Seq<u8>) -> Parsed<Seq<FieldModel>>
    decreases input.len(), 1nat,
{
    parse_fields(input, Seq::empty())
}

/// Reading `n` more elements of a column after the elements `done`.
///
/// A value takes at least one byte, so what is left after an element is
/// shorter than `input`; the test of this is what shows that the definition
/// terminates, and never fails (`laws::lemma_data_shortens`).
pub open spec fn parse_elements(input: Seq<u8>, n: nat, done: ElementsModel) -> Parsed<
    ElementsModel,
>
    decreases input.len(), 3nat,
{
    if n == 0 {
        Ok((done, input))
    } else {
        match parse_data(input, done.kind()) {
            Ok((d, rest)) => if rest.len() < input.len() {
                parse_elements(rest, (n - 1) as nat, done.push(d))
            } else {
                failed(ErrorKind::Other, rest)
            },
            Err(k) => Err(k),
        }
    }
}

/// Reading a list or a set: the code of a kind, an element count, then as
/// many values of that kind.
pub open spec fn parse_column(input: Seq<u8>) -> Parsed<ElementsModel>
    decreases input.len(), 1nat,
{
    match parse_kind(input) {
        Ok((kind, after_kind)) => match parse_size(after_kind) {
            Ok((n, rest)) => parse_elements(rest, n, ElementsModel::empty(kind)),
            Err(k) => Err(k),
        },
        Err(k) => Err(k),
    }
}

/// Reading `n` more entries of a map after the entries in `keys` and
/// `values`: a key, then a value.
///
/// A value takes at least one byte, so what is left after an entry is shorter
/// than `input`; the tests of this are what shows that the definition
/// terminates, and never fail (`laws::lemma_data_shortens`).
pub open spec fn parse_entries(
    input: Seq<u8>,
    n: nat,
    keys: ElementsModel,
    values: ElementsModel,
) -> Parsed<MapModel>
    decreases input.len(), 3nat,
{
    if n == 0 {
        Ok((MapModel::Entries { keys, values }, input))
    } else {
        match parse_data(input, keys.kind()) {
            Ok((k, after_key)) => if after_key.len() < input.len() {
                match parse_data(after_key, values.kind()) {
                    Ok((v, rest)) => if rest.len() < input.len() {
                        parse_entries(rest, (n - 1) as nat, keys.push(k), values.push(v))
                    } else {
                        failed(ErrorKind::Other, rest)
                    },
                    Err(e) => Err(e),
                }
            } else {
                failed(ErrorKind::Other, after_key)
            },
            Err(e) => Err(e),
        }
    }
}

/// Reading a map: the codes of two kinds, an entry count, then as many
/// entries.
pub open spec fn parse_map(input: Seq<u8>) -> Parsed<MapModel>
    decreases input.len(), 1nat,
{
    match parse_kind(input) {
        Ok((key_kind, after_key_kind)) => match parse_kind(after_key_kind) {
            Ok((value_kind, after_kinds)) => match parse_size(after_kinds) {
                Ok((n, rest)) => parse_entries(
                    rest,
                    n,
                    ElementsModel::empty(key_kind),
                    ElementsModel::empty(value_kind),
                ),
                Err(k) => Err(k),
            },
            Err(k) => Err(k),
        },
        Err(k) => Err(k),
    }
}

/// Reading the version word of a message: `Other` without the top bit (the
/// old, unversioned format), `InvalidInput` for a version that is not `1`.
pub open spec fn parse_version(input: Seq<u8>) -> Parsed<()> {
    match parse_bytes(input, 2) {
        Ok((b, rest)) => if be_nat(b) < 0x8000 {
            failed(ErrorKind::Other, rest)
        } else if be_nat(b) != VERSION_WORD {
            failed(ErrorKind::InvalidInput, rest)
        } else {
            Ok(((), rest))
        },
        Err(k) => Err(k),
    }
}

/// Reading the kind of a message: the low three bits of a byte.
pub open spec fn parse_message_kind(input: Seq<u8>) -> Parsed<MessageKind> {
    match parse_u8(input) {
        Ok((b, rest)) => match MessageKind::from_code(b % 8) {
            Some(kind) => Ok((kind, rest)),
            None => failed(ErrorKind::InvalidInput, rest),
        },
        Err(k) => Err(k),
    }
}

/// Reading a method name: a byte string that is valid UTF-8.
pub open spec fn parse_name(input: Seq<u8>) -> Parsed<Seq<char>> {
    match parse_binary(input) {
        Ok((b, rest)) => if valid_utf8(b) {
            Ok((decode_utf8(b), rest))
        } else {
            failed(ErrorKind::InvalidInput, rest)
        },
        Err(k) => Err(k),
    }
}

/// Reading a message: the version word, a byte that is ignored, the kind,
/// the method name, the sequence id, then the body.
pub open spec fn parse_message(input: Seq<u8>) -> Parsed<MessageModel> {
    match parse_version(input) {
        Ok((_, after_version)) => match parse_u8(after_version) {
            Ok((_, after_unused)) => match parse_message_kind(after_unused) {
                Ok((kind, after_kind)) => match parse_name(after_kind) {
                    Ok((method_name, after_name)) => match parse_i32(after_name) {
                        Ok((sequence_id, after_id)) => match parse_struct(after_id) {
                            Ok((body, rest)) => Ok(
                                (MessageModel { method_name, kind, sequence_id, body }, rest),
                            ),
                            Err(k) => Err(k),
                        },
                        Err(k) => Err(k),
                    },
                    Err(k) => Err(k),
                },
                Err(k) => Err(k),
            },
            Err(k) => Err(k),
        },
        Err(k) => Err(k),
    }
}

/// A value that was read as one of a kind is of that kind.
pub proof fn lemma_parse_data_kind(input: Seq<u8>, kind: DataKind)
    ensures
        parse_data(input, kind) matches Ok((d, _)) ==> d.kind() == kind,
{
}

} // verus!
