//! Decoding inverts encoding in the compact protocol.
//!
//! Each law says of one sort of value: where the value can be encoded and is
//! tight, its bytes are not empty, and reading them back, whatever follows
//! them, gives the value and leaves what followed. A value is tight where no
//! map in it has columns without entries: such a map is written as a zero
//! byte, like the map without columns, and reads back as that one.
use crate::binary::format::MAX_SIZE;
use crate::binary::laws::{lemma_bool, lemma_i8, lemma_take_ends, lemma_take_push};
use crate::compact::format::{
    binary_bytes, column_bytes, column_header, column_ok, data_bytes, data_ok, double_bytes,
    element_bytes, element_ok, elements_bytes, elements_ok, entries_bytes, field_bytes, field_kind,
    field_type, fields_bytes, i16_bytes, i32_bytes, i64_bytes, id_delta, map_bytes, map_ok,
    message_bytes, message_ok, parse_binary, parse_column, parse_count, parse_data, parse_double,
    parse_elements, parse_entries, parse_field_data, parse_field_id, parse_fields, parse_i16,
    parse_i32, parse_i64, parse_kinds, parse_map, parse_message, parse_message_kind, parse_name,
    parse_protocol_id, parse_sequence_id, parse_size, parse_struct, prev_id, struct_bytes,
    struct_ok, PROTOCOL_ID, VERSION,
};
use crate::data::{DataKind, DataModel, ElementsModel, FieldModel, MapModel};
use crate::endian::{le_bytes, lemma_le_round_trip, lemma_words_fit, to_unsigned};
use crate::message::{MessageKind, MessageModel};
use crate::varint::{lemma_varint32_round_trip, lemma_varint_round_trip, varint_bytes};
use crate::error::ErrorKind;
use crate::wire::{fails, lemma_concat, parse_u8, parsed};
use crate::zigzag::{lemma_unzigzag_zigzag, zigzag};
use vstd::pervasive::trigger;
use vstd::prelude::*;
use vstd::utf8::encode_utf8;

verus! {

/// Whether a value is tight: every map in it that has columns has entries.
pub open spec fn data_tight(d: DataModel) -> bool
    decreases d,
{
    match d {
        DataModel::Struct(v) => struct_tight(v),
        DataModel::TMap(v) => map_tight(v),
        DataModel::TSet(v) => column_tight(v),
        DataModel::List(v) => column_tight(v),
        _ => true,
    }
}

/// Whether a struct is tight: each of its fields is.
pub open spec fn struct_tight(fields: Seq<FieldModel>) -> bool
    decreases fields,
{
    forall|i: int| 0 <= i < fields.len() ==> data_tight(#[trigger] fields[i].data)
}

/// Whether the element at index `i` of a column is tight.
pub open spec fn element_tight(e: ElementsModel, i: int) -> bool
    decreases e, 0nat,
{
    if 0 <= i < e.len() {
        match e {
            ElementsModel::Struct(v) => struct_tight(v[i]),
            ElementsModel::TMap(v) => map_tight(v[i]),
            ElementsModel::TSet(v) => column_tight(v[i]),
            ElementsModel::List(v) => column_tight(v[i]),
            _ => true,
        }
    } else {
        true
    }
}

/// Whether a column is tight: each of its elements is.
pub open spec fn column_tight(e: ElementsModel) -> bool
    decreases e, 1nat,
{
    forall|i: int| 0 <= i < e.len() && #[trigger] trigger(i) ==> element_tight(e, i)
}

/// Whether a map is tight: it has no columns, or it has entries and its keys
/// and values are tight.
pub open spec fn map_tight(m: MapModel) -> bool
    decreases m,
{
    match m {
        MapModel::Entries { keys, values } => keys.len() > 0 && column_tight(keys)
            && column_tight(values),
        MapModel::Empty => true,
    }
}

/// The bytes of the fields of a struct from index `i` on.
pub open spec fn fields_from(fields: Seq<FieldModel>, i: nat) -> Seq<u8>
    decreases fields.len() - i,
{
    if i < fields.len() {
        field_bytes(fields[i as int], prev_id(fields, i as int)) + fields_from(fields, i + 1)
    } else {
        Seq::empty()
    }
}

/// The bytes of the elements of a column from index `i` on.
pub open spec fn elements_from(e: ElementsModel, i: nat) -> Seq<u8>
    decreases e.len() - i,
{
    if i < e.len() {
        element_bytes(e, i as int) + elements_from(e, i + 1)
    } else {
        Seq::empty()
    }
}

/// The bytes of the entries of a map from index `i` on.
pub open spec fn entries_from(m: MapModel, i: nat) -> Seq<u8>
    decreases m.len() - i,
{
    match m {
        MapModel::Entries { keys, values } => if i < keys.len() {
            element_bytes(keys, i as int) + element_bytes(values, i as int) + entries_from(
                m,
                i + 1,
            )
        } else {
            Seq::empty()
        },
        MapModel::Empty => Seq::empty(),
    }
}

/// The fields before index `i` and the fields from there on make up all
/// the fields.
pub proof fn lemma_fields_split(fields: Seq<FieldModel>, i: nat)
    requires
        i <= fields.len(),
    ensures
        fields_bytes(fields, i) + fields_from(fields, i) == fields_bytes(fields, fields.len()),
    decreases fields.len() - i,
{
    if i < fields.len() {
        lemma_fields_split(fields, i + 1);
        assert(fields_bytes(fields, i) + fields_from(fields, i) =~= fields_bytes(fields, i + 1)
            + fields_from(fields, i + 1));
    } else {
        assert(fields_bytes(fields, i) + fields_from(fields, i) =~= fields_bytes(fields, i));
    }
}

/// The elements before index `i` and the elements from there on make up
/// all the elements.
pub proof fn lemma_elements_split(e: ElementsModel, i: nat)
    requires
        i <= e.len(),
    ensures
        elements_bytes(e, i) + elements_from(e, i) == elements_bytes(e, e.len()),
    decreases e.len() - i,
{
    if i < e.len() {
        lemma_elements_split(e, i + 1);
        assert(elements_bytes(e, i) + elements_from(e, i) =~= elements_bytes(e, i + 1)
            + elements_from(e, i + 1));
    } else {
        assert(elements_bytes(e, i) + elements_from(e, i) =~= elements_bytes(e, i));
    }
}

/// The entries before index `i` and the entries from there on make up all
/// the entries.
pub proof fn lemma_entries_split(m: MapModel, i: nat)
    requires
        i <= m.len(),
    ensures
        entries_bytes(m, i) + entries_from(m, i) == entries_bytes(m, m.len()),
    decreases m.len() - i,
{
    if i < m.len() {
        lemma_entries_split(m, i + 1);
        assert(entries_bytes(m, i) + entries_from(m, i) =~= entries_bytes(m, i + 1)
            + entries_from(m, i + 1));
    } else {
        assert(entries_bytes(m, i) + entries_from(m, i) =~= entries_bytes(m, i));
    }
}

/// An `i32` reads back.
pub proof fn lemma_i32(v: i32, tail: Seq<u8>)
    ensures
        i32_bytes(v).len() > 0,
        parse_i32(i32_bytes(v) + tail) == parsed(v, tail),
{
    lemma_unzigzag_zigzag(v as int);
    lemma_varint32_round_trip(zigzag(v as int) as u32, tail);
}

/// An `i16` reads back.
pub proof fn lemma_i16(v: i16, tail: Seq<u8>)
    ensures
        i16_bytes(v).len() > 0,
        parse_i16(i16_bytes(v) + tail) == parsed(v, tail),
{
    lemma_i32(v as i32, tail);
}

/// An `i64` reads back.
pub proof fn lemma_i64(v: i64, tail: Seq<u8>)
    ensures
        i64_bytes(v).len() > 0,
        parse_i64(i64_bytes(v) + tail) == parsed(v, tail),
{
    lemma_unzigzag_zigzag(v as int);
    lemma_varint_round_trip(zigzag(v as int) as u64, tail);
}

/// The bits of a double read back.
pub proof fn lemma_double(bits: u64, tail: Seq<u8>)
    ensures
        double_bytes(bits).len() == 8,
        parse_double(double_bytes(bits) + tail) == parsed(bits, tail),
{
    lemma_words_fit(bits as nat);
    lemma_le_round_trip(bits as nat, 8);
    assert((le_bytes(bits as nat, 8) + tail).take(8) =~= le_bytes(bits as nat, 8));
    assert((le_bytes(bits as nat, 8) + tail).skip(8) =~= tail);
}

/// A length or an entry count up to `MAX_SIZE` reads back.
pub proof fn lemma_size(n: nat, tail: Seq<u8>)
    requires
        n <= MAX_SIZE,
    ensures
        varint_bytes(n).len() > 0,
        parse_size(varint_bytes(n) + tail) == parsed(n, tail),
{
    lemma_varint32_round_trip(n as u32, tail);
}

/// A byte string of up to `MAX_SIZE` bytes reads back.
pub proof fn lemma_binary(b: Seq<u8>, tail: Seq<u8>)
    requires
        b.len() <= MAX_SIZE,
    ensures
        binary_bytes(b).len() > 0,
        parse_binary(binary_bytes(b) + tail) == parsed(b, tail),
{
    lemma_size(b.len(), b + tail);
    assert(binary_bytes(b) + tail =~= varint_bytes(b.len()) + (b + tail));
    assert((b + tail).take(b.len() as int) =~= b);
    assert((b + tail).skip(b.len() as int) =~= tail);
}

/// A value that can be encoded and is tight reads back.
pub proof fn lemma_data(d: DataModel, tail: Seq<u8>)
    requires
        data_ok(d),
        data_tight(d),
    ensures
        data_bytes(d).len() > 0,
        parse_data(data_bytes(d) + tail, d.kind()) == parsed(d, tail),
    decreases d, 0nat,
{
    match d {
        DataModel::Bool(v) => lemma_bool(v, tail),
        DataModel::I8(v) => lemma_i8(v, tail),
        DataModel::I16(v) => lemma_i16(v, tail),
        DataModel::I32(v) => lemma_i32(v, tail),
        DataModel::I64(v) => lemma_i64(v, tail),
        DataModel::Double(v) => lemma_double(v, tail),
        DataModel::Binary(v) => lemma_binary(v, tail),
        DataModel::Struct(v) => lemma_struct(v, tail),
        DataModel::TMap(v) => lemma_map(v, tail),
        DataModel::TSet(v) => lemma_column(v, tail),
        DataModel::List(v) => lemma_column(v, tail),
    }
}

/// The header of a field is not zero, and holds the difference of the
/// identifiers in its high half and the type code in its low half.
pub proof fn lemma_field_header(f: FieldModel, prev: i16)
    ensures
        0 < id_delta(f.id, prev) * 16 + field_type(f.data) < 256,
        (id_delta(f.id, prev) * 16 + field_type(f.data)) / 16 == id_delta(f.id, prev),
        (id_delta(f.id, prev) * 16 + field_type(f.data)) % 16 == field_type(f.data),
        1 <= field_type(f.data) <= 12,
        !(f.data is Bool) ==> field_kind(field_type(f.data)) == Some(f.data.kind()),
        f.data is Bool ==> field_kind(field_type(f.data)) is None,
{
}

/// The identifier of a field reads back from what follows its header.
pub proof fn lemma_field_id(f: FieldModel, prev: i16, tail: Seq<u8>)
    ensures
        parse_field_id(
            (if id_delta(f.id, prev) == 0 {
                i16_bytes(f.id)
            } else {
                Seq::empty()
            }) + tail,
            id_delta(f.id, prev) as u8,
            prev,
        ) == parsed(f.id, tail),
{
    if id_delta(f.id, prev) == 0 {
        lemma_i16(f.id, tail);
    } else {
        assert(Seq::<u8>::empty() + tail =~= tail);
    }
}

/// The value of a field reads back from what follows its identifier.
pub proof fn lemma_field_data(d: DataModel, tail: Seq<u8>)
    requires
        data_ok(d),
        data_tight(d),
    ensures
        parse_field_data(
            (if d is Bool {
                Seq::empty()
            } else {
                data_bytes(d)
            }) + tail,
            field_type(d),
        ) == parsed(d, tail),
    decreases d, 1nat,
{
    if d is Bool {
        assert(Seq::<u8>::empty() + tail =~= tail);
    } else {
        lemma_data(d, tail);
    }
}

/// One step of reading fields: after a field was read, reading goes on with
/// what is left, with the identifier of the field, and with the field added
/// to those that were read before.
pub proof fn lemma_fields_step(
    input: Seq<u8>,
    prev: i16,
    done: Seq<FieldModel>,
    f: FieldModel,
    header: u8,
    after_header: Seq<u8>,
    after_id: Seq<u8>,
    rest: Seq<u8>,
)
    requires
        header != 0,
        parse_u8(input) == parsed(header, after_header),
        parse_field_id(after_header, header / 16, prev) == parsed(f.id, after_id),
        after_id.len() < input.len(),
        parse_field_data(after_id, header % 16) == parsed(f.data, rest),
        rest.len() < input.len(),
    ensures
        parse_fields(input, prev, done) == parse_fields(rest, f.id, done.push(f)),
{
    assert(FieldModel { id: f.id, data: f.data } == f);
}

/// Reading the field at index `i` of a struct after the fields before it
/// leaves the fields after it to read.
pub proof fn lemma_fields_next(fields: Seq<FieldModel>, i: nat, tail: Seq<u8>)
    requires
        struct_ok(fields),
        struct_tight(fields),
        i < fields.len(),
    ensures
        parse_fields(
            fields_from(fields, i) + seq![0u8] + tail,
            prev_id(fields, i as int),
            fields.take(i as int),
        ) == parse_fields(
            fields_from(fields, i + 1) + seq![0u8] + tail,
            prev_id(fields, i + 1 as int),
            fields.take(i + 1 as int),
        ),
    decreases fields, 0nat,
{
    let input = fields_from(fields, i) + seq![0u8] + tail;
    let done = fields.take(i as int);
    let f = fields[i as int];
    let prev = prev_id(fields, i as int);
    let rest = fields_from(fields, i + 1) + seq![0u8] + tail;
    let header = (id_delta(f.id, prev) * 16 + field_type(f.data)) as u8;
    let id_part = if id_delta(f.id, prev) == 0 {
        i16_bytes(f.id)
    } else {
        Seq::empty()
    };
    let data_part = if f.data is Bool {
        Seq::empty()
    } else {
        data_bytes(f.data)
    };
    let after_id = data_part + rest;
    let after_header = id_part + after_id;
    lemma_field_header(f, prev);
    assert(input == seq![header] + after_header) by {
        let next = fields_from(fields, i + 1);
        lemma_concat(field_bytes(f, prev), next, seq![0u8]);
        lemma_concat(field_bytes(f, prev), next + seq![0u8], tail);
        lemma_concat(seq![header] + id_part, data_part, rest);
        lemma_concat(seq![header], id_part, after_id);
    }
    assert(parse_u8(input) == parsed(header, after_header)) by {
        assert((seq![header] + after_header).skip(1) =~= after_header);
    }
    assert(parse_field_id(after_header, header / 16, prev) == parsed(f.id, after_id)) by {
        lemma_field_id(f, prev, after_id);
    }
    assert(parse_field_data(after_id, header % 16) == parsed(f.data, rest)) by {
        lemma_field_data(f.data, rest);
    }
    lemma_fields_step(input, prev, done, f, header, after_header, after_id, rest);
    assert(done.push(f) == fields.take(i + 1 as int)) by {
        assert(done.push(f) =~= fields.take(i + 1 as int));
    }
    assert(prev_id(fields, i + 1 as int) == f.id);
}

/// The fields of a struct from index `i` on, followed by the zero byte, read
/// back after the fields before them.
pub proof fn lemma_fields(fields: Seq<FieldModel>, i: nat, tail: Seq<u8>)
    requires
        struct_ok(fields),
        struct_tight(fields),
        i <= fields.len(),
    ensures
        parse_fields(
            fields_from(fields, i) + seq![0u8] + tail,
            prev_id(fields, i as int),
            fields.take(i as int),
        ) == parsed(fields, tail),
    decreases fields, fields.len() - i,
{
    let input = fields_from(fields, i) + seq![0u8] + tail;
    if i < fields.len() {
        lemma_fields_next(fields, i, tail);
        lemma_fields(fields, i + 1, tail);
    } else {
        assert(input == seq![0u8] + tail) by {
            assert(fields_from(fields, i) + seq![0u8] =~= seq![0u8]);
        }
        assert(parse_u8(input) == parsed(0u8, tail)) by {
            assert((seq![0u8] + tail).skip(1) =~= tail);
        }
        assert(fields.take(i as int) == fields) by {
            assert(fields.take(i as int) =~= fields);
        }
    }
}

/// A struct that can be encoded and is tight reads back.
pub proof fn lemma_struct(fields: Seq<FieldModel>, tail: Seq<u8>)
    requires
        struct_ok(fields),
        struct_tight(fields),
    ensures
        struct_bytes(fields).len() > 0,
        parse_struct(struct_bytes(fields) + tail) == parsed(fields, tail),
    decreases fields, fields.len() + 1,
{
    lemma_fields(fields, 0, tail);
    lemma_fields_split(fields, 0);
    assert(fields_bytes(fields, 0) + fields_from(fields, 0) =~= fields_from(fields, 0));
    assert(fields.take(0) =~= Seq::empty());
}

/// The element at index `i` of a column reads back, where it can be encoded
/// and is tight.
pub proof fn lemma_element(e: ElementsModel, i: int, tail: Seq<u8>)
    requires
        0 <= i < e.len(),
        element_ok(e, i),
        element_tight(e, i),
    ensures
        element_bytes(e, i).len() > 0,
        parse_data(element_bytes(e, i) + tail, e.kind()) == parsed(e.get(i), tail),
    decreases e, 0nat,
{
    match e {
        ElementsModel::Bool(v) => lemma_bool(v[i], tail),
        ElementsModel::I8(v) => lemma_i8(v[i], tail),
        ElementsModel::I16(v) => lemma_i16(v[i], tail),
        ElementsModel::I32(v) => lemma_i32(v[i], tail),
        ElementsModel::I64(v) => lemma_i64(v[i], tail),
        ElementsModel::Double(v) => lemma_double(v[i], tail),
        ElementsModel::Binary(v) => lemma_binary(v[i], tail),
        ElementsModel::Struct(v) => lemma_struct(v[i], tail),
        ElementsModel::TMap(v) => lemma_map(v[i], tail),
        ElementsModel::TSet(v) => lemma_column(v[i], tail),
        ElementsModel::List(v) => lemma_column(v[i], tail),
    }
}

/// One step of reading elements: after an element was read, reading goes on
/// with what is left and with the element added to those that were read
/// before.
pub proof fn lemma_elements_step(
    input: Seq<u8>,
    n: nat,
    done: ElementsModel,
    d: DataModel,
    rest: Seq<u8>,
)
    requires
        n > 0,
        parse_data(input, done.kind()) == parsed(d, rest),
        rest.len() < input.len(),
    ensures
        parse_elements(input, n, done) == parse_elements(rest, (n - 1) as nat, done.push(d)),
{
}

/// Reading the element at index `i` of a column after the elements before
/// it leaves the elements after it to read.
pub proof fn lemma_elements_next(e: ElementsModel, i: nat, tail: Seq<u8>)
    requires
        elements_ok(e),
        column_tight(e),
        i < e.len(),
    ensures
        parse_elements(elements_from(e, i) + tail, (e.len() - i) as nat, e.take(i as int))
            == parse_elements(
            elements_from(e, i + 1) + tail,
            (e.len() - i - 1) as nat,
            e.take(i + 1 as int),
        ),
    decreases e, 1nat,
{
    let input = elements_from(e, i) + tail;
    let rest = elements_from(e, i + 1) + tail;
    let done = e.take(i as int);
    assert(input == element_bytes(e, i as int) + rest) by {
        lemma_concat(element_bytes(e, i as int), elements_from(e, i + 1), tail);
    }
    assert(done.kind() == e.kind() && done.push(e.get(i as int)) == e.take(i + 1 as int)) by {
        lemma_take_push(e, i as int);
    }
    assert(element_bytes(e, i as int).len() > 0 && parse_data(input, e.kind()) == parsed(
        e.get(i as int),
        rest,
    )) by {
        assert(trigger(i as int));
        lemma_element(e, i as int, rest);
    }
    lemma_elements_step(input, (e.len() - i) as nat, done, e.get(i as int), rest);
}

/// The elements of a column from index `i` on read back after the elements
/// before them.
pub proof fn lemma_elements(e: ElementsModel, i: nat, tail: Seq<u8>)
    requires
        elements_ok(e),
        column_tight(e),
        i <= e.len(),
    ensures
        parse_elements(elements_from(e, i) + tail, (e.len() - i) as nat, e.take(i as int))
            == parsed(e, tail),
    decreases e, e.len() - i + 1,
{
    if i < e.len() {
        lemma_elements_next(e, i, tail);
        lemma_elements(e, i + 1, tail);
    } else {
        assert(elements_from(e, i) + tail == tail) by {
            assert(elements_from(e, i) + tail =~= tail);
        }
        lemma_take_ends(e);
    }
}

/// The header of a list or a set reads back as the element count and the
/// kind.
pub proof fn lemma_column_header(kind: DataKind, len: nat, tail: Seq<u8>)
    requires
        len <= MAX_SIZE,
    ensures
        column_header(kind, len).len() > 0,
        ({
            let input = column_header(kind, len) + tail;
            &&& parse_u8(input) is Ok
            &&& parse_count(input.skip(1), input[0] / 16) == parsed(len, tail)
            &&& DataKind::from_code(input[0] % 16) == Some(kind)
        }),
{
    let input = column_header(kind, len) + tail;
    if len < 15 {
        assert(input.skip(1) =~= tail);
    } else {
        assert(input.skip(1) =~= i32_bytes(len as i32) + tail);
        lemma_i32(len as i32, tail);
    }
}

/// A list or a set that can be encoded and is tight reads back.
pub proof fn lemma_column(e: ElementsModel, tail: Seq<u8>)
    requires
        column_ok(e),
        column_tight(e),
    ensures
        column_bytes(e).len() > 0,
        parse_column(column_bytes(e) + tail) == parsed(e, tail),
    decreases e, e.len() + 2,
{
    let input = column_bytes(e) + tail;
    let header = column_header(e.kind(), e.len());
    let body = elements_from(e, 0) + tail;
    assert(input == header + body) by {
        lemma_elements_split(e, 0);
        assert(elements_bytes(e, 0) + elements_from(e, 0) =~= elements_from(e, 0));
        lemma_concat(header, elements_from(e, 0), tail);
    }
    lemma_column_header(e.kind(), e.len(), body);
    assert(parse_elements(body, e.len(), ElementsModel::empty(e.kind())) == parsed(e, tail)) by {
        lemma_elements(e, 0, tail);
        lemma_take_ends(e);
    }
}

/// One step of reading entries: after a key and a value were read, reading
/// goes on with what is left and with the two added to those that were read
/// before.
pub proof fn lemma_entries_step(
    input: Seq<u8>,
    n: nat,
    keys: ElementsModel,
    values: ElementsModel,
    k: DataModel,
    after_key: Seq<u8>,
    v: DataModel,
    rest: Seq<u8>,
)
    requires
        n > 0,
        parse_data(input, keys.kind()) == parsed(k, after_key),
        after_key.len() < input.len(),
        parse_data(after_key, values.kind()) == parsed(v, rest),
        rest.len() < input.len(),
    ensures
        parse_entries(input, n, keys, values) == parse_entries(
            rest,
            (n - 1) as nat,
            keys.push(k),
            values.push(v),
        ),
{
}

/// Reading the entry at index `i` of a map after the entries before it
/// leaves the entries after it to read.
pub proof fn lemma_entry(m: MapModel, i: nat, tail: Seq<u8>)
    requires
        m is Entries,
        map_ok(m),
        map_tight(m),
        i < m.len(),
    ensures
        parse_entries(
            entries_from(m, i) + tail,
            (m.len() - i) as nat,
            m->keys.take(i as int),
            m->values.take(i as int),
        ) == parse_entries(
            entries_from(m, i + 1) + tail,
            (m.len() - i - 1) as nat,
            m->keys.take(i + 1 as int),
            m->values.take(i + 1 as int),
        ),
    decreases m, 0nat,
{
    let keys = m->keys;
    let values = m->values;
    let input = entries_from(m, i) + tail;
    let rest = entries_from(m, i + 1) + tail;
    let key = element_bytes(keys, i as int);
    let value = element_bytes(values, i as int);
    let after_key = value + rest;
    assert(input == key + after_key) by {
        lemma_concat(key + value, entries_from(m, i + 1), tail);
        lemma_concat(key, value, rest);
    }
    assert(keys.take(i as int).kind() == keys.kind() && keys.take(i as int).push(
        keys.get(i as int),
    ) == keys.take(i + 1 as int)) by {
        lemma_take_push(keys, i as int);
    }
    assert(values.take(i as int).kind() == values.kind() && values.take(i as int).push(
        values.get(i as int),
    ) == values.take(i + 1 as int)) by {
        lemma_take_push(values, i as int);
    }
    assert(key.len() > 0 && parse_data(input, keys.kind()) == parsed(
        keys.get(i as int),
        after_key,
    )) by {
        assert(trigger(i as int));
        lemma_element(keys, i as int, after_key);
    }
    assert(value.len() > 0 && parse_data(after_key, values.kind()) == parsed(
        values.get(i as int),
        rest,
    )) by {
        assert(trigger(i as int));
        lemma_element(values, i as int, rest);
    }
    lemma_entries_step(
        input,
        (m.len() - i) as nat,
        keys.take(i as int),
        values.take(i as int),
        keys.get(i as int),
        after_key,
        values.get(i as int),
        rest,
    );
}

/// The entries of a map from index `i` on read back after the entries
/// before them.
pub proof fn lemma_entries(m: MapModel, i: nat, tail: Seq<u8>)
    requires
        m is Entries,
        map_ok(m),
        map_tight(m),
        i <= m.len(),
    ensures
        parse_entries(
            entries_from(m, i) + tail,
            (m.len() - i) as nat,
            m->keys.take(i as int),
            m->values.take(i as int),
        ) == parsed(m, tail),
    decreases m, m.len() - i,
{
    if i < m.len() {
        lemma_entry(m, i, tail);
        lemma_entries(m, i + 1, tail);
    } else {
        assert(entries_from(m, i) + tail == tail) by {
            assert(entries_from(m, i) + tail =~= tail);
        }
        lemma_take_ends(m->keys);
        lemma_take_ends(m->values);
    }
}

/// The byte with the kinds of the keys and of the values of a map reads back.
pub proof fn lemma_kinds(key_kind: DataKind, value_kind: DataKind, tail: Seq<u8>)
    ensures
        parse_kinds(seq![(key_kind.code() * 16 + value_kind.code()) as u8] + tail) == parsed(
            (key_kind, value_kind),
            tail,
        ),
{
    let input = seq![(key_kind.code() * 16 + value_kind.code()) as u8] + tail;
    assert(input.skip(1) =~= tail);
}

/// The varint of a number that is not zero does not start with a zero byte.
pub proof fn lemma_varint_first(n: nat)
    requires
        n > 0,
    ensures
        varint_bytes(n).len() > 0,
        varint_bytes(n)[0] != 0,
{
}

/// A map that can be encoded and is tight reads back.
pub proof fn lemma_map(m: MapModel, tail: Seq<u8>)
    requires
        map_ok(m),
        map_tight(m),
    ensures
        map_bytes(m).len() > 0,
        parse_map(map_bytes(m) + tail) == parsed(m, tail),
    decreases m, m.len() + 1,
{
    let input = map_bytes(m) + tail;
    match m {
        MapModel::Empty => {
            assert(input.skip(1) =~= tail);
        },
        MapModel::Entries { keys, values } => {
            let size = varint_bytes(keys.len());
            let kinds = seq![(keys.kind().code() * 16 + values.kind().code()) as u8];
            let body = entries_from(m, 0) + tail;
            assert(input == size + (kinds + body)) by {
                lemma_entries_split(m, 0);
                assert(entries_bytes(m, 0) + entries_from(m, 0) =~= entries_from(m, 0));
                lemma_concat(size + kinds, entries_from(m, 0), tail);
                lemma_concat(size, kinds, body);
            }
            assert(parse_u8(input) is Ok && input[0] != 0) by {
                lemma_varint_first(keys.len());
            }
            assert(parse_size(input) == parsed(keys.len(), kinds + body)) by {
                lemma_size(keys.len(), kinds + body);
            }
            assert(parse_kinds(kinds + body) == parsed((keys.kind(), values.kind()), body)) by {
                lemma_kinds(keys.kind(), values.kind(), body);
            }
            assert(parse_entries(
                body,
                keys.len(),
                ElementsModel::empty(keys.kind()),
                ElementsModel::empty(values.kind()),
            ) == parsed(m, tail)) by {
                lemma_entries(m, 0, tail);
                lemma_take_ends(keys);
                lemma_take_ends(values);
            }
        },
    }
}

/// The protocol id reads back.
pub proof fn lemma_protocol_id(tail: Seq<u8>)
    ensures
        parse_protocol_id(seq![PROTOCOL_ID] + tail) == parsed((), tail),
{
    assert((seq![PROTOCOL_ID] + tail).skip(1) =~= tail);
}

/// The kind of a message reads back.
pub proof fn lemma_message_kind(kind: MessageKind, tail: Seq<u8>)
    ensures
        parse_message_kind(seq![(kind.code() * 32 + VERSION) as u8] + tail) == parsed(kind, tail),
{
    assert((seq![(kind.code() * 32 + VERSION) as u8] + tail).skip(1) =~= tail);
}

/// A sequence id reads back.
pub proof fn lemma_sequence_id(id: i32, tail: Seq<u8>)
    ensures
        parse_sequence_id(varint_bytes(to_unsigned(id as int, 0x1_0000_0000)) + tail) == parsed(
            id,
            tail,
        ),
{
    lemma_varint32_round_trip(to_unsigned(id as int, 0x1_0000_0000) as u32, tail);
}

/// A method name of up to `MAX_SIZE` bytes reads back.
pub proof fn lemma_name(name: Seq<char>, tail: Seq<u8>)
    requires
        encode_utf8(name).len() <= MAX_SIZE,
    ensures
        parse_name(binary_bytes(encode_utf8(name)) + tail) == parsed(name, tail),
{
    lemma_binary(encode_utf8(name), tail);
    vstd::utf8::encode_utf8_valid_utf8(name);
    vstd::utf8::encode_utf8_decode_utf8(name);
}

/// A message that can be encoded and whose body is tight reads back:
/// decoding what encoding wrote, whatever follows it, gives the message and
/// leaves what followed.
pub proof fn lemma_message(m: MessageModel, tail: Seq<u8>)
    requires
        message_ok(m),
        struct_tight(m.body),
    ensures
        parse_message(message_bytes(m) + tail) == parsed(m, tail),
{
    let kind = seq![(m.kind.code() * 32 + VERSION) as u8];
    let id = varint_bytes(to_unsigned(m.sequence_id as int, 0x1_0000_0000));
    let name = binary_bytes(encode_utf8(m.method_name));
    let body = struct_bytes(m.body);
    let after_name = body + tail;
    let after_sequence_id = name + after_name;
    let after_kind = id + after_sequence_id;
    let after_id = kind + after_kind;
    let input = message_bytes(m) + tail;
    assert(input == seq![PROTOCOL_ID] + after_id) by {
        let head = seq![PROTOCOL_ID, (m.kind.code() * 32 + VERSION) as u8];
        lemma_concat(head + id + name, body, tail);
        lemma_concat(head + id, name, after_name);
        lemma_concat(head, id, after_sequence_id);
        assert(head =~= seq![PROTOCOL_ID] + kind);
        lemma_concat(seq![PROTOCOL_ID], kind, after_kind);
    }
    assert(parse_protocol_id(input) == parsed((), after_id)) by {
        lemma_protocol_id(after_id);
    }
    assert(parse_message_kind(after_id) == parsed(m.kind, after_kind)) by {
        lemma_message_kind(m.kind, after_kind);
    }
    assert(parse_sequence_id(after_kind) == parsed(m.sequence_id, after_sequence_id)) by {
        lemma_sequence_id(m.sequence_id, after_sequence_id);
    }
    assert(parse_name(after_sequence_id) == parsed(m.method_name, after_name)) by {
        lemma_name(m.method_name, after_name);
    }
    assert(parse_struct(after_name) == parsed(m.body, tail)) by {
        lemma_struct(m.body, tail);
    }
}

/// In a struct whose identifiers grow from one field to the next by at
/// most `15`, counted from `0` before the first field, every field has a
/// header of one byte: no identifier follows it.
pub proof fn lemma_short_headers(fields: Seq<FieldModel>)
    requires
        forall|i: int|
            0 <= i < fields.len() ==> 1 <= (#[trigger] fields[i]).id - prev_id(fields, i) <= 15,
    ensures
        forall|i: int|
            0 <= i < fields.len() ==> field_bytes(#[trigger] fields[i], prev_id(fields, i))
                == seq![
                ((fields[i].id - prev_id(fields, i)) * 16 + field_type(fields[i].data)) as u8,
            ] + (if fields[i].data is Bool {
                Seq::empty()
            } else {
                data_bytes(fields[i].data)
            }),
{
    assert forall|i: int| 0 <= i < fields.len() implies field_bytes(
        #[trigger] fields[i],
        prev_id(fields, i),
    ) == seq![((fields[i].id - prev_id(fields, i)) * 16 + field_type(fields[i].data)) as u8] + (
    if fields[i].data is Bool {
        Seq::empty()
    } else {
        data_bytes(fields[i].data)
    }) by {
        let f = fields[i];
        let header = seq![((f.id - prev_id(fields, i)) * 16 + field_type(f.data)) as u8];
        assert(header + Seq::<u8>::empty() =~= header);
    }
}

/// A message that does not start with the protocol id is rejected with
/// `InvalidInput`.
pub proof fn lemma_rejects_protocol_id(input: Seq<u8>)
    requires
        input.len() > 0,
        input[0] != PROTOCOL_ID,
    ensures
        fails(parse_message(input), ErrorKind::InvalidInput),
{
}

/// A boolean byte other than `0` and `1` in a container is rejected with
/// `InvalidInput`.
pub proof fn lemma_rejects_boolean(input: Seq<u8>)
    requires
        input.len() > 0,
        input[0] >= 2,
    ensures
        fails(parse_data(input, DataKind::Bool), ErrorKind::InvalidInput),
{
}

/// A code that is the code of no kind is rejected with `InvalidInput`: in
/// the header of a list or a set whose element count is in the header, in
/// either half of the byte with the kinds of a map, and as the type code of a
/// field.
pub proof fn lemma_rejects_unknown_kind(input: Seq<u8>)
    requires
        input.len() > 0,
    ensures
        input[0] / 16 != 15 && DataKind::from_code(input[0] % 16) is None ==> fails(
            parse_column(input),
            ErrorKind::InvalidInput,
        ),
        DataKind::from_code(input[0] / 16) is None || DataKind::from_code(input[0] % 16) is None
            ==> fails(parse_kinds(input), ErrorKind::InvalidInput),
        forall|code: u8|
            code != 1 && code != 2 && field_kind(code) is None ==> fails(
                #[trigger] parse_field_data(input, code),
                ErrorKind::InvalidInput,
            ),
{
}

/// A varint of more than five bytes is rejected with `InvalidInput` where
/// an `i16`, an `i32`, a length or a sequence id is read, and one of more
/// than ten bytes where an `i64` is read.
pub proof fn lemma_rejects_long_varint(input: Seq<u8>)
    ensures
        input.len() >= 5 && (forall|i: int| 0 <= i < 5 ==> #[trigger] input[i] >= 128) ==> {
            &&& fails(parse_i32(input), ErrorKind::InvalidInput)
            &&& fails(parse_i16(input), ErrorKind::InvalidInput)
            &&& fails(parse_size(input), ErrorKind::InvalidInput)
            &&& fails(parse_binary(input), ErrorKind::InvalidInput)
            &&& fails(parse_sequence_id(input), ErrorKind::InvalidInput)
        },
        input.len() >= 10 && (forall|i: int| 0 <= i < 10 ==> #[trigger] input[i] >= 128)
            ==> fails(parse_i64(input), ErrorKind::InvalidInput),
{
    crate::varint::lemma_varint_too_long(input);
}

/// Reading a value moves forward: what is left is shorter than the input.
/// So the tests of this in the definitions of reading fields, elements and
/// entries never fail.
pub proof fn lemma_data_shortens(input: Seq<u8>, kind: DataKind)
    ensures
        parse_data(input, kind) matches Ok((_, rest)) ==> rest.len() < input.len(),
    decreases input.len(), 2nat,
{
    match kind {
        DataKind::Struct => lemma_fields_shorten(input, 0, Seq::empty()),
        DataKind::TMap => lemma_map_shortens(input),
        DataKind::TSet => lemma_column_shortens(input),
        DataKind::List => lemma_column_shortens(input),
        _ => {
            crate::varint::lemma_varint_shortens(input);
        },
    }
}

/// Reading the fields of a struct moves forward.
pub proof fn lemma_fields_shorten(input: Seq<u8>, prev: i16, done: Seq<FieldModel>)
    ensures
        parse_fields(input, prev, done) matches Ok((_, rest)) ==> rest.len() < input.len(),
    decreases input.len(), 0nat,
{
    if let Ok((header, after_header)) = parse_u8(input) {
        if header != 0 {
            crate::varint::lemma_varint_shortens(after_header);
            if let Ok((id, after_id)) = parse_field_id(after_header, header / 16, prev) {
                if after_id.len() < input.len() {
                    if let Some(kind) = field_kind(header % 16) {
                        lemma_data_shortens(after_id, kind);
                    }
                    if let Ok((data, rest)) = parse_field_data(after_id, header % 16) {
                        if rest.len() < input.len() {
                            lemma_fields_shorten(rest, id, done.push(FieldModel { id, data }));
                        }
                    }
                }
            }
        }
    }
}

/// Reading elements never moves back.
pub proof fn lemma_elements_shorten(input: Seq<u8>, n: nat, done: ElementsModel)
    ensures
        parse_elements(input, n, done) matches Ok((_, rest)) ==> rest.len() <= input.len(),
    decreases input.len(), 3nat,
{
    if n > 0 {
        if let Ok((d, rest)) = parse_data(input, done.kind()) {
            if rest.len() < input.len() {
                lemma_elements_shorten(rest, (n - 1) as nat, done.push(d));
            }
        }
    }
}

/// Reading entries never moves back.
pub proof fn lemma_entries_shorten(
    input: Seq<u8>,
    n: nat,
    keys: ElementsModel,
    values: ElementsModel,
)
    ensures
        parse_entries(input, n, keys, values) matches Ok((_, rest)) ==> rest.len() <= input.len(),
    decreases input.len(), 3nat,
{
    if n > 0 {
        if let Ok((k, after_key)) = parse_data(input, keys.kind()) {
            if after_key.len() < input.len() {
                if let Ok((v, rest)) = parse_data(after_key, values.kind()) {
                    if rest.len() < input.len() {
                        lemma_entries_shorten(rest, (n - 1) as nat, keys.push(k), values.push(v));
                    }
                }
            }
        }
    }
}

/// Reading a list or a set moves forward.
pub proof fn lemma_column_shortens(input: Seq<u8>)
    ensures
        parse_column(input) matches Ok((_, rest)) ==> rest.len() < input.len(),
    decreases input.len(), 1nat,
{
    if let Ok((header, after_header)) = parse_u8(input) {
        crate::varint::lemma_varint_shortens(after_header);
        if let Ok((n, rest)) = parse_count(after_header, header / 16) {
            if let Some(kind) = DataKind::from_code(header % 16) {
                if rest.len() < input.len() {
                    lemma_elements_shorten(rest, n, ElementsModel::empty(kind));
                }
            }
        }
    }
}

/// Reading a map moves forward.
pub proof fn lemma_map_shortens(input: Seq<u8>)
    ensures
        parse_map(input) matches Ok((_, rest)) ==> rest.len() < input.len(),
    decreases input.len(), 1nat,
{
    if let Ok((first, after_first)) = parse_u8(input) {
        if first != 0 {
            crate::varint::lemma_varint_shortens(input);
            if let Ok((n, after_size)) = parse_size(input) {
                if let Ok((kinds, rest)) = parse_kinds(after_size) {
                    if rest.len() < input.len() {
                        lemma_entries_shorten(
                            rest,
                            n,
                            ElementsModel::empty(kinds.0),
                            ElementsModel::empty(kinds.1),
                        );
                    }
                }
            }
        }
    }
}

/// Reading what a header announces never moves back: the identifier and the
/// value of a field, the element count of a list or a set, the entry count and
/// the kinds of a map. So the tests of this in the definitions of reading
/// fields, lists, sets and maps never fail.
pub proof fn lemma_headers_shorten(input: Seq<u8>, delta: u8, prev: i16, code: u8, high: u8)
    ensures
        parse_field_id(input, delta, prev) matches Ok((_, rest)) ==> rest.len() <= input.len(),
        parse_field_data(input, code) matches Ok((_, rest)) ==> rest.len() <= input.len(),
        parse_count(input, high) matches Ok((_, rest)) ==> rest.len() <= input.len(),
        parse_size(input) matches Ok((_, rest)) ==> rest.len() < input.len(),
        parse_kinds(input) matches Ok((_, rest)) ==> rest.len() < input.len(),
{
    crate::varint::lemma_varint_shortens(input);
    if let Some(kind) = field_kind(code) {
        lemma_data_shortens(input, kind);
    }
}

/// A map without entries is written as one zero byte, with or without
/// columns; and one zero byte reads back as the map without columns.
pub proof fn lemma_empty_map(m: MapModel, tail: Seq<u8>)
    requires
        m.len() == 0,
    ensures
        map_bytes(m) == seq![0u8],
        parse_map(map_bytes(m) + tail) == parsed(MapModel::Empty, tail),
{
    assert((seq![0u8] + tail).skip(1) =~= tail);
}

} // verus!
