//! Decoding inverts encoding in the binary protocol.
//!
//! Each law says of one sort of value: where the value can be encoded, its
//! bytes are not empty, and reading them back, whatever follows them, gives
//! the value and leaves what followed.
use crate::binary::format::{
    binary_bytes, bool_bytes, column_bytes, column_ok, data_bytes, data_ok, double_bytes,
    element_bytes, element_ok, elements_bytes, elements_ok, entries_bytes, field_bytes,
    fields_bytes, i16_bytes, i32_bytes, i64_bytes, i8_bytes, map_bytes, map_ok, message_bytes,
    message_ok, parse_binary, parse_bool, parse_column, parse_data, parse_double, parse_elements,
    parse_entries, parse_fields, parse_i16, parse_i32, parse_i64, parse_i8, parse_kind, parse_map,
    parse_message, parse_message_kind, parse_name, parse_size, parse_struct, parse_version,
    size_bytes, struct_bytes, struct_ok, MAX_SIZE, VERSION_WORD,
};
use crate::data::{DataKind, DataModel, ElementsModel, FieldModel, MapModel};
use crate::endian::{be_bytes, be_nat, fits, lemma_be_round_trip, lemma_words_fit, to_unsigned};
use crate::message::{MessageKind, MessageModel};
use crate::error::ErrorKind;
use crate::wire::{fails, lemma_concat, parse_bytes, parse_u8, parsed};
use vstd::pervasive::trigger;
use vstd::prelude::*;
use vstd::utf8::encode_utf8;

verus! {

/// The bytes of the fields of a struct from index `i` on.
pub open spec fn fields_from(fields: Seq<FieldModel>, i: nat) -> Seq<u8>
    decreases fields.len() - i,
{
    if i < fields.len() {
        field_bytes(fields[i as int]) + fields_from(fields, i + 1)
    } else {
        Seq::empty()
    }
}

/// The bytes of the elements of a column from index `i` on.
pub open spec fn elements_from(e: ElementsModel, i: nat) -> Seq<u8>
    decreases e.len() - i,
{
    if i < e.len() {
        element_bytes(e, i as int) + elements_from(e, i + 1)
    } else {
        Seq::empty()
    }
}

/// The bytes of the entries of a map from index `i` on.
pub open spec fn entries_from(m: MapModel, i: nat) -> Seq<u8>
    decreases m.len() - i,
{
    match m {
        MapModel::Entries { keys, values } => if i < keys.len() {
            element_bytes(keys, i as int) + element_bytes(values, i as int) + entries_from(
                m,
                i + 1,
            )
        } else {
            Seq::empty()
        },
        MapModel::Empty => Seq::empty(),
    }
}

/// The fields before index `i` and the fields from there on make up all
/// the fields.
pub proof fn lemma_fields_split(fields: Seq<FieldModel>, i: nat)
    requires
        i <= fields.len(),
    ensures
        fields_bytes(fields, i) + fields_from(fields, i) == fields_bytes(fields, fields.len()),
    decreases fields.len() - i,
{
    if i < fields.len() {
        lemma_fields_split(fields, i + 1);
        assert(fields_bytes(fields, i) + fields_from(fields, i) =~= fields_bytes(fields, i + 1)
            + fields_from(fields, i + 1));
    } else {
        assert(fields_bytes(fields, i) + fields_from(fields, i) =~= fields_bytes(fields, i));
    }
}

/// The elements before index `i` and the elements from there on make up
/// all the elements.
pub proof fn lemma_elements_split(e: ElementsModel, i: nat)
    requires
        i <= e.len(),
    ensures
        elements_bytes(e, i) + elements_from(e, i) == elements_bytes(e, e.len()),
    decreases e.len() - i,
{
    if i < e.len() {
        lemma_elements_split(e, i + 1);
        assert(elements_bytes(e, i) + elements_from(e, i) =~= elements_bytes(e, i + 1)
            + elements_from(e, i + 1));
    } else {
        assert(elements_bytes(e, i) + elements_from(e, i) =~= elements_bytes(e, i));
    }
}

/// The entries before index `i` and the entries from there on make up all
/// the entries.
pub proof fn lemma_entries_split(m: MapModel, i: nat)
    requires
        i <= m.len(),
    ensures
        entries_bytes(m, i) + entries_from(m, i) == entries_bytes(m, m.len()),
    decreases m.len() - i,
{
    if i < m.len() {
        lemma_entries_split(m, i + 1);
        assert(entries_bytes(m, i) + entries_from(m, i) =~= entries_bytes(m, i + 1)
            + entries_from(m, i + 1));
    } else {
        assert(entries_bytes(m, i) + entries_from(m, i) =~= entries_bytes(m, i));
    }
}

/// A boolean reads back.
pub proof fn lemma_bool(v: bool, tail: Seq<u8>)
    ensures
        parse_bool(bool_bytes(v) + tail) == parsed(v, tail),
{
    assert((bool_bytes(v) + tail).skip(1) =~= tail);
}

/// An `i8` reads back.
pub proof fn lemma_i8(v: i8, tail: Seq<u8>)
    ensures
        parse_i8(i8_bytes(v) + tail) == parsed(v, tail),
{
    assert((i8_bytes(v) + tail).skip(1) =~= tail);
}

/// The `n` big-endian bytes of a number that fits read back as that number.
pub proof fn lemma_fixed(u: nat, n: nat, tail: Seq<u8>)
    requires
        fits(u, n),
    ensures
        be_bytes(u, n).len() == n,
        parse_bytes(be_bytes(u, n) + tail, n) == parsed(be_bytes(u, n), tail),
        be_nat(be_bytes(u, n)) == u,
{
    lemma_be_round_trip(u, n);
    assert((be_bytes(u, n) + tail).take(n as int) =~= be_bytes(u, n));
    assert((be_bytes(u, n) + tail).skip(n as int) =~= tail);
}

/// An `i16` reads back.
pub proof fn lemma_i16(v: i16, tail: Seq<u8>)
    ensures
        i16_bytes(v).len() == 2,
        parse_i16(i16_bytes(v) + tail) == parsed(v, tail),
{
    lemma_words_fit(to_unsigned(v as int, 0x1_0000));
    lemma_fixed(to_unsigned(v as int, 0x1_0000), 2, tail);
}

/// An `i32` reads back.
pub proof fn lemma_i32(v: i32, tail: Seq<u8>)
    ensures
        i32_bytes(v).len() == 4,
        parse_i32(i32_bytes(v) + tail) == parsed(v, tail),
{
    lemma_words_fit(to_unsigned(v as int, 0x1_0000_0000));
    lemma_fixed(to_unsigned(v as int, 0x1_0000_0000), 4, tail);
}

/// An `i64` reads back.
pub proof fn lemma_i64(v: i64, tail: Seq<u8>)
    ensures
        i64_bytes(v).len() == 8,
        parse_i64(i64_bytes(v) + tail) == parsed(v, tail),
{
    lemma_words_fit(to_unsigned(v as int, 0x1_0000_0000_0000_0000));
    lemma_fixed(to_unsigned(v as int, 0x1_0000_0000_0000_0000), 8, tail);
}

/// The bits of a double read back.
pub proof fn lemma_double(bits: u64, tail: Seq<u8>)
    ensures
        double_bytes(bits).len() == 8,
        parse_double(double_bytes(bits) + tail) == parsed(bits, tail),
{
    lemma_words_fit(bits as nat);
    lemma_fixed(bits as nat, 8, tail);
}

/// A length or an element count up to `MAX_SIZE` reads back.
pub proof fn lemma_size(n: nat, tail: Seq<u8>)
    requires
        n <= MAX_SIZE,
    ensures
        size_bytes(n).len() == 4,
        parse_size(size_bytes(n) + tail) == parsed(n, tail),
{
    lemma_i32(n as i32, tail);
}

/// A byte string of up to `MAX_SIZE` bytes reads back.
pub proof fn lemma_binary(b: Seq<u8>, tail: Seq<u8>)
    requires
        b.len() <= MAX_SIZE,
    ensures
        binary_bytes(b).len() >= 4,
        parse_binary(binary_bytes(b) + tail) == parsed(b, tail),
{
    lemma_size(b.len(), b + tail);
    assert(binary_bytes(b) + tail =~= size_bytes(b.len()) + (b + tail));
    assert((b + tail).take(b.len() as int) =~= b);
    assert((b + tail).skip(b.len() as int) =~= tail);
}

/// The code of a kind reads back.
pub proof fn lemma_kind(kind: DataKind, tail: Seq<u8>)
    ensures
        parse_kind(seq![kind.code()] + tail) == parsed(kind, tail),
{
    assert((seq![kind.code()] + tail).skip(1) =~= tail);
}

/// A value that can be encoded reads back.
pub proof fn lemma_data(d: DataModel, tail: Seq<u8>)
    requires
        data_ok(d),
    ensures
        data_bytes(d).len() > 0,
        parse_data(data_bytes(d) + tail, d.kind()) == parsed(d, tail),
    decreases d, 0nat,
{
    match d {
        DataModel::Bool(v) => lemma_bool(v, tail),
        DataModel::I8(v) => lemma_i8(v, tail),
        DataModel::I16(v) => lemma_i16(v, tail),
        DataModel::I32(v) => lemma_i32(v, tail),
        DataModel::I64(v) => lemma_i64(v, tail),
        DataModel::Double(v) => lemma_double(v, tail),
        DataModel::Binary(v) => lemma_binary(v, tail),
        DataModel::Struct(v) => lemma_struct(v, tail),
        DataModel::TMap(v) => lemma_map(v, tail),
        DataModel::TSet(v) => lemma_column(v, tail),
        DataModel::List(v) => lemma_column(v, tail),
    }
}

/// One step of reading fields: after a field was read, reading goes on with
/// what is left and with the field added to those that were read before.
pub proof fn lemma_fields_step(
    input: Seq<u8>,
    done: Seq<FieldModel>,
    f: FieldModel,
    after_code: Seq<u8>,
    after_id: Seq<u8>,
    rest: Seq<u8>,
)
    requires
        parse_u8(input) == parsed(f.data.kind().code(), after_code),
        parse_i16(after_code) == parsed(f.id, after_id),
        parse_data(after_id, f.data.kind()) == parsed(f.data, rest),
        rest.len() < input.len(),
    ensures
        parse_fields(input, done) == parse_fields(rest, done.push(f)),
{
    assert(DataKind::from_code(f.data.kind().code()) == Some(f.data.kind()));
    assert(FieldModel { id: f.id, data: f.data } == f);
}

/// Reading the field at index `i` of a struct after the fields before it
/// leaves the fields after it to read.
pub proof fn lemma_fields_next(fields: Seq<FieldModel>, i: nat, tail: Seq<u8>)
    requires
        struct_ok(fields),
        i < fields.len(),
    ensures
        parse_fields(fields_from(fields, i) + seq![0u8] + tail, fields.take(i as int)) == parse_fields(
            fields_from(fields, i + 1) + seq![0u8] + tail,
            fields.take(i + 1 as int),
        ),
    decreases fields, 0nat,
{
    let input = fields_from(fields, i) + seq![0u8] + tail;
    let done = fields.take(i as int);
    let f = fields[i as int];
    let code = seq![f.data.kind().code()];
    let rest = fields_from(fields, i + 1) + seq![0u8] + tail;
    let after_id = data_bytes(f.data) + rest;
    let after_code = i16_bytes(f.id) + after_id;
    assert(input == code + after_code) by {
        let next = fields_from(fields, i + 1);
        lemma_concat(field_bytes(f), next, seq![0u8]);
        lemma_concat(field_bytes(f), next + seq![0u8], tail);
        lemma_concat(code + i16_bytes(f.id), data_bytes(f.data), rest);
        lemma_concat(code, i16_bytes(f.id), after_id);
    }
    assert(parse_u8(input) == parsed(f.data.kind().code(), after_code)) by {
        assert((code + after_code).skip(1) =~= after_code);
    }
    assert(parse_i16(after_code) == parsed(f.id, after_id)) by {
        lemma_i16(f.id, after_id);
    }
    assert(data_bytes(f.data).len() > 0 && parse_data(after_id, f.data.kind()) == parsed(
        f.data,
        rest,
    )) by {
        lemma_data(f.data, rest);
    }
    lemma_fields_step(input, done, f, after_code, after_id, rest);
    assert(done.push(f) == fields.take(i + 1 as int)) by {
        assert(done.push(f) =~= fields.take(i + 1 as int));
    }
}

/// The fields of a struct from index `i` on, followed by the zero byte, read
/// back after the fields before them.
pub proof fn lemma_fields(fields: Seq<FieldModel>, i: nat, tail: Seq<u8>)
    requires
        struct_ok(fields),
        i <= fields.len(),
    ensures
        parse_fields(fields_from(fields, i) + seq![0u8] + tail, fields.take(i as int)) == parsed(fields, tail),
    decreases fields, fields.len() - i,
{
    let input = fields_from(fields, i) + seq![0u8] + tail;
    if i < fields.len() {
        lemma_fields_next(fields, i, tail);
        lemma_fields(fields, i + 1, tail);
    } else {
        assert(input == seq![0u8] + tail) by {
            assert(fields_from(fields, i) + seq![0u8] =~= seq![0u8]);
        }
        assert(parse_u8(input) == parsed(0u8, tail)) by {
            assert((seq![0u8] + tail).skip(1) =~= tail);
        }
        assert(fields.take(i as int) == fields) by {
            assert(fields.take(i as int) =~= fields);
        }
    }
}

/// A struct that can be encoded reads back.
pub proof fn lemma_struct(fields: Seq<FieldModel>, tail: Seq<u8>)
    requires
        struct_ok(fields),
    ensures
        struct_bytes(fields).len() > 0,
        parse_struct(struct_bytes(fields) + tail) == parsed(fields, tail),
    decreases fields, fields.len() + 1,
{
    lemma_fields(fields, 0, tail);
    lemma_fields_split(fields, 0);
    assert(fields_bytes(fields, 0) + fields_from(fields, 0) =~= fields_from(fields, 0));
    assert(fields.take(0) =~= Seq::empty());
}

/// The element at index `i` of a column reads back, where it can be encoded.
pub proof fn lemma_element(e: ElementsModel, i: int, tail: Seq<u8>)
    requires
        0 <= i < e.len(),
        element_ok(e, i),
    ensures
        element_bytes(e, i).len() > 0,
        parse_data(element_bytes(e, i) + tail, e.kind()) == parsed(e.get(i), tail),
    decreases e, 0nat,
{
    match e {
        ElementsModel::Bool(v) => lemma_bool(v[i], tail),
        ElementsModel::I8(v) => lemma_i8(v[i], tail),
        ElementsModel::I16(v) => lemma_i16(v[i], tail),
        ElementsModel::I32(v) => lemma_i32(v[i], tail),
        ElementsModel::I64(v) => lemma_i64(v[i], tail),
        ElementsModel::Double(v) => lemma_double(v[i], tail),
        ElementsModel::Binary(v) => lemma_binary(v[i], tail),
        ElementsModel::Struct(v) => lemma_struct(v[i], tail),
        ElementsModel::TMap(v) => lemma_map(v[i], tail),
        ElementsModel::TSet(v) => lemma_column(v[i], tail),
        ElementsModel::List(v) => lemma_column(v[i], tail),
    }
}

/// The first `i` elements of a column and the element after them are its
/// first `i + 1` elements.
pub proof fn lemma_take_push(e: ElementsModel, i: int)
    requires
        0 <= i < e.len(),
    ensures
        e.take(i).push(e.get(i)) == e.take(i + 1),
        e.take(i).kind() == e.kind(),
{
    match e {
        ElementsModel::Bool(v) => {
            assert(v.take(i).push(v[i]) =~= v.take(i + 1));
        },
        ElementsModel::I8(v) => {
            assert(v.take(i).push(v[i]) =~= v.take(i + 1));
        },
        ElementsModel::I16(v) => {
            assert(v.take(i).push(v[i]) =~= v.take(i + 1));
        },
        ElementsModel::I32(v) => {
            assert(v.take(i).push(v[i]) =~= v.take(i + 1));
        },
        ElementsModel::I64(v) => {
            assert(v.take(i).push(v[i]) =~= v.take(i + 1));
        },
        ElementsModel::Double(v) => {
            assert(v.take(i).push(v[i]) =~= v.take(i + 1));
        },
        ElementsModel::Binary(v) => {
            assert(v.take(i).push(v[i]) =~= v.take(i + 1));
        },
        ElementsModel::Struct(v) => {
            assert(v.take(i).push(v[i]) =~= v.take(i + 1));
        },
        ElementsModel::TMap(v) => {
            assert(v.take(i).push(v[i]) =~= v.take(i + 1));
        },
        ElementsModel::TSet(v) => {
            assert(v.take(i).push(v[i]) =~= v.take(i + 1));
        },
        ElementsModel::List(v) => {
            assert(v.take(i).push(v[i]) =~= v.take(i + 1));
        },
    }
}

/// The first elements of a column: none of them is the empty column of its
/// kind, all of them is the column.
pub proof fn lemma_take_ends(e: ElementsModel)
    ensures
        e.take(0) == ElementsModel::empty(e.kind()),
        e.take(e.len() as int) == e,
{
    match e {
        ElementsModel::Bool(v) => {
            assert(v.take(0) =~= Seq::empty());
            assert(v.take(v.len() as int) =~= v);
        },
        ElementsModel::I8(v) => {
            assert(v.take(0) =~= Seq::empty());
            assert(v.take(v.len() as int) =~= v);
        },
        ElementsModel::I16(v) => {
            assert(v.take(0) =~= Seq::empty());
            assert(v.take(v.len() as int) =~= v);
        },
        ElementsModel::I32(v) => {
            assert(v.take(0) =~= Seq::empty());
            assert(v.take(v.len() as int) =~= v);
        },
        ElementsModel::I64(v) => {
            assert(v.take(0) =~= Seq::empty());
            assert(v.take(v.len() as int) =~= v);
        },
        ElementsModel::Double(v) => {
            assert(v.take(0) =~= Seq::empty());
            assert(v.take(v.len() as int) =~= v);
        },
        ElementsModel::Binary(v) => {
            assert(v.take(0) =~= Seq::empty());
            assert(v.take(v.len() as int) =~= v);
        },
        ElementsModel::Struct(v) => {
            assert(v.take(0) =~= Seq::empty());
            assert(v.take(v.len() as int) =~= v);
        },
        ElementsModel::TMap(v) => {
            assert(v.take(0) =~= Seq::empty());
            assert(v.take(v.len() as int) =~= v);
        },
        ElementsModel::TSet(v) => {
            assert(v.take(0) =~= Seq::empty());
            assert(v.take(v.len() as int) =~= v);
        },
        ElementsModel::List(v) => {
            assert(v.take(0) =~= Seq::empty());
            assert(v.take(v.len() as int) =~= v);
        },
    }
}

/// One step of reading elements: after an element was read, reading goes on
/// with what is left and with the element added to those that were read
/// before.
pub proof fn lemma_elements_step(
    input: Seq<u8>,
    n: nat,
    done: ElementsModel,
    d: DataModel,
    rest: Seq<u8>,
)
    requires
        n > 0,
        parse_data(input, done.kind()) == parsed(d, rest),
        rest.len() < input.len(),
    ensures
        parse_elements(input, n, done) == parse_elements(rest, (n - 1) as nat, done.push(d)),
{
}

/// Reading the element at index `i` of a column after the elements before
/// it leaves the elements after it to read.
pub proof fn lemma_elements_next(e: ElementsModel, i: nat, tail: Seq<u8>)
    requires
        elements_ok(e),
        i < e.len(),
    ensures
        parse_elements(elements_from(e, i) + tail, (e.len() - i) as nat, e.take(i as int))
            == parse_elements(
            elements_from(e, i + 1) + tail,
            (e.len() - i - 1) as nat,
            e.take(i + 1 as int),
        ),
    decreases e, 1nat,
{
    let input = elements_from(e, i) + tail;
    let rest = elements_from(e, i + 1) + tail;
    let done = e.take(i as int);
    assert(input == element_bytes(e, i as int) + rest) by {
        lemma_concat(element_bytes(e, i as int), elements_from(e, i + 1), tail);
    }
    assert(done.kind() == e.kind() && done.push(e.get(i as int)) == e.take(i + 1 as int)) by {
        lemma_take_push(e, i as int);
    }
    assert(element_bytes(e, i as int).len() > 0 && parse_data(input, e.kind()) == parsed(
        e.get(i as int),
        rest,
    )) by {
        assert(trigger(i as int));
        lemma_element(e, i as int, rest);
    }
    lemma_elements_step(input, (e.len() - i) as nat, done, e.get(i as int), rest);
}

/// The elements of a column from index `i` on read back after the elements
/// before them.
pub proof fn lemma_elements(e: ElementsModel, i: nat, tail: Seq<u8>)
    requires
        elements_ok(e),
        i <= e.len(),
    ensures
        parse_elements(elements_from(e, i) + tail, (e.len() - i) as nat, e.take(i as int))
            == parsed(e, tail),
    decreases e, e.len() - i + 1,
{
    if i < e.len() {
        lemma_elements_next(e, i, tail);
        lemma_elements(e, i + 1, tail);
    } else {
        assert(elements_from(e, i) + tail == tail) by {
            assert(elements_from(e, i) + tail =~= tail);
        }
        lemma_take_ends(e);
    }
}

/// A list or a set that can be encoded reads back.
pub proof fn lemma_column(e: ElementsModel, tail: Seq<u8>)
    requires
        column_ok(e),
    ensures
        column_bytes(e).len() > 0,
        parse_column(column_bytes(e) + tail) == parsed(e, tail),
    decreases e, e.len() + 2,
{
    let input = column_bytes(e) + tail;
    let kind = seq![e.kind().code()];
    let size = size_bytes(e.len());
    let body = elements_from(e, 0) + tail;
    assert(input == kind + (size + body)) by {
        lemma_elements_split(e, 0);
        assert(elements_bytes(e, 0) + elements_from(e, 0) =~= elements_from(e, 0));
        lemma_concat(kind + size, elements_from(e, 0), tail);
        lemma_concat(kind, size, body);
    }
    assert(parse_kind(input) == parsed(e.kind(), size + body)) by {
        lemma_kind(e.kind(), size + body);
    }
    assert(parse_size(size + body) == parsed(e.len(), body)) by {
        lemma_size(e.len(), body);
    }
    assert(parse_elements(body, e.len(), ElementsModel::empty(e.kind())) == parsed(e, tail)) by {
        lemma_elements(e, 0, tail);
        lemma_take_ends(e);
    }
}

/// One step of reading entries: after a key and a value were read, reading
/// goes on with what is left and with the two added to those that were read
/// before.
pub proof fn lemma_entries_step(
    input: Seq<u8>,
    n: nat,
    keys: ElementsModel,
    values: ElementsModel,
    k: DataModel,
    after_key: Seq<u8>,
    v: DataModel,
    rest: Seq<u8>,
)
    requires
        n > 0,
        parse_data(input, keys.kind()) == parsed(k, after_key),
        after_key.len() < input.len(),
        parse_data(after_key, values.kind()) == parsed(v, rest),
        rest.len() < input.len(),
    ensures
        parse_entries(input, n, keys, values) == parse_entries(
            rest,
            (n - 1) as nat,
            keys.push(k),
            values.push(v),
        ),
{
}

/// Reading the entry at index `i` of a map after the entries before it
/// leaves the entries after it to read.
pub proof fn lemma_entry(m: MapModel, i: nat, tail: Seq<u8>)
    requires
        m is Entries,
        map_ok(m),
        i < m.len(),
    ensures
        parse_entries(
            entries_from(m, i) + tail,
            (m.len() - i) as nat,
            m->keys.take(i as int),
            m->values.take(i as int),
        ) == parse_entries(
            entries_from(m, i + 1) + tail,
            (m.len() - i - 1) as nat,
            m->keys.take(i + 1 as int),
            m->values.take(i + 1 as int),
        ),
    decreases m, 0nat,
{
    let keys = m->keys;
    let values = m->values;
    let input = entries_from(m, i) + tail;
    let rest = entries_from(m, i + 1) + tail;
    let key = element_bytes(keys, i as int);
    let value = element_bytes(values, i as int);
    let after_key = value + rest;
    assert(input == key + after_key) by {
        lemma_concat(key + value, entries_from(m, i + 1), tail);
        lemma_concat(key, value, rest);
    }
    assert(keys.take(i as int).kind() == keys.kind() && keys.take(i as int).push(
        keys.get(i as int),
    ) == keys.take(i + 1 as int)) by {
        lemma_take_push(keys, i as int);
    }
    assert(values.take(i as int).kind() == values.kind() && values.take(i as int).push(
        values.get(i as int),
    ) == values.take(i + 1 as int)) by {
        lemma_take_push(values, i as int);
    }
    assert(key.len() > 0 && parse_data(input, keys.kind()) == parsed(
        keys.get(i as int),
        after_key,
    )) by {
        assert(trigger(i as int));
        lemma_element(keys, i as int, after_key);
    }
    assert(value.len() > 0 && parse_data(after_key, values.kind()) == parsed(
        values.get(i as int),
        rest,
    )) by {
        assert(trigger(i as int));
        lemma_element(values, i as int, rest);
    }
    lemma_entries_step(
        input,
        (m.len() - i) as nat,
        keys.take(i as int),
        values.take(i as int),
        keys.get(i as int),
        after_key,
        values.get(i as int),
        rest,
    );
}

/// The entries of a map from index `i` on read back after the entries
/// before them.
pub proof fn lemma_entries(m: MapModel, i: nat, tail: Seq<u8>)
    requires
        m is Entries,
        map_ok(m),
        i <= m.len(),
    ensures
        parse_entries(
            entries_from(m, i) + tail,
            (m.len() - i) as nat,
            m->keys.take(i as int),
            m->values.take(i as int),
        ) == parsed(m, tail),
    decreases m, m.len() - i,
{
    if i < m.len() {
        lemma_entry(m, i, tail);
        lemma_entries(m, i + 1, tail);
    } else {
        assert(entries_from(m, i) + tail == tail) by {
            assert(entries_from(m, i) + tail =~= tail);
        }
        lemma_take_ends(m->keys);
        lemma_take_ends(m->values);
    }
}

/// A map that can be encoded reads back.
pub proof fn lemma_map(m: MapModel, tail: Seq<u8>)
    requires
        map_ok(m),
    ensures
        map_bytes(m).len() > 0,
        parse_map(map_bytes(m) + tail) == parsed(m, tail),
    decreases m, m.len() + 1,
{
    let keys = m->keys;
    let values = m->values;
    let input = map_bytes(m) + tail;
    let key_kind = seq![keys.kind().code()];
    let value_kind = seq![values.kind().code()];
    let size = size_bytes(keys.len());
    let body = entries_from(m, 0) + tail;
    assert(input == key_kind + (value_kind + (size + body))) by {
        lemma_entries_split(m, 0);
        assert(entries_bytes(m, 0) + entries_from(m, 0) =~= entries_from(m, 0));
        let kinds = seq![keys.kind().code(), values.kind().code()];
        assert(kinds =~= key_kind + value_kind);
        lemma_concat(kinds + size, entries_from(m, 0), tail);
        lemma_concat(kinds, size, body);
        lemma_concat(key_kind, value_kind, size + body);
    }
    assert(parse_kind(input) == parsed(keys.kind(), value_kind + (size + body))) by {
        lemma_kind(keys.kind(), value_kind + (size + body));
    }
    assert(parse_kind(value_kind + (size + body)) == parsed(values.kind(), size + body)) by {
        lemma_kind(values.kind(), size + body);
    }
    assert(parse_size(size + body) == parsed(keys.len(), body)) by {
        lemma_size(keys.len(), body);
    }
    assert(parse_entries(
        body,
        keys.len(),
        ElementsModel::empty(keys.kind()),
        ElementsModel::empty(values.kind()),
    ) == parsed(m, tail)) by {
        lemma_entries(m, 0, tail);
        lemma_take_ends(keys);
        lemma_take_ends(values);
    }
}

/// The version word reads back.
pub proof fn lemma_version(tail: Seq<u8>)
    ensures
        parse_version(be_bytes(VERSION_WORD as nat, 2) + tail) == parsed((), tail),
{
    lemma_words_fit(VERSION_WORD as nat);
    lemma_fixed(VERSION_WORD as nat, 2, tail);
}

/// The kind of a message reads back.
pub proof fn lemma_message_kind(kind: MessageKind, tail: Seq<u8>)
    ensures
        parse_message_kind(seq![kind.code()] + tail) == parsed(kind, tail),
{
    assert((seq![kind.code()] + tail).skip(1) =~= tail);
}

/// A method name of up to `MAX_SIZE` bytes reads back.
pub proof fn lemma_name(name: Seq<char>, tail: Seq<u8>)
    requires
        encode_utf8(name).len() <= MAX_SIZE,
    ensures
        parse_name(binary_bytes(encode_utf8(name)) + tail) == parsed(name, tail),
{
    lemma_binary(encode_utf8(name), tail);
    vstd::utf8::encode_utf8_valid_utf8(name);
    vstd::utf8::encode_utf8_decode_utf8(name);
}

/// A message that can be encoded reads back: decoding what encoding wrote,
/// whatever follows it, gives the message and leaves what followed.
pub proof fn lemma_message(m: MessageModel, tail: Seq<u8>)
    requires
        message_ok(m),
    ensures
        parse_message(message_bytes(m) + tail) == parsed(m, tail),
{
    let version = be_bytes(VERSION_WORD as nat, 2);
    let name = binary_bytes(encode_utf8(m.method_name));
    let id = i32_bytes(m.sequence_id);
    let body = struct_bytes(m.body);
    let after_id = body + tail;
    let after_name = id + after_id;
    let after_kind = name + after_name;
    let after_unused = seq![m.kind.code()] + after_kind;
    let after_version = seq![0u8] + after_unused;
    let input = message_bytes(m) + tail;
    assert(input == version + after_version) by {
        let kinds = seq![0u8, m.kind.code()];
        lemma_concat(version + kinds + name + id, body, tail);
        lemma_concat(version + kinds + name, id, after_id);
        lemma_concat(version + kinds, name, after_name);
        lemma_concat(version, kinds, after_kind);
        assert(kinds =~= seq![0u8] + seq![m.kind.code()]);
        lemma_concat(seq![0u8], seq![m.kind.code()], after_kind);
    }
    assert(parse_version(input) == parsed((), after_version)) by {
        lemma_version(after_version);
    }
    assert(parse_u8(after_version) == parsed(0u8, after_unused)) by {
        assert(after_version.skip(1) =~= after_unused);
    }
    assert(parse_message_kind(after_unused) == parsed(m.kind, after_kind)) by {
        lemma_message_kind(m.kind, after_kind);
    }
    assert(parse_name(after_kind) == parsed(m.method_name, after_name)) by {
        lemma_name(m.method_name, after_name);
    }
    assert(parse_i32(after_name) == parsed(m.sequence_id, after_id)) by {
        lemma_i32(m.sequence_id, after_id);
    }
    assert(parse_struct(after_id) == parsed(m.body, tail)) by {
        lemma_struct(m.body, tail);
    }
}

/// A boolean byte other than `0` and `1` is rejected with `InvalidInput`.
pub proof fn lemma_rejects_boolean(input: Seq<u8>)
    requires
        input.len() > 0,
        input[0] >= 2,
    ensures
        fails(parse_bool(input), ErrorKind::InvalidInput),
        fails(parse_data(input, DataKind::Bool), ErrorKind::InvalidInput),
{
}

/// A negative length or element count is rejected with `InvalidInput`: in
/// a byte string, and after the kinds of a list, a set or a map.
pub proof fn lemma_rejects_negative_size(
    input: Seq<u8>,
    kind: DataKind,
    key_kind: DataKind,
    value_kind: DataKind,
)
    requires
        parse_i32(input) matches Ok((n, _)) && n < 0,
    ensures
        fails(parse_size(input), ErrorKind::InvalidInput),
        fails(parse_binary(input), ErrorKind::InvalidInput),
        fails(parse_column(seq![kind.code()] + input), ErrorKind::InvalidInput),
        fails(
            parse_map(seq![key_kind.code(), value_kind.code()] + input),
            ErrorKind::InvalidInput,
        ),
{
    lemma_kind(kind, input);
    let after = seq![value_kind.code()] + input;
    assert(seq![key_kind.code(), value_kind.code()] + input =~= seq![key_kind.code()] + after);
    lemma_kind(key_kind, after);
    lemma_kind(value_kind, input);
}

/// A byte that is the code of no kind is rejected with `InvalidInput`
/// wherever the code of a kind is read: at the start of a list, a set or a
/// map, as the value kind of a map, and, unless it is zero, at the start of a
/// field.
pub proof fn lemma_rejects_unknown_kind(input: Seq<u8>, key_kind: DataKind)
    requires
        input.len() > 0,
        DataKind::from_code(input[0]) is None,
    ensures
        fails(parse_kind(input), ErrorKind::InvalidInput),
        fails(parse_column(input), ErrorKind::InvalidInput),
        fails(parse_map(input), ErrorKind::InvalidInput),
        fails(parse_map(seq![key_kind.code()] + input), ErrorKind::InvalidInput),
        input[0] != 0 ==> fails(parse_struct(input), ErrorKind::InvalidInput),
{
    lemma_kind(key_kind, input);
}

/// A message whose version word has the top bit but is not `VERSION_WORD`
/// is rejected with `InvalidInput`; one whose version word lacks the top bit
/// is rejected with `Other`.
pub proof fn lemma_rejects_version(input: Seq<u8>)
    requires
        input.len() >= 2,
    ensures
        be_nat(input.take(2)) >= 0x8000 && be_nat(input.take(2)) != VERSION_WORD
            ==> fails(parse_message(input), ErrorKind::InvalidInput),
        be_nat(input.take(2)) < 0x8000 ==> fails(parse_message(input), ErrorKind::Other),
{
}

/// Reading a value moves forward: what is left is shorter than the input.
/// So the tests of this in the definitions of reading fields, elements and
/// entries never fail.
pub proof fn lemma_data_shortens(input: Seq<u8>, kind: DataKind)
    ensures
        parse_data(input, kind) matches Ok((_, rest)) ==> rest.len() < input.len(),
    decreases input.len(), 2nat,
{
    match kind {
        DataKind::Struct => lemma_fields_shorten(input, Seq::empty()),
        DataKind::TMap => lemma_map_shortens(input),
        DataKind::TSet => lemma_column_shortens(input),
        DataKind::List => lemma_column_shortens(input),
        _ => {},
    }
}

/// Reading the fields of a struct moves forward.
pub proof fn lemma_fields_shorten(input: Seq<u8>, done: Seq<FieldModel>)
    ensures
        parse_fields(input, done) matches Ok((_, rest)) ==> rest.len() < input.len(),
    decreases input.len(), 0nat,
{
    if let Ok((code, after_code)) = parse_u8(input) {
        if code != 0 {
            if let Some(kind) = DataKind::from_code(code) {
                if let Ok((id, after_id)) = parse_i16(after_code) {
                    lemma_data_shortens(after_id, kind);
                    if let Ok((data, rest)) = parse_data(after_id, kind) {
                        if rest.len() < input.len() {
                            lemma_fields_shorten(rest, done.push(FieldModel { id, data }));
                        }
                    }
                }
            }
        }
    }
}

/// Reading elements never moves back.
pub proof fn lemma_elements_shorten(input: Seq<u8>, n: nat, done: ElementsModel)
    ensures
        parse_elements(input, n, done) matches Ok((_, rest)) ==> rest.len() <= input.len(),
    decreases input.len(), 3nat,
{
    if n > 0 {
        if let Ok((d, rest)) = parse_data(input, done.kind()) {
            if rest.len() < input.len() {
                lemma_elements_shorten(rest, (n - 1) as nat, done.push(d));
            }
        }
    }
}

/// Reading entries never moves back.
pub proof fn lemma_entries_shorten(
    input: Seq<u8>,
    n: nat,
    keys: ElementsModel,
    values: ElementsModel,
)
    ensures
        parse_entries(input, n, keys, values) matches Ok((_, rest)) ==> rest.len() <= input.len(),
    decreases input.len(), 3nat,
{
    if n > 0 {
        if let Ok((k, after_key)) = parse_data(input, keys.kind()) {
            if after_key.len() < input.len() {
                if let Ok((v, rest)) = parse_data(after_key, values.kind()) {
                    if rest.len() < input.len() {
                        lemma_entries_shorten(rest, (n - 1) as nat, keys.push(k), values.push(v));
                    }
                }
            }
        }
    }
}

/// Reading a list or a set moves forward.
pub proof fn lemma_column_shortens(input: Seq<u8>)
    ensures
        parse_column(input) matches Ok((_, rest)) ==> rest.len() < input.len(),
    decreases input.len(), 1nat,
{
    if let Ok((kind, after_kind)) = parse_kind(input) {
        if let Ok((n, rest)) = parse_size(after_kind) {
            lemma_elements_shorten(rest, n, ElementsModel::empty(kind));
        }
    }
}

/// Reading a map moves forward.
pub proof fn lemma_map_shortens(input: Seq<u8>)
    ensures
        parse_map(input) matches Ok((_, rest)) ==> rest.len() < input.len(),
    decreases input.len(), 1nat,
{
    if let Ok((key_kind, after_key_kind)) = parse_kind(input) {
        if let Ok((value_kind, after_kinds)) = parse_kind(after_key_kind) {
            if let Ok((n, rest)) = parse_size(after_kinds) {
                lemma_entries_shorten(
                    rest,
                    n,
                    ElementsModel::empty(key_kind),
                    ElementsModel::empty(value_kind),
                );
            }
        }
    }
}

/// The bytes of every message begin with the version word, `0x80 0x01`, a
/// zero byte, and the code of the kind of the message.
pub proof fn lemma_envelope(m: MessageModel)
    ensures
        message_bytes(m).len() >= 4,
        message_bytes(m).take(4) == seq![0x80u8, 0x01u8, 0x00u8, m.kind.code()],
{
    let version = be_bytes(VERSION_WORD as nat, 2);
    let kinds = seq![0u8, m.kind.code()];
    let rest = binary_bytes(encode_utf8(m.method_name)) + i32_bytes(m.sequence_id)
        + struct_bytes(m.body);
    assert(version =~= seq![0x80u8, 0x01u8]) by {
        reveal_with_fuel(be_bytes, 3);
    }
    assert(message_bytes(m) == version + kinds + rest) by {
        lemma_concat(
            version + kinds,
            binary_bytes(encode_utf8(m.method_name)),
            i32_bytes(m.sequence_id),
        );
        lemma_concat(
            version + kinds,
            binary_bytes(encode_utf8(m.method_name)) + i32_bytes(m.sequence_id),
            struct_bytes(m.body),
        );
    }
    assert((version + kinds + rest).take(4) =~= seq![0x80u8, 0x01u8, 0x00u8, m.kind.code()]);
}

} // verus!
