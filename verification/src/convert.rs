//! Conversions into values, columns, containers and structs.
use crate::data::{
    field_models, Data, DataModel, Double, Elements, Field, FieldModel, List, Struct, TMap, TSet,
};
use vstd::prelude::*;
use vstd::slice::slice_to_vec;
use vstd::std_specs::convert::FromSpecImpl;
use vstd::string::StringSliceAdditionalSpecFns;

verus! {

/// The conversion of a value into its own type, which std gives to every
/// type: the value itself.
pub assume_specification<Same>[ <Same as From<Same>>::from ](t: Same) -> (r: Same)
    ensures
        r == t,
;

impl From<bool> for Data {
    fn from(f: bool) -> (r: Data)
        ensures
            r == Data::Bool(f),
    {
        Data::Bool(f)
    }
}

impl FromSpecImpl<bool> for Data {
    open spec fn obeys_from_spec() -> bool {
        true
    }

    open spec fn from_spec(f: bool) -> Data {
        Data::Bool(f)
    }
}

impl From<i8> for Data {
    fn from(f: i8) -> (r: Data)
        ensures
            r == Data::I8(f),
    {
        Data::I8(f)
    }
}

impl FromSpecImpl<i8> for Data {
    open spec fn obeys_from_spec() -> bool {
        true
    }

    open spec fn from_spec(f: i8) -> Data {
        Data::I8(f)
    }
}

impl From<i16> for Data {
    fn from(f: i16) -> (r: Data)
        ensures
            r == Data::I16(f),
    {
        Data::I16(f)
    }
}

impl FromSpecImpl<i16> for Data {
    open spec fn obeys_from_spec() -> bool {
        true
    }

    open spec fn from_spec(f: i16) -> Data {
        Data::I16(f)
    }
}

impl From<i32> for Data {
    fn from(f: i32) -> (r: Data)
        ensures
            r == Data::I32(f),
    {
        Data::I32(f)
    }
}

impl FromSpecImpl<i32> for Data {
    open spec fn obeys_from_spec() -> bool {
        true
    }

    open spec fn from_spec(f: i32) -> Data {
        Data::I32(f)
    }
}

impl From<i64> for Data {
    fn from(f: i64) -> (r: Data)
        ensures
            r == Data::I64(f),
    {
        Data::I64(f)
    }
}

impl FromSpecImpl<i64> for Data {
    open spec fn obeys_from_spec() -> bool {
        true
    }

    open spec fn from_spec(f: i64) -> Data {
        Data::I64(f)
    }
}

impl From<Double> for Data {
    fn from(f: Double) -> (r: Data)
        ensures
            r == Data::Double(f),
    {
        Data::Double(f)
    }
}

impl FromSpecImpl<Double> for Data {
    open spec fn obeys_from_spec() -> bool {
        true
    }

    open spec fn from_spec(f: Double) -> Data {
        Data::Double(f)
    }
}

impl From<Vec<u8>> for Data {
    fn from(f: Vec<u8>) -> (r: Data)
        ensures
            r == Data::Binary(f),
    {
        Data::Binary(f)
    }
}

impl FromSpecImpl<Vec<u8>> for Data {
    open spec fn obeys_from_spec() -> bool {
        true
    }

    open spec fn from_spec(f: Vec<u8>) -> Data {
        Data::Binary(f)
    }
}

impl From<Struct> for Data {
    fn from(f: Struct) -> (r: Data)
        ensures
            r == Data::Struct(f),
    {
        Data::Struct(f)
    }
}

impl FromSpecImpl<Struct> for Data {
    open spec fn obeys_from_spec() -> bool {
        true
    }

    open spec fn from_spec(f: Struct) -> Data {
        Data::Struct(f)
    }
}

impl From<TMap> for Data {
    fn from(f: TMap) -> (r: Data)
        ensures
            r == Data::TMap(f),
    {
        Data::TMap(f)
    }
}

impl FromSpecImpl<TMap> for Data {
    open spec fn obeys_from_spec() -> bool {
        true
    }

    open spec fn from_spec(f: TMap) -> Data {
        Data::TMap(f)
    }
}

impl From<TSet> for Data {
    fn from(f: TSet) -> (r: Data)
        ensures
            r == Data::TSet(f),
    {
        Data::TSet(f)
    }
}

impl FromSpecImpl<TSet> for Data {
    open spec fn obeys_from_spec() -> bool {
        true
    }

    open spec fn from_spec(f: TSet) -> Data {
        Data::TSet(f)
    }
}

impl From<List> for Data {
    fn from(f: List) -> (r: Data)
        ensures
            r == Data::List(f),
    {
        Data::List(f)
    }
}

impl FromSpecImpl<List> for Data {
    open spec fn obeys_from_spec() -> bool {
        true
    }

    open spec fn from_spec(f: List) -> Data {
        Data::List(f)
    }
}

impl<'a> From<&'a str> for Data {
    fn from(f: &'a str) -> (r: Data)
        ensures
            r@ == DataModel::Binary(f.spec_bytes()),
    {
        Data::Binary(slice_to_vec(f.as_bytes()))
    }
}

impl<'a> FromSpecImpl<&'a str> for Data {
    open spec fn obeys_from_spec() -> bool {
        false
    }

    open spec fn from_spec(f: &'a str) -> Data {
        arbitrary()
    }
}

impl From<String> for Data {
    fn from(f: String) -> (r: Data)
        ensures
            r@ == DataModel::Binary(vstd::utf8::encode_utf8(f@)),
    {
        Data::Binary(slice_to_vec(f.as_str().as_bytes()))
    }
}

impl FromSpecImpl<String> for Data {
    open spec fn obeys_from_spec() -> bool {
        false
    }

    open spec fn from_spec(f: String) -> Data {
        arbitrary()
    }
}

impl<'a> From<&'a [u8]> for Data {
    fn from(f: &'a [u8]) -> (r: Data)
        ensures
            r@ == DataModel::Binary(f@),
    {
        Data::Binary(slice_to_vec(f))
    }
}

impl<'a> FromSpecImpl<&'a [u8]> for Data {
    open spec fn obeys_from_spec() -> bool {
        false
    }

    open spec fn from_spec(f: &'a [u8]) -> Data {
        arbitrary()
    }
}

impl From<Vec<bool>> for Elements {
    fn from(f: Vec<bool>) -> (r: Elements)
        ensures
            r == Elements::Bool(f),
    {
        Elements::Bool(f)
    }
}

impl FromSpecImpl<Vec<bool>> for Elements {
    open spec fn obeys_from_spec() -> bool {
        true
    }

    open spec fn from_spec(f: Vec<bool>) -> Elements {
        Elements::Bool(f)
    }
}

impl From<Vec<i8>> for Elements {
    fn from(f: Vec<i8>) -> (r: Elements)
        ensures
            r == Elements::I8(f),
    {
        Elements::I8(f)
    }
}

impl FromSpecImpl<Vec<i8>> for Elements {
    open spec fn obeys_from_spec() -> bool {
        true
    }

    open spec fn from_spec(f: Vec<i8>) -> Elements {
        Elements::I8(f)
    }
}

impl From<Vec<i16>> for Elements {
    fn from(f: Vec<i16>) -> (r: Elements)
        ensures
            r == Elements::I16(f),
    {
        Elements::I16(f)
    }
}

impl FromSpecImpl<Vec<i16>> for Elements {
    open spec fn obeys_from_spec() -> bool {
        true
    }

    open spec fn from_spec(f: Vec<i16>) -> Elements {
        Elements::I16(f)
    }
}

impl From<Vec<i32>> for Elements {
    fn from(f: Vec<i32>) -> (r: Elements)
        ensures
            r == Elements::I32(f),
    {
        Elements::I32(f)
    }
}

impl FromSpecImpl<Vec<i32>> for Elements {
    open spec fn obeys_from_spec() -> bool {
        true
    }

    open spec fn from_spec(f: Vec<i32>) -> Elements {
        Elements::I32(f)
    }
}

impl From<Vec<i64>> for Elements {
    fn from(f: Vec<i64>) -> (r: Elements)
        ensures
            r == Elements::I64(f),
    {
        Elements::I64(f)
    }
}

impl FromSpecImpl<Vec<i64>> for Elements {
    open spec fn obeys_from_spec() -> bool {
        true
    }

    open spec fn from_spec(f: Vec<i64>) -> Elements {
        Elements::I64(f)
    }
}

impl From<Vec<Double>> for Elements {
    fn from(f: Vec<Double>) -> (r: Elements)
        ensures
            r == Elements::Double(f),
    {
        Elements::Double(f)
    }
}

impl FromSpecImpl<Vec<Double>> for Elements {
    open spec fn obeys_from_spec() -> bool {
        true
    }

    open spec fn from_spec(f: Vec<Double>) -> Elements {
        Elements::Double(f)
    }
}

impl From<Vec<Vec<u8>>> for Elements {
    fn from(f: Vec<Vec<u8>>) -> (r: Elements)
        ensures
            r == Elements::Binary(f),
    {
        Elements::Binary(f)
    }
}

impl FromSpecImpl<Vec<Vec<u8>>> for Elements {
    open spec fn obeys_from_spec() -> bool {
        true
    }

    open spec fn from_spec(f: Vec<Vec<u8>>) -> Elements {
        Elements::Binary(f)
    }
}

impl From<Vec<Struct>> for Elements {
    fn from(f: Vec<Struct>) -> (r: Elements)
        ensures
            r == Elements::Struct(f),
    {
        Elements::Struct(f)
    }
}

impl FromSpecImpl<Vec<Struct>> for Elements {
    open spec fn obeys_from_spec() -> bool {
        true
    }

    open spec fn from_spec(f: Vec<Struct>) -> Elements {
        Elements::Struct(f)
    }
}

impl From<Vec<TMap>> for Elements {
    fn from(f: Vec<TMap>) -> (r: Elements)
        ensures
            r == Elements::TMap(f),
    {
        Elements::TMap(f)
    }
}

impl FromSpecImpl<Vec<TMap>> for Elements {
    open spec fn obeys_from_spec() -> bool {
        true
    }

    open spec fn from_spec(f: Vec<TMap>) -> Elements {
        Elements::TMap(f)
    }
}

impl From<Vec<TSet>> for Elements {
    fn from(f: Vec<TSet>) -> (r: Elements)
        ensures
            r == Elements::TSet(f),
    {
        Elements::TSet(f)
    }
}

impl FromSpecImpl<Vec<TSet>> for Elements {
    open spec fn obeys_from_spec() -> bool {
        true
    }

    open spec fn from_spec(f: Vec<TSet>) -> Elements {
        Elements::TSet(f)
    }
}

impl From<Vec<List>> for Elements {
    fn from(f: Vec<List>) -> (r: Elements)
        ensures
            r == Elements::List(f),
    {
        Elements::List(f)
    }
}

impl FromSpecImpl<Vec<List>> for Elements {
    open spec fn obeys_from_spec() -> bool {
        true
    }

    open spec fn from_spec(f: Vec<List>) -> Elements {
        Elements::List(f)
    }
}

impl From<Vec<bool>> for List {
    fn from(f: Vec<bool>) -> (r: List)
        ensures
            r@ == Elements::Bool(f)@,
    {
        List::new(Elements::Bool(f))
    }
}

impl FromSpecImpl<Vec<bool>> for List {
    open spec fn obeys_from_spec() -> bool {
        false
    }

    open spec fn from_spec(f: Vec<bool>) -> List {
        arbitrary()
    }
}

impl From<Vec<i8>> for List {
    fn from(f: Vec<i8>) -> (r: List)
        ensures
            r@ == Elements::I8(f)@,
    {
        List::new(Elements::I8(f))
    }
}

impl FromSpecImpl<Vec<i8>> for List {
    open spec fn obeys_from_spec() -> bool {
        false
    }

    open spec fn from_spec(f: Vec<i8>) -> List {
        arbitrary()
    }
}

impl From<Vec<i16>> for List {
    fn from(f: Vec<i16>) -> (r: List)
        ensures
            r@ == Elements::I16(f)@,
    {
        List::new(Elements::I16(f))
    }
}

impl FromSpecImpl<Vec<i16>> for List {
    open spec fn obeys_from_spec() -> bool {
        false
    }

    open spec fn from_spec(f: Vec<i16>) -> List {
        arbitrary()
    }
}

impl From<Vec<i32>> for List {
    fn from(f: Vec<i32>) -> (r: List)
        ensures
            r@ == Elements::I32(f)@,
    {
        List::new(Elements::I32(f))
    }
}

impl FromSpecImpl<Vec<i32>> for List {
    open spec fn obeys_from_spec() -> bool {
        false
    }

    open spec fn from_spec(f: Vec<i32>) -> List {
        arbitrary()
    }
}

impl From<Vec<i64>> for List {
    fn from(f: Vec<i64>) -> (r: List)
        ensures
            r@ == Elements::I64(f)@,
    {
        List::new(Elements::I64(f))
    }
}

impl FromSpecImpl<Vec<i64>> for List {
    open spec fn obeys_from_spec() -> bool {
        false
    }

    open spec fn from_spec(f: Vec<i64>) -> List {
        arbitrary()
    }
}

impl From<Vec<Double>> for List {
    fn from(f: Vec<Double>) -> (r: List)
        ensures
            r@ == Elements::Double(f)@,
    {
        List::new(Elements::Double(f))
    }
}

impl FromSpecImpl<Vec<Double>> for List {
    open spec fn obeys_from_spec() -> bool {
        false
    }

    open spec fn from_spec(f: Vec<Double>) -> List {
        arbitrary()
    }
}

impl From<Vec<Vec<u8>>> for List {
    fn from(f: Vec<Vec<u8>>) -> (r: List)
        ensures
            r@ == Elements::Binary(f)@,
    {
        List::new(Elements::Binary(f))
    }
}

impl FromSpecImpl<Vec<Vec<u8>>> for List {
    open spec fn obeys_from_spec() -> bool {
        false
    }

    open spec fn from_spec(f: Vec<Vec<u8>>) -> List {
        arbitrary()
    }
}

impl From<Vec<Struct>> for List {
    fn from(f: Vec<Struct>) -> (r: List)
        ensures
            r@ == Elements::Struct(f)@,
    {
        List::new(Elements::Struct(f))
    }
}

impl FromSpecImpl<Vec<Struct>> for List {
    open spec fn obeys_from_spec() -> bool {
        false
    }

    open spec fn from_spec(f: Vec<Struct>) -> List {
        arbitrary()
    }
}

impl From<Vec<TMap>> for List {
    fn from(f: Vec<TMap>) -> (r: List)
        ensures
            r@ == Elements::TMap(f)@,
    {
        List::new(Elements::TMap(f))
    }
}

impl FromSpecImpl<Vec<TMap>> for List {
    open spec fn obeys_from_spec() -> bool {
        false
    }

    open spec fn from_spec(f: Vec<TMap>) -> List {
        arbitrary()
    }
}

impl From<Vec<TSet>> for List {
    fn from(f: Vec<TSet>) -> (r: List)
        ensures
            r@ == Elements::TSet(f)@,
    {
        List::new(Elements::TSet(f))
    }
}

impl FromSpecImpl<Vec<TSet>> for List {
    open spec fn obeys_from_spec() -> bool {
        false
    }

    open spec fn from_spec(f: Vec<TSet>) -> List {
        arbitrary()
    }
}

impl From<Vec<List>> for List {
    fn from(f: Vec<List>) -> (r: List)
        ensures
            r@ == Elements::List(f)@,
    {
        List::new(Elements::List(f))
    }
}

impl FromSpecImpl<Vec<List>> for List {
    open spec fn obeys_from_spec() -> bool {
        false
    }

    open spec fn from_spec(f: Vec<List>) -> List {
        arbitrary()
    }
}

impl From<Vec<bool>> for TSet {
    fn from(f: Vec<bool>) -> (r: TSet)
        ensures
            r@ == Elements::Bool(f)@,
    {
        TSet::new(Elements::Bool(f))
    }
}

impl FromSpecImpl<Vec<bool>> for TSet {
    open spec fn obeys_from_spec() -> bool {
        false
    }

    open spec fn from_spec(f: Vec<bool>) -> TSet {
        arbitrary()
    }
}

impl From<Vec<i8>> for TSet {
    fn from(f: Vec<i8>) -> (r: TSet)
        ensures
            r@ == Elements::I8(f)@,
    {
        TSet::new(Elements::I8(f))
    }
}

impl FromSpecImpl<Vec<i8>> for TSet {
    open spec fn obeys_from_spec() -> bool {
        false
    }

    open spec fn from_spec(f: Vec<i8>) -> TSet {
        arbitrary()
    }
}

impl From<Vec<i16>> for TSet {
    fn from(f: Vec<i16>) -> (r: TSet)
        ensures
            r@ == Elements::I16(f)@,
    {
        TSet::new(Elements::I16(f))
    }
}

impl FromSpecImpl<Vec<i16>> for TSet {
    open spec fn obeys_from_spec() -> bool {
        false
    }

    open spec fn from_spec(f: Vec<i16>) -> TSet {
        arbitrary()
    }
}

impl From<Vec<i32>> for TSet {
    fn from(f: Vec<i32>) -> (r: TSet)
        ensures
            r@ == Elements::I32(f)@,
    {
        TSet::new(Elements::I32(f))
    }
}

impl FromSpecImpl<Vec<i32>> for TSet {
    open spec fn obeys_from_spec() -> bool {
        false
    }

    open spec fn from_spec(f: Vec<i32>) -> TSet {
        arbitrary()
    }
}

impl From<Vec<i64>> for TSet {
    fn from(f: Vec<i64>) -> (r: TSet)
        ensures
            r@ == Elements::I64(f)@,
    {
        TSet::new(Elements::I64(f))
    }
}

impl FromSpecImpl<Vec<i64>> for TSet {
    open spec fn obeys_from_spec() -> bool {
        false
    }

    open spec fn from_spec(f: Vec<i64>) -> TSet {
        arbitrary()
    }
}

impl From<Vec<Double>> for TSet {
    fn from(f: Vec<Double>) -> (r: TSet)
        ensures
            r@ == Elements::Double(f)@,
    {
        TSet::new(Elements::Double(f))
    }
}

impl FromSpecImpl<Vec<Double>> for TSet {
    open spec fn obeys_from_spec() -> bool {
        false
    }

    open spec fn from_spec(f: Vec<Double>) -> TSet {
        arbitrary()
    }
}

impl From<Vec<Vec<u8>>> for TSet {
    fn from(f: Vec<Vec<u8>>) -> (r: TSet)
        ensures
            r@ == Elements::Binary(f)@,
    {
        TSet::new(Elements::Binary(f))
    }
}

impl FromSpecImpl<Vec<Vec<u8>>> for TSet {
    open spec fn obeys_from_spec() -> bool {
        false
    }

    open spec fn from_spec(f: Vec<Vec<u8>>) -> TSet {
        arbitrary()
    }
}

impl From<Vec<Struct>> for TSet {
    fn from(f: Vec<Struct>) -> (r: TSet)
        ensures
            r@ == Elements::Struct(f)@,
    {
        TSet::new(Elements::Struct(f))
    }
}

impl FromSpecImpl<Vec<Struct>> for TSet {
    open spec fn obeys_from_spec() -> bool {
        false
    }

    open spec fn from_spec(f: Vec<Struct>) -> TSet {
        arbitrary()
    }
}

impl From<Vec<TMap>> for TSet {
    fn from(f: Vec<TMap>) -> (r: TSet)
        ensures
            r@ == Elements::TMap(f)@,
    {
        TSet::new(Elements::TMap(f))
    }
}

impl FromSpecImpl<Vec<TMap>> for TSet {
    open spec fn obeys_from_spec() -> bool {
        false
    }

    open spec fn from_spec(f: Vec<TMap>) -> TSet {
        arbitrary()
    }
}

impl From<Vec<TSet>> for TSet {
    fn from(f: Vec<TSet>) -> (r: TSet)
        ensures
            r@ == Elements::TSet(f)@,
    {
        TSet::new(Elements::TSet(f))
    }
}

impl FromSpecImpl<Vec<TSet>> for TSet {
    open spec fn obeys_from_spec() -> bool {
        false
    }

    open spec fn from_spec(f: Vec<TSet>) -> TSet {
        arbitrary()
    }
}

impl From<Vec<List>> for TSet {
    fn from(f: Vec<List>) -> (r: TSet)
        ensures
            r@ == Elements::List(f)@,
    {
        TSet::new(Elements::List(f))
    }
}

impl FromSpecImpl<Vec<List>> for TSet {
    open spec fn obeys_from_spec() -> bool {
        false
    }

    open spec fn from_spec(f: Vec<List>) -> TSet {
        arbitrary()
    }
}

impl<A> From<(A,)> for Struct where
    A: Into<Data>,
{
    /// The struct whose fields have the identifiers from `1` on and the
    /// values that the members of `fields` convert into.
    fn from(fields: (A,)) -> (s: Struct)
        ensures
            exists|a: Data|
                #![trigger call_ensures(<A as Into<Data>>::into, (fields.0,), a)]
                {
                    &&& call_ensures(<A as Into<Data>>::into, (fields.0,), a)
                    &&& s@ == seq![FieldModel { id: 1, data: a@ }]
                },
    {
        let f1 = Field::new(1, fields.0);
        proof {
            let a = choose|d: Data| #[trigger]
                call_ensures(<A as Into<Data>>::into, (fields.0,), d) && f1@ == (FieldModel {
                    id: 1,
                    data: d@,
                });
            assert(field_models(seq![f1]) =~= seq![FieldModel { id: 1, data: a@ }]);
        }
        let mut v: Vec<Field> = Vec::new();
        v.push(f1);
        assert(v@ =~= seq![f1]);
        Struct::new(v)
    }
}

impl<A> FromSpecImpl<(A,)> for Struct where
    A: Into<Data>,
{
    open spec fn obeys_from_spec() -> bool {
        false
    }

    open spec fn from_spec(fields: (A,)) -> Struct {
        arbitrary()
    }
}

impl<A, B> From<(A, B)> for Struct where
    A: Into<Data>,
    B: Into<Data>,
{
    /// The struct whose fields have the identifiers from `1` on and the
    /// values that the members of `fields` convert into.
    fn from(fields: (A, B)) -> (s: Struct)
        ensures
            exists|a: Data, b: Data|
                #![trigger call_ensures(<A as Into<Data>>::into, (fields.0,), a), call_ensures(<B as Into<Data>>::into, (fields.1,), b)]
                {
                    &&& call_ensures(<A as Into<Data>>::into, (fields.0,), a)
                &&& call_ensures(<B as Into<Data>>::into, (fields.1,), b)
                    &&& s@ == seq![FieldModel { id: 1, data: a@ }, FieldModel { id: 2, data: b@ }]
                },
    {
        let f1 = Field::new(1, fields.0);
        let f2 = Field::new(2, fields.1);
        proof {
            let a = choose|d: Data| #[trigger]
                call_ensures(<A as Into<Data>>::into, (fields.0,), d) && f1@ == (FieldModel {
                    id: 1,
                    data: d@,
                });
            let b = choose|d: Data| #[trigger]
                call_ensures(<B as Into<Data>>::into, (fields.1,), d) && f2@ == (FieldModel {
                    id: 2,
                    data: d@,
                });
            assert(field_models(seq![f1, f2]) =~= seq![FieldModel { id: 1, data: a@ }, FieldModel { id: 2, data: b@ }]);
        }
        let mut v: Vec<Field> = Vec::new();
        v.push(f1);
        v.push(f2);
        assert(v@ =~= seq![f1, f2]);
        Struct::new(v)
    }
}

impl<A, B> FromSpecImpl<(A, B)> for Struct where
    A: Into<Data>,
    B: Into<Data>,
{
    open spec fn obeys_from_spec() -> bool {
        false
    }

    open spec fn from_spec(fields: (A, B)) -> Struct {
        arbitrary()
    }
}

impl<A, B, C> From<(A, B, C)> for Struct where
    A: Into<Data>,
    B: Into<Data>,
    C: Into<Data>,
{
    /// The struct whose fields have the identifiers from `1` on and the
    /// values that the members of `fields` convert into.
    fn from(fields: (A, B, C)) -> (s: Struct)
        ensures
            exists|a: Data, b: Data, c: Data|
                #![trigger call_ensures(<A as Into<Data>>::into, (fields.0,), a), call_ensures(<B as Into<Data>>::into, (fields.1,), b), call_ensures(<C as Into<Data>>::into, (fields.2,), c)]
                {
                    &&& call_ensures(<A as Into<Data>>::into, (fields.0,), a)
                &&& call_ensures(<B as Into<Data>>::into, (fields.1,), b)
                &&& call_ensures(<C as Into<Data>>::into, (fields.2,), c)
                    &&& s@ == seq![FieldModel { id: 1, data: a@ }, FieldModel { id: 2, data: b@ }, FieldModel { id: 3, data: c@ }]
                },
    {
        let f1 = Field::new(1, fields.0);
        let f2 = Field::new(2, fields.1);
        let f3 = Field::new(3, fields.2);
        proof {
            let a = choose|d: Data| #[trigger]
                call_ensures(<A as Into<Data>>::into, (fields.0,), d) && f1@ == (FieldModel {
                    id: 1,
                    data: d@,
                });
            let b = choose|d: Data| #[trigger]
                call_ensures(<B as Into<Data>>::into, (fields.1,), d) && f2@ == (FieldModel {
                    id: 2,
                    data: d@,
                });
            let c = choose|d: Data| #[trigger]
                call_ensures(<C as Into<Data>>::into, (fields.2,), d) && f3@ == (FieldModel {
                    id: 3,
                    data: d@,
                });
            assert(field_models(seq![f1, f2, f3]) =~= seq![FieldModel { id: 1, data: a@ }, FieldModel { id: 2, data: b@ }, FieldModel { id: 3, data: c@ }]);
        }
        let mut v: Vec<Field> = Vec::new();
        v.push(f1);
        v.push(f2);
        v.push(f3);
        assert(v@ =~= seq![f1, f2, f3]);
        Struct::new(v)
    }
}

impl<A, B, C> FromSpecImpl<(A, B, C)> for Struct where
    A: Into<Data>,
    B: Into<Data>,
    C: Into<Data>,
{
    open spec fn obeys_from_spec() -> bool {
        false
    }

    open spec fn from_spec(fields: (A, B, C)) -> Struct {
        arbitrary()
    }
}

impl<A, B, C, D> From<(A, B, C, D)> for Struct where
    A: Into<Data>,
    B: Into<Data>,
    C: Into<Data>,
    D: Into<Data>,
{
    /// The struct whose fields have the identifiers from `1` on and the
    /// values that the members of `fields` convert into.
    fn from(fields: (A, B, C, D)) -> (s: Struct)
        ensures
            exists|a: Data, b: Data, c: Data, d: Data|
                #![trigger call_ensures(<A as Into<Data>>::into, (fields.0,), a), call_ensures(<B as Into<Data>>::into, (fields.1,), b), call_ensures(<C as Into<Data>>::into, (fields.2,), c), call_ensures(<D as Into<Data>>::into, (fields.3,), d)]
                {
                    &&& call_ensures(<A as Into<Data>>::into, (fields.0,), a)
                &&& call_ensures(<B as Into<Data>>::into, (fields.1,), b)
                &&& call_ensures(<C as Into<Data>>::into, (fields.2,), c)
                &&& call_ensures(<D as Into<Data>>::into, (fields.3,), d)
                    &&& s@ == seq![FieldModel { id: 1, data: a@ }, FieldModel { id: 2, data: b@ }, FieldModel { id: 3, data: c@ }, FieldModel { id: 4, data: d@ }]
                },
    {
        let f1 = Field::new(1, fields.0);
        let f2 = Field::new(2, fields.1);
        let f3 = Field::new(3, fields.2);
        let f4 = Field::new(4, fields.3);
        proof {
            let a = choose|d: Data| #[trigger]
                call_ensures(<A as Into<Data>>::into, (fields.0,), d) && f1@ == (FieldModel {
                    id: 1,
                    data: d@,
                });
            let b = choose|d: Data| #[trigger]
                call_ensures(<B as Into<Data>>::into, (fields.1,), d) && f2@ == (FieldModel {
                    id: 2,
                    data: d@,
                });
            let c = choose|d: Data| #[trigger]
                call_ensures(<C as Into<Data>>::into, (fields.2,), d) && f3@ == (FieldModel {
                    id: 3,
                    data: d@,
                });
            let d = choose|d: Data| #[trigger]
                call_ensures(<D as Into<Data>>::into, (fields.3,), d) && f4@ == (FieldModel {
                    id: 4,
                    data: d@,
                });
            assert(field_models(seq![f1, f2, f3, f4]) =~= seq![FieldModel { id: 1, data: a@ }, FieldModel { id: 2, data: b@ }, FieldModel { id: 3, data: c@ }, FieldModel { id: 4, data: d@ }]);
        }
        let mut v: Vec<Field> = Vec::new();
        v.push(f1);
        v.push(f2);
        v.push(f3);
        v.push(f4);
        assert(v@ =~= seq![f1, f2, f3, f4]);
        Struct::new(v)
    }
}

impl<A, B, C, D> FromSpecImpl<(A, B, C, D)> for Struct where
    A: Into<Data>,
    B: Into<Data>,
    C: Into<Data>,
    D: Into<Data>,
{
    open spec fn obeys_from_spec() -> bool {
        false
    }

    open spec fn from_spec(fields: (A, B, C, D)) -> Struct {
        arbitrary()
    }
}

impl<A, B, C, D, E> From<(A, B, C, D, E)> for Struct where
    A: Into<Data>,
    B: Into<Data>,
    C: Into<Data>,
    D: Into<Data>,
    E: Into<Data>,
{
    /// The struct whose fields have the identifiers from `1` on and the
    /// values that the members of `fields` convert into.
    fn from(fields: (A, B, C, D, E)) -> (s: Struct)
        ensures
            exists|a: Data, b: Data, c: Data, d: Data, e: Data|
                #![trigger call_ensures(<A as Into<Data>>::into, (fields.0,), a), call_ensures(<B as Into<Data>>::into, (fields.1,), b), call_ensures(<C as Into<Data>>::into, (fields.2,), c), call_ensures(<D as Into<Data>>::into, (fields.3,), d), call_ensures(<E as Into<Data>>::into, (fields.4,), e)]
                {
                    &&& call_ensures(<A as Into<Data>>::into, (fields.0,), a)
                &&& call_ensures(<B as Into<Data>>::into, (fields.1,), b)
                &&& call_ensures(<C as Into<Data>>::into, (fields.2,), c)
                &&& call_ensures(<D as Into<Data>>::into, (fields.3,), d)
                &&& call_ensures(<E as Into<Data>>::into, (fields.4,), e)
                    &&& s@ == seq![FieldModel { id: 1, data: a@ }, FieldModel { id: 2, data: b@ }, FieldModel { id: 3, data: c@ }, FieldModel { id: 4, data: d@ }, FieldModel { id: 5, data: e@ }]
                },
    {
        let f1 = Field::new(1, fields.0);
        let f2 = Field::new(2, fields.1);
        let f3 = Field::new(3, fields.2);
        let f4 = Field::new(4, fields.3);
        let f5 = Field::new(5, fields.4);
        proof {
            let a = choose|d: Data| #[trigger]
                call_ensures(<A as Into<Data>>::into, (fields.0,), d) && f1@ == (FieldModel {
                    id: 1,
                    data: d@,
                });
            let b = choose|d: Data| #[trigger]
                call_ensures(<B as Into<Data>>::into, (fields.1,), d) && f2@ == (FieldModel {
                    id: 2,
                    data: d@,
                });
            let c = choose|d: Data| #[trigger]
                call_ensures(<C as Into<Data>>::into, (fields.2,), d) && f3@ == (FieldModel {
                    id: 3,
                    data: d@,
                });
            let d = choose|d: Data| #[trigger]
                call_ensures(<D as Into<Data>>::into, (fields.3,), d) && f4@ == (FieldModel {
                    id: 4,
                    data: d@,
                });
            let e = choose|d: Data| #[trigger]
                call_ensures(<E as Into<Data>>::into, (fields.4,), d) && f5@ == (FieldModel {
                    id: 5,
                    data: d@,
                });
            assert(field_models(seq![f1, f2, f3, f4, f5]) =~= seq![FieldModel { id: 1, data: a@ }, FieldModel { id: 2, data: b@ }, FieldModel { id: 3, data: c@ }, FieldModel { id: 4, data: d@ }, FieldModel { id: 5, data: e@ }]);
        }
        let mut v: Vec<Field> = Vec::new();
        v.push(f1);
        v.push(f2);
        v.push(f3);
        v.push(f4);
        v.push(f5);
        assert(v@ =~= seq![f1, f2, f3, f4, f5]);
        Struct::new(v)
    }
}

impl<A, B, C, D, E> FromSpecImpl<(A, B, C, D, E)> for Struct where
    A: Into<Data>,
    B: Into<Data>,
    C: Into<Data>,
    D: Into<Data>,
    E: Into<Data>,
{
    open spec fn obeys_from_spec() -> bool {
        false
    }

    open spec fn from_spec(fields: (A, B, C, D, E)) -> Struct {
        arbitrary()
    }
}

} // verus!
