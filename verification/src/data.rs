//! Data types.
//!
//! A Thrift value is a tree: scalars and byte strings at the leaves, structs
//! and typed containers above them. Each executable type has a mathematical
//! model, its view, in which vectors are sequences; the wire formats are
//! described on the models.
use crate::error::{Error, ErrorKind};
use vstd::prelude::*;
use vstd::slice::slice_to_vec;

verus! {

/// The kind of a value.
///
/// The kinds are listed in the order of their wire codes.
#[derive(Debug, Clone, Copy, PartialEq, Eq, PartialOrd, Ord, Hash, Structural)]
#[allow(missing_docs)]
pub enum DataKind {
    Bool,
    I8,
    Double,
    I16,
    I32,
    I64,
    Binary,
    Struct,
    TMap,
    TSet,
    List,
}

impl DataKind {
    /// The wire code of this kind.
    pub open spec fn code(self) -> u8 {
        match self {
            DataKind::Bool => 2,
            DataKind::I8 => 3,
            DataKind::Double => 4,
            DataKind::I16 => 6,
            DataKind::I32 => 8,
            DataKind::I64 => 10,
            DataKind::Binary => 11,
            DataKind::Struct => 12,
            DataKind::TMap => 13,
            DataKind::TSet => 14,
            DataKind::List => 15,
        }
    }

    /// The kind with the wire code `n`, if there is one.
    pub open spec fn from_code(n: u8) -> Option<DataKind> {
        match n {
            2 => Some(DataKind::Bool),
            3 => Some(DataKind::I8),
            4 => Some(DataKind::Double),
            6 => Some(DataKind::I16),
            8 => Some(DataKind::I32),
            10 => Some(DataKind::I64),
            11 => Some(DataKind::Binary),
            12 => Some(DataKind::Struct),
            13 => Some(DataKind::TMap),
            14 => Some(DataKind::TSet),
            15 => Some(DataKind::List),
            _ => None,
        }
    }

    /// Returns the wire code of this kind.
    pub fn to_u8(self) -> (n: u8)
        ensures
            n == self.code(),
            2 <= n <= 15,
            DataKind::from_code(n) == Some(self),
    {
        match self {
            DataKind::Bool => 2,
            DataKind::I8 => 3,
            DataKind::Double => 4,
            DataKind::I16 => 6,
            DataKind::I32 => 8,
            DataKind::I64 => 10,
            DataKind::Binary => 11,
            DataKind::Struct => 12,
            DataKind::TMap => 13,
            DataKind::TSet => 14,
            DataKind::List => 15,
        }
    }

    /// Returns the kind with the wire code `n`; a byte (code 3) is an `I8`.
    pub fn from_u8(n: u8) -> (kind: Option<DataKind>)
        ensures
            kind == DataKind::from_code(n),
            kind matches Some(k) ==> k.code() == n,
    {
        match n {
            2 => Some(DataKind::Bool),
            3 => Some(DataKind::I8),
            4 => Some(DataKind::Double),
            6 => Some(DataKind::I16),
            8 => Some(DataKind::I32),
            10 => Some(DataKind::I64),
            11 => Some(DataKind::Binary),
            12 => Some(DataKind::Struct),
            13 => Some(DataKind::TMap),
            14 => Some(DataKind::TSet),
            15 => Some(DataKind::List),
            _ => None,
        }
    }
}

/// An IEEE 754 double-precision number, held by its 64 bits.
///
/// The codecs only move the bits, so two doubles are equal here when their
/// bits are: a NaN equals itself, and the two zeros differ.
#[derive(Debug, Clone, Copy, PartialEq, Eq, Hash, Structural)]
pub struct Double {
    bits: u64,
}

impl View for Double {
    type V = u64;

    closed spec fn view(&self) -> u64 {
        self.bits
    }
}

impl Double {
    /// The double with the given bits.
    pub fn from_bits(bits: u64) -> (d: Self)
        ensures
            d@ == bits,
    {
        Double { bits }
    }

    /// The bits of this double.
    pub fn to_bits(self) -> (bits: u64)
        ensures
            bits == self@,
    {
        self.bits
    }
}

/// The model of a [`Data`].
pub enum DataModel {
    Bool(bool),
    I8(i8),
    I16(i16),
    I32(i32),
    I64(i64),
    Double(u64),
    Binary(Seq<u8>),
    Struct(Seq<FieldModel>),
    TMap(MapModel),
    TSet(ElementsModel),
    List(ElementsModel),
}

/// The model of a [`Field`].
pub struct FieldModel {
    pub id: i16,
    pub data: DataModel,
}

/// The model of an [`Elements`]: a column of values of one kind.
pub enum ElementsModel {
    Bool(Seq<bool>),
    I8(Seq<i8>),
    I16(Seq<i16>),
    I32(Seq<i32>),
    I64(Seq<i64>),
    Double(Seq<u64>),
    Binary(Seq<Seq<u8>>),
    Struct(Seq<Seq<FieldModel>>),
    TMap(Seq<MapModel>),
    TSet(Seq<ElementsModel>),
    List(Seq<ElementsModel>),
}

/// The model of a [`TMap`]: nothing, or a column of keys and one of values.
pub enum MapModel {
    Empty,
    Entries { keys: ElementsModel, values: ElementsModel },
}

impl DataModel {
    /// The kind of this value.
    pub open spec fn kind(self) -> DataKind {
        match self {
            DataModel::Bool(_) => DataKind::Bool,
            DataModel::I8(_) => DataKind::I8,
            DataModel::I16(_) => DataKind::I16,
            DataModel::I32(_) => DataKind::I32,
            DataModel::I64(_) => DataKind::I64,
            DataModel::Double(_) => DataKind::Double,
            DataModel::Binary(_) => DataKind::Binary,
            DataModel::Struct(_) => DataKind::Struct,
            DataModel::TMap(_) => DataKind::TMap,
            DataModel::TSet(_) => DataKind::TSet,
            DataModel::List(_) => DataKind::List,
        }
    }
}

impl ElementsModel {
    /// The empty column of the given kind.
    pub open spec fn empty(kind: DataKind) -> ElementsModel {
        match kind {
            DataKind::Bool => ElementsModel::Bool(Seq::empty()),
            DataKind::I8 => ElementsModel::I8(Seq::empty()),
            DataKind::I16 => ElementsModel::I16(Seq::empty()),
            DataKind::I32 => ElementsModel::I32(Seq::empty()),
            DataKind::I64 => ElementsModel::I64(Seq::empty()),
            DataKind::Double => ElementsModel::Double(Seq::empty()),
            DataKind::Binary => ElementsModel::Binary(Seq::empty()),
            DataKind::Struct => ElementsModel::Struct(Seq::empty()),
            DataKind::TMap => ElementsModel::TMap(Seq::empty()),
            DataKind::TSet => ElementsModel::TSet(Seq::empty()),
            DataKind::List => ElementsModel::List(Seq::empty()),
        }
    }

    /// The kind of the elements of this column.
    pub open spec fn kind(self) -> DataKind {
        match self {
            ElementsModel::Bool(_) => DataKind::Bool,
            ElementsModel::I8(_) => DataKind::I8,
            ElementsModel::I16(_) => DataKind::I16,
            ElementsModel::I32(_) => DataKind::I32,
            ElementsModel::I64(_) => DataKind::I64,
            ElementsModel::Double(_) => DataKind::Double,
            ElementsModel::Binary(_) => DataKind::Binary,
            ElementsModel::Struct(_) => DataKind::Struct,
            ElementsModel::TMap(_) => DataKind::TMap,
            ElementsModel::TSet(_) => DataKind::TSet,
            ElementsModel::List(_) => DataKind::List,
        }
    }

    /// The number of elements of this column.
    pub open spec fn len(self) -> nat {
        match self {
            ElementsModel::Bool(v) => v.len(),
            ElementsModel::I8(v) => v.len(),
            ElementsModel::I16(v) => v.len(),
            ElementsModel::I32(v) => v.len(),
            ElementsModel::I64(v) => v.len(),
            ElementsModel::Double(v) => v.len(),
            ElementsModel::Binary(v) => v.len(),
            ElementsModel::Struct(v) => v.len(),
            ElementsModel::TMap(v) => v.len(),
            ElementsModel::TSet(v) => v.len(),
            ElementsModel::List(v) => v.len(),
        }
    }

    /// The element at index `i`, as a value.
    pub open spec fn get(self, i: int) -> DataModel
        recommends
            0 <= i < self.len(),
    {
        match self {
            ElementsModel::Bool(v) => DataModel::Bool(v[i]),
            ElementsModel::I8(v) => DataModel::I8(v[i]),
            ElementsModel::I16(v) => DataModel::I16(v[i]),
            ElementsModel::I32(v) => DataModel::I32(v[i]),
            ElementsModel::I64(v) => DataModel::I64(v[i]),
            ElementsModel::Double(v) => DataModel::Double(v[i]),
            ElementsModel::Binary(v) => DataModel::Binary(v[i]),
            ElementsModel::Struct(v) => DataModel::Struct(v[i]),
            ElementsModel::TMap(v) => DataModel::TMap(v[i]),
            ElementsModel::TSet(v) => DataModel::TSet(v[i]),
            ElementsModel::List(v) => DataModel::List(v[i]),
        }
    }

    /// The elements of this column as values, in order.
    pub open spec fn to_seq(self) -> Seq<DataModel> {
        Seq::new(self.len(), |i: int| self.get(i))
    }

    /// This column with `d` added at its end; unchanged where `d` is of
    /// another kind.
    pub open spec fn push(self, d: DataModel) -> ElementsModel {
        match (self, d) {
            (ElementsModel::Bool(v), DataModel::Bool(x)) => ElementsModel::Bool(v.push(x)),
            (ElementsModel::I8(v), DataModel::I8(x)) => ElementsModel::I8(v.push(x)),
            (ElementsModel::I16(v), DataModel::I16(x)) => ElementsModel::I16(v.push(x)),
            (ElementsModel::I32(v), DataModel::I32(x)) => ElementsModel::I32(v.push(x)),
            (ElementsModel::I64(v), DataModel::I64(x)) => ElementsModel::I64(v.push(x)),
            (ElementsModel::Double(v), DataModel::Double(x)) => ElementsModel::Double(v.push(x)),
            (ElementsModel::Binary(v), DataModel::Binary(x)) => ElementsModel::Binary(v.push(x)),
            (ElementsModel::Struct(v), DataModel::Struct(x)) => ElementsModel::Struct(v.push(x)),
            (ElementsModel::TMap(v), DataModel::TMap(x)) => ElementsModel::TMap(v.push(x)),
            (ElementsModel::TSet(v), DataModel::TSet(x)) => ElementsModel::TSet(v.push(x)),
            (ElementsModel::List(v), DataModel::List(x)) => ElementsModel::List(v.push(x)),
            _ => self,
        }
    }

    /// The first `n` elements of this column.
    pub open spec fn take(self, n: int) -> ElementsModel
        recommends
            0 <= n <= self.len(),
    {
        match self {
            ElementsModel::Bool(v) => ElementsModel::Bool(v.take(n)),
            ElementsModel::I8(v) => ElementsModel::I8(v.take(n)),
            ElementsModel::I16(v) => ElementsModel::I16(v.take(n)),
            ElementsModel::I32(v) => ElementsModel::I32(v.take(n)),
            ElementsModel::I64(v) => ElementsModel::I64(v.take(n)),
            ElementsModel::Double(v) => ElementsModel::Double(v.take(n)),
            ElementsModel::Binary(v) => ElementsModel::Binary(v.take(n)),
            ElementsModel::Struct(v) => ElementsModel::Struct(v.take(n)),
            ElementsModel::TMap(v) => ElementsModel::TMap(v.take(n)),
            ElementsModel::TSet(v) => ElementsModel::TSet(v.take(n)),
            ElementsModel::List(v) => ElementsModel::List(v.take(n)),
        }
    }
}

impl MapModel {
    /// The number of entries of this map: the number of its keys.
    pub open spec fn len(self) -> nat {
        match self {
            MapModel::Empty => 0,
            MapModel::Entries { keys, values } => keys.len(),
        }
    }

    /// The entries of this map, each a key and its value, in order.
    pub open spec fn entries(self) -> Seq<(DataModel, DataModel)> {
        match self {
            MapModel::Empty => Seq::empty(),
            MapModel::Entries { keys, values } => Seq::new(
                keys.len(),
                |i: int| (keys.get(i), values.get(i)),
            ),
        }
    }

    /// Whether this map has as many values as keys.
    pub open spec fn balanced(self) -> bool {
        match self {
            MapModel::Empty => true,
            MapModel::Entries { keys, values } => keys.len() == values.len(),
        }
    }
}

/// A value.
#[derive(Debug, PartialEq)]
#[allow(missing_docs)]
pub enum Data {
    Bool(bool),
    I8(i8),
    I16(i16),
    I32(i32),
    I64(i64),
    Double(Double),
    Binary(Vec<u8>),
    Struct(Struct),
    TMap(TMap),
    TSet(TSet),
    List(List),
}

/// A borrowed value.
#[derive(Debug, Clone, Copy)]
#[allow(missing_docs)]
pub enum DataRef<'a> {
    Bool(&'a bool),
    I8(&'a i8),
    I16(&'a i16),
    I32(&'a i32),
    I64(&'a i64),
    Double(&'a Double),
    Binary(&'a [u8]),
    Struct(&'a Struct),
    TMap(&'a TMap),
    TSet(&'a TSet),
    List(&'a List),
}

/// A sequence of the values of a data kind.
#[derive(Debug, PartialEq)]
#[allow(missing_docs)]
pub enum Elements {
    Bool(Vec<bool>),
    I8(Vec<i8>),
    I16(Vec<i16>),
    I32(Vec<i32>),
    I64(Vec<i64>),
    Double(Vec<Double>),
    Binary(Vec<Vec<u8>>),
    Struct(Vec<Struct>),
    TMap(Vec<TMap>),
    TSet(Vec<TSet>),
    List(Vec<List>),
}

/// List.
#[derive(Debug, PartialEq)]
pub struct List {
    elements: Elements,
}

/// Set.
///
/// Note that internally this has the same representation with `List`.
/// No duplicate elements are removed.
#[derive(Debug, PartialEq)]
pub struct TSet {
    elements: Elements,
}

/// Map.
///
/// Internally this is represented by the data structure called "associative
/// array": a column of keys and a column of values of the same length. No
/// duplicate keys are removed. A map made by [`TMap::empty`] has no columns,
/// and so no kinds.
#[derive(Debug, PartialEq)]
pub struct TMap {
    inner: Option<Inner>,
}

#[derive(Debug, PartialEq)]
struct Inner {
    keys: Elements,
    values: Elements,
}

/// Structure: a sequence of fields, in the order in which they were given.
#[derive(Debug, PartialEq)]
pub struct Struct {
    fields: Vec<Field>,
}

/// A struct field.
#[derive(Debug, PartialEq)]
pub struct Field {
    id: i16,
    data: Data,
}

/// The model of `d`.
pub open spec fn data_model(d: Data) -> DataModel
    decreases d,
{
    match d {
        Data::Bool(v) => DataModel::Bool(v),
        Data::I8(v) => DataModel::I8(v),
        Data::I16(v) => DataModel::I16(v),
        Data::I32(v) => DataModel::I32(v),
        Data::I64(v) => DataModel::I64(v),
        Data::Double(v) => DataModel::Double(v@),
        Data::Binary(v) => DataModel::Binary(v@),
        Data::Struct(v) => DataModel::Struct(struct_model(v)),
        Data::TMap(v) => DataModel::TMap(map_model(v)),
        Data::TSet(v) => DataModel::TSet(set_model(v)),
        Data::List(v) => DataModel::List(list_model(v)),
    }
}

/// The model of `e`: the models of its elements, in order.
pub open spec fn elements_model(e: Elements) -> ElementsModel
    decreases e,
{
    match e {
        Elements::Bool(v) => ElementsModel::Bool(v@),
        Elements::I8(v) => ElementsModel::I8(v@),
        Elements::I16(v) => ElementsModel::I16(v@),
        Elements::I32(v) => ElementsModel::I32(v@),
        Elements::I64(v) => ElementsModel::I64(v@),
        Elements::Double(v) => ElementsModel::Double(
            Seq::new(v@.len(), |i: int| v@[i]@),
        ),
        Elements::Binary(v) => ElementsModel::Binary(
            Seq::new(v@.len(), |i: int| v@[i]@),
        ),
        Elements::Struct(v) => ElementsModel::Struct(
            Seq::new(
                v@.len(),
                |i: int|
                    if 0 <= i < v@.len() {
                        struct_model(v@[i])
                    } else {
                        Seq::empty()
                    },
            ),
        ),
        Elements::TMap(v) => ElementsModel::TMap(
            Seq::new(
                v@.len(),
                |i: int|
                    if 0 <= i < v@.len() {
                        map_model(v@[i])
                    } else {
                        MapModel::Empty
                    },
            ),
        ),
        Elements::TSet(v) => ElementsModel::TSet(
            Seq::new(
                v@.len(),
                |i: int|
                    if 0 <= i < v@.len() {
                        set_model(v@[i])
                    } else {
                        ElementsModel::Bool(Seq::empty())
                    },
            ),
        ),
        Elements::List(v) => ElementsModel::List(
            Seq::new(
                v@.len(),
                |i: int|
                    if 0 <= i < v@.len() {
                        list_model(v@[i])
                    } else {
                        ElementsModel::Bool(Seq::empty())
                    },
            ),
        ),
    }
}

/// The model of `s`: the models of its fields, in order.
pub closed spec fn struct_model(s: Struct) -> Seq<FieldModel>
    decreases s,
{
    Seq::new(
        s.fields@.len(),
        |i: int|
            if 0 <= i < s.fields@.len() {
                field_model(s.fields@[i])
            } else {
                FieldModel { id: 0, data: DataModel::Bool(false) }
            },
    )
}

/// The model of `f`.
pub closed spec fn field_model(f: Field) -> FieldModel
    decreases f,
{
    FieldModel { id: f.id, data: data_model(f.data) }
}

/// The model of `l`: the model of its elements.
pub closed spec fn list_model(l: List) -> ElementsModel
    decreases l,
{
    elements_model(l.elements)
}

/// The model of `s`: the model of its elements.
pub closed spec fn set_model(s: TSet) -> ElementsModel
    decreases s,
{
    elements_model(s.elements)
}

/// The model of `m`.
pub closed spec fn map_model(m: TMap) -> MapModel
    decreases m,
{
    match m.inner {
        None => MapModel::Empty,
        Some(inner) => MapModel::Entries {
            keys: elements_model(inner.keys),
            values: elements_model(inner.values),
        },
    }
}

impl View for Data {
    type V = DataModel;

    open spec fn view(&self) -> DataModel {
        data_model(*self)
    }
}

impl View for Elements {
    type V = ElementsModel;

    open spec fn view(&self) -> ElementsModel {
        elements_model(*self)
    }
}

impl View for Struct {
    type V = Seq<FieldModel>;

    open spec fn view(&self) -> Seq<FieldModel> {
        struct_model(*self)
    }
}

impl View for Field {
    type V = FieldModel;

    open spec fn view(&self) -> FieldModel {
        field_model(*self)
    }
}

impl View for List {
    type V = ElementsModel;

    open spec fn view(&self) -> ElementsModel {
        list_model(*self)
    }
}

impl View for TSet {
    type V = ElementsModel;

    open spec fn view(&self) -> ElementsModel {
        set_model(*self)
    }
}

impl View for TMap {
    type V = MapModel;

    open spec fn view(&self) -> MapModel {
        map_model(*self)
    }
}

impl<'a> View for DataRef<'a> {
    type V = DataModel;

    open spec fn view(&self) -> DataModel {
        match *self {
            DataRef::Bool(v) => DataModel::Bool(*v),
            DataRef::I8(v) => DataModel::I8(*v),
            DataRef::I16(v) => DataModel::I16(*v),
            DataRef::I32(v) => DataModel::I32(*v),
            DataRef::I64(v) => DataModel::I64(*v),
            DataRef::Double(v) => DataModel::Double(v@),
            DataRef::Binary(v) => DataModel::Binary(v@),
            DataRef::Struct(v) => DataModel::Struct(v@),
            DataRef::TMap(v) => DataModel::TMap(v@),
            DataRef::TSet(v) => DataModel::TSet(v@),
            DataRef::List(v) => DataModel::List(v@),
        }
    }
}

/// The models of the fields of `fields`, in order.
pub open spec fn field_models(fields: Seq<Field>) -> Seq<FieldModel> {
    Seq::new(fields.len(), |i: int| fields[i]@)
}

impl Data {
    /// Returns the kind of this value.
    pub fn kind(&self) -> (kind: DataKind)
        ensures
            kind == self@.kind(),
    {
        match self {
            Data::Bool(_) => DataKind::Bool,
            Data::I8(_) => DataKind::I8,
            Data::I16(_) => DataKind::I16,
            Data::I32(_) => DataKind::I32,
            Data::I64(_) => DataKind::I64,
            Data::Double(_) => DataKind::Double,
            Data::Binary(_) => DataKind::Binary,
            Data::Struct(_) => DataKind::Struct,
            Data::TMap(_) => DataKind::TMap,
            Data::TSet(_) => DataKind::TSet,
            Data::List(_) => DataKind::List,
        }
    }

    /// Borrows this value.
    pub fn as_ref(&self) -> (r: DataRef<'_>)
        ensures
            r@ == self@,
    {
        match self {
            Data::Bool(v) => DataRef::Bool(v),
            Data::I8(v) => DataRef::I8(v),
            Data::I16(v) => DataRef::I16(v),
            Data::I32(v) => DataRef::I32(v),
            Data::I64(v) => DataRef::I64(v),
            Data::Double(v) => DataRef::Double(v),
            Data::Binary(v) => DataRef::Binary(v.as_slice()),
            Data::Struct(v) => DataRef::Struct(v),
            Data::TMap(v) => DataRef::TMap(v),
            Data::TSet(v) => DataRef::TSet(v),
            Data::List(v) => DataRef::List(v),
        }
    }
}

impl<'a> DataRef<'a> {
    /// Returns the kind of this value.
    pub fn kind(&self) -> (kind: DataKind)
        ensures
            kind == self@.kind(),
    {
        match self {
            DataRef::Bool(_) => DataKind::Bool,
            DataRef::I8(_) => DataKind::I8,
            DataRef::I16(_) => DataKind::I16,
            DataRef::I32(_) => DataKind::I32,
            DataRef::I64(_) => DataKind::I64,
            DataRef::Double(_) => DataKind::Double,
            DataRef::Binary(_) => DataKind::Binary,
            DataRef::Struct(_) => DataKind::Struct,
            DataRef::TMap(_) => DataKind::TMap,
            DataRef::TSet(_) => DataKind::TSet,
            DataRef::List(_) => DataKind::List,
        }
    }
}

impl Elements {
    /// Makes an empty sequence which can have the elements belonging to `kind`.
    pub fn new(kind: DataKind) -> (e: Self)
        ensures
            e@ == ElementsModel::empty(kind),
    {
        let e = match kind {
            DataKind::Bool => Elements::Bool(Vec::new()),
            DataKind::I8 => Elements::I8(Vec::new()),
            DataKind::I16 => Elements::I16(Vec::new()),
            DataKind::I32 => Elements::I32(Vec::new()),
            DataKind::I64 => Elements::I64(Vec::new()),
            DataKind::Double => Elements::Double(Vec::new()),
            DataKind::Binary => Elements::Binary(Vec::new()),
            DataKind::Struct => Elements::Struct(Vec::new()),
            DataKind::TMap => Elements::TMap(Vec::new()),
            DataKind::TSet => Elements::TSet(Vec::new()),
            DataKind::List => Elements::List(Vec::new()),
        };
        proof {
            lemma_empty_model(e);
        }
        e
    }

    /// Returns the element placed at the specified index.
    pub fn get(&self, index: usize) -> (r: Option<DataRef<'_>>)
        ensures
            match r {
                Some(x) => index < self@.len() && x@ == self@.get(index as int),
                None => index >= self@.len(),
            },
    {
        if index >= self.len() {
            return None;
        }
        Some(
            match self {
                Elements::Bool(v) => DataRef::Bool(&v[index]),
                Elements::I8(v) => DataRef::I8(&v[index]),
                Elements::I16(v) => DataRef::I16(&v[index]),
                Elements::I32(v) => DataRef::I32(&v[index]),
                Elements::I64(v) => DataRef::I64(&v[index]),
                Elements::Double(v) => DataRef::Double(&v[index]),
                Elements::Binary(v) => DataRef::Binary(v[index].as_slice()),
                Elements::Struct(v) => DataRef::Struct(&v[index]),
                Elements::TMap(v) => DataRef::TMap(&v[index]),
                Elements::TSet(v) => DataRef::TSet(&v[index]),
                Elements::List(v) => DataRef::List(&v[index]),
            },
        )
    }

    /// Adds `data` at the end of this sequence.
    ///
    /// # Errors
    ///
    /// If `data` is not of the kind of this sequence, this function will
    /// return an error which kind is `ErrorKind::InvalidInput`, and the
    /// sequence stays as it is.
    pub fn push(&mut self, data: Data) -> (r: Result<(), Error>)
        ensures
            data@.kind() == old(self)@.kind() ==> r is Ok && final(self)@ == old(self)@.push(
                data@,
            ) && final(self)@.len() == old(self)@.len() + 1,
            data@.kind() != old(self)@.kind() ==> (r matches Err(e) && e@
                == ErrorKind::InvalidInput) && final(self)@ == old(self)@,
            final(self)@.kind() == old(self)@.kind(),
    {
        match self {
            Elements::Bool(v) => match data {
                Data::Bool(x) => {
                    let ghost prev = *v;
                    v.push(x);
                    assert(v@ == prev@.push(x));
                    Ok(())
                },
                _ => Err(Error::invalid_input()),
            },
            Elements::I8(v) => match data {
                Data::I8(x) => {
                    let ghost prev = *v;
                    v.push(x);
                    assert(v@ == prev@.push(x));
                    Ok(())
                },
                _ => Err(Error::invalid_input()),
            },
            Elements::I16(v) => match data {
                Data::I16(x) => {
                    let ghost prev = *v;
                    v.push(x);
                    assert(v@ == prev@.push(x));
                    Ok(())
                },
                _ => Err(Error::invalid_input()),
            },
            Elements::I32(v) => match data {
                Data::I32(x) => {
                    let ghost prev = *v;
                    v.push(x);
                    assert(v@ == prev@.push(x));
                    Ok(())
                },
                _ => Err(Error::invalid_input()),
            },
            Elements::I64(v) => match data {
                Data::I64(x) => {
                    let ghost prev = *v;
                    v.push(x);
                    assert(v@ == prev@.push(x));
                    Ok(())
                },
                _ => Err(Error::invalid_input()),
            },
            Elements::Double(v) => match data {
                Data::Double(x) => {
                    let ghost prev = *v;
                    v.push(x);
                    assert(v@ == prev@.push(x));
                    assert(elements_model(Elements::Double(*v))->Double_0 =~= elements_model(
                        Elements::Double(prev),
                    )->Double_0.push(x@));
                    Ok(())
                },
                _ => Err(Error::invalid_input()),
            },
            Elements::Binary(v) => match data {
                Data::Binary(x) => {
                    let ghost prev = *v;
                    v.push(x);
                    assert(v@ == prev@.push(x));
                    assert(elements_model(Elements::Binary(*v))->Binary_0 =~= elements_model(
                        Elements::Binary(prev),
                    )->Binary_0.push(x@));
                    Ok(())
                },
                _ => Err(Error::invalid_input()),
            },
            Elements::Struct(v) => match data {
                Data::Struct(x) => {
                    let ghost prev = *v;
                    v.push(x);
                    assert(v@ == prev@.push(x));
                    assert(elements_model(Elements::Struct(*v))->Struct_0 =~= elements_model(
                        Elements::Struct(prev),
                    )->Struct_0.push(x@));
                    Ok(())
                },
                _ => Err(Error::invalid_input()),
            },
            Elements::TMap(v) => match data {
                Data::TMap(x) => {
                    let ghost prev = *v;
                    v.push(x);
                    assert(v@ == prev@.push(x));
                    assert(elements_model(Elements::TMap(*v))->TMap_0 =~= elements_model(
                        Elements::TMap(prev),
                    )->TMap_0.push(x@));
                    Ok(())
                },
                _ => Err(Error::invalid_input()),
            },
            Elements::TSet(v) => match data {
                Data::TSet(x) => {
                    let ghost prev = *v;
                    v.push(x);
                    assert(v@ == prev@.push(x));
                    assert(elements_model(Elements::TSet(*v))->TSet_0 =~= elements_model(
                        Elements::TSet(prev),
                    )->TSet_0.push(x@));
                    Ok(())
                },
                _ => Err(Error::invalid_input()),
            },
            Elements::List(v) => match data {
                Data::List(x) => {
                    let ghost prev = *v;
                    v.push(x);
                    assert(v@ == prev@.push(x));
                    assert(elements_model(Elements::List(*v))->List_0 =~= elements_model(
                        Elements::List(prev),
                    )->List_0.push(x@));
                    Ok(())
                },
                _ => Err(Error::invalid_input()),
            },
        }
    }

    /// Returns the element count of this sequence.
    pub fn len(&self) -> (n: usize)
        ensures
            n == self@.len(),
    {
        match self {
            Elements::Bool(v) => v.len(),
            Elements::I8(v) => v.len(),
            Elements::I16(v) => v.len(),
            Elements::I32(v) => v.len(),
            Elements::I64(v) => v.len(),
            Elements::Double(v) => v.len(),
            Elements::Binary(v) => v.len(),
            Elements::Struct(v) => v.len(),
            Elements::TMap(v) => v.len(),
            Elements::TSet(v) => v.len(),
            Elements::List(v) => v.len(),
        }
    }

    /// Returns `true` if this sequence has no elements.
    pub fn is_empty(&self) -> (b: bool)
        ensures
            b == (self@.len() == 0),
    {
        self.len() == 0
    }

    /// Returns an iterator over the elements of this sequence.
    pub fn iter(&self) -> (it: ElementIter<'_>)
        ensures
            it@ == self@.to_seq(),
    {
        let it = ElementIter { elements: self, index: 0 };
        assert(it@ =~= self@.to_seq());
        it
    }

    /// Returns the kind of the elements in this sequence.
    pub fn kind(&self) -> (kind: DataKind)
        ensures
            kind == self@.kind(),
    {
        match self {
            Elements::Bool(_) => DataKind::Bool,
            Elements::I8(_) => DataKind::I8,
            Elements::I16(_) => DataKind::I16,
            Elements::I32(_) => DataKind::I32,
            Elements::I64(_) => DataKind::I64,
            Elements::Double(_) => DataKind::Double,
            Elements::Binary(_) => DataKind::Binary,
            Elements::Struct(_) => DataKind::Struct,
            Elements::TMap(_) => DataKind::TMap,
            Elements::TSet(_) => DataKind::TSet,
            Elements::List(_) => DataKind::List,
        }
    }
}

/// A column without elements has the empty model of its kind.
pub proof fn lemma_empty_model(e: Elements)
    requires
        e@.len() == 0,
    ensures
        e@ == ElementsModel::empty(e@.kind()),
{
    match e {
        Elements::Bool(v) => {
            assert(e@->Bool_0 =~= Seq::empty());
        },
        Elements::I8(v) => {
            assert(e@->I8_0 =~= Seq::empty());
        },
        Elements::I16(v) => {
            assert(e@->I16_0 =~= Seq::empty());
        },
        Elements::I32(v) => {
            assert(e@->I32_0 =~= Seq::empty());
        },
        Elements::I64(v) => {
            assert(e@->I64_0 =~= Seq::empty());
        },
        Elements::Double(v) => {
            assert(e@->Double_0 =~= Seq::empty());
        },
        Elements::Binary(v) => {
            assert(e@->Binary_0 =~= Seq::empty());
        },
        Elements::Struct(v) => {
            assert(e@->Struct_0 =~= Seq::empty());
        },
        Elements::TMap(v) => {
            assert(e@->TMap_0 =~= Seq::empty());
        },
        Elements::TSet(v) => {
            assert(e@->TSet_0 =~= Seq::empty());
        },
        Elements::List(v) => {
            assert(e@->List_0 =~= Seq::empty());
        },
    }
}

impl List {
    /// Makes a new `List` instance.
    pub fn new(elements: Elements) -> (l: Self)
        ensures
            l@ == elements@,
    {
        List { elements }
    }
}

impl TSet {
    /// Makes a new `TSet` instance.
    pub fn new(elements: Elements) -> (s: Self)
        ensures
            s@ == elements@,
    {
        TSet { elements }
    }
}

impl TMap {
    #[verifier::type_invariant]
    spec fn balanced(self) -> bool {
        self.inner matches Some(inner) ==> inner.keys@.len() == inner.values@.len()
    }

    /// Makes an empty `TMap` instance.
    ///
    /// Note that the returning value could not be encoded by the binary protocol encoding.
    pub fn empty() -> (m: Self)
        ensures
            m@ == MapModel::Empty,
    {
        TMap { inner: None }
    }

    /// Makes a new `TMap` instance from pairs of a key and a value: the map
    /// whose columns are what the keys and the values convert into, in the
    /// order of the pairs. Where the two conversions give columns of
    /// different lengths, the map has no columns.
    pub fn new<K, V>(pairs: Vec<(K, V)>) -> (m: Self) where
        Vec<K>: Into<Elements>,
        Vec<V>: Into<Elements>,
        ensures
            exists|k: Vec<K>, v: Vec<V>, keys: Elements, values: Elements|
                #![trigger
                    call_ensures(<Vec<K> as Into<Elements>>::into, (k,), keys),
                    call_ensures(<Vec<V> as Into<Elements>>::into, (v,), values),
                ]
                {
                    &&& k@ == pairs@.map_values(|p: (K, V)| p.0)
                    &&& v@ == pairs@.map_values(|p: (K, V)| p.1)
                    &&& call_ensures(<Vec<K> as Into<Elements>>::into, (k,), keys)
                    &&& call_ensures(<Vec<V> as Into<Elements>>::into, (v,), values)
                    &&& m@ == if keys@.len() == values@.len() {
                        MapModel::Entries { keys: keys@, values: values@ }
                    } else {
                        MapModel::Empty
                    }
                },
    {
        let ghost all = pairs@;
        let mut k: Vec<K> = Vec::new();
        let mut v: Vec<V> = Vec::new();
        for pair in it: pairs
            invariant
                it.seq() == all,
                k@ == all.take(it.index()).map_values(|p: (K, V)| p.0),
                v@ == all.take(it.index()).map_values(|p: (K, V)| p.1),
        {
            let ghost done = all.take(it.index());
            k.push(pair.0);
            v.push(pair.1);
            assert(all.take(it.index() + 1) =~= done.push(pair));
            assert(k@ =~= all.take(it.index() + 1).map_values(|p: (K, V)| p.0));
            assert(v@ =~= all.take(it.index() + 1).map_values(|p: (K, V)| p.1));
        }
        assert(all.take(all.len() as int) =~= all);
        let keys: Elements = k.into();
        let values: Elements = v.into();
        if keys.len() == values.len() {
            TMap { inner: Some(Inner { keys, values }) }
        } else {
            TMap { inner: None }
        }
    }

    /// Makes a new `TMap` instance from the separate `keys` and `values`.
    ///
    /// # Errors
    ///
    /// If the lengths of `keys` and `values` are differed,
    /// this function will return an error which kind is `ErrorKind::InvalidInput`.
    pub fn from_keys_and_values(keys: Elements, values: Elements) -> (r: Result<Self, Error>)
        ensures
            keys@.len() == values@.len() ==> (r matches Ok(m) && m@ == (MapModel::Entries {
                keys: keys@,
                values: values@,
            })),
            keys@.len() != values@.len() ==> (r matches Err(e) && e@ == ErrorKind::InvalidInput),
    {
        if keys.len() != values.len() {
            return Err(Error::invalid_input());
        }
        Ok(TMap { inner: Some(Inner { keys, values }) })
    }

    /// Returns the keys of this map, in order, if it has columns.
    pub fn keys(&self) -> (r: Option<&Elements>)
        ensures
            match r {
                Some(e) => self@ is Entries && e@ == self@->keys && e@.len() == self@->values.len(),
                None => self@ is Empty,
            },
    {
        proof {
            use_type_invariant(self);
        }
        match &self.inner {
            Some(inner) => Some(&inner.keys),
            None => None,
        }
    }

    /// Returns the values of this map, in order, if it has columns.
    pub fn values(&self) -> (r: Option<&Elements>)
        ensures
            match r {
                Some(e) => self@ is Entries && e@ == self@->values && e@.len() == self@->keys.len(),
                None => self@ is Empty,
            },
    {
        proof {
            use_type_invariant(self);
        }
        match &self.inner {
            Some(inner) => Some(&inner.values),
            None => None,
        }
    }

    /// Returns the entry placed at the specified index.
    pub fn get(&self, index: usize) -> (r: Option<(DataRef<'_>, DataRef<'_>)>)
        ensures
            self@.balanced(),
            match r {
                Some((k, v)) => index < self@.len() && k@ == self@->keys.get(index as int) && v@
                    == self@->values.get(index as int),
                None => index >= self@.len(),
            },
    {
        proof {
            use_type_invariant(self);
        }
        match &self.inner {
            Some(inner) => match inner.keys.get(index) {
                Some(k) => match inner.values.get(index) {
                    Some(v) => Some((k, v)),
                    None => None,
                },
                None => None,
            },
            None => None,
        }
    }

    /// Returns an iterator over this map.
    pub fn iter(&self) -> (it: MapIter<'_>)
        ensures
            it@ == self@.entries(),
    {
        let it = MapIter { map: self, index: 0 };
        proof {
            use_type_invariant(self);
            assert(it@ =~= self@.entries());
        }
        it
    }

    /// Returns the kind of the keys in this map.
    pub fn key_kind(&self) -> (kind: Option<DataKind>)
        ensures
            match kind {
                Some(k) => self@ is Entries && k == self@->keys.kind(),
                None => self@ is Empty,
            },
    {
        match &self.inner {
            Some(inner) => Some(inner.keys.kind()),
            None => None,
        }
    }

    /// Returns the kind of the values in this map.
    pub fn value_kind(&self) -> (kind: Option<DataKind>)
        ensures
            match kind {
                Some(k) => self@ is Entries && k == self@->values.kind(),
                None => self@ is Empty,
            },
    {
        match &self.inner {
            Some(inner) => Some(inner.values.kind()),
            None => None,
        }
    }

    /// Returns the number of the entries in this map.
    pub fn len(&self) -> (n: usize)
        ensures
            n == self@.len(),
            self@.balanced(),
    {
        proof {
            use_type_invariant(self);
        }
        match &self.inner {
            Some(inner) => inner.keys.len(),
            None => 0,
        }
    }

    /// Returns `true` if this map has no entries.
    pub fn is_empty(&self) -> (b: bool)
        ensures
            b == (self@.len() == 0),
    {
        self.len() == 0
    }
}

/// An iterator which traverse the elements of a `Elements`. Its view is
/// the elements that are still to come.
#[derive(Debug)]
pub struct ElementIter<'a> {
    elements: &'a Elements,
    index: usize,
}

impl<'a> View for ElementIter<'a> {
    type V = Seq<DataModel>;

    closed spec fn view(&self) -> Seq<DataModel> {
        if self.index <= self.elements@.len() {
            self.elements@.to_seq().skip(self.index as int)
        } else {
            Seq::empty()
        }
    }
}

impl<'a> ElementIter<'a> {
    /// Returns the next element, if one is left.
    pub fn next(&mut self) -> (r: Option<DataRef<'a>>)
        ensures
            match r {
                Some(x) => old(self)@.len() > 0 && x@ == old(self)@[0] && final(self)@ == old(
                    self,
                )@.skip(1),
                None => old(self)@.len() == 0 && final(self)@ == old(self)@,
            },
    {
        let elements: &'a Elements = self.elements;
        let _len = elements.len();
        match elements.get(self.index) {
            Some(x) => {
                self.index = self.index + 1;
                assert(self@ =~= old(self)@.skip(1));
                Some(x)
            },
            None => None,
        }
    }
}

/// An iterator which traverse the entries of a `TMap`. Its view is the
/// entries that are still to come.
#[derive(Debug)]
pub struct MapIter<'a> {
    map: &'a TMap,
    index: usize,
}

impl<'a> View for MapIter<'a> {
    type V = Seq<(DataModel, DataModel)>;

    closed spec fn view(&self) -> Seq<(DataModel, DataModel)> {
        if self.index <= self.map@.len() {
            self.map@.entries().skip(self.index as int)
        } else {
            Seq::empty()
        }
    }
}

impl<'a> MapIter<'a> {
    /// Returns the next entry, if one is left.
    pub fn next(&mut self) -> (r: Option<(DataRef<'a>, DataRef<'a>)>)
        ensures
            match r {
                Some((k, v)) => old(self)@.len() > 0 && (k@, v@) == old(self)@[0] && final(self)@
                    == old(self)@.skip(1),
                None => old(self)@.len() == 0 && final(self)@ == old(self)@,
            },
    {
        let map: &'a TMap = self.map;
        let _len = map.len();
        match map.get(self.index) {
            Some(entry) => {
                self.index = self.index + 1;
                assert(self@ =~= old(self)@.skip(1));
                Some(entry)
            },
            None => None,
        }
    }
}

impl Struct {
    /// Makes a new `Struct` instance.
    pub fn new(fields: Vec<Field>) -> (s: Self)
        ensures
            s@ == field_models(fields@),
    {
        let s = Struct { fields };
        assert(s@ =~= field_models(fields@));
        s
    }

    /// Returns the fields of this.
    pub fn fields(&self) -> (fields: &[Field])
        ensures
            field_models(fields@) == self@,
            fields@.len() == self@.len(),
    {
        assert(field_models(self.fields@) =~= self@);
        self.fields.as_slice()
    }
}

impl Field {
    /// Makes a new `Field` instance: the field with the identifier `id` and
    /// the value that `data` converts into.
    pub fn new<T>(id: i16, data: T) -> (f: Self) where T: Into<Data>
        ensures
            exists|d: Data| #[trigger]
                call_ensures(<T as Into<Data>>::into, (data,), d) && f@ == (FieldModel {
                    id,
                    data: d@,
                }),
    {
        Field { id, data: data.into() }
    }

    /// Returns the identifier of this field.
    pub fn id(&self) -> (id: i16)
        ensures
            id == self@.id,
    {
        self.id
    }

    /// Returns the data of this field.
    pub fn data(&self) -> (data: &Data)
        ensures
            data@ == self@.data,
    {
        &self.data
    }
}

/// Uuid: sixteen bytes.
#[derive(Debug, Clone, Copy, PartialEq, Eq, Hash, PartialOrd, Ord)]
pub struct Uuid {
    bytes: [u8; 16],
}

impl View for Uuid {
    type V = Seq<u8>;

    closed spec fn view(&self) -> Seq<u8> {
        self.bytes@
    }
}

impl Uuid {
    /// Makes a new `Uuid` instance.
    pub fn new(uuid: [u8; 16]) -> (u: Self)
        ensures
            u@ == uuid@,
    {
        Uuid { bytes: uuid }
    }

    /// Returns the UUID bytes.
    pub fn get(self) -> (bytes: [u8; 16])
        ensures
            bytes@ == self@,
    {
        self.bytes
    }
}

/// A copy of a byte string.
fn copy_bytes(v: &Vec<u8>) -> (r: Vec<u8>)
    ensures
        r@ == v@,
{
    slice_to_vec(v.as_slice())
}

/// A copy of `d`.
fn copy_data(d: &Data) -> (r: Data)
    ensures
        r@ == d@,
    decreases d@, 0nat,
{
    match d {
        Data::Bool(v) => Data::Bool(*v),
        Data::I8(v) => Data::I8(*v),
        Data::I16(v) => Data::I16(*v),
        Data::I32(v) => Data::I32(*v),
        Data::I64(v) => Data::I64(*v),
        Data::Double(v) => Data::Double(*v),
        Data::Binary(v) => Data::Binary(copy_bytes(v)),
        Data::Struct(v) => {
            assert(decreases_to!(d@ => d@->Struct_0));
            Data::Struct(copy_struct(v))
        },
        Data::TMap(v) => {
            assert(decreases_to!(d@ => d@->TMap_0));
            Data::TMap(copy_map(v))
        },
        Data::TSet(v) => {
            assert(decreases_to!(d@ => d@->TSet_0));
            Data::TSet(copy_set(v))
        },
        Data::List(v) => {
            assert(decreases_to!(d@ => d@->List_0));
            Data::List(copy_list(v))
        },
    }
}

/// A copy of `s`.
fn copy_struct(s: &Struct) -> (r: Struct)
    ensures
        r@ == s@,
    decreases s@, 0nat,
{
    let mut out: Vec<Field> = Vec::new();
    let mut i: usize = 0;
    while i < s.fields.len()
        invariant
            i <= s.fields.len(),
            out@.len() == i,
            forall|j: int| 0 <= j < i ==> (#[trigger] out@[j])@ == s.fields@[j]@,
        decreases s.fields.len() - i,
    {
        let field = &s.fields[i];
        assert(decreases_to!(s@ => s@[i as int].data));
        let data = copy_data(&field.data);
        out.push(Field { id: field.id, data });
        i = i + 1;
    }
    let r = Struct { fields: out };
    assert(r@ =~= s@);
    r
}

/// A copy of `l`.
fn copy_list(l: &List) -> (r: List)
    ensures
        r@ == l@,
    decreases l@, 1nat,
{
    List { elements: copy_elements(&l.elements) }
}

/// A copy of `s`.
fn copy_set(s: &TSet) -> (r: TSet)
    ensures
        r@ == s@,
    decreases s@, 1nat,
{
    TSet { elements: copy_elements(&s.elements) }
}

/// A copy of `m`.
fn copy_map(m: &TMap) -> (r: TMap)
    ensures
        r@ == m@,
    decreases m@, 0nat,
{
    proof {
        use_type_invariant(m);
    }
    match &m.inner {
        Some(inner) => {
            assert(decreases_to!(m@ => m@->keys));
            assert(decreases_to!(m@ => m@->values));
            let keys = copy_elements(&inner.keys);
            let values = copy_elements(&inner.values);
            TMap { inner: Some(Inner { keys, values }) }
        },
        None => TMap { inner: None },
    }
}

/// A copy of `e`.
fn copy_elements(e: &Elements) -> (r: Elements)
    ensures
        r@ == e@,
    decreases e@, 0nat,
{
    match e {
        Elements::Bool(v) => Elements::Bool(slice_to_vec(v.as_slice())),
        Elements::I8(v) => Elements::I8(slice_to_vec(v.as_slice())),
        Elements::I16(v) => Elements::I16(slice_to_vec(v.as_slice())),
        Elements::I32(v) => Elements::I32(slice_to_vec(v.as_slice())),
        Elements::I64(v) => Elements::I64(slice_to_vec(v.as_slice())),
        Elements::Double(v) => Elements::Double(slice_to_vec(v.as_slice())),
        Elements::Binary(v) => {
            let mut out: Vec<Vec<u8>> = Vec::new();
            let mut i: usize = 0;
            while i < v.len()
                invariant
                    i <= v.len(),
                    *e == Elements::Binary(*v),
                    out@.len() == i,
                    forall|j: int| 0 <= j < i ==> (#[trigger] out@[j])@ == v@[j]@,
                decreases v.len() - i,
            {
                let x = copy_bytes(&v[i]);
                out.push(x);
                i = i + 1;
            }
            let r = Elements::Binary(out);
            assert(r@->Binary_0 =~= e@->Binary_0);
            r
        },
        Elements::Struct(v) => {
            let mut out: Vec<Struct> = Vec::new();
            let mut i: usize = 0;
            while i < v.len()
                invariant
                    i <= v.len(),
                    *e == Elements::Struct(*v),
                    out@.len() == i,
                    forall|j: int| 0 <= j < i ==> (#[trigger] out@[j])@ == v@[j]@,
                decreases v.len() - i,
            {
                assert(decreases_to!(e@ => e@->Struct_0[i as int]));
                let x = copy_struct(&v[i]);
                out.push(x);
                i = i + 1;
            }
            let r = Elements::Struct(out);
            assert(r@->Struct_0 =~= e@->Struct_0);
            r
        },
        Elements::TMap(v) => {
            let mut out: Vec<TMap> = Vec::new();
            let mut i: usize = 0;
            while i < v.len()
                invariant
                    i <= v.len(),
                    *e == Elements::TMap(*v),
                    out@.len() == i,
                    forall|j: int| 0 <= j < i ==> (#[trigger] out@[j])@ == v@[j]@,
                decreases v.len() - i,
            {
                assert(decreases_to!(e@ => e@->TMap_0[i as int]));
                let x = copy_map(&v[i]);
                out.push(x);
                i = i + 1;
            }
            let r = Elements::TMap(out);
            assert(r@->TMap_0 =~= e@->TMap_0);
            r
        },
        Elements::TSet(v) => {
            let mut out: Vec<TSet> = Vec::new();
            let mut i: usize = 0;
            while i < v.len()
                invariant
                    i <= v.len(),
                    *e == Elements::TSet(*v),
                    out@.len() == i,
                    forall|j: int| 0 <= j < i ==> (#[trigger] out@[j])@ == v@[j]@,
                decreases v.len() - i,
            {
                assert(decreases_to!(e@ => e@->TSet_0[i as int]));
                let x = copy_set(&v[i]);
                out.push(x);
                i = i + 1;
            }
            let r = Elements::TSet(out);
            assert(r@->TSet_0 =~= e@->TSet_0);
            r
        },
        Elements::List(v) => {
            let mut out: Vec<List> = Vec::new();
            let mut i: usize = 0;
            while i < v.len()
                invariant
                    i <= v.len(),
                    *e == Elements::List(*v),
                    out@.len() == i,
                    forall|j: int| 0 <= j < i ==> (#[trigger] out@[j])@ == v@[j]@,
                decreases v.len() - i,
            {
                assert(decreases_to!(e@ => e@->List_0[i as int]));
                let x = copy_list(&v[i]);
                out.push(x);
                i = i + 1;
            }
            let r = Elements::List(out);
            assert(r@->List_0 =~= e@->List_0);
            r
        },
    }
}

impl Clone for Data {
    fn clone(&self) -> (r: Self)
        ensures
            r@ == self@,
    {
        copy_data(self)
    }
}

impl Clone for Elements {
    fn clone(&self) -> (r: Self)
        ensures
            r@ == self@,
    {
        copy_elements(self)
    }
}

impl Clone for Struct {
    fn clone(&self) -> (r: Self)
        ensures
            r@ == self@,
    {
        copy_struct(self)
    }
}

impl Clone for Field {
    fn clone(&self) -> (r: Self)
        ensures
            r@ == self@,
    {
        Field { id: self.id, data: copy_data(&self.data) }
    }
}

impl Clone for List {
    fn clone(&self) -> (r: Self)
        ensures
            r@ == self@,
    {
        copy_list(self)
    }
}

impl Clone for TSet {
    fn clone(&self) -> (r: Self)
        ensures
            r@ == self@,
    {
        copy_set(self)
    }
}

impl Clone for TMap {
    fn clone(&self) -> (r: Self)
        ensures
            r@ == self@,
    {
        copy_map(self)
    }
}

impl<'a> DataRef<'a> {
    /// Makes an owned copy of this value.
    pub fn to_owned(&self) -> (r: Data)
        ensures
            r@ == self@,
    {
        match self {
            DataRef::Bool(v) => Data::Bool(**v),
            DataRef::I8(v) => Data::I8(**v),
            DataRef::I16(v) => Data::I16(**v),
            DataRef::I32(v) => Data::I32(**v),
            DataRef::I64(v) => Data::I64(**v),
            DataRef::Double(v) => Data::Double(**v),
            DataRef::Binary(v) => Data::Binary(slice_to_vec(v)),
            DataRef::Struct(v) => Data::Struct(copy_struct(v)),
            DataRef::TMap(v) => Data::TMap(copy_map(v)),
            DataRef::TSet(v) => Data::TSet(copy_set(v)),
            DataRef::List(v) => Data::List(copy_list(v)),
        }
    }
}

impl std::ops::Deref for List {
    type Target = Elements;

    fn deref(&self) -> (e: &Elements)
        ensures
            e@ == self@,
    {
        &self.elements
    }
}

impl std::ops::Deref for TSet {
    type Target = Elements;

    fn deref(&self) -> (e: &Elements)
        ensures
            e@ == self@,
    {
        &self.elements
    }
}

} // verus!
