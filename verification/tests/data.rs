use thrift_codec::data::{
    Data, DataKind, DataRef, Double, Elements, Field, List, Struct, TMap, TSet,
};
use thrift_codec::{Error, ErrorKind};

#[test]
fn kind_codes() {
    let kinds = [
        (DataKind::Bool, 2u8),
        (DataKind::I8, 3),
        (DataKind::Double, 4),
        (DataKind::I16, 6),
        (DataKind::I32, 8),
        (DataKind::I64, 10),
        (DataKind::Binary, 11),
        (DataKind::Struct, 12),
        (DataKind::TMap, 13),
        (DataKind::TSet, 14),
        (DataKind::List, 15),
    ];
    for (kind, code) in kinds {
        assert_eq!(kind.to_u8(), code);
        assert_eq!(DataKind::from_u8(code), Some(kind));
    }
    for code in [0u8, 1, 5, 7, 9, 16, 17, 255] {
        assert_eq!(DataKind::from_u8(code), None);
    }
    for pair in kinds.windows(2) {
        assert!(pair[0].0 < pair[1].0);
    }
}

#[test]
fn elements_start_empty_with_their_kind() {
    for code in 0..=255u8 {
        if let Some(kind) = DataKind::from_u8(code) {
            let elements = Elements::new(kind);
            assert_eq!(elements.kind(), kind);
            assert_eq!(elements.len(), 0);
            assert!(elements.is_empty());
            assert!(elements.get(0).is_none());
            assert!(elements.iter().next().is_none());
        }
    }
}

#[test]
fn elements_get_and_iter() {
    let elements = Elements::from(vec![10i32, 20, 30]);
    assert_eq!(elements.kind(), DataKind::I32);
    assert_eq!(elements.len(), 3);
    assert!(!elements.is_empty());
    assert_eq!(elements.get(1).unwrap().to_owned(), Data::I32(20));
    assert!(elements.get(3).is_none());
    assert!(elements.get(usize::MAX).is_none());
    let mut seen = Vec::new();
    let mut it = elements.iter();
    while let Some(x) = it.next() {
        assert_eq!(x.kind(), DataKind::I32);
        seen.push(x.to_owned());
    }
    assert!(it.next().is_none());
    assert_eq!(seen, [Data::I32(10), Data::I32(20), Data::I32(30)]);

    let binaries = Elements::from(vec![b"ab".to_vec(), vec![]]);
    match binaries.get(0) {
        Some(DataRef::Binary(b)) => assert_eq!(b, b"ab"),
        other => panic!("{:?}", other),
    }
    let structs = Elements::from(vec![Struct::from((1,)), Struct::from((2,))]);
    assert_eq!(
        structs.get(1).unwrap().to_owned(),
        Data::Struct(Struct::from((2,)))
    );
}

#[test]
fn elements_push_keeps_one_kind() {
    let mut elements = Elements::new(DataKind::I16);
    elements.push(Data::I16(1)).unwrap();
    elements.push(Data::I16(2)).unwrap();
    let err: Error = elements.push(Data::I32(3)).unwrap_err();
    assert_eq!(err.kind(), ErrorKind::InvalidInput);
    assert_eq!(elements, Elements::from(vec![1i16, 2]));
    assert_eq!(elements.kind(), DataKind::I16);

    let mut lists = Elements::new(DataKind::List);
    lists.push(Data::List(List::from(vec![true]))).unwrap();
    assert!(lists.push(Data::TSet(TSet::from(vec![true]))).is_err());
    assert_eq!(lists.len(), 1);
}

#[test]
fn data_kinds_and_refs() {
    let values = [
        (Data::Bool(true), DataKind::Bool),
        (Data::I8(1), DataKind::I8),
        (Data::I16(1), DataKind::I16),
        (Data::I32(1), DataKind::I32),
        (Data::I64(1), DataKind::I64),
        (Data::Double(Double::from_bits(1)), DataKind::Double),
        (Data::Binary(vec![1]), DataKind::Binary),
        (Data::Struct(Struct::new(vec![])), DataKind::Struct),
        (Data::TMap(TMap::empty()), DataKind::TMap),
        (Data::TSet(TSet::from(vec![1i8])), DataKind::TSet),
        (Data::List(List::from(vec![1i8])), DataKind::List),
    ];
    for (value, kind) in values {
        assert_eq!(value.kind(), kind);
        assert_eq!(value.as_ref().kind(), kind);
        assert_eq!(value.as_ref().to_owned(), value);
        assert_eq!(value.clone(), value);
    }
}

#[test]
fn maps_need_columns_of_one_length() {
    let err = TMap::from_keys_and_values(
        Elements::from(vec![1i32, 2]),
        Elements::from(vec![true]),
    )
    .unwrap_err();
    assert_eq!(err.kind(), ErrorKind::InvalidInput);

    let map = TMap::from_keys_and_values(
        Elements::from(vec![1i32, 1]),
        Elements::from(vec![true, false]),
    )
    .unwrap();
    assert_eq!(map.len(), 2);
    assert!(!map.is_empty());
    assert_eq!(map.key_kind(), Some(DataKind::I32));
    assert_eq!(map.value_kind(), Some(DataKind::Bool));
    assert_eq!(map.keys(), Some(&Elements::from(vec![1i32, 1])));
    assert_eq!(map.values(), Some(&Elements::from(vec![true, false])));
    let (k, v) = map.get(1).unwrap();
    assert_eq!((k.to_owned(), v.to_owned()), (Data::I32(1), Data::Bool(false)));
    assert!(map.get(2).is_none());
    let mut entries = Vec::new();
    let mut it = map.iter();
    while let Some((k, v)) = it.next() {
        entries.push((k.to_owned(), v.to_owned()));
    }
    assert_eq!(
        entries,
        [(Data::I32(1), Data::Bool(true)), (Data::I32(1), Data::Bool(false))]
    );

    let empty = TMap::empty();
    assert_eq!(empty.len(), 0);
    assert!(empty.is_empty());
    assert!(empty.get(0).is_none());
    assert!(empty.iter().next().is_none());
    assert_eq!(empty.keys(), None);
    assert_eq!(empty.values(), None);
    assert_eq!(empty.clone(), empty);
    assert_eq!(map.clone(), map);
}

#[test]
fn lists_and_sets_are_their_elements() {
    let list = List::new(Elements::from(vec![1i64, 1, 2]));
    assert_eq!(list.len(), 3);
    assert_eq!(list.kind(), DataKind::I64);
    assert_eq!(list.get(2).unwrap().to_owned(), Data::I64(2));
    assert_eq!(list, List::from(vec![1i64, 1, 2]));
    let set = TSet::new(Elements::from(vec![1i64, 1, 2]));
    assert_eq!(set.len(), 3);
    assert!(!set.is_empty());
    assert_eq!(set, TSet::from(vec![1i64, 1, 2]));
    assert_eq!(set.clone(), set);
}

#[test]
fn structs_keep_their_fields_in_order() {
    let a = Struct::new(vec![Field::new(1, "foo"), Field::new(2, "bar")]);
    let b = Struct::from(("foo", "bar"));
    assert_eq!(a, b);
    let s = Struct::new(vec![Field::new(5, 1i8), Field::new(5, 2i8), Field::new(-1, 3i8)]);
    let ids: Vec<i16> = s.fields().iter().map(|f| f.id()).collect();
    assert_eq!(ids, [5, 5, -1]);
    assert_eq!(s.fields()[1].data(), &Data::I8(2));
    assert_eq!(s.clone(), s);
    let five = Struct::from((true, 2i8, 3i16, 4i32, 5i64));
    let ids: Vec<i16> = five.fields().iter().map(|f| f.id()).collect();
    assert_eq!(ids, [1, 2, 3, 4, 5]);
    assert_eq!(five.fields()[4].data(), &Data::I64(5));
    assert_eq!(Struct::from((7,)).fields()[0].clone(), Field::new(1, 7));
}

#[test]
fn errors_have_their_kind() {
    assert_eq!(Error::new(ErrorKind::Other).kind(), ErrorKind::Other);
    assert_eq!(Error::invalid_input().kind(), ErrorKind::InvalidInput);
    assert_eq!(Error::other().kind(), ErrorKind::Other);
    assert_ne!(Error::other(), Error::invalid_input());
}

#[test]
fn maps_from_pairs() {
    let map = TMap::new(vec![(1i32, true), (1, false), (3, true)]);
    assert_eq!(
        map,
        TMap::from_keys_and_values(
            Elements::from(vec![1i32, 1, 3]),
            Elements::from(vec![true, false, true])
        )
        .unwrap()
    );
    let none = TMap::new(Vec::<(i8, i8)>::new());
    assert_eq!(none.len(), 0);
    assert_eq!(none.key_kind(), Some(DataKind::I8));
    assert_eq!(none.value_kind(), Some(DataKind::I8));
}

#[test]
fn fields_take_values_as_they_are() {
    let field = Field::new(1, Data::I8(2));
    assert_eq!(field.id(), 1);
    assert_eq!(field.data(), &Data::I8(2));
    let inner = Struct::from((Data::Binary(vec![1, 2]),));
    let field = Field::new(-3, Data::Struct(inner.clone()));
    assert_eq!(field.data(), &Data::Struct(inner));
    assert_eq!(Field::new(4, "ab").data(), &Data::Binary(vec![b'a', b'b']));
    assert_eq!(
        Field::new(4, String::from("\u{e9}")).data(),
        &Data::Binary(vec![0xC3, 0xA9])
    );
    assert_eq!(Field::new(4, &[9u8][..]).data(), &Data::Binary(vec![9]));
    assert_eq!(Field::new(4, vec![9u8]).data(), &Data::Binary(vec![9]));
    assert_eq!(
        Field::new(5, Double::from_bits(7)).data(),
        &Data::Double(Double::from_bits(7))
    );
}
