use serde_arrow::array::{Array, BytesArray, DenseUnionArray, ListArray, PrimitiveArray, StructArray};
use serde_arrow::array_builder::ArrayBuilder;
use serde_arrow::date32_deserializer::Date32Deserializer;
use serde_arrow::deserialization::{
    build_array_deserializer, build_deserializer, build_union_deserializer,
};
use serde_arrow::error::ErrorKind;
use serde_arrow::schema::{GenericDataType, GenericField, Strategy};
use serde_arrow::tracing_options::{Overwrites, TracingMode, TracingOptions};
use serde_arrow::schema_builder::build_array_builder;
use serde_arrow::value::Value;

fn field(name: &str, dt: GenericDataType, nullable: bool) -> GenericField {
    GenericField::new(name.to_string(), dt, nullable)
}

fn builder(f: &GenericField) -> ArrayBuilder {
    build_array_builder(f.name.clone(), f).unwrap()
}

fn list_of_ints(items: &[i64]) -> Value {
    Value::List(items.iter().map(|x| Value::Int(*x)).collect())
}

#[test]
fn nullable_int32_column() {
    let f = field("a", GenericDataType::I32, true);
    let mut b = builder(&f);
    b.push(&Value::Int(1)).unwrap();
    b.push(&Value::Null).unwrap();
    b.push(&Value::Int(3)).unwrap();
    assert_eq!(b.len(), 3);
    let array = b.into_array();
    match &array {
        Array::Int32(p) => {
            let validity = p.validity.as_ref().unwrap();
            assert_eq!(validity.len(), 3);
            assert!(validity.get(0));
            assert!(!validity.get(1));
            assert!(validity.get(2));
            assert_eq!(p.values[0], 1);
            assert_eq!(p.values[2], 3);
            assert_eq!(validity.buffer, vec![0b101u8]);
        }
        other => panic!("unexpected array {other:?}"),
    }
    let d = build_array_deserializer(&f, &array).unwrap();
    assert!(matches!(d.value_at(0), Ok(Value::Int(1))));
    assert!(matches!(d.value_at(1), Ok(Value::Null)));
    assert!(matches!(d.value_at(2), Ok(Value::Int(3))));
}

#[test]
fn struct_with_list_of_ints() {
    let f = field("row", GenericDataType::Struct, false).with_child(
        field("a", GenericDataType::List, false).with_child(field("element", GenericDataType::I64, false)),
    );
    let mut b = builder(&f);
    b.push(&Value::Struct(vec![("a".to_string(), list_of_ints(&[1, 2]))])).unwrap();
    b.push(&Value::Struct(vec![("a".to_string(), list_of_ints(&[]))])).unwrap();
    let array = b.into_array();
    match &array {
        Array::Struct(s) => match &s.fields[0].1 {
            Array::List(l) => assert_eq!(l.offsets, vec![0, 2, 2]),
            other => panic!("unexpected child {other:?}"),
        },
        other => panic!("unexpected array {other:?}"),
    }
    let d = build_array_deserializer(&f, &array).unwrap();
    match d.value_at(1).unwrap() {
        Value::Struct(fields) => {
            assert_eq!(fields.len(), 1);
            assert_eq!(fields[0].0, "a");
            match &fields[0].1 {
                Value::List(items) => assert!(items.is_empty()),
                other => panic!("expected an empty list, got {other:?}"),
            }
        }
        other => panic!("unexpected value {other:?}"),
    }
    match d.value_at(0).unwrap() {
        Value::Struct(fields) => match &fields[0].1 {
            Value::List(items) => {
                assert_eq!(items.len(), 2);
                assert!(matches!(items[0], Value::Int(1)));
                assert!(matches!(items[1], Value::Int(2)));
            }
            other => panic!("unexpected value {other:?}"),
        },
        other => panic!("unexpected value {other:?}"),
    }
}

fn int_str_union() -> GenericField {
    field("u", GenericDataType::Union, false)
        .with_child(field("Int", GenericDataType::I32, false))
        .with_child(field("Str", GenericDataType::Utf8, false))
}

#[test]
fn dense_union_int_str() {
    let f = int_str_union();
    let mut b = builder(&f);
    b.push(&Value::Variant(0, Box::new(Value::Int(5)))).unwrap();
    b.push(&Value::Variant(1, Box::new(Value::Str("x".to_string())))).unwrap();
    let array = b.into_array();
    match &array {
        Array::DenseUnion(u) => {
            assert_eq!(u.types, vec![0, 1]);
            assert_eq!(u.offsets, vec![0, 0]);
        }
        other => panic!("unexpected array {other:?}"),
    }
    let d = build_array_deserializer(&f, &array).unwrap();
    match d.value_at(0).unwrap() {
        Value::Variant(0, payload) => assert!(matches!(*payload, Value::Int(5))),
        other => panic!("unexpected value {other:?}"),
    }
    match d.value_at(1).unwrap() {
        Value::Variant(1, payload) => assert!(matches!(&*payload, Value::Str(s) if s == "x")),
        other => panic!("unexpected value {other:?}"),
    }
    match &d {
        serde_arrow::array_deserializer::ArrayDeserializer::Enum(e) => {
            assert_eq!(e.variant_name(0).unwrap(), "Int");
            assert_eq!(e.variant_name(1).unwrap(), "Str");
        }
        _ => panic!("expected an enum deserializer"),
    }
}

#[test]
fn union_type_id_out_of_range_fails_construction() {
    let f = int_str_union();
    let array = Array::DenseUnion(DenseUnionArray {
        types: vec![0, 5],
        offsets: vec![0, 0],
        fields: vec![
            Array::Int32(PrimitiveArray { validity: None, values: vec![5] }),
            Array::Int32(PrimitiveArray { validity: None, values: vec![6] }),
        ],
    });
    let err = build_union_deserializer(&f, &array).err().unwrap();
    assert_eq!(err.kind, ErrorKind::SchemaMismatch);
}

#[test]
fn dictionary_keeps_distinct_strings() {
    let f = field("d", GenericDataType::Dictionary, false);
    let mut b = builder(&f);
    for s in ["a", "b", "a", "a", "c", "b"] {
        b.push(&Value::Str(s.to_string())).unwrap();
    }
    match b.into_array() {
        Array::Dictionary(d) => {
            assert_eq!(d.keys.values, vec![0, 1, 0, 0, 2, 1]);
            assert_eq!(d.values.offsets, vec![0, 1, 2, 3]);
            assert_eq!(d.values.data, b"abc".to_vec());
        }
        other => panic!("unexpected array {other:?}"),
    }
}

#[test]
fn list_offsets_and_null_rows() {
    let f = field("l", GenericDataType::LargeList, true).with_child(field("element", GenericDataType::U8, false));
    let mut b = builder(&f);
    b.push(&list_of_ints(&[7])).unwrap();
    b.push(&Value::Null).unwrap();
    b.push(&list_of_ints(&[])).unwrap();
    b.push(&Value::List(vec![Value::UInt(1), Value::Int(2)])).unwrap();
    let array = b.into_array();
    match &array {
        Array::LargeList(l) => {
            assert_eq!(l.offsets, vec![0i64, 1, 1, 1, 3]);
            let v = l.validity.as_ref().unwrap();
            assert!(v.get(0) && !v.get(1) && v.get(2) && v.get(3));
        }
        other => panic!("unexpected array {other:?}"),
    }
    let d = build_array_deserializer(&f, &array).unwrap();
    assert!(matches!(d.value_at(1), Ok(Value::Null)));
    match d.value_at(3).unwrap() {
        Value::List(items) => {
            assert!(matches!(items[0], Value::UInt(1)));
            assert!(matches!(items[1], Value::UInt(2)));
        }
        other => panic!("unexpected value {other:?}"),
    }
}

#[test]
fn reading_past_the_end_is_an_error() {
    let f = field("s", GenericDataType::Utf8, false);
    let mut b = builder(&f);
    b.push(&Value::Str("héllo".to_string())).unwrap();
    let array = b.into_array();
    let d = build_array_deserializer(&f, &array).unwrap();
    assert!(matches!(d.value_at(0), Ok(Value::Str(s)) if s == "héllo"));
    assert_eq!(d.value_at(1).err().unwrap().kind, ErrorKind::Exhausted);
}

#[test]
fn record_sequence_reads_every_row_once() {
    let fa = field("a", GenericDataType::Bool, false);
    let fb = field("b", GenericDataType::U16, true);
    let mut ba = builder(&fa);
    let mut bb = builder(&fb);
    ba.push(&Value::Bool(true)).unwrap();
    ba.push(&Value::Bool(false)).unwrap();
    bb.push(&Value::UInt(9)).unwrap();
    bb.push(&Value::Null).unwrap();
    let aa = ba.into_array();
    let ab = bb.into_array();
    let fields = vec![fa, fb];
    let arrays = vec![&aa, &ab];
    let mut records = build_deserializer(&fields, &arrays).unwrap();
    assert_eq!(records.remaining(), 2);
    match records.next_record().unwrap() {
        Value::Struct(fs) => {
            assert_eq!(fs[0].0, "a");
            assert!(matches!(fs[0].1, Value::Bool(true)));
            assert!(matches!(fs[1].1, Value::UInt(9)));
        }
        other => panic!("unexpected value {other:?}"),
    }
    match records.next_record().unwrap() {
        Value::Struct(fs) => {
            assert!(matches!(fs[0].1, Value::Bool(false)));
            assert!(matches!(fs[1].1, Value::Null));
        }
        other => panic!("unexpected value {other:?}"),
    }
    assert_eq!(records.next_record().err().unwrap().kind, ErrorKind::Exhausted);
}

#[test]
fn arrays_of_different_lengths_are_refused() {
    let fa = field("a", GenericDataType::Bool, false);
    let fb = field("b", GenericDataType::Bool, false);
    let mut ba = builder(&fa);
    ba.push(&Value::Bool(true)).unwrap();
    let bb = builder(&fb);
    let aa = ba.into_array();
    let ab = bb.into_array();
    let fields = vec![fa, fb];
    let arrays = vec![&aa, &ab];
    assert_eq!(build_deserializer(&fields, &arrays).err().unwrap().kind, ErrorKind::SchemaMismatch);
    let one = vec![&aa];
    assert_eq!(build_deserializer(&fields, &one).err().unwrap().kind, ErrorKind::SchemaMismatch);
}

fn map_field() -> GenericField {
    field("m", GenericDataType::Mapping, true).with_child(
        field("entries", GenericDataType::Struct, false)
            .with_child(field("key", GenericDataType::Utf8, false))
            .with_child(field("value", GenericDataType::I64, false)),
    )
}

#[test]
fn map_key_value_protocol() {
    let f = map_field();
    let mut b = builder(&f);
    b.push(&Value::Mapping(vec![
        (Value::Str("x".to_string()), Value::Int(1)),
        (Value::Str("y".to_string()), Value::Int(2)),
    ]))
    .unwrap();
    b.push(&Value::Null).unwrap();
    let array = b.into_array();
    let d = build_array_deserializer(&f, &array).unwrap();
    let mut m = match d {
        serde_arrow::array_deserializer::ArrayDeserializer::Mapping(m) => m,
        _ => panic!("expected a map deserializer"),
    };
    assert!(m.peek_next().unwrap());
    assert!(matches!(m.next_key(), Ok(Some(Value::Str(k))) if k == "x"));
    assert!(matches!(m.next_value(), Ok(Value::Int(1))));
    assert!(matches!(m.next_key(), Ok(Some(Value::Str(k))) if k == "y"));
    assert!(matches!(m.next_value(), Ok(Value::Int(2))));
    assert!(matches!(m.next_key(), Ok(None)));
    assert!(!m.peek_next().unwrap());
    assert!(matches!(m.value_at(1), Ok(Value::Null)));
    m.consume_next();
    assert_eq!(m.peek_next().err().unwrap().kind, ErrorKind::Exhausted);
}

#[test]
fn map_value_without_key_is_refused() {
    let f = map_field();
    let mut b = builder(&f);
    b.push(&Value::Mapping(vec![])).unwrap();
    let array = b.into_array();
    let d = build_array_deserializer(&f, &array).unwrap();
    let mut m = match d {
        serde_arrow::array_deserializer::ArrayDeserializer::Mapping(m) => m,
        _ => panic!("expected a map deserializer"),
    };
    assert_eq!(m.next_value().err().unwrap().kind, ErrorKind::ProtocolMisuse);
}

#[test]
fn value_of_wrong_kind_is_refused_with_path() {
    let f = field("n", GenericDataType::I8, false);
    let mut b = builder(&f);
    let err = b.push(&Value::Str("no".to_string())).err().unwrap();
    assert_eq!(err.kind, ErrorKind::ProtocolMisuse);
    assert_eq!(err.field.as_deref(), Some("n"));
    assert!(b.push(&Value::Int(300)).is_err());
    assert!(b.push(&Value::Null).is_err());
    b.push(&Value::Int(-128)).unwrap();
    assert!(!b.is_nullable());
}

#[test]
fn utf8_builder_writes_offsets() {
    let mut b = serde_arrow::utf8_builder::Utf8Builder::<i32>::new("s".to_string(), false);
    b.push_str("ok").unwrap();
    assert_eq!(b.len(), 1);
    assert!(!b.is_nullable());
    match b.into_array() {
        Array::Utf8(a) => assert_eq!(a.offsets, vec![0, 2]),
        other => panic!("unexpected array {other:?}"),
    }
}

#[test]
fn array_of_wrong_kind_is_a_schema_mismatch() {
    let f = field("a", GenericDataType::I64, false);
    let array = Array::Int32(PrimitiveArray { validity: None, values: vec![1] });
    assert_eq!(build_array_deserializer(&f, &array).err().unwrap().kind, ErrorKind::SchemaMismatch);
    let f16 = field("h", GenericDataType::F16, false);
    assert_eq!(build_array_deserializer(&f16, &array).err().unwrap().kind, ErrorKind::SchemaMismatch);
}

#[test]
fn date32_renders_calendar_dates() {
    let array = PrimitiveArray { validity: None, values: vec![0i32, 13036, -1] };
    let mut d = Date32Deserializer::new("day".to_string(), &array);
    assert_eq!(d.get_string_repr(0).unwrap(), "1970-01-01");
    assert_eq!(d.get_string_repr(13036).unwrap(), "2005-09-10");
    assert_eq!(d.next_string().unwrap(), "1970-01-01");
    assert!(matches!(d.next_value(), Ok(Value::Int(13036))));
    assert_eq!(d.next_string().unwrap(), "1969-12-31");
    assert_eq!(d.next_value().err().unwrap().kind, ErrorKind::Exhausted);
    assert_eq!(d.get_string_repr(i32::MAX).err().unwrap().kind, ErrorKind::Representation);
}

#[test]
fn struct_with_missing_field_is_refused() {
    let f = field("s", GenericDataType::Struct, false)
        .with_child(field("x", GenericDataType::U32, false))
        .with_child(field("y", GenericDataType::Utf8, false));
    let mut b = builder(&f);
    let err = b.push(&Value::Struct(vec![("y".to_string(), Value::Str("z".to_string()))])).err().unwrap();
    assert_eq!(err.kind, ErrorKind::ProtocolMisuse);
    let mut b = builder(&f);
    let swapped = Value::Struct(vec![("y".to_string(), Value::Str("z".to_string())), ("x".to_string(), Value::UInt(1))]);
    assert!(b.push(&swapped).is_err());
}

#[test]
fn take_detaches_rows_and_keeps_shape() {
    let f = field("l", GenericDataType::List, false).with_child(field("element", GenericDataType::Utf8, true));
    let mut b = builder(&f);
    b.push(&Value::List(vec![Value::Str("a".to_string()), Value::Null])).unwrap();
    let first = b.take();
    assert_eq!(b.len(), 0);
    b.push(&Value::List(vec![])).unwrap();
    match first.into_array() {
        Array::List(l) => assert_eq!(l.offsets, vec![0, 2]),
        other => panic!("unexpected array {other:?}"),
    }
    match b.into_array() {
        Array::List(l) => assert_eq!(l.offsets, vec![0, 0]),
        other => panic!("unexpected array {other:?}"),
    }
}

#[test]
fn null_struct_row_advances_children_with_defaults() {
    let f = field("s", GenericDataType::Struct, true)
        .with_child(field("x", GenericDataType::U32, false))
        .with_child(field("y", GenericDataType::Utf8, false));
    let mut b = builder(&f);
    b.push(&Value::Null).unwrap();
    b.push(&Value::Struct(vec![("x".to_string(), Value::UInt(4)), ("y".to_string(), Value::Str("z".to_string()))]))
        .unwrap();
    let array = b.into_array();
    let d = build_array_deserializer(&f, &array).unwrap();
    assert!(matches!(d.value_at(0), Ok(Value::Null)));
    match d.value_at(1).unwrap() {
        Value::Struct(fs) => {
            assert!(matches!(fs[0].1, Value::UInt(4)));
            assert!(matches!(&fs[1].1, Value::Str(s) if s == "z"));
        }
        other => panic!("unexpected value {other:?}"),
    }
}

#[test]
fn date64_renders_naive_and_utc_timestamps() {
    let naive = field("t", GenericDataType::Date64, false);
    let utc = field("t", GenericDataType::Date64, false).with_strategy(Strategy::UtcStrAsDate64);
    let array = Array::Date64(PrimitiveArray { validity: None, values: vec![0i64, 1500] });
    match build_array_deserializer(&naive, &array).unwrap() {
        serde_arrow::array_deserializer::ArrayDeserializer::Date64(d) => {
            assert!(!d.is_utc);
            assert_eq!(d.get_string_repr(0).unwrap(), "1970-01-01T00:00:00");
            assert_eq!(d.get_string_repr(1500).unwrap(), "1970-01-01T00:00:01.500");
            assert_eq!(d.get_string_repr(i64::MAX).err().unwrap().kind, ErrorKind::Representation);
        }
        _ => panic!("expected a Date64 deserializer"),
    }
    match build_array_deserializer(&utc, &array).unwrap() {
        serde_arrow::array_deserializer::ArrayDeserializer::Date64(d) => {
            assert!(d.is_utc);
            assert_eq!(d.get_string_repr(0).unwrap(), "1970-01-01T00:00:00Z");
        }
        _ => panic!("expected a Date64 deserializer"),
    }
}

#[test]
fn tracing_options_defaults_and_setters() {
    let o = TracingOptions::new();
    assert!(!o.allow_null_fields);
    assert!(o.map_as_struct);
    assert!(!o.string_dictionary_encoding);
    assert!(!o.coerce_numbers);
    assert!(!o.guess_dates);
    assert_eq!(o.from_type_budget, 100);
    assert!(!o.enums_without_data_as_strings);
    assert!(o.sequence_as_large_list);
    assert_eq!(o.tracing_mode, TracingMode::Unknown);
    let o = o
        .allow_null_fields(true)
        .map_as_struct(false)
        .string_dictionary_encoding(true)
        .coerce_numbers(true)
        .guess_dates(true)
        .from_type_budget(7)
        .enums_without_data_as_strings(true)
        .sequence_as_large_list(false)
        .tracing_mode(TracingMode::FromSamples);
    assert!(o.allow_null_fields && !o.map_as_struct && o.string_dictionary_encoding);
    assert!(o.coerce_numbers && o.guess_dates && o.enums_without_data_as_strings);
    assert!(!o.sequence_as_large_list);
    assert_eq!(o.from_type_budget, 7);
    assert_eq!(o.tracing_mode, TracingMode::FromSamples);
}

#[test]
fn overwrites_are_keyed_by_dotted_path() {
    assert!(Overwrites::new().0.is_empty());
    let o = TracingOptions::new()
        .overwrite("foo.bar", field("bar", GenericDataType::Date64, false))
        .unwrap()
        .overwrite("baz", field("baz", GenericDataType::U8, false))
        .unwrap()
        .overwrite("foo.bar", field("bar", GenericDataType::I64, true))
        .unwrap();
    let f = o.get_overwrite("$.foo.bar").unwrap();
    assert_eq!(f.data_type, GenericDataType::I64);
    assert!(f.nullable);
    assert_eq!(o.get_overwrite("$.baz").unwrap().data_type, GenericDataType::U8);
    assert!(o.get_overwrite("foo.bar").is_none());
    assert!(o.get_overwrite("$.qux").is_none());
}

fn round_trip(f: &GenericField, values: Vec<Value>) {
    let mut b = builder(f);
    for v in &values {
        b.push(v).unwrap();
    }
    let array = b.into_array();
    let d = build_array_deserializer(f, &array).unwrap();
    for (i, v) in values.iter().enumerate() {
        assert_eq!(format!("{:?}", d.value_at(i).unwrap()), format!("{v:?}"));
    }
    assert_eq!(d.value_at(values.len()).err().unwrap().kind, ErrorKind::Exhausted);
}

#[test]
fn round_trip_reproduces_values_of_every_kind() {
    round_trip(&field("b", GenericDataType::Bool, true), vec![Value::Bool(true), Value::Null, Value::Bool(false)]);
    round_trip(&field("b", GenericDataType::Bool, false), vec![Value::Bool(false), Value::Bool(true)]);
    round_trip(&field("i", GenericDataType::I64, false), vec![Value::Int(i64::MIN), Value::Int(i64::MAX)]);
    round_trip(&field("u", GenericDataType::U64, true), vec![Value::UInt(u64::MAX), Value::Null]);
    round_trip(&field("u8", GenericDataType::U8, false), vec![Value::UInt(0), Value::UInt(255)]);
    round_trip(&field("i16", GenericDataType::I16, true), vec![Value::Null, Value::Int(-300)]);
    round_trip(&field("d", GenericDataType::Date32, true), vec![Value::Int(19000), Value::Null]);
    round_trip(&field("n", GenericDataType::Null, true), vec![Value::Null, Value::Null]);
    round_trip(
        &field("s", GenericDataType::LargeUtf8, true),
        vec![Value::Str(String::new()), Value::Null, Value::Str("ünïcode ✓".to_string())],
    );
    round_trip(
        &field("d", GenericDataType::Dictionary, true),
        vec![Value::Str("x".to_string()), Value::Null, Value::Str("x".to_string())],
    );
    round_trip(
        &field("l", GenericDataType::List, true).with_child(field("e", GenericDataType::Utf8, true)),
        vec![
            Value::List(vec![Value::Str("a".to_string()), Value::Null]),
            Value::Null,
            Value::List(vec![]),
        ],
    );
    round_trip(
        &map_field(),
        vec![Value::Mapping(vec![(Value::Str("k".to_string()), Value::Int(-1))]), Value::Null, Value::Mapping(vec![])],
    );
    round_trip(
        &int_str_union(),
        vec![
            Value::Variant(1, Box::new(Value::Str("y".to_string()))),
            Value::Variant(0, Box::new(Value::Int(-7))),
            Value::Variant(0, Box::new(Value::Int(8))),
        ],
    );
    let nested = field("outer", GenericDataType::Struct, true)
        .with_child(field("id", GenericDataType::U32, false))
        .with_child(field("tags", GenericDataType::LargeList, false).with_child(field("t", GenericDataType::Utf8, false)));
    round_trip(
        &nested,
        vec![
            Value::Struct(vec![
                ("id".to_string(), Value::UInt(1)),
                ("tags".to_string(), Value::List(vec![Value::Str("p".to_string())])),
            ]),
            Value::Null,
            Value::Struct(vec![("id".to_string(), Value::UInt(2)), ("tags".to_string(), Value::List(vec![]))]),
        ],
    );
}

#[test]
fn union_has_no_null() {
    let f = int_str_union();
    let mut b = builder(&f);
    assert_eq!(b.push(&Value::Null).err().unwrap().kind, ErrorKind::ProtocolMisuse);
    let mut b = builder(&f);
    assert_eq!(b.push(&Value::Variant(2, Box::new(Value::Int(1)))).err().unwrap().kind, ErrorKind::ProtocolMisuse);
}

fn bits(values: &[bool]) -> serde_arrow::bits::Bitmap {
    let mut b = serde_arrow::bits::Bitmap::new();
    for v in values {
        b.push(*v);
    }
    b
}

#[test]
fn null_rows_holding_data_are_refused() {
    let list_field = field("l", GenericDataType::List, true).with_child(field("e", GenericDataType::I32, false));
    let list = Array::List(ListArray {
        validity: Some(bits(&[true, false])),
        offsets: vec![0, 1, 2],
        element: Box::new(Array::Int32(PrimitiveArray { validity: None, values: vec![1, 2] })),
    });
    assert_eq!(build_array_deserializer(&list_field, &list).err().unwrap().kind, ErrorKind::SchemaMismatch);
    let fine = Array::List(ListArray {
        validity: Some(bits(&[true, false])),
        offsets: vec![0, 2, 2],
        element: Box::new(Array::Int32(PrimitiveArray { validity: None, values: vec![1, 2] })),
    });
    assert!(build_array_deserializer(&list_field, &fine).is_ok());

    let str_field = field("s", GenericDataType::Utf8, true);
    let strings = Array::Utf8(BytesArray { validity: Some(bits(&[false])), offsets: vec![0, 1], data: b"a".to_vec() });
    assert_eq!(build_array_deserializer(&str_field, &strings).err().unwrap().kind, ErrorKind::SchemaMismatch);

    let entries = Array::Struct(StructArray {
        len: 1,
        validity: None,
        fields: vec![
            ("key".to_string(), Array::Utf8(BytesArray { validity: None, offsets: vec![0, 1], data: b"k".to_vec() })),
            ("value".to_string(), Array::Int64(PrimitiveArray { validity: None, values: vec![1] })),
        ],
    });
    let map = Array::Mapping(ListArray { validity: Some(bits(&[false])), offsets: vec![0, 1], element: Box::new(entries) });
    assert_eq!(build_array_deserializer(&map_field(), &map).err().unwrap().kind, ErrorKind::SchemaMismatch);
}

#[test]
fn defaults_and_error_paths() {
    let f = field("s", GenericDataType::Utf8, false);
    let mut b = builder(&f);
    let err = b.push(&Value::Variant(0, Box::new(Value::Null))).err().unwrap();
    assert_eq!(err.field.as_deref(), Some("s"));
    assert_eq!(b.len(), 0);
    b.push_default().unwrap();
    let array = b.into_array();
    let d = build_array_deserializer(&f, &array).unwrap();
    assert!(matches!(d.value_at(0), Ok(Value::Str(s)) if s.is_empty()));
}
