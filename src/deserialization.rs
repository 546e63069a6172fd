use vstd::prelude::*;
use vstd::slice::slice_subrange;
use vstd::utf8::valid_utf8;

use crate::array::{array_len, valid_at, Array, BytesArray, DictionaryArray, PrimitiveArray};
use crate::array_deserializer::{
    deser_source, deser_wf, offsets_supported, str_from_utf8, validity_matches, ArrayDeserializer,
    BoolDeserializer, Date64Deserializer, DictionaryDeserializer, EnumDeserializer,
    IntegerDeserializer, ListDeserializer, NullDeserializer, StringDeserializer,
    StructDeserializer,
};
use crate::bits::{BitBuffer, Bitmap};
use crate::date32_deserializer::Date32Deserializer;
use crate::error::{Error, ErrorKind};
use crate::map_deserializer::{
    check_supported_list_layout, map_children, map_entries_ok, MapDeserializer,
};
use crate::offsets::{check_null_rows, null_rows_empty, offset_ints, Offset};
use crate::outer_sequence_deserializer::OuterSequenceDeserializer;
use crate::primitive::Primitive;
use crate::schema::{GenericDataType, GenericField, Strategy};

verus! {

/// Whether an array is of the physical kind a field declares.
pub open spec fn kind_matches(dt: GenericDataType, a: Array) -> bool {
    match dt {
        GenericDataType::Null => a is Null,
        GenericDataType::Bool => a is Boolean,
        GenericDataType::I8 => a is Int8,
        GenericDataType::I16 => a is Int16,
        GenericDataType::I32 => a is Int32,
        GenericDataType::I64 => a is Int64,
        GenericDataType::U8 => a is UInt8,
        GenericDataType::U16 => a is UInt16,
        GenericDataType::U32 => a is UInt32,
        GenericDataType::U64 => a is UInt64,
        GenericDataType::Date32 => a is Date32,
        GenericDataType::Date64 => a is Date64,
        GenericDataType::Utf8 => a is Utf8,
        GenericDataType::LargeUtf8 => a is LargeUtf8,
        GenericDataType::List => a is List,
        GenericDataType::LargeList => a is LargeList,
        GenericDataType::Struct => a is Struct,
        GenericDataType::Mapping => a is Mapping,
        GenericDataType::Union => a is DenseUnion,
        GenericDataType::Dictionary => a is Dictionary,
        _ => false,
    }
}

/// A bitmap that is absent, or well formed and one bit per row.
pub open spec fn validity_ok(bitmap: Option<Bitmap>, len: int) -> bool {
    match bitmap {
        Some(b) => b.wf() && b@.len() == len && b.len <= usize::MAX - 8,
        None => true,
    }
}

/// The borrowed view of the bitmap of an array of `len` rows; fails where
/// the bitmap is malformed or of another length.
pub fn get_validity<'a>(bitmap: &'a Option<Bitmap>, len: usize) -> (r: Result<
    Option<BitBuffer<'a>>,
    Error,
>)
    ensures
        r is Ok <==> validity_ok(*bitmap, len as int),
        r matches Ok(v) ==> validity_matches(v, *bitmap, len as int),
        r matches Err(e) ==> e.kind == ErrorKind::SchemaMismatch,
{
    match bitmap {
        Some(b) => {
            if !b.check_wf() || b.len() != len {
                return Err(Error::new(ErrorKind::SchemaMismatch, "validity does not match the array"));
            }
            let v = BitBuffer { data: b.buffer.as_slice(), offset: 0, number_of_bits: b.len };
            assert(b.len <= b.buffer@.len() * 8) by (nonlinear_arith)
                requires
                    b.buffer@.len() == (b.len + 7) / 8,
            ;
            Ok(Some(v))
        },
        None => Ok(None),
    }
}

/// Every offset of a supported layout is an index.
pub proof fn lemma_offsets_in_range(offs: Seq<int>, child_len: int)
    requires
        offsets_supported(offs, child_len),
    ensures
        forall|i: int| 0 <= i < offs.len() ==> 0 <= #[trigger] offs[i] <= usize::MAX,
{
    assert forall|i: int| 0 <= i < offs.len() implies 0 <= #[trigger] offs[i] <= usize::MAX by {
        assert(offs[0] <= offs[i]);
        assert(offs[i] <= offs[offs.len() - 1]);
    }
}

/// A bitmap of values that is well formed and of at most `usize::MAX - 8`
/// bits.
pub open spec fn bitmap_ok(b: Bitmap) -> bool {
    b.wf() && b.len <= usize::MAX - 8
}

/// A primitive array whose bitmap, if any, is one bit per value.
pub open spec fn primitive_ok<T>(p: PrimitiveArray<T>) -> bool {
    validity_ok(p.validity, p.values@.len() as int)
}

/// A string array with a supported offsets layout, a bitmap of one bit per
/// row, and valid UTF-8 in every row.
pub open spec fn bytes_ok<O: Offset>(b: BytesArray<O>) -> bool {
    let offs = offset_ints(b.offsets@);
    &&& offsets_supported(offs, b.data@.len() as int)
    &&& validity_ok(b.validity, b.offsets@.len() - 1)
    &&& null_rows_empty(offs, b.validity)
    &&& forall|i: int|
        0 <= i < b.offsets@.len() - 1 ==> valid_utf8(#[trigger] b.data@.subrange(offs[i], offs[i + 1]))
}

/// A dictionary array whose keys and string values have supported layouts,
/// whose values hold no nulls, and whose present keys index a value.
pub open spec fn dictionary_ok(d: DictionaryArray) -> bool {
    &&& primitive_ok(d.keys)
    &&& bytes_ok(d.values)
    &&& d.values.validity is None
    &&& forall|i: int|
        0 <= i < d.keys.values@.len() && valid_at(d.keys.validity, i) ==> (
        #[trigger] d.keys.values@[i]) < d.values.offsets@.len() - 1
}

/// Whether `array` can be read as the column `f` describes: of the
/// declared kind, with supported layouts (bitmaps, offsets, UTF-8, union
/// type ids and offsets) and children that match the declared ones in
/// number, names and length, recursively.
pub open spec fn deserializable(f: GenericField, a: Array) -> bool
    decreases f,
{
    match f.data_type {
        GenericDataType::Null => a is Null,
        GenericDataType::Bool => a matches Array::Boolean(b) && bitmap_ok(b.values) && validity_ok(
            b.validity,
            b.values.len as int,
        ),
        GenericDataType::I8 => a matches Array::Int8(p) && primitive_ok(p),
        GenericDataType::I16 => a matches Array::Int16(p) && primitive_ok(p),
        GenericDataType::I32 => a matches Array::Int32(p) && primitive_ok(p),
        GenericDataType::I64 => a matches Array::Int64(p) && primitive_ok(p),
        GenericDataType::U8 => a matches Array::UInt8(p) && primitive_ok(p),
        GenericDataType::U16 => a matches Array::UInt16(p) && primitive_ok(p),
        GenericDataType::U32 => a matches Array::UInt32(p) && primitive_ok(p),
        GenericDataType::U64 => a matches Array::UInt64(p) && primitive_ok(p),
        GenericDataType::Date32 => a matches Array::Date32(p) && primitive_ok(p),
        GenericDataType::Date64 => a matches Array::Date64(p) && primitive_ok(p),
        GenericDataType::Utf8 => a matches Array::Utf8(b) && bytes_ok(b),
        GenericDataType::LargeUtf8 => a matches Array::LargeUtf8(b) && bytes_ok(b),
        GenericDataType::Struct => match a {
            Array::Struct(st) => {
                &&& validity_ok(st.validity, st.len as int)
                &&& f.children@.len() == st.fields@.len()
                &&& forall|k: int|
                    0 <= k < st.fields@.len() ==> {
                        &&& deserializable(f.children@[k], (#[trigger] st.fields@[k]).1)
                        &&& array_len(st.fields@[k].1) == st.len
                        &&& f.children@[k].name@ == st.fields@[k].0@
                    }
            },
            _ => false,
        },
        GenericDataType::List => match a {
            Array::List(l) => {
                &&& f.children@.len() >= 1
                &&& deserializable(f.children@[0], *l.element)
                &&& offsets_supported(offset_ints(l.offsets@), array_len(*l.element))
                &&& validity_ok(l.validity, l.offsets@.len() - 1)
                &&& null_rows_empty(offset_ints(l.offsets@), l.validity)
            },
            _ => false,
        },
        GenericDataType::LargeList => match a {
            Array::LargeList(l) => {
                &&& f.children@.len() >= 1
                &&& deserializable(f.children@[0], *l.element)
                &&& offsets_supported(offset_ints(l.offsets@), array_len(*l.element))
                &&& validity_ok(l.validity, l.offsets@.len() - 1)
                &&& null_rows_empty(offset_ints(l.offsets@), l.validity)
            },
            _ => false,
        },
        GenericDataType::Mapping => match a {
            Array::Mapping(l) => {
                &&& f.children@.len() >= 1
                &&& f.children@[0].children@.len() >= 2
                &&& map_entries_ok(l)
                &&& deserializable(f.children@[0].children@[0], map_children(l).0)
                &&& deserializable(f.children@[0].children@[1], map_children(l).1)
                &&& offsets_supported(offset_ints(l.offsets@), array_len(map_children(l).0))
                &&& validity_ok(l.validity, l.offsets@.len() - 1)
                &&& null_rows_empty(offset_ints(l.offsets@), l.validity)
            },
            _ => false,
        },
        GenericDataType::Dictionary => a matches Array::Dictionary(d) && dictionary_ok(d),
        GenericDataType::Union => match a {
            Array::DenseUnion(u) => {
                &&& u.types@.len() == u.offsets@.len()
                &&& forall|i: int|
                    0 <= i < u.types@.len() ==> 0 <= #[trigger] u.types@[i] < u.fields@.len() && 0
                        <= u.offsets@[i] < array_len(u.fields@[u.types@[i] as int])
                &&& f.children@.len() == u.fields@.len()
                &&& forall|k: int|
                    0 <= k < u.fields@.len() ==> deserializable(f.children@[k], #[trigger] u.fields@[k])
            },
            _ => false,
        },
        _ => false,
    }
}

pub fn build_bool_deserializer<'a>(array: &'a Array) -> (r: Result<ArrayDeserializer<'a>, Error>)
    ensures
        r matches Ok(d) ==> deser_wf(d) && deser_source(d) == *array,
        r is Ok <==> (*array matches Array::Boolean(b) && bitmap_ok(b.values) && validity_ok(
            b.validity,
            b.values.len as int,
        )),
{
    let b = match array {
        Array::Boolean(b) => b,
        _ => {
            return Err(Error::new(ErrorKind::SchemaMismatch, "cannot interpret array as Bool array"));
        },
    };
    if !b.values.check_wf() {
        return Err(Error::new(ErrorKind::SchemaMismatch, "malformed boolean values"));
    }
    let validity = get_validity(&b.validity, b.values.len())?;
    let values = BitBuffer { data: b.values.buffer.as_slice(), offset: 0, number_of_bits: b.values.len };
    assert(b.values.len <= b.values.buffer@.len() * 8) by (nonlinear_arith)
        requires
            b.values.buffer@.len() == (b.values.len + 7) / 8,
    ;
    let d = ArrayDeserializer::Bool(BoolDeserializer::new(values, validity, Ghost(*b)));
    proof {
        reveal(deser_wf);
    }
    Ok(d)
}

fn integer_parts<'a, T: Primitive>(p: &'a PrimitiveArray<T>) -> (r: Result<IntegerDeserializer<'a, T>, Error>)
    ensures
        r matches Ok(d) ==> d.wf() && d.source@ == *p,
        r is Ok <==> primitive_ok(*p),
{
    let validity = get_validity(&p.validity, p.values.len())?;
    Ok(IntegerDeserializer::new(p.values.as_slice(), validity, Ghost(*p)))
}

pub fn build_integer_deserializer<'a>(field: &GenericField, array: &'a Array) -> (r: Result<
    ArrayDeserializer<'a>,
    Error,
>)
    ensures
        r matches Ok(d) ==> deser_wf(d) && deser_source(d) == *array,
        r is Ok <==> kind_matches(field.data_type, *array) && match *array {
            Array::Int8(p) => primitive_ok(p),
            Array::Int16(p) => primitive_ok(p),
            Array::Int32(p) => primitive_ok(p),
            Array::Int64(p) => primitive_ok(p),
            Array::UInt8(p) => primitive_ok(p),
            Array::UInt16(p) => primitive_ok(p),
            Array::UInt32(p) => primitive_ok(p),
            Array::UInt64(p) => primitive_ok(p),
            _ => false,
        },
{
    proof {
        reveal(deser_wf);
    }
    match (field.data_type, array) {
        (GenericDataType::I8, Array::Int8(p)) => Ok(ArrayDeserializer::I8(integer_parts(p)?)),
        (GenericDataType::I16, Array::Int16(p)) => Ok(ArrayDeserializer::I16(integer_parts(p)?)),
        (GenericDataType::I32, Array::Int32(p)) => Ok(ArrayDeserializer::I32(integer_parts(p)?)),
        (GenericDataType::I64, Array::Int64(p)) => Ok(ArrayDeserializer::I64(integer_parts(p)?)),
        (GenericDataType::U8, Array::UInt8(p)) => Ok(ArrayDeserializer::U8(integer_parts(p)?)),
        (GenericDataType::U16, Array::UInt16(p)) => Ok(ArrayDeserializer::U16(integer_parts(p)?)),
        (GenericDataType::U32, Array::UInt32(p)) => Ok(ArrayDeserializer::U32(integer_parts(p)?)),
        (GenericDataType::U64, Array::UInt64(p)) => Ok(ArrayDeserializer::U64(integer_parts(p)?)),
        _ => Err(Error::new(ErrorKind::SchemaMismatch, "cannot interpret array as integer array")),
    }
}

pub fn build_date32_deserializer<'a>(field: &GenericField, array: &'a Array) -> (r: Result<
    ArrayDeserializer<'a>,
    Error,
>)
    ensures
        r matches Ok(d) ==> deser_wf(d) && deser_source(d) == *array,
        r is Ok <==> (*array matches Array::Date32(p) && primitive_ok(p)),
{
    let p = match array {
        Array::Date32(p) => p,
        _ => {
            return Err(Error::new(ErrorKind::SchemaMismatch, "cannot interpret array as Date32 array"));
        },
    };
    get_validity(&p.validity, p.values.len())?;
    let d = ArrayDeserializer::Date32(Date32Deserializer::new(field.name.clone(), p));
    proof {
        reveal(deser_wf);
    }
    Ok(d)
}

pub fn build_date64_deserializer<'a>(field: &GenericField, array: &'a Array) -> (r: Result<
    ArrayDeserializer<'a>,
    Error,
>)
    ensures
        r matches Ok(d) ==> deser_wf(d) && deser_source(d) == *array,
        r matches Ok(d) ==> d is Date64 && d->Date64_0.is_utc == (field.strategy == Some(
            Strategy::UtcStrAsDate64,
        )),
        r is Ok <==> (*array matches Array::Date64(p) && primitive_ok(p)),
{
    let p = match array {
        Array::Date64(p) => p,
        _ => {
            return Err(Error::new(ErrorKind::SchemaMismatch, "cannot interpret array as Date64 array"));
        },
    };
    let inner = integer_parts(p)?;
    let is_utc = match field.strategy {
        Some(Strategy::UtcStrAsDate64) => true,
        _ => false,
    };
    let d = ArrayDeserializer::Date64(Date64Deserializer { array: inner, is_utc });
    proof {
        reveal(deser_wf);
    }
    Ok(d)
}

fn string_parts<'a, O: Offset>(b: &'a BytesArray<O>) -> (r: Result<StringDeserializer<'a, O>, Error>)
    ensures
        r matches Ok(d) ==> d.wf() && d.source@ == *b,
        r is Ok <==> bytes_ok(*b),
{
    check_supported_list_layout(&b.offsets, b.data.len())?;
    let rows = b.offsets.len() - 1;
    let validity = get_validity(&b.validity, rows)?;
    proof {
        lemma_offsets_in_range(offset_ints(b.offsets@), b.data@.len() as int);
    }
    check_null_rows(&b.offsets, &b.validity)?;
    let buffer = b.data.as_slice();
    let ghost offs = offset_ints(b.offsets@);
    let mut i: usize = 0;
    while i < rows
        invariant
            rows == b.offsets@.len() - 1,
            offs == offset_ints(b.offsets@),
            buffer@ == b.data@,
            offsets_supported(offs, b.data@.len() as int),
            i <= rows,
            forall|j: int| 0 <= j < i ==> valid_utf8(#[trigger] buffer@.subrange(offs[j], offs[j + 1])),
        decreases rows - i,
    {
        assert(offs[i as int] == b.offsets@[i as int].spec_int());
        assert(offs[i + 1] == b.offsets@[i + 1].spec_int());
        assert(0 <= offs[0] <= offs[i as int] <= offs[i + 1] <= offs[offs.len() - 1]);
        let start = match b.offsets[i].try_into_usize() {
            Some(s) => s,
            None => {
                assert(false);
                0
            },
        };
        let end = match b.offsets[i + 1].try_into_usize() {
            Some(s) => s,
            None => {
                assert(false);
                0
            },
        };
        if str_from_utf8(slice_subrange(buffer, start, end)).is_none() {
            assert(!valid_utf8(b.data@.subrange(offs[i as int], offs[i + 1])));
            return Err(Error::new(ErrorKind::SchemaMismatch, "invalid utf-8 in string array"));
        }
        i = i + 1;
    }
    Ok(StringDeserializer { buffer, offsets: b.offsets.as_slice(), validity, source: Ghost(*b) })
}

pub fn build_string_deserializer<'a>(array: &'a Array) -> (r: Result<ArrayDeserializer<'a>, Error>)
    ensures
        r matches Ok(d) ==> deser_wf(d) && deser_source(d) == *array,
        r is Ok <==> match *array {
            Array::Utf8(b) => bytes_ok(b),
            Array::LargeUtf8(b) => bytes_ok(b),
            _ => false,
        },
{
    proof {
        reveal(deser_wf);
    }
    match array {
        Array::Utf8(b) => Ok(ArrayDeserializer::Utf8(string_parts(b)?)),
        Array::LargeUtf8(b) => Ok(ArrayDeserializer::LargeUtf8(string_parts(b)?)),
        _ => Err(Error::new(ErrorKind::SchemaMismatch, "cannot interpret array as Utf8 array")),
    }
}

/// The deserializer of a dictionary-encoded string column; fails where the
/// values hold nulls or a present key indexes no value.
pub fn build_dictionary_deserializer<'a>(array: &'a Array) -> (r: Result<ArrayDeserializer<'a>, Error>)
    ensures
        r matches Ok(d) ==> deser_wf(d) && deser_source(d) == *array,
        r is Ok <==> (*array matches Array::Dictionary(d) && dictionary_ok(d)),
{
    let d = match array {
        Array::Dictionary(d) => d,
        _ => {
            return Err(Error::new(ErrorKind::SchemaMismatch, "cannot interpret array as dictionary array"));
        },
    };
    if d.values.validity.is_some() {
        return Err(Error::new(ErrorKind::SchemaMismatch, "dictionaries with nullable values are not supported"));
    }
    let keys = integer_parts(&d.keys)?;
    let values = string_parts(&d.values)?;
    let n = values.len();
    let mut i: usize = 0;
    while i < keys.len()
        invariant
            *array == Array::Dictionary(*d),
            keys.wf(),
            keys.source@ == d.keys,
            values.wf(),
            values.source@ == d.values,
            n == d.values.offsets@.len() - 1,
            i <= d.keys.values@.len(),
            forall|j: int|
                0 <= j < i && valid_at(d.keys.validity, j) ==> (#[trigger] d.keys.values@[j]) < n,
        decreases d.keys.values@.len() - i,
    {
        match keys.raw_at(i) {
            Ok(Some(k)) => {
                if k as usize >= n {
                    assert(!dictionary_ok(*d)) by {
                        assert(valid_at(d.keys.validity, i as int));
                        assert(d.keys.values@[i as int] >= n);
                    }
                    return Err(Error::new(ErrorKind::SchemaMismatch, "dictionary key out of range"));
                }
            },
            Ok(None) => {},
            Err(_) => {
                assert(false);
            },
        }
        i = i + 1;
    }
    let r = ArrayDeserializer::Dictionary(DictionaryDeserializer { keys, values, source: Ghost(*d) });
    proof {
        reveal(deser_wf);
    }
    Ok(r)
}

/// The deserializer of a column of the kind `field` declares; fails where
/// the array is of another kind, has an unsupported layout, or the kind is
/// not supported.
pub fn build_array_deserializer<'a>(field: &GenericField, array: &'a Array) -> (r: Result<
    ArrayDeserializer<'a>,
    Error,
>)
    ensures
        r matches Ok(d) ==> deser_wf(d) && deser_source(d) == *array,
        r is Ok <==> deserializable(*field, *array),
    decreases field, 2int,
{
    match field.data_type {
        GenericDataType::Null => match array {
            Array::Null(n) => {
                let d = ArrayDeserializer::Null(NullDeserializer { len: n.len });
                proof {
                    reveal(deser_wf);
                }
                Ok(d)
            },
            _ => Err(Error::new(ErrorKind::SchemaMismatch, "cannot interpret array as Null array")),
        },
        GenericDataType::Bool => build_bool_deserializer(array),
        GenericDataType::I8 | GenericDataType::I16 | GenericDataType::I32 | GenericDataType::I64
        | GenericDataType::U8 | GenericDataType::U16 | GenericDataType::U32
        | GenericDataType::U64 => build_integer_deserializer(field, array),
        GenericDataType::Date32 => build_date32_deserializer(field, array),
        GenericDataType::Date64 => build_date64_deserializer(field, array),
        GenericDataType::Utf8 => match array {
            Array::Utf8(_) => build_string_deserializer(array),
            _ => Err(Error::new(ErrorKind::SchemaMismatch, "cannot interpret array as Utf8 array")),
        },
        GenericDataType::LargeUtf8 => match array {
            Array::LargeUtf8(_) => build_string_deserializer(array),
            _ => Err(Error::new(ErrorKind::SchemaMismatch, "cannot interpret array as LargeUtf8 array")),
        },
        GenericDataType::Struct => build_struct_deserializer(field, array),
        GenericDataType::List => match array {
            Array::List(_) => build_list_deserializer(field, array),
            _ => Err(Error::new(ErrorKind::SchemaMismatch, "cannot interpret array as List array")),
        },
        GenericDataType::LargeList => match array {
            Array::LargeList(_) => build_list_deserializer(field, array),
            _ => Err(Error::new(ErrorKind::SchemaMismatch, "cannot interpret array as LargeList array")),
        },
        GenericDataType::Mapping => build_map_deserializer(field, array),
        GenericDataType::Union => build_union_deserializer(field, array),
        GenericDataType::Dictionary => build_dictionary_deserializer(array),
        _ => Err(Error::new(ErrorKind::SchemaMismatch, "data type is not supported for deserialization")),
    }
}

/// As many fields as arrays, each array readable as its field, all arrays of
/// one length.
pub open spec fn fields_ok(fields: Seq<GenericField>, arrays: Seq<&Array>) -> bool {
    &&& fields.len() == arrays.len()
    &&& forall|k: int|
        0 <= k < arrays.len() ==> deserializable(fields[k], *#[trigger] arrays[k]) && array_len(
            *arrays[k],
        ) == array_len(*arrays[0])
}

/// One deserializer per field, paired by position with the arrays, which
/// must be as many and all of one length; also returns that length (zero
/// without arrays).
pub fn build_struct_fields<'a>(fields: &Vec<GenericField>, arrays: &Vec<&'a Array>) -> (r: Result<
    (Vec<(String, ArrayDeserializer<'a>)>, usize),
    Error,
>)
    ensures
        r is Ok <==> fields_ok(fields@, arrays@),
        r matches Ok((ds, len)) ==> len == (if arrays@.len() == 0 { 0 } else { array_len(*arrays@[0]) }),
        r matches Ok((ds, len)) ==> {
            &&& ds@.len() == fields@.len()
            &&& forall|k: int|
                0 <= k < ds@.len() ==> {
                    &&& (#[trigger] ds@[k]).0 == fields@[k].name
                    &&& deser_wf(ds@[k].1)
                    &&& deser_source(ds@[k].1) == *arrays@[k]
                    &&& array_len(*arrays@[k]) == len
                }
        },
    decreases fields, 0int,
{
    if fields.len() != arrays.len() {
        return Err(Error::new(ErrorKind::SchemaMismatch, "different number of fields and arrays"));
    }
    let len: usize = if arrays.len() == 0 {
        0
    } else {
        array_length(arrays[0])
    };
    let mut deserializers: Vec<(String, ArrayDeserializer<'a>)> = Vec::new();
    let mut k: usize = 0;
    while k < fields.len()
        invariant
            fields@.len() == arrays@.len(),
            k <= fields@.len(),
            deserializers@.len() == k,
            len == (if arrays@.len() == 0 { 0 } else { array_len(*arrays@[0]) }),
            forall|j: int|
                0 <= j < k ==> deserializable(fields@[j], *#[trigger] arrays@[j]) && array_len(
                    *arrays@[j],
                ) == len,
            forall|j: int|
                0 <= j < k ==> {
                    &&& (#[trigger] deserializers@[j]).0 == fields@[j].name
                    &&& deser_wf(deserializers@[j].1)
                    &&& deser_source(deserializers@[j].1) == *arrays@[j]
                    &&& array_len(*arrays@[j]) == len
                },
        decreases fields@.len() - k,
    {
        if array_length(arrays[k]) != len {
            assert(!fields_ok(fields@, arrays@)) by {
                assert(array_len(*arrays@[k as int]) != array_len(*arrays@[0]));
            }
            return Err(Error::new(ErrorKind::SchemaMismatch, "arrays of different lengths are not supported"));
        }
        proof {
            assert(decreases_to!(*fields => fields@));
            assert(decreases_to!(fields@ => fields@[k as int]));
        }
        let d = match build_array_deserializer(&fields[k], arrays[k]) {
            Ok(d) => d,
            Err(e) => {
                assert(!fields_ok(fields@, arrays@)) by {
                    assert(!deserializable(fields@[k as int], *arrays@[k as int]));
                }
                return Err(e);
            },
        };
        deserializers.push((fields[k].name.clone(), d));
        k = k + 1;
    }
    assert(fields_ok(fields@, arrays@));
    Ok((deserializers, len))
}

/// The number of rows of an array.
pub fn array_length(array: &Array) -> (r: usize)
    ensures
        r == array_len(*array),
{
    match array {
        Array::Null(n) => n.len,
        Array::Boolean(b) => b.values.len(),
        Array::Int8(p) => p.values.len(),
        Array::Int16(p) => p.values.len(),
        Array::Int32(p) => p.values.len(),
        Array::Int64(p) => p.values.len(),
        Array::UInt8(p) => p.values.len(),
        Array::UInt16(p) => p.values.len(),
        Array::UInt32(p) => p.values.len(),
        Array::UInt64(p) => p.values.len(),
        Array::Date32(p) => p.values.len(),
        Array::Date64(p) => p.values.len(),
        Array::Utf8(b) => if b.offsets.len() == 0 { 0 } else { b.offsets.len() - 1 },
        Array::LargeUtf8(b) => if b.offsets.len() == 0 { 0 } else { b.offsets.len() - 1 },
        Array::List(l) => if l.offsets.len() == 0 { 0 } else { l.offsets.len() - 1 },
        Array::LargeList(l) => if l.offsets.len() == 0 { 0 } else { l.offsets.len() - 1 },
        Array::Struct(st) => st.len,
        Array::Mapping(l) => if l.offsets.len() == 0 { 0 } else { l.offsets.len() - 1 },
        Array::DenseUnion(u) => u.types.len(),
        Array::Dictionary(d) => d.keys.values.len(),
    }
}

pub fn build_struct_deserializer<'a>(field: &GenericField, array: &'a Array) -> (r: Result<
    ArrayDeserializer<'a>,
    Error,
>)
    ensures
        r matches Ok(d) ==> deser_wf(d) && deser_source(d) == *array,
        r is Ok <==> field.data_type == GenericDataType::Struct && deserializable(*field, *array),
        !(array is Struct) ==> r is Err,
    decreases field, 1int,
{
    if field.data_type != GenericDataType::Struct {
        return Err(Error::new(ErrorKind::SchemaMismatch, "field is not a struct"));
    }
    let st = match array {
        Array::Struct(st) => st,
        _ => {
            return Err(Error::new(ErrorKind::SchemaMismatch, "cannot convert array into struct"));
        },
    };
    let mut arrays: Vec<&'a Array> = Vec::new();
    let mut k: usize = 0;
    while k < st.fields.len()
        invariant
            k <= st.fields@.len(),
            arrays@.len() == k,
            forall|j: int| 0 <= j < k ==> *(#[trigger] arrays@[j]) == st.fields@[j].1,
        decreases st.fields@.len() - k,
    {
        arrays.push(&st.fields[k].1);
        k = k + 1;
    }
    let validity = get_validity(&st.validity, st.len)?;
    proof {
        assert(decreases_to!(*field => field.children));
    }
    let (deserializers, len) = match build_struct_fields(&field.children, &arrays) {
        Ok(x) => x,
        Err(e) => {
            proof {
                if deserializable(*field, *array) && field.data_type == GenericDataType::Struct {
                    assert forall|k: int| 0 <= k < arrays@.len() implies deserializable(field.children@[k], *#[trigger] arrays@[k]) && array_len(*arrays@[k]) == array_len(*arrays@[0]) by {
                        assert(*arrays@[k] == st.fields@[k].1);
                        assert(*arrays@[0] == st.fields@[0].1);
                    }
                }
            }
            return Err(e);
        },
    };
    if st.fields.len() > 0 && len != st.len {
        assert(!deserializable(*field, *array)) by {
            assert(*arrays@[0] == st.fields@[0].1);
        }
        return Err(Error::new(ErrorKind::SchemaMismatch, "struct length differs from its fields"));
    }
    let mut k: usize = 0;
    while k < deserializers.len()
        invariant
            *array == Array::Struct(*st),
            deserializers@.len() == st.fields@.len(),
            field.children@.len() == st.fields@.len(),
            arrays@.len() == st.fields@.len(),
            fields_ok(field.children@, arrays@),
            st.fields@.len() > 0 ==> len == st.len && len == array_len(*arrays@[0]),
            forall|j: int| 0 <= j < arrays@.len() ==> *(#[trigger] arrays@[j]) == st.fields@[j].1,
            forall|j: int|
                0 <= j < deserializers@.len() ==> (#[trigger] deserializers@[j]).0 == field.children@[j].name,
            k <= deserializers@.len(),
            forall|j: int| 0 <= j < k ==> (#[trigger] deserializers@[j]).0@ == st.fields@[j].0@,
        decreases deserializers@.len() - k,
    {
        if deserializers[k].0 != st.fields[k].0 {
            assert(!deserializable(*field, *array)) by {
                assert(deserializers@[k as int].0 == field.children@[k as int].name);
                assert(deserializers@[k as int].0@ != st.fields@[k as int].0@);
            }
            return Err(Error::new(ErrorKind::SchemaMismatch, "field names differ from the array's"));
        }
        k = k + 1;
    }
    proof {
        assert forall|j: int| 0 <= j < st.fields@.len() implies {
            &&& deserializable(field.children@[j], (#[trigger] st.fields@[j]).1)
            &&& array_len(st.fields@[j].1) == st.len
            &&& field.children@[j].name@ == st.fields@[j].0@
        } by {
            assert(*arrays@[j] == st.fields@[j].1);
            assert(*arrays@[0] == st.fields@[0].1);
            assert(deserializers@[j].0@ == st.fields@[j].0@);
            assert(deserializers@[j].0 == field.children@[j].name);
            assert(deserializable(field.children@[j], *arrays@[j]));
            assert(array_len(*arrays@[j]) == array_len(*arrays@[0]));
        }
    }
    let d = ArrayDeserializer::Struct(
        StructDeserializer { fields: deserializers, validity, len: st.len, source: Ghost(*st) },
    );
    proof {
        reveal(deser_wf);
    }
    Ok(d)
}

fn list_parts<'a, O: Offset>(field: &GenericField, l: &'a crate::array::ListArray<O>) -> (r: Result<
    ListDeserializer<'a, O>,
    Error,
>)
    ensures
        r is Ok <==> field.children@.len() >= 1 && deserializable(field.children@[0], *l.element)
            && offsets_supported(offset_ints(l.offsets@), array_len(*l.element)) && validity_ok(
            l.validity,
            l.offsets@.len() - 1,
        ) && null_rows_empty(offset_ints(l.offsets@), l.validity),
        r matches Ok(d) ==> deser_wf(*d.item) && deser_source(*d.item) == *l.element
            && d.offsets@ == l.offsets@ && offsets_supported(
            offset_ints(d.offsets@),
            array_len(*l.element),
        ) && validity_matches(d.validity, l.validity, d.offsets@.len() - 1) && d.source@ == *l,
    decreases field, 0int,
{
    if field.children.len() == 0 {
        return Err(Error::new(ErrorKind::SchemaMismatch, "cannot get first child of list array"));
    }
    proof {
        assert(decreases_to!(*field => field.children));
        assert(decreases_to!(field.children => field.children@));
        assert(decreases_to!(field.children@ => field.children@[0]));
    }
    let item = build_array_deserializer(&field.children[0], &l.element)?;
    check_supported_list_layout(&l.offsets, item.len())?;
    let validity = get_validity(&l.validity, l.offsets.len() - 1)?;
    proof {
        lemma_offsets_in_range(offset_ints(l.offsets@), array_len(*l.element));
    }
    check_null_rows(&l.offsets, &l.validity)?;
    Ok(ListDeserializer { item: Box::new(item), offsets: l.offsets.as_slice(), validity, source: Ghost(*l) })
}

pub fn build_list_deserializer<'a>(field: &GenericField, array: &'a Array) -> (r: Result<
    ArrayDeserializer<'a>,
    Error,
>)
    ensures
        r matches Ok(d) ==> deser_wf(d) && deser_source(d) == *array,
        r is Ok <==> (field.data_type == GenericDataType::List || field.data_type
            == GenericDataType::LargeList) && deserializable(*field, *array),
        !(array is List || array is LargeList) ==> r is Err,
    decreases field, 1int,
{
    proof {
        reveal(deser_wf);
    }
    match (field.data_type, array) {
        (GenericDataType::List, Array::List(l)) => Ok(ArrayDeserializer::List(list_parts(field, l)?)),
        (GenericDataType::LargeList, Array::LargeList(l)) => Ok(
            ArrayDeserializer::LargeList(list_parts(field, l)?),
        ),
        _ => Err(Error::new(ErrorKind::SchemaMismatch, "cannot interpret array as list array")),
    }
}

pub fn build_map_deserializer<'a>(field: &GenericField, array: &'a Array) -> (r: Result<
    ArrayDeserializer<'a>,
    Error,
>)
    ensures
        r matches Ok(d) ==> deser_wf(d) && deser_source(d) == *array,
        r is Ok <==> field.data_type == GenericDataType::Mapping && deserializable(*field, *array),
        !(array is Mapping) ==> r is Err,
    decreases field, 1int,
{
    if field.data_type != GenericDataType::Mapping {
        return Err(Error::new(ErrorKind::SchemaMismatch, "field is not a map"));
    }
    if field.children.len() == 0 {
        return Err(Error::new(ErrorKind::SchemaMismatch, "cannot get children of map"));
    }
    let entries_field = &field.children[0];
    if entries_field.children.len() < 2 {
        return Err(Error::new(ErrorKind::SchemaMismatch, "cannot get keys and values fields"));
    }
    let l = match array {
        Array::Mapping(l) => l,
        _ => {
            return Err(Error::new(ErrorKind::SchemaMismatch, "cannot convert array into map array"));
        },
    };
    let entries = match &*l.element {
        Array::Struct(entries) => entries,
        _ => {
            return Err(Error::new(ErrorKind::SchemaMismatch, "cannot convert map field into struct array"));
        },
    };
    if entries.fields.len() != 2 {
        return Err(Error::new(ErrorKind::SchemaMismatch, "map entries need a key and a value array"));
    }
    proof {
        assert(decreases_to!(*field => field.children));
        assert(decreases_to!(field.children => field.children@));
        assert(decreases_to!(field.children@ => field.children@[0]));
        assert(decreases_to!(field.children@[0] => field.children@[0].children));
        assert(decreases_to!(field.children@[0].children => field.children@[0].children@));
        assert(decreases_to!(field.children@[0].children@ => field.children@[0].children@[0]));
        assert(decreases_to!(field.children@[0].children@ => field.children@[0].children@[1]));
    }
    let keys = build_array_deserializer(&entries_field.children[0], &entries.fields[0].1)?;
    let values = build_array_deserializer(&entries_field.children[1], &entries.fields[1].1)?;
    if keys.len() != values.len() {
        return Err(Error::new(ErrorKind::SchemaMismatch, "keys and values of different lengths"));
    }
    let m = MapDeserializer::new(field.name.clone(), keys, values, l)?;
    let d = ArrayDeserializer::Mapping(m);
    proof {
        reveal(deser_wf);
    }
    Ok(d)
}

/// The deserializer of a dense union; fails where the declared variants and
/// the children differ in number, or where a type id or offset is out of
/// range.
pub fn build_union_deserializer<'a>(field: &GenericField, array: &'a Array) -> (r: Result<
    ArrayDeserializer<'a>,
    Error,
>)
    ensures
        r matches Ok(d) ==> deser_wf(d) && deser_source(d) == *array,
        r is Ok <==> field.data_type == GenericDataType::Union && deserializable(*field, *array),
        r matches Ok(d) ==> d is Enum && d->Enum_0.variants@.len() == field.children@.len()
            && forall|k: int|
            0 <= k < field.children@.len() ==> (#[trigger] d->Enum_0.variants@[k]).0
                == field.children@[k].name,
        !(array is DenseUnion) ==> r is Err,
        array matches Array::DenseUnion(u) ==> (exists|i: int|
            0 <= i < u.types@.len() && !(0 <= #[trigger] u.types@[i] < u.fields@.len())) ==> r is Err,
    decreases field, 1int,
{
    if field.data_type != GenericDataType::Union {
        return Err(Error::new(ErrorKind::SchemaMismatch, "field is not a union"));
    }
    let u = match array {
        Array::DenseUnion(u) => u,
        _ => {
            return Err(Error::new(ErrorKind::SchemaMismatch, "cannot interpret array as a union array"));
        },
    };
    if u.types.len() != u.offsets.len() {
        return Err(Error::new(ErrorKind::SchemaMismatch, "type ids and offsets differ in number"));
    }
    let n = u.fields.len();
    let mut i: usize = 0;
    while i < u.types.len()
        invariant
            *array == Array::DenseUnion(*u),
            n == u.fields@.len(),
            u.types@.len() == u.offsets@.len(),
            i <= u.types@.len(),
            forall|j: int|
                0 <= j < i ==> 0 <= #[trigger] u.types@[j] < n && 0 <= u.offsets@[j] < array_len(
                    u.fields@[u.types@[j] as int],
                ),
        decreases u.types@.len() - i,
    {
        let t = u.types[i];
        if t < 0 || t as usize >= n {
            assert(!deserializable(*field, *array) || field.data_type != GenericDataType::Union) by {
                assert(!(0 <= u.types@[i as int] < u.fields@.len()));
            }
            return Err(Error::new(ErrorKind::SchemaMismatch, "type id out of range"));
        }
        let o = u.offsets[i];
        if o < 0 || o as usize >= array_length(&u.fields[t as usize]) {
            assert(!deserializable(*field, *array) || field.data_type != GenericDataType::Union) by {
                assert(0 <= u.types@[i as int] < u.fields@.len());
            }
            return Err(Error::new(ErrorKind::SchemaMismatch, "union offset out of range"));
        }
        i = i + 1;
    }
    if field.children.len() != n {
        assert(!deserializable(*field, *array) || field.data_type != GenericDataType::Union);
        return Err(Error::new(ErrorKind::SchemaMismatch, "different number of variants and children"));
    }
    let mut variants: Vec<(String, ArrayDeserializer<'a>)> = Vec::new();
    let mut k: usize = 0;
    while k < n
        invariant
            *array == Array::DenseUnion(*u),
            n == u.fields@.len(),
            n == field.children@.len(),
            k <= n,
            variants@.len() == k,
            u.types@.len() == u.offsets@.len(),
            forall|j: int|
                0 <= j < u.types@.len() ==> 0 <= #[trigger] u.types@[j] < n && 0 <= u.offsets@[j] < array_len(
                    u.fields@[u.types@[j] as int],
                ),
            forall|j: int| 0 <= j < k ==> deserializable(field.children@[j], #[trigger] u.fields@[j]),
            forall|j: int| 0 <= j < k ==> (#[trigger] variants@[j]).0 == field.children@[j].name,
            forall|j: int|
                0 <= j < k ==> deser_wf(#[trigger] variants@[j].1) && deser_source(variants@[j].1)
                    == u.fields@[j],
        decreases n - k,
    {
        proof {
            assert(decreases_to!(*field => field.children));
            assert(decreases_to!(field.children => field.children@));
            assert(decreases_to!(field.children@ => field.children@[k as int]));
        }
        let d = match build_array_deserializer(&field.children[k], &u.fields[k]) {
            Ok(d) => d,
            Err(e) => {
                assert(!deserializable(*field, *array) || field.data_type != GenericDataType::Union) by {
                    assert(!deserializable(field.children@[k as int], u.fields@[k as int]));
                }
                return Err(e);
            },
        };
        variants.push((field.children[k].name.clone(), d));
        k = k + 1;
    }
    let d = ArrayDeserializer::Enum(
        EnumDeserializer {
            type_ids: u.types.as_slice(),
            offsets: u.offsets.as_slice(),
            variants,
            source: Ghost(*u),
        },
    );
    proof {
        reveal(deser_wf);
    }
    Ok(d)
}

/// The record sequence over top-level columns described by `fields`.
pub fn build_deserializer<'a>(fields: &Vec<GenericField>, arrays: &Vec<&'a Array>) -> (r: Result<
    OuterSequenceDeserializer<'a>,
    Error,
>)
    ensures
        r is Ok <==> fields_ok(fields@, arrays@),
        r matches Ok(o) ==> o.len == (if arrays@.len() == 0 { 0 } else { array_len(*arrays@[0]) }),
        r matches Ok(o) ==> o.wf() && o.next == 0 && o.fields@.len() == fields@.len() && forall|
            k: int,
        |
            0 <= k < fields@.len() ==> (#[trigger] o.fields@[k]).0 == fields@[k].name
                && deser_source(o.fields@[k].1) == *arrays@[k],
{
    let (deserializers, len) = build_struct_fields(fields, arrays)?;
    Ok(OuterSequenceDeserializer::new(deserializers, len))
}

} // verus!
