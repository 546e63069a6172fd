use vstd::prelude::*;
use vstd::utf8::decode_utf8;

use crate::bits::Bitmap;
use crate::offsets::{offset_ints, Offset};
use crate::primitive::{primitive_model, Primitive};
use crate::value::ValueModel;

verus! {

/// Whether row `i` is present under an optional validity bitmap (absent
/// means every row is present).
pub open spec fn valid_at(validity: Option<Bitmap>, i: int) -> bool {
    match validity {
        Some(b) => b@[i],
        None => true,
    }
}

/// A column of nulls only.
#[derive(Debug, Clone)]
pub struct NullArray {
    pub len: usize,
}

#[derive(Debug, Clone)]
pub struct BooleanArray {
    pub validity: Option<Bitmap>,
    pub values: Bitmap,
}

#[derive(Debug, Clone)]
pub struct PrimitiveArray<T> {
    pub validity: Option<Bitmap>,
    pub values: Vec<T>,
}

/// Variable-length UTF-8 data: row `i` is `data[offsets[i]..offsets[i + 1]]`.
#[derive(Debug, Clone)]
pub struct BytesArray<O> {
    pub validity: Option<Bitmap>,
    pub offsets: Vec<O>,
    pub data: Vec<u8>,
}

/// Row `i` is the run `offsets[i]..offsets[i + 1]` of the element array.
#[derive(Debug)]
pub struct ListArray<O> {
    pub validity: Option<Bitmap>,
    pub offsets: Vec<O>,
    pub element: Box<Array>,
}

/// Named child arrays of equal length.
#[derive(Debug)]
pub struct StructArray {
    pub len: usize,
    pub validity: Option<Bitmap>,
    pub fields: Vec<(String, Array)>,
}

/// Row `i` is row `offsets[i]` of child `types[i]`.
#[derive(Debug)]
pub struct DenseUnionArray {
    pub types: Vec<i8>,
    pub offsets: Vec<i32>,
    pub fields: Vec<Array>,
}

/// Indices into a table of distinct strings; the indices carry the nulls.
#[derive(Debug, Clone)]
pub struct DictionaryArray {
    pub keys: PrimitiveArray<u32>,
    pub values: BytesArray<i32>,
}

/// A finished column.
#[derive(Debug)]
pub enum Array {
    Null(NullArray),
    Boolean(BooleanArray),
    Int8(PrimitiveArray<i8>),
    Int16(PrimitiveArray<i16>),
    Int32(PrimitiveArray<i32>),
    Int64(PrimitiveArray<i64>),
    UInt8(PrimitiveArray<u8>),
    UInt16(PrimitiveArray<u16>),
    UInt32(PrimitiveArray<u32>),
    UInt64(PrimitiveArray<u64>),
    Date32(PrimitiveArray<i32>),
    Date64(PrimitiveArray<i64>),
    Utf8(BytesArray<i32>),
    LargeUtf8(BytesArray<i64>),
    List(ListArray<i32>),
    LargeList(ListArray<i64>),
    Struct(StructArray),
    /// A list of two-field (key, value) structs.
    Mapping(ListArray<i32>),
    DenseUnion(DenseUnionArray),
    Dictionary(DictionaryArray),
}

pub open spec fn primitive_row<T: Primitive>(a: PrimitiveArray<T>, i: int) -> ValueModel {
    if valid_at(a.validity, i) {
        primitive_model(a.values@[i])
    } else {
        ValueModel::Null
    }
}

/// The string of row `i` of a bytes column.
pub open spec fn bytes_str<O: Offset>(a: BytesArray<O>, i: int) -> Seq<char> {
    let offs = offset_ints(a.offsets@);
    decode_utf8(a.data@.subrange(offs[i], offs[i + 1]))
}

pub open spec fn bytes_row<O: Offset>(a: BytesArray<O>, i: int) -> ValueModel {
    if valid_at(a.validity, i) {
        ValueModel::Str(bytes_str(a, i))
    } else {
        ValueModel::Null
    }
}

/// Row `i` of a list array: the run of the element array between its
/// offsets.
pub open spec fn list_row<O: Offset>(l: ListArray<O>, i: int) -> ValueModel
    decreases l,
{
    if valid_at(l.validity, i) {
        let offs = offset_ints(l.offsets@);
        ValueModel::List(
            Seq::new((offs[i + 1] - offs[i]) as nat, |k: int| decode_row(*l.element, offs[i] + k)),
        )
    } else {
        ValueModel::Null
    }
}

/// Row `i` of a struct array: row `i` of every named child.
pub open spec fn struct_row(s: StructArray, i: int) -> ValueModel
    decreases s,
{
    if valid_at(s.validity, i) {
        ValueModel::Struct(
            Seq::new(
                s.fields@.len(),
                |k: int|
                    if 0 <= k < s.fields@.len() {
                        (s.fields@[k].0@, decode_row(s.fields@[k].1, i))
                    } else {
                        (Seq::empty(), ValueModel::Null)
                    },
            ),
        )
    } else {
        ValueModel::Null
    }
}

/// Row `i` of a map array: keys and values of the entries in its offset
/// range, paired by position.
pub open spec fn map_row(l: ListArray<i32>, i: int) -> ValueModel
    decreases l,
{
    if valid_at(l.validity, i) {
        let offs = offset_ints(l.offsets@);
        match *l.element {
            Array::Struct(entries) => if entries.fields@.len() == 2 {
                ValueModel::Mapping(
                    Seq::new(
                        (offs[i + 1] - offs[i]) as nat,
                        |k: int|
                            (
                                decode_row(entries.fields@[0].1, offs[i] + k),
                                decode_row(entries.fields@[1].1, offs[i] + k),
                            ),
                    ),
                )
            } else {
                ValueModel::Null
            },
            _ => ValueModel::Null,
        }
    } else {
        ValueModel::Null
    }
}

/// Row `i` of a dense union: its type id and row `offsets[i]` of that child.
pub open spec fn union_row(u: DenseUnionArray, i: int) -> ValueModel
    decreases u,
{
    let t = u.types@[i] as int;
    if 0 <= t < u.fields@.len() {
        ValueModel::Variant(t, Box::new(decode_row(u.fields@[t], u.offsets@[i] as int)))
    } else {
        ValueModel::Null
    }
}

/// The generic value of row `i` of an array.
pub open spec fn decode_row(a: Array, i: int) -> ValueModel
    decreases a,
{
    match a {
        Array::Null(_) => ValueModel::Null,
        Array::Boolean(b) => if valid_at(b.validity, i) {
            ValueModel::Bool(b.values@[i])
        } else {
            ValueModel::Null
        },
        Array::Int8(p) => primitive_row(p, i),
        Array::Int16(p) => primitive_row(p, i),
        Array::Int32(p) => primitive_row(p, i),
        Array::Int64(p) => primitive_row(p, i),
        Array::UInt8(p) => primitive_row(p, i),
        Array::UInt16(p) => primitive_row(p, i),
        Array::UInt32(p) => primitive_row(p, i),
        Array::UInt64(p) => primitive_row(p, i),
        Array::Date32(p) => primitive_row(p, i),
        Array::Date64(p) => primitive_row(p, i),
        Array::Utf8(b) => bytes_row(b, i),
        Array::LargeUtf8(b) => bytes_row(b, i),
        Array::List(l) => list_row(l, i),
        Array::LargeList(l) => list_row(l, i),
        Array::Struct(st) => struct_row(st, i),
        Array::Mapping(l) => map_row(l, i),
        Array::DenseUnion(u) => union_row(u, i),
        Array::Dictionary(d) => if valid_at(d.keys.validity, i) {
            ValueModel::Str(bytes_str(d.values, d.keys.values@[i] as int))
        } else {
            ValueModel::Null
        },
    }
}

/// The number of rows of an array.
pub open spec fn array_len(a: Array) -> int {
    match a {
        Array::Null(n) => n.len as int,
        Array::Boolean(b) => b.values@.len() as int,
        Array::Int8(p) => p.values@.len() as int,
        Array::Int16(p) => p.values@.len() as int,
        Array::Int32(p) => p.values@.len() as int,
        Array::Int64(p) => p.values@.len() as int,
        Array::UInt8(p) => p.values@.len() as int,
        Array::UInt16(p) => p.values@.len() as int,
        Array::UInt32(p) => p.values@.len() as int,
        Array::UInt64(p) => p.values@.len() as int,
        Array::Date32(p) => p.values@.len() as int,
        Array::Date64(p) => p.values@.len() as int,
        Array::Utf8(b) => if b.offsets@.len() == 0 {
            0
        } else {
            b.offsets@.len() - 1
        },
        Array::LargeUtf8(b) => if b.offsets@.len() == 0 {
            0
        } else {
            b.offsets@.len() - 1
        },
        Array::List(l) => if l.offsets@.len() == 0 {
            0
        } else {
            l.offsets@.len() - 1
        },
        Array::LargeList(l) => if l.offsets@.len() == 0 {
            0
        } else {
            l.offsets@.len() - 1
        },
        Array::Struct(s) => s.len as int,
        Array::Mapping(l) => if l.offsets@.len() == 0 {
            0
        } else {
            l.offsets@.len() - 1
        },
        Array::DenseUnion(u) => u.types@.len() as int,
        Array::Dictionary(d) => d.keys.values@.len() as int,
    }
}

/// The rows of an array as a sequence of generic values.
pub open spec fn decode_rows(a: Array) -> Seq<ValueModel> {
    Seq::new(array_len(a) as nat, |i: int| decode_row(a, i))
}

} // verus!
