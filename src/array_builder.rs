use vstd::prelude::*;

use crate::array::{bytes_row, decode_rows, Array, DictionaryArray};
use crate::dictionary_builder::{distinct_in_order, strings_in};
use crate::bool_builder::{BoolBuilder, NullBuilder};
use crate::dictionary_builder::DictionaryUtf8Builder;
use crate::error::{Error, ErrorKind};
use crate::list_builder::{list_room, list_rows, ListBuilder};
use crate::map_builder::{map_rows, MapBuilder};
use crate::offsets::Offset;
use crate::primitive::Primitive;
use crate::primitive_builder::PrimitiveBuilder;
use crate::shape::{accepts, default_model, shape_nullable, stored, Shape};
use crate::struct_builder::{flat_room, struct_rows, StructBuilder};
use crate::union_builder::{union_rows, UnionBuilder};
use crate::utf8_builder::Utf8Builder;
use crate::value::{Value, ValueModel};
use vstd::utf8::encode_utf8;

verus! {

/// One builder per column kind; every operation is forwarded to the
/// builder of the active kind.
#[derive(Debug)]
pub enum ArrayBuilder {
    Null(NullBuilder),
    Bool(BoolBuilder),
    I8(PrimitiveBuilder<i8>),
    I16(PrimitiveBuilder<i16>),
    I32(PrimitiveBuilder<i32>),
    I64(PrimitiveBuilder<i64>),
    U8(PrimitiveBuilder<u8>),
    U16(PrimitiveBuilder<u16>),
    U32(PrimitiveBuilder<u32>),
    U64(PrimitiveBuilder<u64>),
    Date32(PrimitiveBuilder<i32>),
    Date64(PrimitiveBuilder<i64>),
    Utf8(Utf8Builder<i32>),
    LargeUtf8(Utf8Builder<i64>),
    List(ListBuilder<i32>),
    LargeList(ListBuilder<i64>),
    Struct(StructBuilder),
    Mapping(MapBuilder),
    Union(UnionBuilder),
    DictionaryUtf8(DictionaryUtf8Builder),
}

/// The names and schemas of the children of a struct builder.
pub open spec fn struct_children_shape(x: StructBuilder) -> Seq<(Seq<char>, Shape)>
    decreases x,
{
    Seq::new(
        x.fields@.len(),
        |k: int|
            if 0 <= k < x.fields@.len() {
                (x.fields@[k].0@, builder_shape(x.fields@[k].1))
            } else {
                (Seq::empty(), Shape::Null)
            },
    )
}

/// The names and rows of the children of a struct builder.
pub open spec fn struct_children_rows(x: StructBuilder) -> Seq<(Seq<char>, Seq<ValueModel>)>
    decreases x,
{
    Seq::new(
        x.fields@.len(),
        |k: int|
            if 0 <= k < x.fields@.len() {
                (x.fields@[k].0@, builder_rows(x.fields@[k].1))
            } else {
                (Seq::empty(), Seq::empty())
            },
    )
}

/// The schemas of the variants of a union builder.
pub open spec fn union_children_shape(x: UnionBuilder) -> Seq<Shape>
    decreases x,
{
    Seq::new(
        x.fields@.len(),
        |k: int|
            if 0 <= k < x.fields@.len() {
                builder_shape(x.fields@[k])
            } else {
                Shape::Null
            },
    )
}

/// The rows of the variants of a union builder.
pub open spec fn union_children_rows(x: UnionBuilder) -> Seq<Seq<ValueModel>>
    decreases x,
{
    Seq::new(
        x.fields@.len(),
        |k: int|
            if 0 <= k < x.fields@.len() {
                builder_rows(x.fields@[k])
            } else {
                Seq::empty()
            },
    )
}

pub open spec fn int_shape<T: Primitive>(b: PrimitiveBuilder<T>) -> Shape {
    Shape::Int { signed: T::spec_signed(), min: T::spec_min(), max: T::spec_max(), nullable: b.nullable() }
}

/// The schema of a builder.
#[verifier::opaque]
pub open spec fn builder_shape(b: ArrayBuilder) -> Shape
    decreases b,
{
    match b {
        ArrayBuilder::Null(_) => Shape::Null,
        ArrayBuilder::Bool(x) => Shape::Bool { nullable: x.nullable() },
        ArrayBuilder::I8(x) => int_shape(x),
        ArrayBuilder::I16(x) => int_shape(x),
        ArrayBuilder::I32(x) => int_shape(x),
        ArrayBuilder::I64(x) => int_shape(x),
        ArrayBuilder::U8(x) => int_shape(x),
        ArrayBuilder::U16(x) => int_shape(x),
        ArrayBuilder::U32(x) => int_shape(x),
        ArrayBuilder::U64(x) => int_shape(x),
        ArrayBuilder::Date32(x) => int_shape(x),
        ArrayBuilder::Date64(x) => int_shape(x),
        ArrayBuilder::Utf8(x) => Shape::Str { nullable: x.nullable() },
        ArrayBuilder::LargeUtf8(x) => Shape::Str { nullable: x.nullable() },
        ArrayBuilder::List(x) => Shape::List {
            nullable: x.offsets.validity is Some,
            element: Box::new(builder_shape(*x.element)),
        },
        ArrayBuilder::LargeList(x) => Shape::List {
            nullable: x.offsets.validity is Some,
            element: Box::new(builder_shape(*x.element)),
        },
        ArrayBuilder::Struct(x) => Shape::Struct { nullable: x.validity is Some, fields: struct_children_shape(x) },
        ArrayBuilder::Mapping(x) => Shape::Mapping {
            nullable: x.offsets.validity is Some,
            key: Box::new(builder_shape(*x.keys)),
            value: Box::new(builder_shape(*x.values)),
        },
        ArrayBuilder::Union(x) => Shape::Union { variants: union_children_shape(x) },
        ArrayBuilder::DictionaryUtf8(x) => Shape::Str { nullable: x.nullable() },
    }
}

/// A push of `v` into a scalar column fits its capacity: the row count,
/// and for strings the offsets. Nested and dictionary columns never count
/// as having room here.
pub open spec fn scalar_room(b: ArrayBuilder, v: ValueModel) -> bool {
    &&& builder_rows(b).len() < usize::MAX - 16
    &&& match b {
        ArrayBuilder::Utf8(x) => match v {
            ValueModel::Str(s) => x.offsets.last() + encode_utf8(s).len() <= i32::MAX,
            _ => true,
        },
        ArrayBuilder::LargeUtf8(x) => match v {
            ValueModel::Str(s) => x.offsets.last() + encode_utf8(s).len() <= <i64 as Offset>::spec_max(),
            _ => true,
        },
        ArrayBuilder::Null(_) | ArrayBuilder::Bool(_) | ArrayBuilder::I8(_) | ArrayBuilder::I16(_)
        | ArrayBuilder::I32(_) | ArrayBuilder::I64(_) | ArrayBuilder::U8(_) | ArrayBuilder::U16(_)
        | ArrayBuilder::U32(_) | ArrayBuilder::U64(_) | ArrayBuilder::Date32(_)
        | ArrayBuilder::Date64(_) => true,
        _ => false,
    }
}

/// A push of `v` that the builder promises to take: a scalar value with
/// room; a null or empty list or map; a struct or variant whose values go
/// to scalar children with room; a string the dictionary holds or has room
/// for.
pub open spec fn room(b: ArrayBuilder, v: ValueModel) -> bool {
    match b {
        ArrayBuilder::List(x) => list_room(x, v),
        ArrayBuilder::LargeList(x) => list_room(x, v),
        ArrayBuilder::Mapping(x) => x.rows().len() < usize::MAX - 16 && (v is Null || v
            == ValueModel::Mapping(Seq::empty())),
        ArrayBuilder::Struct(x) => x.len < usize::MAX - 16 && flat_room(x, v),
        ArrayBuilder::Union(x) => x.types@.len() < usize::MAX - 16 && (v matches ValueModel::Variant(
            idx,
            p,
        ) && 0 <= idx < x.fields@.len() && accepts(builder_shape(x.fields@[idx]), *p)
            && scalar_room(x.fields@[idx], *p) && builder_rows(x.fields@[idx]).len() <= i32::MAX),
        ArrayBuilder::DictionaryUtf8(x) => x.len_spec() < usize::MAX - 16 && (v matches ValueModel::Str(
            t,
        ) ==> x.dictionary().contains(t) || (x.dictionary().len() < u32::MAX && x.values.len_spec()
            < usize::MAX - 16 && x.values.offsets.last() + encode_utf8(t).len() <= i32::MAX)),
        _ => scalar_room(b, v),
    }
}

/// A default row that the builder promises to take: any kind with room but
/// a union, and a struct whose children are of such kinds but structs.
pub open spec fn default_room(b: ArrayBuilder) -> bool {
    match b {
        ArrayBuilder::Struct(x) => x.len < usize::MAX - 16 && forall|k: int|
            0 <= k < x.fields@.len() ==> leaf_default_room(#[trigger] x.fields@[k].1),
        _ => leaf_default_room(b),
    }
}

/// `default_room` of a builder that is not a struct.
pub open spec fn leaf_default_room(b: ArrayBuilder) -> bool {
    &&& builder_rows(b).len() < usize::MAX - 16
    &&& match b {
        ArrayBuilder::Union(_) | ArrayBuilder::Struct(_) => false,
        ArrayBuilder::DictionaryUtf8(x) => x.dictionary().contains(Seq::empty()) || (
        x.dictionary().len() < u32::MAX && x.values.len_spec() < usize::MAX - 16),
        _ => true,
    }
}

/// The entries of `struct_children_shape`.
pub proof fn lemma_struct_children_shape(x: StructBuilder)
    ensures
        struct_children_shape(x).len() == x.fields@.len(),
        forall|j: int|
            0 <= j < x.fields@.len() ==> #[trigger] struct_children_shape(x)[j] == (
            x.fields@[j].0@,
            builder_shape(x.fields@[j].1),
        ),
{
    reveal_with_fuel(struct_children_shape, 2);
    reveal_with_fuel(builder_shape, 2);
}

/// The entries of `union_children_shape`.
pub proof fn lemma_union_children_shape(u: UnionBuilder)
    ensures
        union_children_shape(u).len() == u.fields@.len(),
        forall|j: int|
            0 <= j < u.fields@.len() ==> #[trigger] union_children_shape(u)[j] == builder_shape(
                u.fields@[j],
            ),
{
    reveal_with_fuel(union_children_shape, 2);
    reveal_with_fuel(builder_shape, 2);
}

/// A dictionary array holds one index per row and, without nulls, the
/// distinct strings of the rows, each once, in order of first appearance.
pub open spec fn dictionary_array_of(x: DictionaryUtf8Builder, d: DictionaryArray) -> bool {
    &&& d.keys == x.indices
    &&& d.values.validity is None
    &&& d.values.offsets@.len() == x.dictionary().len() + 1
    &&& forall|k: int|
        0 <= k < x.dictionary().len() ==> bytes_row(d.values, k) == ValueModel::Str(
            #[trigger] x.dictionary()[k],
        )
    &&& x.dictionary().no_duplicates()
    &&& x.dictionary().to_set() == strings_in(x.rows())
    &&& x.dictionary().len() == strings_in(x.rows()).len()
    &&& x.dictionary() == distinct_in_order(x.rows())
}

/// A builder of a column of a fixed-width kind: null, boolean, integer or
/// date.
pub open spec fn fixed_width(b: ArrayBuilder) -> bool {
    b is Null || b is Bool || b is I8 || b is I16 || b is I32 || b is I64 || b is U8 || b is U16
        || b is U32 || b is U64 || b is Date32 || b is Date64
}

/// A builder of a scalar or dictionary column, with no nested builder.
pub open spec fn leaf_kind(b: ArrayBuilder) -> bool {
    !(b is List || b is LargeList || b is Struct || b is Mapping || b is Union)
}

/// The array a builder finishes is of the builder's kind.
pub open spec fn array_of_kind(b: ArrayBuilder, a: Array) -> bool {
    match b {
        ArrayBuilder::Null(_) => a is Null,
        ArrayBuilder::Bool(_) => a is Boolean,
        ArrayBuilder::I8(_) => a is Int8,
        ArrayBuilder::I16(_) => a is Int16,
        ArrayBuilder::I32(_) => a is Int32,
        ArrayBuilder::I64(_) => a is Int64,
        ArrayBuilder::U8(_) => a is UInt8,
        ArrayBuilder::U16(_) => a is UInt16,
        ArrayBuilder::U32(_) => a is UInt32,
        ArrayBuilder::U64(_) => a is UInt64,
        ArrayBuilder::Date32(_) => a is Date32,
        ArrayBuilder::Date64(_) => a is Date64,
        ArrayBuilder::Utf8(_) => a is Utf8,
        ArrayBuilder::LargeUtf8(_) => a is LargeUtf8,
        ArrayBuilder::List(_) => a is List,
        ArrayBuilder::LargeList(_) => a is LargeList,
        ArrayBuilder::Struct(_) => a is Struct,
        ArrayBuilder::Mapping(_) => a is Mapping,
        ArrayBuilder::Union(_) => a is DenseUnion,
        ArrayBuilder::DictionaryUtf8(_) => a is Dictionary,
    }
}

/// The dotted path of the column a builder fills.
pub open spec fn builder_path(b: ArrayBuilder) -> String {
    match b {
        ArrayBuilder::Null(x) => x.path,
        ArrayBuilder::Bool(x) => x.path,
        ArrayBuilder::I8(x) => x.path,
        ArrayBuilder::I16(x) => x.path,
        ArrayBuilder::I32(x) => x.path,
        ArrayBuilder::I64(x) => x.path,
        ArrayBuilder::U8(x) => x.path,
        ArrayBuilder::U16(x) => x.path,
        ArrayBuilder::U32(x) => x.path,
        ArrayBuilder::U64(x) => x.path,
        ArrayBuilder::Date32(x) => x.path,
        ArrayBuilder::Date64(x) => x.path,
        ArrayBuilder::Utf8(x) => x.path,
        ArrayBuilder::LargeUtf8(x) => x.path,
        ArrayBuilder::List(x) => x.path,
        ArrayBuilder::LargeList(x) => x.path,
        ArrayBuilder::Struct(x) => x.path,
        ArrayBuilder::Mapping(x) => x.path,
        ArrayBuilder::Union(x) => x.path,
        ArrayBuilder::DictionaryUtf8(x) => x.path,
    }
}

/// Two builders of the same kind.
pub open spec fn same_kind(a: ArrayBuilder, b: ArrayBuilder) -> bool {
    match (a, b) {
        (ArrayBuilder::Null(_), ArrayBuilder::Null(_)) => true,
        (ArrayBuilder::Bool(_), ArrayBuilder::Bool(_)) => true,
        (ArrayBuilder::I8(_), ArrayBuilder::I8(_)) => true,
        (ArrayBuilder::I16(_), ArrayBuilder::I16(_)) => true,
        (ArrayBuilder::I32(_), ArrayBuilder::I32(_)) => true,
        (ArrayBuilder::I64(_), ArrayBuilder::I64(_)) => true,
        (ArrayBuilder::U8(_), ArrayBuilder::U8(_)) => true,
        (ArrayBuilder::U16(_), ArrayBuilder::U16(_)) => true,
        (ArrayBuilder::U32(_), ArrayBuilder::U32(_)) => true,
        (ArrayBuilder::U64(_), ArrayBuilder::U64(_)) => true,
        (ArrayBuilder::Date32(_), ArrayBuilder::Date32(_)) => true,
        (ArrayBuilder::Date64(_), ArrayBuilder::Date64(_)) => true,
        (ArrayBuilder::Utf8(_), ArrayBuilder::Utf8(_)) => true,
        (ArrayBuilder::LargeUtf8(_), ArrayBuilder::LargeUtf8(_)) => true,
        (ArrayBuilder::List(_), ArrayBuilder::List(_)) => true,
        (ArrayBuilder::LargeList(_), ArrayBuilder::LargeList(_)) => true,
        (ArrayBuilder::Struct(_), ArrayBuilder::Struct(_)) => true,
        (ArrayBuilder::Mapping(_), ArrayBuilder::Mapping(_)) => true,
        (ArrayBuilder::Union(_), ArrayBuilder::Union(_)) => true,
        (ArrayBuilder::DictionaryUtf8(_), ArrayBuilder::DictionaryUtf8(_)) => true,
        _ => false,
    }
}

/// The rows written so far.
#[verifier::opaque]
pub open spec fn builder_rows(b: ArrayBuilder) -> Seq<ValueModel>
    decreases b,
{
    match b {
        ArrayBuilder::Null(x) => x.rows(),
        ArrayBuilder::Bool(x) => x.rows(),
        ArrayBuilder::I8(x) => x.rows(),
        ArrayBuilder::I16(x) => x.rows(),
        ArrayBuilder::I32(x) => x.rows(),
        ArrayBuilder::I64(x) => x.rows(),
        ArrayBuilder::U8(x) => x.rows(),
        ArrayBuilder::U16(x) => x.rows(),
        ArrayBuilder::U32(x) => x.rows(),
        ArrayBuilder::U64(x) => x.rows(),
        ArrayBuilder::Date32(x) => x.rows(),
        ArrayBuilder::Date64(x) => x.rows(),
        ArrayBuilder::Utf8(x) => x.rows(),
        ArrayBuilder::LargeUtf8(x) => x.rows(),
        ArrayBuilder::List(x) => list_rows(x.offsets, builder_rows(*x.element)),
        ArrayBuilder::LargeList(x) => list_rows(x.offsets, builder_rows(*x.element)),
        ArrayBuilder::Struct(x) => struct_rows(x.len as nat, x.validity, struct_children_rows(x)),
        ArrayBuilder::Mapping(x) => map_rows(x.offsets, builder_rows(*x.keys), builder_rows(*x.values)),
        ArrayBuilder::Union(x) => union_rows(x.types@, x.offsets@, union_children_rows(x)),
        ArrayBuilder::DictionaryUtf8(x) => x.rows(),
    }
}

/// Well-formedness of a builder and of every builder nested in it.
#[verifier::opaque]
pub open spec fn builder_wf(b: ArrayBuilder) -> bool
    decreases b,
{
    match b {
        ArrayBuilder::Null(_) => true,
        ArrayBuilder::Bool(x) => x.wf(),
        ArrayBuilder::I8(x) => x.wf(),
        ArrayBuilder::I16(x) => x.wf(),
        ArrayBuilder::I32(x) => x.wf(),
        ArrayBuilder::I64(x) => x.wf(),
        ArrayBuilder::U8(x) => x.wf(),
        ArrayBuilder::U16(x) => x.wf(),
        ArrayBuilder::U32(x) => x.wf(),
        ArrayBuilder::U64(x) => x.wf(),
        ArrayBuilder::Date32(x) => x.wf(),
        ArrayBuilder::Date64(x) => x.wf(),
        ArrayBuilder::Utf8(x) => x.wf(),
        ArrayBuilder::LargeUtf8(x) => x.wf(),
        ArrayBuilder::List(x) => x.offsets.wf() && builder_wf(*x.element)
            && builder_rows(*x.element).len() == x.offsets.last(),
        ArrayBuilder::LargeList(x) => x.offsets.wf() && builder_wf(*x.element)
            && builder_rows(*x.element).len() == x.offsets.last(),
        ArrayBuilder::Struct(x) => x.layout_wf() && forall|k: int|
            0 <= k < x.fields@.len() ==> builder_wf(#[trigger] x.fields@[k].1) && builder_rows(
                x.fields@[k].1,
            ).len() == x.len,
        ArrayBuilder::Mapping(x) => x.offsets.wf() && builder_wf(*x.keys) && builder_wf(*x.values)
            && builder_rows(*x.keys).len() == x.offsets.last()
            && builder_rows(*x.values).len() == x.offsets.last(),
        ArrayBuilder::Union(x) => x.layout_wf() && (forall|k: int|
            0 <= k < x.fields@.len() ==> builder_wf(#[trigger] x.fields@[k])) && (forall|i: int|
            0 <= i < x.types@.len() ==> (x.offsets@[i] as int) < builder_rows(
                x.fields@[#[trigger] x.types@[i] as int],
            ).len()),
        ArrayBuilder::DictionaryUtf8(x) => x.wf(),
    }
}

pub proof fn lemma_unfold_null(x: NullBuilder)
    ensures
        builder_shape(ArrayBuilder::Null(x)) == (Shape::Null),
        builder_rows(ArrayBuilder::Null(x)) == x.rows(),
        builder_wf(ArrayBuilder::Null(x)),
{
    reveal(builder_shape);
    reveal(builder_rows);
    reveal(builder_wf);
}

pub proof fn lemma_unfold_bool(x: BoolBuilder)
    ensures
        builder_shape(ArrayBuilder::Bool(x)) == (Shape::Bool { nullable: x.nullable() }),
        builder_rows(ArrayBuilder::Bool(x)) == x.rows(),
        builder_wf(ArrayBuilder::Bool(x)) == x.wf(),
{
    reveal(builder_shape);
    reveal(builder_rows);
    reveal(builder_wf);
}

pub proof fn lemma_unfold_i8(x: PrimitiveBuilder<i8>)
    ensures
        builder_shape(ArrayBuilder::I8(x)) == (int_shape(x)),
        builder_rows(ArrayBuilder::I8(x)) == x.rows(),
        builder_wf(ArrayBuilder::I8(x)) == x.wf(),
{
    reveal(builder_shape);
    reveal(builder_rows);
    reveal(builder_wf);
}

pub proof fn lemma_unfold_i16(x: PrimitiveBuilder<i16>)
    ensures
        builder_shape(ArrayBuilder::I16(x)) == (int_shape(x)),
        builder_rows(ArrayBuilder::I16(x)) == x.rows(),
        builder_wf(ArrayBuilder::I16(x)) == x.wf(),
{
    reveal(builder_shape);
    reveal(builder_rows);
    reveal(builder_wf);
}

pub proof fn lemma_unfold_i32(x: PrimitiveBuilder<i32>)
    ensures
        builder_shape(ArrayBuilder::I32(x)) == (int_shape(x)),
        builder_rows(ArrayBuilder::I32(x)) == x.rows(),
        builder_wf(ArrayBuilder::I32(x)) == x.wf(),
{
    reveal(builder_shape);
    reveal(builder_rows);
    reveal(builder_wf);
}

pub proof fn lemma_unfold_i64(x: PrimitiveBuilder<i64>)
    ensures
        builder_shape(ArrayBuilder::I64(x)) == (int_shape(x)),
        builder_rows(ArrayBuilder::I64(x)) == x.rows(),
        builder_wf(ArrayBuilder::I64(x)) == x.wf(),
{
    reveal(builder_shape);
    reveal(builder_rows);
    reveal(builder_wf);
}

pub proof fn lemma_unfold_u8(x: PrimitiveBuilder<u8>)
    ensures
        builder_shape(ArrayBuilder::U8(x)) == (int_shape(x)),
        builder_rows(ArrayBuilder::U8(x)) == x.rows(),
        builder_wf(ArrayBuilder::U8(x)) == x.wf(),
{
    reveal(builder_shape);
    reveal(builder_rows);
    reveal(builder_wf);
}

pub proof fn lemma_unfold_u16(x: PrimitiveBuilder<u16>)
    ensures
        builder_shape(ArrayBuilder::U16(x)) == (int_shape(x)),
        builder_rows(ArrayBuilder::U16(x)) == x.rows(),
        builder_wf(ArrayBuilder::U16(x)) == x.wf(),
{
    reveal(builder_shape);
    reveal(builder_rows);
    reveal(builder_wf);
}

pub proof fn lemma_unfold_u32(x: PrimitiveBuilder<u32>)
    ensures
        builder_shape(ArrayBuilder::U32(x)) == (int_shape(x)),
        builder_rows(ArrayBuilder::U32(x)) == x.rows(),
        builder_wf(ArrayBuilder::U32(x)) == x.wf(),
{
    reveal(builder_shape);
    reveal(builder_rows);
    reveal(builder_wf);
}

pub proof fn lemma_unfold_u64(x: PrimitiveBuilder<u64>)
    ensures
        builder_shape(ArrayBuilder::U64(x)) == (int_shape(x)),
        builder_rows(ArrayBuilder::U64(x)) == x.rows(),
        builder_wf(ArrayBuilder::U64(x)) == x.wf(),
{
    reveal(builder_shape);
    reveal(builder_rows);
    reveal(builder_wf);
}

pub proof fn lemma_unfold_date32(x: PrimitiveBuilder<i32>)
    ensures
        builder_shape(ArrayBuilder::Date32(x)) == (int_shape(x)),
        builder_rows(ArrayBuilder::Date32(x)) == x.rows(),
        builder_wf(ArrayBuilder::Date32(x)) == x.wf(),
{
    reveal(builder_shape);
    reveal(builder_rows);
    reveal(builder_wf);
}

pub proof fn lemma_unfold_date64(x: PrimitiveBuilder<i64>)
    ensures
        builder_shape(ArrayBuilder::Date64(x)) == (int_shape(x)),
        builder_rows(ArrayBuilder::Date64(x)) == x.rows(),
        builder_wf(ArrayBuilder::Date64(x)) == x.wf(),
{
    reveal(builder_shape);
    reveal(builder_rows);
    reveal(builder_wf);
}

pub proof fn lemma_unfold_utf8(x: Utf8Builder<i32>)
    ensures
        builder_shape(ArrayBuilder::Utf8(x)) == (Shape::Str { nullable: x.nullable() }),
        builder_rows(ArrayBuilder::Utf8(x)) == x.rows(),
        builder_wf(ArrayBuilder::Utf8(x)) == x.wf(),
{
    reveal(builder_shape);
    reveal(builder_rows);
    reveal(builder_wf);
}

pub proof fn lemma_unfold_largeutf8(x: Utf8Builder<i64>)
    ensures
        builder_shape(ArrayBuilder::LargeUtf8(x)) == (Shape::Str { nullable: x.nullable() }),
        builder_rows(ArrayBuilder::LargeUtf8(x)) == x.rows(),
        builder_wf(ArrayBuilder::LargeUtf8(x)) == x.wf(),
{
    reveal(builder_shape);
    reveal(builder_rows);
    reveal(builder_wf);
}

pub proof fn lemma_unfold_list(x: ListBuilder<i32>)
    ensures
        builder_shape(ArrayBuilder::List(x)) == (x.shape()),
        builder_rows(ArrayBuilder::List(x)) == x.rows(),
        builder_wf(ArrayBuilder::List(x)) == x.wf(),
{
    reveal(builder_shape);
    reveal(builder_rows);
    reveal(builder_wf);
}

pub proof fn lemma_unfold_largelist(x: ListBuilder<i64>)
    ensures
        builder_shape(ArrayBuilder::LargeList(x)) == (x.shape()),
        builder_rows(ArrayBuilder::LargeList(x)) == x.rows(),
        builder_wf(ArrayBuilder::LargeList(x)) == x.wf(),
{
    reveal(builder_shape);
    reveal(builder_rows);
    reveal(builder_wf);
}

pub proof fn lemma_unfold_struct(x: StructBuilder)
    ensures
        builder_shape(ArrayBuilder::Struct(x)) == (x.shape()),
        builder_rows(ArrayBuilder::Struct(x)) == x.rows(),
        builder_wf(ArrayBuilder::Struct(x)) == x.wf(),
{
    reveal(builder_shape);
    reveal(builder_rows);
    reveal(builder_wf);
}

pub proof fn lemma_unfold_mapping(x: MapBuilder)
    ensures
        builder_shape(ArrayBuilder::Mapping(x)) == (x.shape()),
        builder_rows(ArrayBuilder::Mapping(x)) == x.rows(),
        builder_wf(ArrayBuilder::Mapping(x)) == x.wf(),
{
    reveal(builder_shape);
    reveal(builder_rows);
    reveal(builder_wf);
}

pub proof fn lemma_unfold_union(x: UnionBuilder)
    ensures
        builder_shape(ArrayBuilder::Union(x)) == (x.shape()),
        builder_rows(ArrayBuilder::Union(x)) == x.rows(),
        builder_wf(ArrayBuilder::Union(x)) == x.wf(),
{
    reveal(builder_shape);
    reveal(builder_rows);
    reveal(builder_wf);
}

pub proof fn lemma_unfold_dictionaryutf8(x: DictionaryUtf8Builder)
    ensures
        builder_shape(ArrayBuilder::DictionaryUtf8(x)) == (Shape::Str { nullable: x.nullable() }),
        builder_rows(ArrayBuilder::DictionaryUtf8(x)) == x.rows(),
        builder_wf(ArrayBuilder::DictionaryUtf8(x)) == x.wf(),
{
    reveal(builder_shape);
    reveal(builder_rows);
    reveal(builder_wf);
}

/// The builder of the active kind is well formed and holds no rows.
pub open spec fn builder_parts_empty(b: ArrayBuilder) -> bool {
    match b {
        ArrayBuilder::Null(x) => x.rows().len() == 0,
        ArrayBuilder::Bool(x) => x.wf() && x.rows().len() == 0,
        ArrayBuilder::I8(x) => x.wf() && x.rows().len() == 0,
        ArrayBuilder::I16(x) => x.wf() && x.rows().len() == 0,
        ArrayBuilder::I32(x) => x.wf() && x.rows().len() == 0,
        ArrayBuilder::I64(x) => x.wf() && x.rows().len() == 0,
        ArrayBuilder::U8(x) => x.wf() && x.rows().len() == 0,
        ArrayBuilder::U16(x) => x.wf() && x.rows().len() == 0,
        ArrayBuilder::U32(x) => x.wf() && x.rows().len() == 0,
        ArrayBuilder::U64(x) => x.wf() && x.rows().len() == 0,
        ArrayBuilder::Date32(x) => x.wf() && x.rows().len() == 0,
        ArrayBuilder::Date64(x) => x.wf() && x.rows().len() == 0,
        ArrayBuilder::Utf8(x) => x.wf() && x.rows().len() == 0,
        ArrayBuilder::LargeUtf8(x) => x.wf() && x.rows().len() == 0,
        ArrayBuilder::List(x) => x.wf() && x.rows().len() == 0,
        ArrayBuilder::LargeList(x) => x.wf() && x.rows().len() == 0,
        ArrayBuilder::Struct(x) => x.wf() && x.rows().len() == 0,
        ArrayBuilder::Mapping(x) => x.wf() && x.rows().len() == 0,
        ArrayBuilder::Union(x) => x.wf() && x.rows().len() == 0,
        ArrayBuilder::DictionaryUtf8(x) => x.wf() && x.rows().len() == 0,
    }
}

/// A builder whose active kind is empty and well formed is so as a whole.
pub proof fn lemma_new_builder(b: ArrayBuilder)
    requires
        builder_parts_empty(b),
    ensures
        builder_wf(b),
        builder_rows(b).len() == 0,
{
    match b {
        ArrayBuilder::Null(x) => lemma_unfold_null(x),
        ArrayBuilder::Bool(x) => lemma_unfold_bool(x),
        ArrayBuilder::I8(x) => lemma_unfold_i8(x),
        ArrayBuilder::I16(x) => lemma_unfold_i16(x),
        ArrayBuilder::I32(x) => lemma_unfold_i32(x),
        ArrayBuilder::I64(x) => lemma_unfold_i64(x),
        ArrayBuilder::U8(x) => lemma_unfold_u8(x),
        ArrayBuilder::U16(x) => lemma_unfold_u16(x),
        ArrayBuilder::U32(x) => lemma_unfold_u32(x),
        ArrayBuilder::U64(x) => lemma_unfold_u64(x),
        ArrayBuilder::Date32(x) => lemma_unfold_date32(x),
        ArrayBuilder::Date64(x) => lemma_unfold_date64(x),
        ArrayBuilder::Utf8(x) => lemma_unfold_utf8(x),
        ArrayBuilder::LargeUtf8(x) => lemma_unfold_largeutf8(x),
        ArrayBuilder::List(x) => lemma_unfold_list(x),
        ArrayBuilder::LargeList(x) => lemma_unfold_largelist(x),
        ArrayBuilder::Struct(x) => lemma_unfold_struct(x),
        ArrayBuilder::Mapping(x) => lemma_unfold_mapping(x),
        ArrayBuilder::Union(x) => lemma_unfold_union(x),
        ArrayBuilder::DictionaryUtf8(x) => lemma_unfold_dictionaryutf8(x),
    }
}

fn push_int<T: Primitive>(b: &mut PrimitiveBuilder<T>, v: &Value) -> (r: Result<(), Error>)
    requires
        old(b).wf(),
    ensures
        r matches Err(e) ==> e.field is None,
        r is Err ==> *final(b) == *old(b),
        r is Ok ==> final(b).wf(),
        r is Ok ==> accepts(int_shape(*old(b)), v@),
        int_shape(*final(b)) == int_shape(*old(b)),
        r is Ok ==> final(b).rows() == old(b).rows().push(stored(int_shape(*old(b)), v@)),
        accepts(int_shape(*old(b)), v@) && old(b).len_spec() < usize::MAX - 16 ==> r is Ok,
{
    if b.len() >= usize::MAX - 16 {
        return Err(Error::new(ErrorKind::Representation, "too many rows"));
    }
    b.push(v)
}

fn push_bool(b: &mut BoolBuilder, v: &Value) -> (r: Result<(), Error>)
    requires
        old(b).wf(),
    ensures
        r matches Err(e) ==> e.field is None,
        r is Err ==> *final(b) == *old(b),
        r is Ok ==> final(b).wf(),
        r is Ok ==> accepts(Shape::Bool { nullable: old(b).nullable() }, v@),
        final(b).nullable() == old(b).nullable(),
        r is Ok ==> final(b).rows() == old(b).rows().push(
            stored(Shape::Bool { nullable: old(b).nullable() }, v@),
        ),
        accepts(Shape::Bool { nullable: old(b).nullable() }, v@) && old(b).len_spec() < usize::MAX - 16 ==> r is Ok,
{
    if b.len() >= usize::MAX - 16 {
        return Err(Error::new(ErrorKind::Representation, "too many rows"));
    }
    b.push(v)
}

fn push_null(b: &mut NullBuilder, v: &Value) -> (r: Result<(), Error>)
    ensures
        r matches Err(e) ==> e.field is None,
        r is Err ==> *final(b) == *old(b),
        r is Ok ==> accepts(Shape::Null, v@),
        r is Ok ==> final(b).rows() == old(b).rows().push(stored(Shape::Null, v@)),
        accepts(Shape::Null, v@) && old(b).len < usize::MAX - 16 ==> r is Ok,
{
    if b.len >= usize::MAX - 16 {
        return Err(Error::new(ErrorKind::Representation, "too many rows"));
    }
    b.push(v)
}

fn push_utf8<O: Offset>(b: &mut Utf8Builder<O>, v: &Value) -> (r: Result<(), Error>)
    requires
        old(b).wf(),
    ensures
        r matches Err(e) ==> e.field is None,
        r is Err ==> *final(b) == *old(b),
        r is Ok ==> final(b).wf(),
        r is Ok ==> accepts(Shape::Str { nullable: old(b).nullable() }, v@),
        final(b).nullable() == old(b).nullable(),
        r is Ok ==> final(b).rows() == old(b).rows().push(
            stored(Shape::Str { nullable: old(b).nullable() }, v@),
        ),
        accepts(Shape::Str { nullable: old(b).nullable() }, v@) && old(b).len_spec() < usize::MAX - 16
            && (v@ matches ValueModel::Str(s) ==> old(b).offsets.last() + encode_utf8(s).len() <= O::spec_max())
            ==> r is Ok,
{
    if b.len() >= usize::MAX - 16 {
        return Err(Error::new(ErrorKind::Representation, "too many rows"));
    }
    b.push(v)
}

fn push_dictionary(b: &mut DictionaryUtf8Builder, v: &Value) -> (r: Result<(), Error>)
    requires
        old(b).wf(),
    ensures
        r matches Err(e) ==> e.field is None,
        r is Err ==> *final(b) == *old(b),
        accepts(Shape::Str { nullable: old(b).nullable() }, v@) && old(b).len_spec() < usize::MAX - 16 && (
        v@ matches ValueModel::Str(t) ==> old(b).dictionary().contains(t) || (old(b).dictionary().len()
            < u32::MAX && old(b).values.len_spec() < usize::MAX - 16 && old(b).values.offsets.last()
            + encode_utf8(t).len() <= i32::MAX)) ==> r is Ok,
        r is Ok ==> final(b).wf(),
        r is Ok ==> accepts(Shape::Str { nullable: old(b).nullable() }, v@),
        final(b).nullable() == old(b).nullable(),
        r is Ok ==> final(b).rows() == old(b).rows().push(
            stored(Shape::Str { nullable: old(b).nullable() }, v@),
        ),
{
    if b.len() >= usize::MAX - 16 {
        return Err(Error::new(ErrorKind::Representation, "too many rows"));
    }
    b.push(v)
}

impl ArrayBuilder {
    pub open spec fn shape(&self) -> Shape {
        builder_shape(*self)
    }

    pub open spec fn rows(&self) -> Seq<ValueModel> {
        builder_rows(*self)
    }

    pub open spec fn wf(&self) -> bool {
        builder_wf(*self)
    }

    /// Append a generic value to the column; a failure carries the path of
    /// the column where it occurred.
    pub fn push(&mut self, v: &Value) -> (r: Result<(), Error>)
        requires
            old(self).wf(),
        ensures
            r is Ok ==> final(self).wf(),
            r is Ok ==> accepts(old(self).shape(), v@),
            r is Ok ==> final(self).shape() == old(self).shape(),
            r is Ok ==> final(self).rows() == old(self).rows().push(stored(old(self).shape(), v@)),
            accepts(old(self).shape(), v@) && room(*old(self), v@) ==> r is Ok,
            same_kind(*old(self), *final(self)),
            r matches Err(e) ==> e.field is Some,
            leaf_kind(*old(self)) && r is Err ==> *final(self) == *old(self),
            leaf_kind(*old(self)) ==> (r matches Err(e) ==> e.field == Some(builder_path(*old(self)))),
        decreases v, 1int,
    {
        let r = match self {
            ArrayBuilder::Null(b) => {
                proof {
                    lemma_unfold_null(*b);
                }
                let r = push_null(b, v);
                proof {
                    lemma_unfold_null(*b);
                }
                r
            },
            ArrayBuilder::Bool(b) => {
                proof {
                    lemma_unfold_bool(*b);
                }
                let r = push_bool(b, v);
                proof {
                    lemma_unfold_bool(*b);
                }
                r
            },
            ArrayBuilder::I8(b) => {
                proof {
                    lemma_unfold_i8(*b);
                }
                let r = push_int(b, v);
                proof {
                    lemma_unfold_i8(*b);
                }
                r
            },
            ArrayBuilder::I16(b) => {
                proof {
                    lemma_unfold_i16(*b);
                }
                let r = push_int(b, v);
                proof {
                    lemma_unfold_i16(*b);
                }
                r
            },
            ArrayBuilder::I32(b) => {
                proof {
                    lemma_unfold_i32(*b);
                }
                let r = push_int(b, v);
                proof {
                    lemma_unfold_i32(*b);
                }
                r
            },
            ArrayBuilder::I64(b) => {
                proof {
                    lemma_unfold_i64(*b);
                }
                let r = push_int(b, v);
                proof {
                    lemma_unfold_i64(*b);
                }
                r
            },
            ArrayBuilder::U8(b) => {
                proof {
                    lemma_unfold_u8(*b);
                }
                let r = push_int(b, v);
                proof {
                    lemma_unfold_u8(*b);
                }
                r
            },
            ArrayBuilder::U16(b) => {
                proof {
                    lemma_unfold_u16(*b);
                }
                let r = push_int(b, v);
                proof {
                    lemma_unfold_u16(*b);
                }
                r
            },
            ArrayBuilder::U32(b) => {
                proof {
                    lemma_unfold_u32(*b);
                }
                let r = push_int(b, v);
                proof {
                    lemma_unfold_u32(*b);
                }
                r
            },
            ArrayBuilder::U64(b) => {
                proof {
                    lemma_unfold_u64(*b);
                }
                let r = push_int(b, v);
                proof {
                    lemma_unfold_u64(*b);
                }
                r
            },
            ArrayBuilder::Date32(b) => {
                proof {
                    lemma_unfold_date32(*b);
                }
                let r = push_int(b, v);
                proof {
                    lemma_unfold_date32(*b);
                }
                r
            },
            ArrayBuilder::Date64(b) => {
                proof {
                    lemma_unfold_date64(*b);
                }
                let r = push_int(b, v);
                proof {
                    lemma_unfold_date64(*b);
                }
                r
            },
            ArrayBuilder::Utf8(b) => {
                proof {
                    lemma_unfold_utf8(*b);
                }
                let r = push_utf8(b, v);
                proof {
                    lemma_unfold_utf8(*b);
                }
                r
            },
            ArrayBuilder::LargeUtf8(b) => {
                proof {
                    lemma_unfold_largeutf8(*b);
                }
                let r = push_utf8(b, v);
                proof {
                    lemma_unfold_largeutf8(*b);
                }
                r
            },
            ArrayBuilder::List(b) => {
                proof {
                    lemma_unfold_list(*b);
                }
                let r = b.push(v);
                proof {
                    lemma_unfold_list(*b);
                }
                r
            },
            ArrayBuilder::LargeList(b) => {
                proof {
                    lemma_unfold_largelist(*b);
                }
                let r = b.push(v);
                proof {
                    lemma_unfold_largelist(*b);
                }
                r
            },
            ArrayBuilder::Struct(b) => {
                proof {
                    lemma_unfold_struct(*b);
                }
                let r = b.push(v);
                proof {
                    lemma_unfold_struct(*b);
                }
                r
            },
            ArrayBuilder::Mapping(b) => {
                proof {
                    lemma_unfold_mapping(*b);
                }
                let r = b.push(v);
                proof {
                    lemma_unfold_mapping(*b);
                }
                r
            },
            ArrayBuilder::Union(b) => {
                proof {
                    lemma_unfold_union(*b);
                }
                let r = b.push(v);
                proof {
                    lemma_unfold_union(*b);
                }
                r
            },
            ArrayBuilder::DictionaryUtf8(b) => {
                proof {
                    lemma_unfold_dictionaryutf8(*b);
                }
                let r = push_dictionary(b, v);
                proof {
                    lemma_unfold_dictionaryutf8(*b);
                }
                r
            },
        };
        match r {
            Ok(()) => Ok(()),
            Err(e) => Err(e.annotate(self.path())),
        }
    }

    /// The number of rows written so far.
    pub fn len(&self) -> (r: usize)
        requires
            self.wf(),
        ensures
            r == self.rows().len(),
    {
        match self {
            ArrayBuilder::Null(b) => {
                proof {
                    lemma_unfold_null(*b);
                }
                b.len
            },
            ArrayBuilder::Bool(b) => {
                proof {
                    lemma_unfold_bool(*b);
                }
                b.len()
            },
            ArrayBuilder::I8(b) => {
                proof {
                    lemma_unfold_i8(*b);
                }
                b.len()
            },
            ArrayBuilder::I16(b) => {
                proof {
                    lemma_unfold_i16(*b);
                }
                b.len()
            },
            ArrayBuilder::I32(b) => {
                proof {
                    lemma_unfold_i32(*b);
                }
                b.len()
            },
            ArrayBuilder::I64(b) => {
                proof {
                    lemma_unfold_i64(*b);
                }
                b.len()
            },
            ArrayBuilder::U8(b) => {
                proof {
                    lemma_unfold_u8(*b);
                }
                b.len()
            },
            ArrayBuilder::U16(b) => {
                proof {
                    lemma_unfold_u16(*b);
                }
                b.len()
            },
            ArrayBuilder::U32(b) => {
                proof {
                    lemma_unfold_u32(*b);
                }
                b.len()
            },
            ArrayBuilder::U64(b) => {
                proof {
                    lemma_unfold_u64(*b);
                }
                b.len()
            },
            ArrayBuilder::Date32(b) => {
                proof {
                    lemma_unfold_date32(*b);
                }
                b.len()
            },
            ArrayBuilder::Date64(b) => {
                proof {
                    lemma_unfold_date64(*b);
                }
                b.len()
            },
            ArrayBuilder::Utf8(b) => {
                proof {
                    lemma_unfold_utf8(*b);
                }
                b.len()
            },
            ArrayBuilder::LargeUtf8(b) => {
                proof {
                    lemma_unfold_largeutf8(*b);
                }
                b.len()
            },
            ArrayBuilder::List(b) => {
                proof {
                    lemma_unfold_list(*b);
                }
                b.len()
            },
            ArrayBuilder::LargeList(b) => {
                proof {
                    lemma_unfold_largelist(*b);
                }
                b.len()
            },
            ArrayBuilder::Struct(b) => {
                proof {
                    lemma_unfold_struct(*b);
                }
                b.len
            },
            ArrayBuilder::Mapping(b) => {
                proof {
                    lemma_unfold_mapping(*b);
                }
                b.offsets.len()
            },
            ArrayBuilder::Union(b) => {
                proof {
                    lemma_unfold_union(*b);
                }
                b.types.len()
            },
            ArrayBuilder::DictionaryUtf8(b) => {
                proof {
                    lemma_unfold_dictionaryutf8(*b);
                }
                b.len()
            },
        }
    }

    /// Whether the column takes nulls.
    pub fn is_nullable(&self) -> (r: bool)
        ensures
            r == shape_nullable(self.shape()),
    {
        match self {
            ArrayBuilder::Null(b) => {
                proof {
                    lemma_unfold_null(*b);
                }
                true
            },
            ArrayBuilder::Bool(b) => {
                proof {
                    lemma_unfold_bool(*b);
                }
                b.is_nullable()
            },
            ArrayBuilder::I8(b) => {
                proof {
                    lemma_unfold_i8(*b);
                }
                b.is_nullable()
            },
            ArrayBuilder::I16(b) => {
                proof {
                    lemma_unfold_i16(*b);
                }
                b.is_nullable()
            },
            ArrayBuilder::I32(b) => {
                proof {
                    lemma_unfold_i32(*b);
                }
                b.is_nullable()
            },
            ArrayBuilder::I64(b) => {
                proof {
                    lemma_unfold_i64(*b);
                }
                b.is_nullable()
            },
            ArrayBuilder::U8(b) => {
                proof {
                    lemma_unfold_u8(*b);
                }
                b.is_nullable()
            },
            ArrayBuilder::U16(b) => {
                proof {
                    lemma_unfold_u16(*b);
                }
                b.is_nullable()
            },
            ArrayBuilder::U32(b) => {
                proof {
                    lemma_unfold_u32(*b);
                }
                b.is_nullable()
            },
            ArrayBuilder::U64(b) => {
                proof {
                    lemma_unfold_u64(*b);
                }
                b.is_nullable()
            },
            ArrayBuilder::Date32(b) => {
                proof {
                    lemma_unfold_date32(*b);
                }
                b.is_nullable()
            },
            ArrayBuilder::Date64(b) => {
                proof {
                    lemma_unfold_date64(*b);
                }
                b.is_nullable()
            },
            ArrayBuilder::Utf8(b) => {
                proof {
                    lemma_unfold_utf8(*b);
                }
                b.is_nullable()
            },
            ArrayBuilder::LargeUtf8(b) => {
                proof {
                    lemma_unfold_largeutf8(*b);
                }
                b.is_nullable()
            },
            ArrayBuilder::List(b) => {
                proof {
                    lemma_unfold_list(*b);
                }
                b.is_nullable()
            },
            ArrayBuilder::LargeList(b) => {
                proof {
                    lemma_unfold_largelist(*b);
                }
                b.is_nullable()
            },
            ArrayBuilder::Struct(b) => {
                proof {
                    lemma_unfold_struct(*b);
                }
                b.validity.is_some()
            },
            ArrayBuilder::Mapping(b) => {
                proof {
                    lemma_unfold_mapping(*b);
                }
                b.offsets.is_nullable()
            },
            ArrayBuilder::Union(b) => {
                proof {
                    lemma_unfold_union(*b);
                }
                false
            },
            ArrayBuilder::DictionaryUtf8(b) => {
                proof {
                    lemma_unfold_dictionaryutf8(*b);
                }
                b.is_nullable()
            },
        }
    }

    /// Detach the rows written so far, leaving an empty builder of the same
    /// shape behind, so that a column can go on taking rows while the
    /// detached ones are finished.
    pub fn take(&mut self) -> (r: ArrayBuilder)
        requires
            old(self).wf(),
        ensures
            same_kind(r, *old(self)),
            same_kind(*final(self), *old(self)),
            builder_path(r) == builder_path(*old(self)),
            builder_path(*final(self)) == builder_path(*old(self)),
            r.wf(),
            r.shape() == old(self).shape(),
            r.rows() == old(self).rows(),
            final(self).wf(),
            final(self).shape() == old(self).shape(),
            final(self).rows().len() == 0,
        decreases *old(self), 1int,
    {
        match self {
            ArrayBuilder::Null(b) => {
                proof {
                    lemma_unfold_null(*b);
                }
                let t = b.take();
                proof {
                    lemma_unfold_null(*b);
                    lemma_unfold_null(t);
                }
                ArrayBuilder::Null(t)
            },
            ArrayBuilder::Bool(b) => {
                proof {
                    lemma_unfold_bool(*b);
                }
                let t = b.take();
                proof {
                    lemma_unfold_bool(*b);
                    lemma_unfold_bool(t);
                }
                ArrayBuilder::Bool(t)
            },
            ArrayBuilder::I8(b) => {
                proof {
                    lemma_unfold_i8(*b);
                }
                let t = b.take();
                proof {
                    lemma_unfold_i8(*b);
                    lemma_unfold_i8(t);
                }
                ArrayBuilder::I8(t)
            },
            ArrayBuilder::I16(b) => {
                proof {
                    lemma_unfold_i16(*b);
                }
                let t = b.take();
                proof {
                    lemma_unfold_i16(*b);
                    lemma_unfold_i16(t);
                }
                ArrayBuilder::I16(t)
            },
            ArrayBuilder::I32(b) => {
                proof {
                    lemma_unfold_i32(*b);
                }
                let t = b.take();
                proof {
                    lemma_unfold_i32(*b);
                    lemma_unfold_i32(t);
                }
                ArrayBuilder::I32(t)
            },
            ArrayBuilder::I64(b) => {
                proof {
                    lemma_unfold_i64(*b);
                }
                let t = b.take();
                proof {
                    lemma_unfold_i64(*b);
                    lemma_unfold_i64(t);
                }
                ArrayBuilder::I64(t)
            },
            ArrayBuilder::U8(b) => {
                proof {
                    lemma_unfold_u8(*b);
                }
                let t = b.take();
                proof {
                    lemma_unfold_u8(*b);
                    lemma_unfold_u8(t);
                }
                ArrayBuilder::U8(t)
            },
            ArrayBuilder::U16(b) => {
                proof {
                    lemma_unfold_u16(*b);
                }
                let t = b.take();
                proof {
                    lemma_unfold_u16(*b);
                    lemma_unfold_u16(t);
                }
                ArrayBuilder::U16(t)
            },
            ArrayBuilder::U32(b) => {
                proof {
                    lemma_unfold_u32(*b);
                }
                let t = b.take();
                proof {
                    lemma_unfold_u32(*b);
                    lemma_unfold_u32(t);
                }
                ArrayBuilder::U32(t)
            },
            ArrayBuilder::U64(b) => {
                proof {
                    lemma_unfold_u64(*b);
                }
                let t = b.take();
                proof {
                    lemma_unfold_u64(*b);
                    lemma_unfold_u64(t);
                }
                ArrayBuilder::U64(t)
            },
            ArrayBuilder::Date32(b) => {
                proof {
                    lemma_unfold_date32(*b);
                }
                let t = b.take();
                proof {
                    lemma_unfold_date32(*b);
                    lemma_unfold_date32(t);
                }
                ArrayBuilder::Date32(t)
            },
            ArrayBuilder::Date64(b) => {
                proof {
                    lemma_unfold_date64(*b);
                }
                let t = b.take();
                proof {
                    lemma_unfold_date64(*b);
                    lemma_unfold_date64(t);
                }
                ArrayBuilder::Date64(t)
            },
            ArrayBuilder::Utf8(b) => {
                proof {
                    lemma_unfold_utf8(*b);
                }
                let t = b.take();
                proof {
                    lemma_unfold_utf8(*b);
                    lemma_unfold_utf8(t);
                }
                ArrayBuilder::Utf8(t)
            },
            ArrayBuilder::LargeUtf8(b) => {
                proof {
                    lemma_unfold_largeutf8(*b);
                }
                let t = b.take();
                proof {
                    lemma_unfold_largeutf8(*b);
                    lemma_unfold_largeutf8(t);
                }
                ArrayBuilder::LargeUtf8(t)
            },
            ArrayBuilder::List(b) => {
                proof {
                    lemma_unfold_list(*b);
                }
                let t = b.take();
                proof {
                    lemma_unfold_list(*b);
                    lemma_unfold_list(t);
                }
                ArrayBuilder::List(t)
            },
            ArrayBuilder::LargeList(b) => {
                proof {
                    lemma_unfold_largelist(*b);
                }
                let t = b.take();
                proof {
                    lemma_unfold_largelist(*b);
                    lemma_unfold_largelist(t);
                }
                ArrayBuilder::LargeList(t)
            },
            ArrayBuilder::Struct(b) => {
                proof {
                    lemma_unfold_struct(*b);
                }
                let t = b.take();
                proof {
                    lemma_unfold_struct(*b);
                    lemma_unfold_struct(t);
                }
                ArrayBuilder::Struct(t)
            },
            ArrayBuilder::Mapping(b) => {
                proof {
                    lemma_unfold_mapping(*b);
                }
                let t = b.take();
                proof {
                    lemma_unfold_mapping(*b);
                    lemma_unfold_mapping(t);
                }
                ArrayBuilder::Mapping(t)
            },
            ArrayBuilder::Union(b) => {
                proof {
                    lemma_unfold_union(*b);
                }
                let t = b.take();
                proof {
                    lemma_unfold_union(*b);
                    lemma_unfold_union(t);
                }
                ArrayBuilder::Union(t)
            },
            ArrayBuilder::DictionaryUtf8(b) => {
                proof {
                    lemma_unfold_dictionaryutf8(*b);
                }
                let t = b.take();
                proof {
                    lemma_unfold_dictionaryutf8(*b);
                    lemma_unfold_dictionaryutf8(t);
                }
                ArrayBuilder::DictionaryUtf8(t)
            },
        }
    }

    /// The dotted path of the column.
    pub fn path(&self) -> (r: &String)
        ensures
            *r == builder_path(*self),
    {
        match self {
            ArrayBuilder::Null(b) => &b.path,
            ArrayBuilder::Bool(b) => &b.path,
            ArrayBuilder::I8(b) => &b.path,
            ArrayBuilder::I16(b) => &b.path,
            ArrayBuilder::I32(b) => &b.path,
            ArrayBuilder::I64(b) => &b.path,
            ArrayBuilder::U8(b) => &b.path,
            ArrayBuilder::U16(b) => &b.path,
            ArrayBuilder::U32(b) => &b.path,
            ArrayBuilder::U64(b) => &b.path,
            ArrayBuilder::Date32(b) => &b.path,
            ArrayBuilder::Date64(b) => &b.path,
            ArrayBuilder::Utf8(b) => &b.path,
            ArrayBuilder::LargeUtf8(b) => &b.path,
            ArrayBuilder::List(b) => &b.path,
            ArrayBuilder::LargeList(b) => &b.path,
            ArrayBuilder::Struct(b) => &b.path,
            ArrayBuilder::Mapping(b) => &b.path,
            ArrayBuilder::Union(b) => &b.path,
            ArrayBuilder::DictionaryUtf8(b) => &b.path,
        }
    }

    /// Append a present default row (zero, `false`, empty string, list or
    /// map; a struct of defaults); a union has no default.
    #[verifier::spinoff_prover]
    #[verifier::rlimit(100)]
    pub fn push_default(&mut self) -> (r: Result<(), Error>)
        requires
            old(self).wf(),
        ensures
            r is Ok ==> final(self).wf(),
            r is Ok ==> final(self).shape() == old(self).shape(),
            r is Ok ==> final(self).rows().len() == old(self).rows().len() + 1,
            r is Ok ==> final(self).rows().subrange(0, old(self).rows().len() as int) == old(self).rows(),
            default_room(*old(self)) ==> r is Ok,
            r is Ok && !(*old(self) is Struct) ==> final(self).rows() == old(self).rows().push(
                default_model(old(self).shape()),
            ),
        decreases *old(self), 3int,
    {
        let ghost old_rows = self.rows();
        match self {
            ArrayBuilder::Null(b) => {
                proof {
                    lemma_unfold_null(*b);
                }
                if b.len >= usize::MAX - 16 {
                    return Err(Error::new(ErrorKind::Representation, "too many rows"));
                }
                b.push(&Value::Null)?;
                proof {
                    lemma_unfold_null(*b);
                    assert(b.rows().subrange(0, old_rows.len() as int) =~= old_rows);
                }
                Ok(())
            },
            ArrayBuilder::Bool(b) => {
                proof {
                    lemma_unfold_bool(*b);
                }
                if b.len() >= usize::MAX - 16 {
                    return Err(Error::new(ErrorKind::Representation, "too many rows"));
                }
                b.push_default();
                proof {
                    lemma_unfold_bool(*b);
                    assert(b.rows().subrange(0, old_rows.len() as int) =~= old_rows);
                }
                Ok(())
            },
            ArrayBuilder::I8(b) => {
                proof {
                    lemma_unfold_i8(*b);
                }
                if b.len() >= usize::MAX - 16 {
                    return Err(Error::new(ErrorKind::Representation, "too many rows"));
                }
                b.push_default();
                proof {
                    lemma_unfold_i8(*b);
                    assert(b.rows().subrange(0, old_rows.len() as int) =~= old_rows);
                }
                Ok(())
            },
            ArrayBuilder::I16(b) => {
                proof {
                    lemma_unfold_i16(*b);
                }
                if b.len() >= usize::MAX - 16 {
                    return Err(Error::new(ErrorKind::Representation, "too many rows"));
                }
                b.push_default();
                proof {
                    lemma_unfold_i16(*b);
                    assert(b.rows().subrange(0, old_rows.len() as int) =~= old_rows);
                }
                Ok(())
            },
            ArrayBuilder::I32(b) => {
                proof {
                    lemma_unfold_i32(*b);
                }
                if b.len() >= usize::MAX - 16 {
                    return Err(Error::new(ErrorKind::Representation, "too many rows"));
                }
                b.push_default();
                proof {
                    lemma_unfold_i32(*b);
                    assert(b.rows().subrange(0, old_rows.len() as int) =~= old_rows);
                }
                Ok(())
            },
            ArrayBuilder::I64(b) => {
                proof {
                    lemma_unfold_i64(*b);
                }
                if b.len() >= usize::MAX - 16 {
                    return Err(Error::new(ErrorKind::Representation, "too many rows"));
                }
                b.push_default();
                proof {
                    lemma_unfold_i64(*b);
                    assert(b.rows().subrange(0, old_rows.len() as int) =~= old_rows);
                }
                Ok(())
            },
            ArrayBuilder::U8(b) => {
                proof {
                    lemma_unfold_u8(*b);
                }
                if b.len() >= usize::MAX - 16 {
                    return Err(Error::new(ErrorKind::Representation, "too many rows"));
                }
                b.push_default();
                proof {
                    lemma_unfold_u8(*b);
                    assert(b.rows().subrange(0, old_rows.len() as int) =~= old_rows);
                }
                Ok(())
            },
            ArrayBuilder::U16(b) => {
                proof {
                    lemma_unfold_u16(*b);
                }
                if b.len() >= usize::MAX - 16 {
                    return Err(Error::new(ErrorKind::Representation, "too many rows"));
                }
                b.push_default();
                proof {
                    lemma_unfold_u16(*b);
                    assert(b.rows().subrange(0, old_rows.len() as int) =~= old_rows);
                }
                Ok(())
            },
            ArrayBuilder::U32(b) => {
                proof {
                    lemma_unfold_u32(*b);
                }
                if b.len() >= usize::MAX - 16 {
                    return Err(Error::new(ErrorKind::Representation, "too many rows"));
                }
                b.push_default();
                proof {
                    lemma_unfold_u32(*b);
                    assert(b.rows().subrange(0, old_rows.len() as int) =~= old_rows);
                }
                Ok(())
            },
            ArrayBuilder::U64(b) => {
                proof {
                    lemma_unfold_u64(*b);
                }
                if b.len() >= usize::MAX - 16 {
                    return Err(Error::new(ErrorKind::Representation, "too many rows"));
                }
                b.push_default();
                proof {
                    lemma_unfold_u64(*b);
                    assert(b.rows().subrange(0, old_rows.len() as int) =~= old_rows);
                }
                Ok(())
            },
            ArrayBuilder::Date32(b) => {
                proof {
                    lemma_unfold_date32(*b);
                }
                if b.len() >= usize::MAX - 16 {
                    return Err(Error::new(ErrorKind::Representation, "too many rows"));
                }
                b.push_default();
                proof {
                    lemma_unfold_date32(*b);
                    assert(b.rows().subrange(0, old_rows.len() as int) =~= old_rows);
                }
                Ok(())
            },
            ArrayBuilder::Date64(b) => {
                proof {
                    lemma_unfold_date64(*b);
                }
                if b.len() >= usize::MAX - 16 {
                    return Err(Error::new(ErrorKind::Representation, "too many rows"));
                }
                b.push_default();
                proof {
                    lemma_unfold_date64(*b);
                    assert(b.rows().subrange(0, old_rows.len() as int) =~= old_rows);
                }
                Ok(())
            },
            ArrayBuilder::Utf8(b) => {
                proof {
                    lemma_unfold_utf8(*b);
                }
                if b.len() >= usize::MAX - 16 {
                    return Err(Error::new(ErrorKind::Representation, "too many rows"));
                }
                b.push_default()?;
                proof {
                    lemma_unfold_utf8(*b);
                    assert(b.rows().subrange(0, old_rows.len() as int) =~= old_rows);
                }
                Ok(())
            },
            ArrayBuilder::LargeUtf8(b) => {
                proof {
                    lemma_unfold_largeutf8(*b);
                }
                if b.len() >= usize::MAX - 16 {
                    return Err(Error::new(ErrorKind::Representation, "too many rows"));
                }
                b.push_default()?;
                proof {
                    lemma_unfold_largeutf8(*b);
                    assert(b.rows().subrange(0, old_rows.len() as int) =~= old_rows);
                }
                Ok(())
            },
            ArrayBuilder::List(b) => {
                proof {
                    lemma_unfold_list(*b);
                }
                b.push_default()?;
                proof {
                    lemma_unfold_list(*b);
                    assert(b.rows().subrange(0, old_rows.len() as int) =~= old_rows);
                }
                Ok(())
            },
            ArrayBuilder::LargeList(b) => {
                proof {
                    lemma_unfold_largelist(*b);
                }
                b.push_default()?;
                proof {
                    lemma_unfold_largelist(*b);
                    assert(b.rows().subrange(0, old_rows.len() as int) =~= old_rows);
                }
                Ok(())
            },
            ArrayBuilder::Struct(b) => {
                proof {
                    lemma_unfold_struct(*b);
                }
                b.push_default()?;
                proof {
                    lemma_unfold_struct(*b);
                }
                Ok(())
            },
            ArrayBuilder::Mapping(b) => {
                proof {
                    lemma_unfold_mapping(*b);
                }
                b.push_default()?;
                proof {
                    lemma_unfold_mapping(*b);
                    assert(b.rows().subrange(0, old_rows.len() as int) =~= old_rows);
                }
                Ok(())
            },
            ArrayBuilder::Union(_) => Err(Error::new(ErrorKind::ProtocolMisuse, "a union has no default")),
            ArrayBuilder::DictionaryUtf8(b) => {
                proof {
                    lemma_unfold_dictionaryutf8(*b);
                }
                if b.len() >= usize::MAX - 16 {
                    return Err(Error::new(ErrorKind::Representation, "too many rows"));
                }
                b.push_str(&String::new())?;
                proof {
                    lemma_unfold_dictionaryutf8(*b);
                    assert(b.rows().subrange(0, old_rows.len() as int) =~= old_rows);
                }
                Ok(())
            },
        }
    }

    /// The finished array; the builder is consumed.
    pub fn into_array(self) -> (r: Array)
        requires
            self.wf(),
        ensures
            array_of_kind(self, r),
            decode_rows(r) == self.rows(),
            self matches ArrayBuilder::DictionaryUtf8(x) ==> dictionary_array_of(x, r->Dictionary_0),
        decreases self, 1int,
    {
        match self {
            ArrayBuilder::Null(b) => {
                proof {
                    lemma_unfold_null(b);
                }
                let ghost rows = b.rows();
                let r = Array::Null(b.into_array());
                assert(decode_rows(r) =~= rows);
                r
            },
            ArrayBuilder::Bool(b) => {
                proof {
                    lemma_unfold_bool(b);
                }
                let ghost rows = b.rows();
                let r = Array::Boolean(b.into_array());
                assert(decode_rows(r) =~= rows);
                r
            },
            ArrayBuilder::I8(b) => {
                proof {
                    lemma_unfold_i8(b);
                }
                let ghost rows = b.rows();
                let r = Array::Int8(b.into_array());
                assert(decode_rows(r) =~= rows);
                r
            },
            ArrayBuilder::I16(b) => {
                proof {
                    lemma_unfold_i16(b);
                }
                let ghost rows = b.rows();
                let r = Array::Int16(b.into_array());
                assert(decode_rows(r) =~= rows);
                r
            },
            ArrayBuilder::I32(b) => {
                proof {
                    lemma_unfold_i32(b);
                }
                let ghost rows = b.rows();
                let r = Array::Int32(b.into_array());
                assert(decode_rows(r) =~= rows);
                r
            },
            ArrayBuilder::I64(b) => {
                proof {
                    lemma_unfold_i64(b);
                }
                let ghost rows = b.rows();
                let r = Array::Int64(b.into_array());
                assert(decode_rows(r) =~= rows);
                r
            },
            ArrayBuilder::U8(b) => {
                proof {
                    lemma_unfold_u8(b);
                }
                let ghost rows = b.rows();
                let r = Array::UInt8(b.into_array());
                assert(decode_rows(r) =~= rows);
                r
            },
            ArrayBuilder::U16(b) => {
                proof {
                    lemma_unfold_u16(b);
                }
                let ghost rows = b.rows();
                let r = Array::UInt16(b.into_array());
                assert(decode_rows(r) =~= rows);
                r
            },
            ArrayBuilder::U32(b) => {
                proof {
                    lemma_unfold_u32(b);
                }
                let ghost rows = b.rows();
                let r = Array::UInt32(b.into_array());
                assert(decode_rows(r) =~= rows);
                r
            },
            ArrayBuilder::U64(b) => {
                proof {
                    lemma_unfold_u64(b);
                }
                let ghost rows = b.rows();
                let r = Array::UInt64(b.into_array());
                assert(decode_rows(r) =~= rows);
                r
            },
            ArrayBuilder::Date32(b) => {
                proof {
                    lemma_unfold_date32(b);
                }
                let ghost rows = b.rows();
                let r = Array::Date32(b.into_array());
                assert(decode_rows(r) =~= rows);
                r
            },
            ArrayBuilder::Date64(b) => {
                proof {
                    lemma_unfold_date64(b);
                }
                let ghost rows = b.rows();
                let r = Array::Date64(b.into_array());
                assert(decode_rows(r) =~= rows);
                r
            },
            ArrayBuilder::Utf8(b) => {
                proof {
                    lemma_unfold_utf8(b);
                }
                let ghost rows = b.rows();
                let r = b.into_array();
                assert(decode_rows(r) =~= rows);
                r
            },
            ArrayBuilder::LargeUtf8(b) => {
                proof {
                    lemma_unfold_largeutf8(b);
                }
                let ghost rows = b.rows();
                let r = b.into_array();
                assert(decode_rows(r) =~= rows);
                r
            },
            ArrayBuilder::List(b) => {
                proof {
                    lemma_unfold_list(b);
                }
                b.into_array()
            },
            ArrayBuilder::LargeList(b) => {
                proof {
                    lemma_unfold_largelist(b);
                }
                b.into_array()
            },
            ArrayBuilder::Struct(b) => {
                proof {
                    lemma_unfold_struct(b);
                }
                b.into_array()
            },
            ArrayBuilder::Mapping(b) => {
                proof {
                    lemma_unfold_mapping(b);
                }
                b.into_array()
            },
            ArrayBuilder::Union(b) => {
                proof {
                    lemma_unfold_union(b);
                }
                b.into_array()
            },
            ArrayBuilder::DictionaryUtf8(b) => {
                proof {
                    lemma_unfold_dictionaryutf8(b);
                    crate::dictionary_builder::lemma_dictionary_uniqueness(b);
                }
                let ghost rows = b.rows();
                let r = Array::Dictionary(b.into_array());
                assert(decode_rows(r) =~= rows);
                r
            },
        }
    }
}

} // verus!
