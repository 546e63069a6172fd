use vstd::prelude::*;
use vstd::string::StringExecFns;

use crate::array_builder::{
    builder_rows, builder_shape, builder_wf, struct_children_shape, union_children_shape, ArrayBuilder,
};
use crate::shape::Shape;
use crate::bool_builder::{BoolBuilder, NullBuilder};
use crate::dictionary_builder::DictionaryUtf8Builder;
use crate::error::{Error, ErrorKind};
use crate::list_builder::ListBuilder;
use crate::map_builder::MapBuilder;
use crate::offsets::OffsetsArray;
use crate::primitive_builder::PrimitiveBuilder;
use crate::schema::{GenericDataType, GenericField};
use crate::struct_builder::StructBuilder;
use crate::union_builder::UnionBuilder;
use crate::utf8_builder::Utf8Builder;

verus! {

/// The dotted path of a child column.
pub fn child_path(parent: &String, name: &String) -> (r: String)
    ensures
        r@ == parent@ + "."@ + name@,
{
    let mut r = parent.clone();
    r.append(".");
    r.append(name.as_str());
    r
}

/// Whether a builder can be made for `f`: a supported kind, a list with
/// exactly one child, a map with one entries child of two children, a union
/// of at most 127 variants, and every child buildable.
pub open spec fn buildable(f: GenericField) -> bool
    decreases f,
{
    match f.data_type {
        GenericDataType::Null | GenericDataType::Bool | GenericDataType::I8 | GenericDataType::I16
        | GenericDataType::I32 | GenericDataType::I64 | GenericDataType::U8 | GenericDataType::U16
        | GenericDataType::U32 | GenericDataType::U64 | GenericDataType::Date32
        | GenericDataType::Date64 | GenericDataType::Utf8 | GenericDataType::LargeUtf8
        | GenericDataType::Dictionary => true,
        GenericDataType::List | GenericDataType::LargeList => f.children@.len() == 1 && buildable(
            f.children@[0],
        ),
        GenericDataType::Struct => forall|k: int|
            0 <= k < f.children@.len() ==> buildable(#[trigger] f.children@[k]),
        GenericDataType::Mapping => f.children@.len() == 1 && f.children@[0].children@.len() == 2
            && buildable(f.children@[0].children@[0]) && buildable(f.children@[0].children@[1]),
        GenericDataType::Union => f.children@.len() <= 127 && forall|k: int|
            0 <= k < f.children@.len() ==> buildable(#[trigger] f.children@[k]),
        _ => false,
    }
}

/// The schema of the column that `f` describes.
pub open spec fn field_shape(f: GenericField) -> Shape
    decreases f,
{
    let nullable = f.nullable;
    match f.data_type {
        GenericDataType::Null => Shape::Null,
        GenericDataType::Bool => Shape::Bool { nullable },
        GenericDataType::I8 => Shape::Int { signed: true, min: i8::MIN as int, max: i8::MAX as int, nullable },
        GenericDataType::I16 => Shape::Int { signed: true, min: i16::MIN as int, max: i16::MAX as int, nullable },
        GenericDataType::I32 | GenericDataType::Date32 => Shape::Int {
            signed: true,
            min: i32::MIN as int,
            max: i32::MAX as int,
            nullable,
        },
        GenericDataType::I64 | GenericDataType::Date64 => Shape::Int {
            signed: true,
            min: i64::MIN as int,
            max: i64::MAX as int,
            nullable,
        },
        GenericDataType::U8 => Shape::Int { signed: false, min: 0, max: u8::MAX as int, nullable },
        GenericDataType::U16 => Shape::Int { signed: false, min: 0, max: u16::MAX as int, nullable },
        GenericDataType::U32 => Shape::Int { signed: false, min: 0, max: u32::MAX as int, nullable },
        GenericDataType::U64 => Shape::Int { signed: false, min: 0, max: u64::MAX as int, nullable },
        GenericDataType::Utf8 | GenericDataType::LargeUtf8 | GenericDataType::Dictionary => Shape::Str {
            nullable,
        },
        GenericDataType::List | GenericDataType::LargeList => if f.children@.len() >= 1 {
            Shape::List { nullable, element: Box::new(field_shape(f.children@[0])) }
        } else {
            Shape::Null
        },
        GenericDataType::Struct => Shape::Struct {
            nullable,
            fields: Seq::new(
                f.children@.len(),
                |k: int|
                    if 0 <= k < f.children@.len() {
                        (f.children@[k].name@, field_shape(f.children@[k]))
                    } else {
                        (Seq::empty(), Shape::Null)
                    },
            ),
        },
        GenericDataType::Mapping => if f.children@.len() >= 1 && f.children@[0].children@.len() >= 2 {
            Shape::Mapping {
                nullable,
                key: Box::new(field_shape(f.children@[0].children@[0])),
                value: Box::new(field_shape(f.children@[0].children@[1])),
            }
        } else {
            Shape::Null
        },
        GenericDataType::Union => Shape::Union {
            variants: Seq::new(
                f.children@.len(),
                |k: int|
                    if 0 <= k < f.children@.len() {
                        field_shape(f.children@[k])
                    } else {
                        Shape::Null
                    },
            ),
        },
        _ => Shape::Null,
    }
}

/// An empty builder for the column that `field` describes, at `path`;
/// fails on kinds that cannot be built and on children that do not fit the
/// kind.
pub fn build_array_builder(path: String, field: &GenericField) -> (r: Result<ArrayBuilder, Error>)
    ensures
        r is Ok <==> buildable(*field),
        r matches Ok(b) ==> b.wf() && b.rows().len() == 0,
        r matches Ok(b) ==> b.shape() == field_shape(*field),
    decreases field,
{
    let nullable = field.nullable;
    let b = match field.data_type {
        GenericDataType::Null => ArrayBuilder::Null(NullBuilder::new(path)),
        GenericDataType::Bool => ArrayBuilder::Bool(BoolBuilder::new(path, nullable)),
        GenericDataType::I8 => ArrayBuilder::I8(PrimitiveBuilder::new(path, nullable)),
        GenericDataType::I16 => ArrayBuilder::I16(PrimitiveBuilder::new(path, nullable)),
        GenericDataType::I32 => ArrayBuilder::I32(PrimitiveBuilder::new(path, nullable)),
        GenericDataType::I64 => ArrayBuilder::I64(PrimitiveBuilder::new(path, nullable)),
        GenericDataType::U8 => ArrayBuilder::U8(PrimitiveBuilder::new(path, nullable)),
        GenericDataType::U16 => ArrayBuilder::U16(PrimitiveBuilder::new(path, nullable)),
        GenericDataType::U32 => ArrayBuilder::U32(PrimitiveBuilder::new(path, nullable)),
        GenericDataType::U64 => ArrayBuilder::U64(PrimitiveBuilder::new(path, nullable)),
        GenericDataType::Date32 => ArrayBuilder::Date32(PrimitiveBuilder::new(path, nullable)),
        GenericDataType::Date64 => ArrayBuilder::Date64(PrimitiveBuilder::new(path, nullable)),
        GenericDataType::Utf8 => ArrayBuilder::Utf8(Utf8Builder::new(path, nullable)),
        GenericDataType::LargeUtf8 => ArrayBuilder::LargeUtf8(Utf8Builder::new(path, nullable)),
        GenericDataType::Dictionary => ArrayBuilder::DictionaryUtf8(
            DictionaryUtf8Builder::new(path, nullable),
        ),
        GenericDataType::List | GenericDataType::LargeList => {
            if field.children.len() != 1 {
                return Err(Error::new(ErrorKind::SchemaMismatch, "a list needs exactly one child"));
            }
            proof {
                assert(decreases_to!(*field => field.children));
                assert(decreases_to!(field.children => field.children@));
                assert(decreases_to!(field.children@ => field.children@[0]));
            }
            let item_path = child_path(&path, &field.children[0].name);
            let element = build_array_builder(item_path, &field.children[0])?;
            assert(buildable(*field));
            match field.data_type {
                GenericDataType::List => ArrayBuilder::List(ListBuilder::new(path, element, nullable)),
                _ => ArrayBuilder::LargeList(ListBuilder::new(path, element, nullable)),
            }
        },
        GenericDataType::Struct => {
            let mut fields: Vec<(String, ArrayBuilder)> = Vec::new();
            let mut k: usize = 0;
            while k < field.children.len()
                invariant
                    field.data_type == GenericDataType::Struct,
                    k <= field.children@.len(),
                    fields@.len() == k,
                    forall|j: int|
                        0 <= j < k ==> builder_wf(#[trigger] fields@[j].1) && builder_rows(
                            fields@[j].1,
                        ).len() == 0 && fields@[j].0 == field.children@[j].name && builder_shape(
                            fields@[j].1,
                        ) == field_shape(field.children@[j]) && buildable(field.children@[j]),
                decreases field.children@.len() - k,
            {
                proof {
                    assert(decreases_to!(*field => field.children));
                    assert(decreases_to!(field.children => field.children@));
                    assert(decreases_to!(field.children@ => field.children@[k as int]));
                }
                let child = &field.children[k];
                let b = build_array_builder(child_path(&path, &child.name), child)?;
                fields.push((child.name.clone(), b));
                assert(fields@[k as int].1 == b);
                k = k + 1;
            }
            assert forall|j: int| 0 <= j < field.children@.len() implies buildable(
                #[trigger] field.children@[j],
            ) by {
                assert(builder_wf(fields@[j].1));
            }
            assert(buildable(*field));
            let validity = if nullable {
                Some(crate::bits::Bitmap::new())
            } else {
                None
            };
            let s = StructBuilder { path, len: 0, validity, fields };
            proof {
                assert(s.rows() =~= Seq::<crate::value::ValueModel>::empty());
                let fs = field_shape(*field)->fields;
                assert(fs.len() == s.fields@.len());
                assert forall|j: int| 0 <= j < fs.len() implies struct_children_shape(s)[j] == fs[j] by {
                    assert(s.fields@[j].0 == field.children@[j].name);
                    assert(builder_shape(s.fields@[j].1) == field_shape(field.children@[j]));
                    crate::array_builder::lemma_struct_children_shape(s);
                    assert(fs[j] == (field.children@[j].name@, field_shape(field.children@[j])));
                }
                assert(struct_children_shape(s) =~= fs);
            }
            ArrayBuilder::Struct(s)
        },
        GenericDataType::Mapping => {
            if field.children.len() != 1 || field.children[0].children.len() != 2 {
                return Err(Error::new(ErrorKind::SchemaMismatch, "a map needs one entries child with a key and a value"));
            }
            proof {
                assert(decreases_to!(*field => field.children));
                assert(decreases_to!(field.children => field.children@));
                assert(decreases_to!(field.children@ => field.children@[0]));
                assert(decreases_to!(field.children@[0] => field.children@[0].children));
                assert(decreases_to!(field.children@[0].children => field.children@[0].children@));
                assert(decreases_to!(field.children@[0].children@ => field.children@[0].children@[0]));
                assert(decreases_to!(field.children@[0].children@ => field.children@[0].children@[1]));
            }
            let entries = &field.children[0];
            let keys = build_array_builder(child_path(&path, &entries.children[0].name), &entries.children[0])?;
            let values = build_array_builder(child_path(&path, &entries.children[1].name), &entries.children[1])?;
            assert(buildable(*field));
            let m = MapBuilder {
                path,
                offsets: OffsetsArray::new(nullable),
                keys: Box::new(keys),
                values: Box::new(values),
            };
            proof {
                assert(m.rows() =~= Seq::<crate::value::ValueModel>::empty());
            }
            ArrayBuilder::Mapping(m)
        },
        GenericDataType::Union => {
            if field.children.len() > 127 {
                return Err(Error::new(ErrorKind::SchemaMismatch, "too many union variants"));
            }
            let mut fields: Vec<ArrayBuilder> = Vec::new();
            let mut k: usize = 0;
            while k < field.children.len()
                invariant
                    field.data_type == GenericDataType::Union,
                    k <= field.children@.len() <= 127,
                    fields@.len() == k,
                    forall|j: int|
                        0 <= j < k ==> builder_wf(#[trigger] fields@[j]) && builder_rows(fields@[j]).len() == 0
                            && builder_shape(fields@[j]) == field_shape(field.children@[j])
                            && buildable(field.children@[j]),
                decreases field.children@.len() - k,
            {
                proof {
                    assert(decreases_to!(*field => field.children));
                    assert(decreases_to!(field.children => field.children@));
                    assert(decreases_to!(field.children@ => field.children@[k as int]));
                }
                let child = &field.children[k];
                let b = build_array_builder(child_path(&path, &child.name), child)?;
                fields.push(b);
                k = k + 1;
            }
            assert forall|j: int| 0 <= j < field.children@.len() implies buildable(
                #[trigger] field.children@[j],
            ) by {
                assert(builder_wf(fields@[j]));
            }
            assert(buildable(*field));
            let u = UnionBuilder { path, types: Vec::new(), offsets: Vec::new(), fields };
            proof {
                assert(u.rows() =~= Seq::<crate::value::ValueModel>::empty());
                let vs = field_shape(*field)->variants;
                assert(vs.len() == u.fields@.len());
                assert forall|j: int| 0 <= j < vs.len() implies union_children_shape(u)[j] == vs[j] by {
                    assert(builder_shape(u.fields@[j]) == field_shape(field.children@[j]));
                    crate::array_builder::lemma_union_children_shape(u);
                    assert(vs[j] == field_shape(field.children@[j]));
                }
                assert(union_children_shape(u) =~= vs);
            }
            ArrayBuilder::Union(u)
        },
        _ => {
            return Err(Error::new(ErrorKind::SchemaMismatch, "data type is not supported for serialization"));
        },
    };
    proof {
        crate::array_builder::lemma_new_builder(b);
        reveal(builder_shape);
    }
    Ok(b)
}

} // verus!
