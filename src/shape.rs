use vstd::prelude::*;

use crate::value::ValueModel;

verus! {

/// The schema of a builder, as far as it decides which values it takes and
/// how they read back.
pub enum Shape {
    Null,
    Bool { nullable: bool },
    Int { signed: bool, min: int, max: int, nullable: bool },
    Str { nullable: bool },
    List { nullable: bool, element: Box<Shape> },
    Struct { nullable: bool, fields: Seq<(Seq<char>, Shape)> },
    Mapping { nullable: bool, key: Box<Shape>, value: Box<Shape> },
    Union { variants: Seq<Shape> },
}

pub open spec fn shape_nullable(s: Shape) -> bool {
    match s {
        Shape::Null => true,
        Shape::Bool { nullable } => nullable,
        Shape::Int { nullable, .. } => nullable,
        Shape::Str { nullable } => nullable,
        Shape::List { nullable, .. } => nullable,
        Shape::Struct { nullable, .. } => nullable,
        Shape::Mapping { nullable, .. } => nullable,
        Shape::Union { .. } => false,
    }
}

/// The row a default push appends to a column of shape `s` that is not a
/// struct or a union: zero, `false`, an empty string, list or map, or a
/// null for the null kind.
pub open spec fn default_model(s: Shape) -> ValueModel {
    match s {
        Shape::Bool { .. } => ValueModel::Bool(false),
        Shape::Int { signed, .. } => if signed {
            ValueModel::Int(0)
        } else {
            ValueModel::UInt(0)
        },
        Shape::Str { .. } => ValueModel::Str(Seq::empty()),
        Shape::List { .. } => ValueModel::List(Seq::empty()),
        Shape::Mapping { .. } => ValueModel::Mapping(Seq::empty()),
        _ => ValueModel::Null,
    }
}

/// Whether a column of shape `s` takes the value `v`.
pub open spec fn accepts(s: Shape, v: ValueModel) -> bool
    decreases s,
{
    if v is Null {
        shape_nullable(s)
    } else {
        match s {
            Shape::Null => false,
            Shape::Bool { .. } => v is Bool,
            Shape::Int { min, max, .. } => match v {
                ValueModel::Int(x) => min <= x <= max,
                ValueModel::UInt(x) => min <= x <= max,
                _ => false,
            },
            Shape::Str { .. } => v is Str,
            Shape::List { element, .. } => match v {
                ValueModel::List(items) => forall|k: int|
                    0 <= k < items.len() ==> accepts(*element, #[trigger] items[k]),
                _ => false,
            },
            Shape::Struct { fields, .. } => match v {
                ValueModel::Struct(vs) => vs.len() == fields.len() && forall|k: int|
                    0 <= k < fields.len() ==> (#[trigger] vs[k]).0 == fields[k].0 && accepts(
                        fields[k].1,
                        vs[k].1,
                    ),
                _ => false,
            },
            Shape::Mapping { key, value, .. } => match v {
                ValueModel::Mapping(es) => forall|k: int|
                    0 <= k < es.len() ==> accepts(*key, (#[trigger] es[k]).0) && accepts(
                        *value,
                        es[k].1,
                    ),
                _ => false,
            },
            Shape::Union { variants } => match v {
                ValueModel::Variant(idx, payload) => 0 <= idx < variants.len() && accepts(
                    variants[idx],
                    *payload,
                ),
                _ => false,
            },
        }
    }
}

/// What a value taken by a column of shape `s` reads back as: the value
/// itself, but for integers, which read back with the column's signedness.
pub open spec fn stored(s: Shape, v: ValueModel) -> ValueModel
    decreases s,
{
    if v is Null {
        ValueModel::Null
    } else {
        match s {
            Shape::Int { signed, .. } => match v {
                ValueModel::Int(x) => if signed {
                    ValueModel::Int(x)
                } else {
                    ValueModel::UInt(x)
                },
                ValueModel::UInt(x) => if signed {
                    ValueModel::Int(x)
                } else {
                    ValueModel::UInt(x)
                },
                _ => v,
            },
            Shape::List { element, .. } => match v {
                ValueModel::List(items) => ValueModel::List(
                    Seq::new(items.len(), |k: int| stored(*element, items[k])),
                ),
                _ => v,
            },
            Shape::Struct { fields, .. } => match v {
                ValueModel::Struct(vs) => ValueModel::Struct(
                    Seq::new(
                        vs.len(),
                        |k: int|
                            if 0 <= k < fields.len() {
                                (vs[k].0, stored(fields[k].1, vs[k].1))
                            } else {
                                vs[k]
                            },
                    ),
                ),
                _ => v,
            },
            Shape::Mapping { key, value, .. } => match v {
                ValueModel::Mapping(es) => ValueModel::Mapping(
                    Seq::new(es.len(), |k: int| (stored(*key, es[k].0), stored(*value, es[k].1))),
                ),
                _ => v,
            },
            Shape::Union { variants } => match v {
                ValueModel::Variant(idx, payload) => if 0 <= idx < variants.len() {
                    ValueModel::Variant(idx, Box::new(stored(variants[idx], *payload)))
                } else {
                    v
                },
                _ => v,
            },
            _ => v,
        }
    }
}

/// Whether `v` has exactly the form a column of shape `s` reads back:
/// accepted, with integers of the column's signedness.
pub open spec fn conforms(s: Shape, v: ValueModel) -> bool
    decreases s,
{
    if v is Null {
        shape_nullable(s)
    } else {
        match s {
            Shape::Null => false,
            Shape::Bool { .. } => v is Bool,
            Shape::Int { signed, min, max, .. } => match v {
                ValueModel::Int(x) => signed && min <= x <= max,
                ValueModel::UInt(x) => !signed && min <= x <= max,
                _ => false,
            },
            Shape::Str { .. } => v is Str,
            Shape::List { element, .. } => match v {
                ValueModel::List(items) => forall|k: int|
                    0 <= k < items.len() ==> conforms(*element, #[trigger] items[k]),
                _ => false,
            },
            Shape::Struct { fields, .. } => match v {
                ValueModel::Struct(vs) => vs.len() == fields.len() && forall|k: int|
                    0 <= k < fields.len() ==> (#[trigger] vs[k]).0 == fields[k].0 && conforms(
                        fields[k].1,
                        vs[k].1,
                    ),
                _ => false,
            },
            Shape::Mapping { key, value, .. } => match v {
                ValueModel::Mapping(es) => forall|k: int|
                    0 <= k < es.len() ==> conforms(*key, (#[trigger] es[k]).0) && conforms(
                        *value,
                        es[k].1,
                    ),
                _ => false,
            },
            Shape::Union { variants } => match v {
                ValueModel::Variant(idx, payload) => 0 <= idx < variants.len() && conforms(
                    variants[idx],
                    *payload,
                ),
                _ => false,
            },
        }
    }
}

/// A conforming value is taken, and stored unchanged.
pub proof fn lemma_conforms_stored(s: Shape, v: ValueModel)
    requires
        conforms(s, v),
    ensures
        accepts(s, v),
        stored(s, v) == v,
    decreases s,
{
    if v is Null {
    } else {
        match s {
            Shape::List { element, .. } => {
                let items = v->List_0;
                assert forall|k: int| 0 <= k < items.len() implies accepts(*element, #[trigger] items[k])
                    && stored(*element, items[k]) == items[k] by {
                    lemma_conforms_stored(*element, items[k]);
                }
                assert(stored(s, v)->List_0 =~= items);
            },
            Shape::Struct { fields, .. } => {
                let vs = v->Struct_0;
                assert forall|k: int| 0 <= k < fields.len() implies accepts(fields[k].1, (#[trigger] vs[k]).1)
                    && stored(fields[k].1, vs[k].1) == vs[k].1 by {
                    lemma_conforms_stored(fields[k].1, vs[k].1);
                }
                assert(stored(s, v)->Struct_0 =~= vs);
            },
            Shape::Mapping { key, value, .. } => {
                let es = v->Mapping_0;
                assert forall|k: int| 0 <= k < es.len() implies accepts(*key, (#[trigger] es[k]).0)
                    && accepts(*value, es[k].1) && stored(*key, es[k].0) == es[k].0 && stored(*value, es[k].1) == es[k].1 by {
                    lemma_conforms_stored(*key, es[k].0);
                    lemma_conforms_stored(*value, es[k].1);
                }
                assert(stored(s, v)->Mapping_0 =~= es);
            },
            Shape::Union { variants } => {
                let idx = v->Variant_0;
                let payload = *v->Variant_1;
                lemma_conforms_stored(variants[idx], payload);
            },
            _ => {},
        }
    }
}

/// Round trip: when a column of shape `s` has taken the values `vs`, each
/// conforming to `s`, its rows are `vs`; an array that decodes to those rows
/// (as the finished array does) reads back exactly `vs`, nulls included.
pub proof fn lemma_round_trip(s: Shape, vs: Seq<ValueModel>, rows: Seq<ValueModel>, decoded: Seq<ValueModel>)
    requires
        forall|i: int| 0 <= i < vs.len() ==> conforms(s, #[trigger] vs[i]),
        rows == vs.map_values(|v: ValueModel| stored(s, v)),
        decoded == rows,
    ensures
        decoded == vs,
        forall|i: int| 0 <= i < vs.len() ==> accepts(s, #[trigger] vs[i]),
{
    assert forall|i: int| 0 <= i < vs.len() implies accepts(s, #[trigger] vs[i]) && rows[i] == vs[i] by {
        lemma_conforms_stored(s, vs[i]);
    }
    assert(decoded =~= vs);
}

} // verus!
