use vstd::prelude::*;

verus! {

/// A generic structured value, as emitted by an object-mapping layer and
/// handed back by the deserializers. `Null` stands for a missing optional.
#[derive(Debug)]
pub enum Value {
    Null,
    Bool(bool),
    Int(i64),
    UInt(u64),
    Str(String),
    List(Vec<Value>),
    Struct(Vec<(String, Value)>),
    Mapping(Vec<(Value, Value)>),
    /// A variant of a tagged union: its declared index and its payload.
    Variant(u32, Box<Value>),
}

/// The mathematical content of a [`Value`].
pub enum ValueModel {
    Null,
    Bool(bool),
    Int(int),
    UInt(int),
    Str(Seq<char>),
    List(Seq<ValueModel>),
    Struct(Seq<(Seq<char>, ValueModel)>),
    Mapping(Seq<(ValueModel, ValueModel)>),
    Variant(int, Box<ValueModel>),
}

pub open spec fn value_model(v: Value) -> ValueModel
    decreases v,
{
    match v {
        Value::Null => ValueModel::Null,
        Value::Bool(b) => ValueModel::Bool(b),
        Value::Int(x) => ValueModel::Int(x as int),
        Value::UInt(x) => ValueModel::UInt(x as int),
        Value::Str(s) => ValueModel::Str(s@),
        Value::List(items) => ValueModel::List(
            Seq::new(
                items@.len(),
                |k: int|
                    if 0 <= k < items@.len() {
                        value_model(items@[k])
                    } else {
                        ValueModel::Null
                    },
            ),
        ),
        Value::Struct(fields) => ValueModel::Struct(
            Seq::new(
                fields@.len(),
                |k: int|
                    if 0 <= k < fields@.len() {
                        (fields@[k].0@, value_model(fields@[k].1))
                    } else {
                        (Seq::empty(), ValueModel::Null)
                    },
            ),
        ),
        Value::Mapping(entries) => ValueModel::Mapping(
            Seq::new(
                entries@.len(),
                |k: int|
                    if 0 <= k < entries@.len() {
                        (value_model(entries@[k].0), value_model(entries@[k].1))
                    } else {
                        (ValueModel::Null, ValueModel::Null)
                    },
            ),
        ),
        Value::Variant(idx, payload) => ValueModel::Variant(idx as int, Box::new(value_model(*payload))),
    }
}

impl View for Value {
    type V = ValueModel;

    open spec fn view(&self) -> ValueModel {
        value_model(*self)
    }
}

} // verus!
