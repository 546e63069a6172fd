use vstd::prelude::*;

verus! {

/// The physical kind of a column.
#[derive(Debug, Clone, Copy, PartialEq, Eq, Structural)]
pub enum GenericDataType {
    Null,
    Bool,
    I8,
    I16,
    I32,
    I64,
    U8,
    U16,
    U32,
    U64,
    F16,
    F32,
    F64,
    Date32,
    Date64,
    Time32,
    Time64,
    Duration,
    Decimal128,
    Utf8,
    LargeUtf8,
    Binary,
    LargeBinary,
    FixedSizeBinary,
    List,
    LargeList,
    FixedSizeList,
    Struct,
    Mapping,
    Union,
    Dictionary,
}

/// Semantic strategies that change how a column is read or written.
#[derive(Debug, Clone, Copy, PartialEq, Eq, Structural)]
pub enum Strategy {
    /// A `Date64` column that renders as a UTC timestamp string.
    UtcStrAsDate64,
    /// A `Date64` column that renders as a naive timestamp string.
    NaiveStrAsDate64,
    /// A tuple encoded as a struct with positional field names.
    TupleAsStruct,
    /// A map encoded as a struct.
    MapAsStruct,
    /// A union variant that no value ever takes.
    UnknownVariant,
}

/// A node of the schema tree: name, kind, nullability, children and an
/// optional strategy.
#[derive(Debug)]
pub struct GenericField {
    pub name: String,
    pub data_type: GenericDataType,
    pub nullable: bool,
    pub strategy: Option<Strategy>,
    pub children: Vec<GenericField>,
}

impl GenericField {
    pub fn new(name: String, data_type: GenericDataType, nullable: bool) -> (r: GenericField)
        ensures
            r.name == name,
            r.data_type == data_type,
            r.nullable == nullable,
            r.strategy is None,
            r.children@.len() == 0,
    {
        GenericField { name, data_type, nullable, strategy: None, children: Vec::new() }
    }

    pub fn with_child(self, child: GenericField) -> (r: GenericField)
        ensures
            r.name == self.name,
            r.data_type == self.data_type,
            r.nullable == self.nullable,
            r.strategy == self.strategy,
            r.children@ == self.children@.push(child),
    {
        let mut children = self.children;
        children.push(child);
        GenericField {
            name: self.name,
            data_type: self.data_type,
            nullable: self.nullable,
            strategy: self.strategy,
            children,
        }
    }

    pub fn with_strategy(self, strategy: Strategy) -> (r: GenericField)
        ensures
            r.name == self.name,
            r.data_type == self.data_type,
            r.nullable == self.nullable,
            r.strategy == Some(strategy),
            r.children == self.children,
    {
        GenericField {
            name: self.name,
            data_type: self.data_type,
            nullable: self.nullable,
            strategy: Some(strategy),
            children: self.children,
        }
    }
}

} // verus!
