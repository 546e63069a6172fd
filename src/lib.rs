//! Columnar codec between generic structured values and Arrow-style arrays.
//!
//! Builders consume generic values and fill column buffers (validity bitmaps,
//! offsets, scalar slices, nested children); deserializers borrow finished
//! arrays and hand the values back, row by row.

pub mod array;
pub mod array_builder;
pub mod array_deserializer;
pub mod bits;
pub mod bool_builder;
pub mod date32_deserializer;
pub mod deserialization;
pub mod dictionary_builder;
pub mod error;
pub mod list_builder;
pub mod map_builder;
pub mod map_deserializer;
pub mod offsets;
pub mod outer_sequence_deserializer;
pub mod primitive;
pub mod primitive_builder;
pub mod schema;
pub mod schema_builder;
pub mod shape;
pub mod struct_builder;
pub mod tracing_options;
pub mod union_builder;
pub mod utf8_builder;
pub mod value;
