//! A codec for table schemas: typed columns, nested to any depth, to and from
//! a tree of plain values.
//!
//! `schema` holds the types, `node` the documents they are written to,
//! `decode` and `encode` the two directions for types, `schema_codec`,
//! `mapping` and `namespace` those for schemas, name mappings and
//! namespaces, and `laws` what holds of the two directions together.

pub mod decode;
pub mod encode;
pub mod error;
pub mod laws;
pub mod mapping;
pub mod namespace;
pub mod node;
pub mod primitive;
pub mod schema;
pub mod schema_codec;
pub mod text;

pub use decode::{
    decode_any_type, decode_field, decode_list, decode_map, decode_struct, MAX_DEPTH,
};
pub use encode::{encode_any_type, encode_field, encode_list, encode_map, encode_struct};
pub use error::{DecodeError, Entity, ErrorKind};
pub use mapping::{
    decode_name_mapping, decode_name_mappings, encode_name_mapping, encode_name_mappings,
};
pub use namespace::{
    decode_namespace, encode_namespace, namespace_text, parse_namespace, Namespace,
};
pub use node::Node;
pub use primitive::{
    decode_decimal, decode_fixed, decode_primitive, encode_primitive, PrimitiveType,
};
pub use schema::{
    AllType, List, MapType, NameMapping, NameMappings, SchemaV2, Struct, StructField,
};
pub use schema_codec::{decode_schema, encode_schema};
