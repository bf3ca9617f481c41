pub mod deserializable_big_endian;
pub mod deserializable_fix_size;
pub mod deserializable_internal_order;
pub mod deserializable_little_endian;
pub mod encoding;
pub mod error_serialization;
pub mod primitives;
pub mod serializable_big_endian;
pub mod serializable_internal_order;
pub mod serializable_little_endian;
