//! Primitive wire codec: fixed-width integers, varints, compact strings,
//! compact arrays and UUIDs.
pub mod buffer;
pub mod compact;
pub mod integers;
pub mod uuid;
pub mod varint;
