//! Bounded PE decoding and local byte transformations.
//!
//! Header parsing and payload checks live in `headers`, managed PE32 widening
//! in `convert`, and import serialization in `imports`. `view` and `tables` show
//! what stands in the bytes of an image. These modules never access a process;
//! strategies own allocation and transactional remote writes.

pub mod convert;
pub mod headers;
pub mod imports;
pub mod layout;
pub mod tables;
pub mod view;
