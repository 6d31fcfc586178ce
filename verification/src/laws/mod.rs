//! What the operations of the library are for, stated over raw bytes, numbers
//! and results.
//!
//! Each law says when an operation succeeds and what its result then is, in
//! the terms of its inputs. A function that a contract is written with names a
//! result here, and another law says what that result is.

pub mod beginnings;
pub mod bytes;
pub mod files;
pub mod fixtures;
pub mod headers;
pub mod imports;
pub mod injection;
pub mod loading;
pub mod lookups;
pub mod messages;
pub mod patching;
pub mod payload;
pub mod refusals;
pub mod remote;
pub mod tools;
pub mod widening;
