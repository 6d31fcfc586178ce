//! The decision core of a DLL injection library for native Windows AMD64.

pub mod error;
pub mod harness;
pub mod injector;
pub mod laws;
pub mod paths;
pub mod payload;
pub mod pe;
pub mod remote;
pub mod strategy;
pub mod target;
pub mod text;

pub use error::{Error, Result};
pub use injector::{inject, InjectedModule, Injector, LoadTiming};
pub use strategy::Strategy;
pub use target::{LoaderState, Target};
