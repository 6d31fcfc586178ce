//! What the process-level test harness decides and composes.
//!
//! Nothing here starts a process or touches a file. A caller performs what
//! these functions and machines ask for.

pub mod child;
pub mod command_line;
pub mod events;
pub mod fixtures;
pub mod runtimes;
pub mod scripts;
pub mod supervisor;
