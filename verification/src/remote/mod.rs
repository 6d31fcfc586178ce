//! Remote process validation, memory ownership, and image discovery.
//!
//! Nothing here calls the operating system. A caller performs the reads,
//! queries and allocations that these functions and machines ask for, and
//! hands back what came of them.

pub mod allocation;
pub mod images;
pub mod loader;
pub mod memory;
pub mod modules;
pub mod near;
pub mod process;
