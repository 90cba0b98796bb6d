//! Stable semantic identity: scene and persistent references, their allocation and remapping.

pub mod allocator;
pub mod types;
pub mod keys;
pub mod remap;
pub mod snapshot;
pub mod refmap;
pub mod world;
pub mod records;
pub mod domain;
