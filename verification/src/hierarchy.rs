//! Structural parent/child hierarchy: relations, validation and its completed generation.

pub mod error;
pub mod relation;
pub mod validation;
pub mod generation;
pub mod writer;
