//! Deterministic engine-domain primitives: input state, gameplay command ingress,
//! semantic identity, structural hierarchy validation, image import accounting and
//! material descriptors.

pub mod limit;
pub mod text;

pub mod input;
pub mod uuid_text;
pub mod gameplay;
pub mod identity;
pub mod image;
pub mod material;
pub mod hierarchy;
