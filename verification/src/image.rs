//! Bounded PNG image import: limits, memory plans, budgets and image assets.

pub mod limits;
pub mod budget;
pub mod asset;
pub mod import;
pub mod png;
pub mod prepare;
pub mod decode;
pub mod importer;
pub mod publication;
pub mod reload;
