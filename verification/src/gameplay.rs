//! Bounded authoritative gameplay command ingress and action mapping.

pub mod command;
pub mod queue;
pub mod action;
pub mod schedule;
