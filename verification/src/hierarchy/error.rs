//! Rejected hierarchy constructions and validations. Entities are their 64-bit identities.

use vstd::prelude::*;

verus! {

#[derive(Debug, Clone, Copy, PartialEq, Eq, Structural)]
pub enum HierarchyError {
    MissingChild { child: u64 },
    MissingParent { child: u64, parent: u64 },
    SelfParent { entity: u64 },
    AlreadyParented { child: u64, parent: u64 },
    Cycle { entity: u64 },
    ReverseMissing { parent: u64, child: u64 },
    ReverseDuplicate { parent: u64, child: u64 },
    ReverseEmpty { parent: u64 },
    ReverseChildMissing { parent: u64, child: u64 },
    ReverseUnexpected { parent: u64, child: u64, actual_parent: Option<u64> },
}

} // verus!
