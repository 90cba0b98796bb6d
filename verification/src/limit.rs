//! Non-zero limits for bounded resources.

use vstd::prelude::*;

verus! {

/// A non-zero limit on a number of items.
#[derive(Debug, Clone, Copy, PartialEq, Eq, Structural, PartialOrd, Ord, Hash)]
pub struct ItemLimit(usize);

impl ItemLimit {
    pub closed spec fn value(self) -> usize {
        self.0
    }

    #[verifier::type_invariant]
    spec fn positive(self) -> bool {
        self.0 > 0
    }

    pub fn new(limit: usize) -> (r: Option<Self>)
        ensures
            limit == 0 ==> r is None,
            limit != 0 ==> r is Some && r->0.value() == limit,
    {
        if limit == 0 {
            None
        } else {
            Some(ItemLimit(limit))
        }
    }

    pub fn get(self) -> (r: usize)
        ensures
            r == self.value(),
            r > 0,
    {
        proof {
            use_type_invariant(self);
        }
        self.0
    }
}

/// A non-zero limit on a number of bytes.
#[derive(Debug, Clone, Copy, PartialEq, Eq, Structural, PartialOrd, Ord, Hash)]
pub struct ByteLimit(usize);

impl ByteLimit {
    pub closed spec fn value(self) -> usize {
        self.0
    }

    #[verifier::type_invariant]
    spec fn positive(self) -> bool {
        self.0 > 0
    }

    pub fn new(limit: usize) -> (r: Option<Self>)
        ensures
            limit == 0 ==> r is None,
            limit != 0 ==> r is Some && r->0.value() == limit,
    {
        if limit == 0 {
            None
        } else {
            Some(ByteLimit(limit))
        }
    }

    pub fn get(self) -> (r: usize)
        ensures
            r == self.value(),
            r > 0,
    {
        proof {
            use_type_invariant(self);
        }
        self.0
    }
}

/// A non-zero 32-bit quantity.
#[derive(Debug, Clone, Copy, PartialEq, Eq, Structural, PartialOrd, Ord, Hash)]
pub struct PositiveU32(u32);

impl PositiveU32 {
    pub closed spec fn value(self) -> u32 {
        self.0
    }

    #[verifier::type_invariant]
    spec fn positive(self) -> bool {
        self.0 > 0
    }

    pub fn new(value: u32) -> (r: Option<Self>)
        ensures
            value == 0 ==> r is None,
            value != 0 ==> r is Some && r->0.value() == value,
    {
        if value == 0 {
            None
        } else {
            Some(PositiveU32(value))
        }
    }

    pub fn get(self) -> (r: u32)
        ensures
            r == self.value(),
            r > 0,
    {
        proof {
            use_type_invariant(self);
        }
        self.0
    }
}

/// A non-zero 64-bit quantity.
#[derive(Debug, Clone, Copy, PartialEq, Eq, Structural, PartialOrd, Ord, Hash)]
pub struct PositiveU64(u64);

impl PositiveU64 {
    pub closed spec fn value(self) -> u64 {
        self.0
    }

    #[verifier::type_invariant]
    spec fn positive(self) -> bool {
        self.0 > 0
    }

    pub fn new(value: u64) -> (r: Option<Self>)
        ensures
            value == 0 ==> r is None,
            value != 0 ==> r is Some && r->0.value() == value,
    {
        if value == 0 {
            None
        } else {
            Some(PositiveU64(value))
        }
    }

    pub fn get(self) -> (r: u64)
        ensures
            r == self.value(),
            r > 0,
    {
        proof {
            use_type_invariant(self);
        }
        self.0
    }
}

} // verus!
