//! The structural parent relation and its reverse projection.

use vstd::prelude::*;

verus! {

/// The structural parent of one entity.
#[derive(Debug, Clone, Copy, PartialEq, Eq, Structural, Hash)]
pub struct Parent(u64);

impl Parent {
    pub closed spec fn spec_parent(self) -> u64 {
        self.0
    }

    pub fn new(parent: u64) -> (r: Self)
        ensures
            r.spec_parent() == parent,
    {
        Parent(parent)
    }

    pub fn parent(&self) -> (r: u64)
        ensures
            r == self.spec_parent(),
    {
        self.0
    }
}

/// The children whose parent is one entity, in the relation's current order.
#[derive(Debug, Default, PartialEq, Eq)]
pub struct Children(Vec<u64>);

impl Children {
    pub closed spec fn spec_children(&self) -> Seq<u64> {
        self.0@
    }

    pub fn from_vec(children: Vec<u64>) -> (r: Self)
        ensures
            r.spec_children() == children@,
    {
        Children(children)
    }

    pub fn as_slice(&self) -> (r: &[u64])
        ensures
            r@ == self.spec_children(),
    {
        self.0.as_slice()
    }

    pub fn len(&self) -> (r: usize)
        ensures
            r == self.spec_children().len(),
    {
        self.0.len()
    }

    pub fn is_empty(&self) -> (r: bool)
        ensures
            r == (self.spec_children().len() == 0),
    {
        self.0.len() == 0
    }
}

} // verus!
