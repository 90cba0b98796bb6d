//! Checked construction of parent edges.

use vstd::prelude::*;
use std::collections::{HashMap, HashSet};

use crate::hierarchy::error::HierarchyError;
use crate::hierarchy::validation::{
    acyclic, final_parents, on_cycle, structural_error, validate_hierarchy_with_additions,
};

verus! {

broadcast use vstd::std_specs::hash::group_hash_axioms;

/// A requested `child -> parent` edge.
#[derive(Debug, Clone, Copy, PartialEq, Eq, Structural, Hash)]
pub struct HierarchyConstructionEdge {
    child: u64,
    parent: u64,
}

impl HierarchyConstructionEdge {
    pub closed spec fn spec_child(self) -> u64 {
        self.child
    }

    pub closed spec fn spec_parent(self) -> u64 {
        self.parent
    }

    pub fn new(child: u64, parent: u64) -> (r: Self)
        ensures
            r.spec_child() == child,
            r.spec_parent() == parent,
    {
        HierarchyConstructionEdge { child, parent }
    }

    pub fn child(self) -> (r: u64)
        ensures
            r == self.spec_child(),
    {
        self.child
    }

    pub fn parent(self) -> (r: u64)
        ensures
            r == self.spec_parent(),
    {
        self.parent
    }
}

/// The `(child, parent)` pairs of edges.
pub open spec fn edge_pairs(edges: Seq<HierarchyConstructionEdge>) -> Seq<(u64, u64)> {
    edges.map_values(|e: HierarchyConstructionEdge| (e.spec_child(), e.spec_parent()))
}

/// Edges that passed validation against the hierarchy, ready to be inserted.
#[derive(Debug)]
pub struct PreparedHierarchyConstructionBatch {
    edges: Vec<HierarchyConstructionEdge>,
}

impl PreparedHierarchyConstructionBatch {
    pub closed spec fn edge_seq(&self) -> Seq<HierarchyConstructionEdge> {
        self.edges@
    }

    pub fn edges(&self) -> (r: &[HierarchyConstructionEdge])
        ensures
            r@ == self.edge_seq(),
    {
        self.edges.as_slice()
    }
}

/// Validates the hierarchy together with `edges` and keeps them for insertion.
pub fn prepare_hierarchy_construction_batch(
    live: &HashSet<u64>,
    parent_rows: &Vec<(u64, u64)>,
    children_rows: &Vec<(u64, Vec<u64>)>,
    edges: &[HierarchyConstructionEdge],
) -> (r: Result<PreparedHierarchyConstructionBatch, HierarchyError>)
    ensures
        match structural_error(live@, parent_rows@, children_rows@, edge_pairs(edges@)) {
            Some(e) => r matches Err(x) && x == e,
            None => {
                &&& r is Ok <==> acyclic(final_parents(parent_rows@, edge_pairs(edges@)))
                &&& r matches Ok(batch) ==> batch.edge_seq() == edges@
                &&& r matches Err(e) ==> (e matches HierarchyError::Cycle { entity }
                    && on_cycle(final_parents(parent_rows@, edge_pairs(edges@)), entity))
            },
        },
{
    let mut additions: Vec<(u64, u64)> = Vec::new();
    let mut kept: Vec<HierarchyConstructionEdge> = Vec::new();
    let mut i: usize = 0;
    while i < edges.len()
        invariant
            i <= edges@.len(),
            additions@ == edge_pairs(edges@.take(i as int)),
            kept@ == edges@.take(i as int),
        decreases edges@.len() - i,
    {
        let edge = edges[i];
        additions.push((edge.child, edge.parent));
        kept.push(edge);
        proof {
            assert(additions@ =~= edge_pairs(edges@.take(i + 1)));
            assert(kept@ =~= edges@.take(i + 1));
        }
        i = i + 1;
    }
    proof {
        assert(edges@.take(i as int) =~= edges@);
    }
    match validate_hierarchy_with_additions(live, parent_rows, children_rows, &additions) {
        Err(e) => Err(e),
        Ok(()) => Ok(PreparedHierarchyConstructionBatch { edges: kept }),
    }
}

/// The outcome of walking up from `cursor` when `child` is to be attached: reaching `child`
/// or revisiting an entity is a cycle, a missing parent on the way is an error, reaching a
/// root is success. `fuel` bounds the walk.
pub open spec fn ancestry_check(
    parents: Map<u64, u64>,
    live: Set<u64>,
    child: u64,
    cursor: u64,
    visited: Set<u64>,
    fuel: nat,
) -> Result<(), HierarchyError>
    decreases fuel,
{
    if fuel == 0 {
        Ok(())
    } else if cursor == child {
        Err(HierarchyError::Cycle { entity: child })
    } else if visited.contains(cursor) {
        Err(HierarchyError::Cycle { entity: cursor })
    } else if !parents.contains_key(cursor) {
        Ok(())
    } else if !live.contains(parents[cursor]) {
        Err(HierarchyError::MissingParent { child: cursor, parent: parents[cursor] })
    } else {
        ancestry_check(parents, live, child, parents[cursor], visited.insert(cursor), (fuel - 1) as nat)
    }
}

/// The outcome of checking one new `child -> parent` edge against the relation `parents`.
pub open spec fn new_edge_check(parents: Map<u64, u64>, live: Set<u64>, child: u64, parent: u64) -> Result<(), HierarchyError> {
    if !live.contains(child) {
        Err(HierarchyError::MissingChild { child })
    } else if !live.contains(parent) {
        Err(HierarchyError::MissingParent { child, parent })
    } else if child == parent {
        Err(HierarchyError::SelfParent { entity: child })
    } else if parents.contains_key(child) {
        Err(HierarchyError::AlreadyParented { child, parent: parents[child] })
    } else {
        ancestry_check(parents, live, child, parent, Set::empty(), (parents.dom().len() + 1) as nat)
    }
}

/// Checks that `child` may take `parent`: both exist, they differ, `child` has no parent yet,
/// and `parent`'s ancestry neither reaches `child` nor loops nor breaks.
pub fn validate_new_edge(live: &HashSet<u64>, parents: &HashMap<u64, u64>, child: u64, parent: u64) -> (r: Result<(), HierarchyError>)
    ensures
        r == new_edge_check(parents@, live@, child, parent),
{
    if !live.contains(&child) {
        return Err(HierarchyError::MissingChild { child });
    }
    if !live.contains(&parent) {
        return Err(HierarchyError::MissingParent { child, parent });
    }
    if child == parent {
        return Err(HierarchyError::SelfParent { entity: child });
    }
    match parents.get(&child) {
        Some(existing) => return Err(HierarchyError::AlreadyParented { child, parent: *existing }),
        None => {},
    }
    let ghost p = parents@;
    let ghost total = (p.dom().len() + 1) as nat;
    let mut visited: HashSet<u64> = HashSet::new();
    let mut cursor = parent;
    loop
        invariant
            p == parents@,
            total == (p.dom().len() + 1) as nat,
            live@.contains(child),
            live@.contains(parent),
            child != parent,
            !p.contains_key(child),
            p.dom().finite(),
            visited@.finite(),
            visited@.subset_of(p.dom()),
            visited@.len() <= p.dom().len(),
            ancestry_check(p, live@, child, cursor, visited@, (total - visited@.len()) as nat)
                == ancestry_check(p, live@, child, parent, Set::empty(), total),
        decreases p.dom().len() - visited@.len(),
    {
        let ghost v0 = visited@;
        let ghost fuel = (total - v0.len()) as nat;
        proof {
            assert(fuel > 0);
            assert(ancestry_check(p, live@, child, cursor, v0, fuel) == if cursor == child {
                Err(HierarchyError::Cycle { entity: child })
            } else if v0.contains(cursor) {
                Err(HierarchyError::Cycle { entity: cursor })
            } else if !p.contains_key(cursor) {
                Ok(())
            } else if !live@.contains(p[cursor]) {
                Err(HierarchyError::MissingParent { child: cursor, parent: p[cursor] })
            } else {
                ancestry_check(p, live@, child, p[cursor], v0.insert(cursor), (fuel - 1) as nat)
            });
        }
        if cursor == child {
            return Err(HierarchyError::Cycle { entity: child });
        }
        if !visited.insert(cursor) {
            return Err(HierarchyError::Cycle { entity: cursor });
        }
        let next = match parents.get(&cursor) {
            None => return Ok(()),
            Some(next) => *next,
        };
        if !live.contains(&next) {
            return Err(HierarchyError::MissingParent { child: cursor, parent: next });
        }
        proof {
            assert(visited@ == v0.insert(cursor));
            assert(!v0.contains(cursor));
            assert(visited@.len() == v0.len() + 1);
            vstd::set_lib::lemma_len_subset(visited@, p.dom());
            assert(((total - visited@.len()) as nat) == (fuel - 1) as nat);
        }
        cursor = next;
    }
}

} // verus!
