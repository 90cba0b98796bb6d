//! Topology generations: when the hierarchy needs validation, and which generation completed.

use vstd::prelude::*;

verus! {

/// The generation a validation completed.
#[derive(Debug, Default, Clone, Copy, PartialEq, Eq, Structural)]
pub struct CompletedHierarchyProjection {
    generation: u64,
}

impl CompletedHierarchyProjection {
    pub closed spec fn spec_generation(self) -> u64 {
        self.generation
    }

    pub fn new(generation: u64) -> (r: Self)
        ensures
            r.spec_generation() == generation,
    {
        CompletedHierarchyProjection { generation }
    }

    pub fn generation(self) -> (r: u64)
        ensures
            r == self.spec_generation(),
    {
        self.generation
    }
}

/// Installs hierarchy validation and its completion boundary.
#[derive(Debug, Default, Clone, Copy, PartialEq, Eq, Structural)]
pub struct HierarchyPlugin;

#[derive(Debug, Clone, Copy, PartialEq, Eq, Structural)]
pub enum HierarchySet {
    ValidateAndComplete,
}

/// The current topology generation and the last one validated, if it is still current.
#[derive(Debug, Clone, Copy, PartialEq, Eq, Structural)]
pub struct HierarchyGenerationState {
    pub topology_generation: u64,
    pub completed_generation: Option<u64>,
}

impl HierarchyGenerationState {
    /// Generation zero, already complete.
    pub fn new() -> (r: Self)
        ensures
            r.topology_generation == 0,
            r.completed_generation == Some(0u64),
    {
        HierarchyGenerationState { topology_generation: 0, completed_generation: Some(0) }
    }

    /// A topology change: the generation advances (saturating) and nothing is complete.
    pub fn mark_dirty(&mut self)
        ensures
            final(self).topology_generation == if old(self).topology_generation == u64::MAX {
                u64::MAX
            } else {
                (old(self).topology_generation + 1) as u64
            },
            final(self).completed_generation is None,
    {
        self.topology_generation = self.topology_generation.saturating_add(1);
        self.completed_generation = None;
    }

    pub fn needs_validation(&self) -> (r: bool)
        ensures
            r == (self.completed_generation != Some(self.topology_generation)),
    {
        match self.completed_generation {
            Some(g) => g != self.topology_generation,
            None => true,
        }
    }

    /// A successful validation completes the current generation.
    pub fn complete(&mut self)
        ensures
            final(self).topology_generation == old(self).topology_generation,
            final(self).completed_generation == Some(old(self).topology_generation),
    {
        self.completed_generation = Some(self.topology_generation);
    }

    /// The generation that is both complete and current, as the completed projection reports it.
    pub fn completed_topology_generation(&self, completed: Option<CompletedHierarchyProjection>) -> (r: Option<u64>)
        ensures
            r == match completed {
                Some(c) => if self.completed_generation == Some(c.spec_generation()) && self.topology_generation == c.spec_generation() {
                    Some(c.spec_generation())
                } else {
                    None
                },
                None => None,
            },
    {
        match completed {
            None => None,
            Some(c) => {
                let g = c.generation();
                let matches = match self.completed_generation {
                    Some(done) => done == g,
                    None => false,
                };
                if matches && self.topology_generation == g {
                    Some(g)
                } else {
                    None
                }
            },
        }
    }
}

} // verus!
