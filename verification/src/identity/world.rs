//! What an identity domain reads of the world it is installed in: the world's id, which
//! entities are alive, and which identity domain marked each of them.

use std::collections::HashMap;

use vstd::prelude::*;

verus! {

broadcast use vstd::std_specs::hash::group_hash_axioms;

/// The entities of one world, by their bits, each with the identity domain that marked it
/// (`None` for an entity spawned without a marker).
#[derive(Debug)]
pub struct IdentityWorld {
    id: u64,
    next_entity: u64,
    entities: HashMap<u64, Option<u64>>,
}

impl IdentityWorld {
    pub closed spec fn spec_id(&self) -> u64 {
        self.id
    }

    /// The live entities and their markers.
    pub closed spec fn live(&self) -> Map<u64, Option<u64>> {
        self.entities@
    }

    /// The bits the next spawned entity gets.
    pub closed spec fn spec_next_entity(&self) -> u64 {
        self.next_entity
    }

    #[verifier::type_invariant]
    closed spec fn fresh(self) -> bool {
        forall|e: u64| #[trigger] self.entities@.contains_key(e) ==> e < self.next_entity
    }

    /// An empty world with the given id.
    pub fn new(id: u64) -> (r: Self)
        ensures
            r.spec_id() == id,
            r.live() == Map::<u64, Option<u64>>::empty(),
            r.spec_next_entity() == 0,
    {
        IdentityWorld { id, next_entity: 0, entities: HashMap::new() }
    }

    pub fn id(&self) -> (r: u64)
        ensures
            r == self.spec_id(),
    {
        self.id
    }

    /// Spawns an entity carrying `marker`; its bits were never used in this world.
    pub fn spawn(&mut self, marker: Option<u64>) -> (e: u64)
        requires
            old(self).spec_next_entity() < u64::MAX,
        ensures
            e == old(self).spec_next_entity(),
            !old(self).live().contains_key(e),
            final(self).live() == old(self).live().insert(e, marker),
            final(self).spec_id() == old(self).spec_id(),
            final(self).spec_next_entity() == e + 1,
    {
        proof {
            use_type_invariant(&*self);
        }
        let e = self.next_entity;
        let mut entities = HashMap::new();
        std::mem::swap(&mut entities, &mut self.entities);
        entities.insert(e, marker);
        *self = IdentityWorld { id: self.id, next_entity: e + 1, entities };
        e
    }

    /// Despawns `entity`; whether it was alive.
    pub fn despawn(&mut self, entity: u64) -> (r: bool)
        ensures
            r == old(self).live().contains_key(entity),
            final(self).live() == old(self).live().remove(entity),
            final(self).spec_id() == old(self).spec_id(),
            final(self).spec_next_entity() == old(self).spec_next_entity(),
    {
        proof {
            use_type_invariant(&*self);
        }
        let mut entities = HashMap::new();
        std::mem::swap(&mut entities, &mut self.entities);
        let r = entities.remove(&entity).is_some();
        self.entities = entities;
        r
    }

    pub fn is_alive(&self, entity: u64) -> (r: bool)
        ensures
            r == self.live().contains_key(entity),
    {
        self.entities.contains_key(&entity)
    }

    /// The identity domain that marked `entity`, if it is alive and marked.
    pub fn marker(&self, entity: u64) -> (r: Option<u64>)
        ensures
            r == (if self.live().contains_key(entity) { self.live()[entity] } else { None }),
    {
        match self.entities.get(&entity) {
            Some(m) => *m,
            None => None,
        }
    }
}

/// `entity` is alive in `world` and carries `domain`'s marker.
pub open spec fn owned_by(world: Map<u64, Option<u64>>, entity: u64, domain: u64) -> bool {
    world.contains_key(entity) && world[entity] == Some(domain)
}

} // verus!
