//! The identities of one scene instance's entities, ordered by scene entity id.

use vstd::prelude::*;

use crate::identity::types::{RuntimeEntityReference, SceneEntityId, SceneInstanceId, WorldIdentityDomainId};
use crate::text::{compare_text, lemma_text_lt_transitive, lemma_text_lt_trichotomy, text_lt, TextOrder};

verus! {

/// One entity's scene reference and, where registered, its persistent reference.
#[derive(Debug, Clone, PartialEq, Eq)]
pub struct SceneIdentityReferences {
    pub scene: RuntimeEntityReference,
    pub persistent: Option<RuntimeEntityReference>,
}

/// The identities of one scene instance, by scene entity id.
#[derive(Debug, PartialEq, Eq)]
pub struct SceneIdentitySnapshot {
    domain: WorldIdentityDomainId,
    instance: SceneInstanceId,
    entities: Vec<(SceneEntityId, SceneIdentityReferences)>,
}

/// Entity ids strictly increasing.
pub open spec fn ids_sorted(entities: Seq<(SceneEntityId, SceneIdentityReferences)>) -> bool {
    forall|i: int, j: int| 0 <= i < j < entities.len() ==> text_lt((#[trigger] entities[i]).0.view(), (#[trigger] entities[j]).0.view())
}

impl SceneIdentitySnapshot {
    pub closed spec fn spec_domain(&self) -> WorldIdentityDomainId {
        self.domain
    }

    pub closed spec fn spec_instance(&self) -> SceneInstanceId {
        self.instance
    }

    pub closed spec fn entity_seq(&self) -> Seq<(SceneEntityId, SceneIdentityReferences)> {
        self.entities@
    }

    #[verifier::type_invariant]
    closed spec fn well_formed(self) -> bool {
        ids_sorted(self.entities@)
    }

    /// A snapshot of `entities`, refused unless their ids strictly increase.
    pub fn new(domain: WorldIdentityDomainId, instance: SceneInstanceId, entities: Vec<(SceneEntityId, SceneIdentityReferences)>) -> (r: Option<Self>)
        ensures
            ids_sorted(entities@) ==> (r matches Some(s) && s.spec_domain() == domain && s.spec_instance() == instance && s.entity_seq() == entities@),
            !ids_sorted(entities@) ==> r is None,
    {
        let mut i: usize = 1;
        if entities.len() > 1 {
            while i < entities.len()
                invariant
                    1 <= i <= entities@.len(),
                    forall|a: int, b: int| 0 <= a < b < i ==> text_lt((#[trigger] entities@[a]).0.view(), (#[trigger] entities@[b]).0.view()),
                decreases entities@.len() - i,
            {
                match compare_text(entities[i - 1].0.as_str(), entities[i].0.as_str()) {
                    TextOrder::Less => {
                        proof {
                            assert forall|a: int, b: int| 0 <= a < b < i + 1 implies text_lt((#[trigger] entities@[a]).0.view(), (#[trigger] entities@[b]).0.view()) by {
                                if b == i && a < i - 1 {
                                    lemma_text_lt_transitive(entities@[a].0.view(), entities@[i - 1].0.view(), entities@[b].0.view());
                                }
                            }
                        }
                    },
                    _ => {
                        proof {
                            lemma_text_lt_trichotomy(entities@[i - 1].0.view(), entities@[i as int].0.view());
                            assert(!text_lt(entities@[i - 1].0.view(), entities@[i as int].0.view()));
                        }
                        return None;
                    },
                }
                i = i + 1;
            }
        }
        Some(SceneIdentitySnapshot { domain, instance, entities })
    }

    pub fn domain_id(&self) -> (r: WorldIdentityDomainId)
        ensures
            r == self.spec_domain(),
    {
        self.domain
    }

    pub fn instance_id(&self) -> (r: SceneInstanceId)
        ensures
            r == self.spec_instance(),
    {
        self.instance
    }

    /// The entity ids, increasing.
    pub fn entity_ids(&self) -> (r: Vec<&SceneEntityId>)
        ensures
            r@.len() == self.entity_seq().len(),
            forall|i: int| 0 <= i < r@.len() ==> *(#[trigger] r@[i]) == self.entity_seq()[i].0,
    {
        let mut ids: Vec<&SceneEntityId> = Vec::new();
        let mut i: usize = 0;
        while i < self.entities.len()
            invariant
                i <= self.entities@.len(),
                ids@.len() == i,
                forall|k: int| 0 <= k < i ==> *(#[trigger] ids@[k]) == self.entities@[k].0,
            decreases self.entities@.len() - i,
        {
            ids.push(&self.entities[i].0);
            i = i + 1;
        }
        ids
    }

    /// The `(id, references)` entries, increasing by id.
    pub fn entries(&self) -> (r: &[(SceneEntityId, SceneIdentityReferences)])
        ensures
            r@ == self.entity_seq(),
            ids_sorted(r@),
    {
        proof {
            use_type_invariant(self);
        }
        self.entities.as_slice()
    }

    pub fn len(&self) -> (r: usize)
        ensures
            r == self.entity_seq().len(),
    {
        self.entities.len()
    }

    pub fn is_empty(&self) -> (r: bool)
        ensures
            r == (self.entity_seq().len() == 0),
    {
        self.entities.len() == 0
    }

    /// The references of `entity`, if the snapshot has it.
    pub fn references(&self, entity: &SceneEntityId) -> (r: Option<&SceneIdentityReferences>)
        ensures
            ids_sorted(self.entity_seq()),
            match r {
                Some(refs) => exists|i: int| 0 <= i < self.entity_seq().len() && (#[trigger] self.entity_seq()[i]).0.view() == entity.view()
                    && *refs == self.entity_seq()[i].1,
                None => forall|i: int| 0 <= i < self.entity_seq().len() ==> (#[trigger] self.entity_seq()[i]).0.view() != entity.view(),
            },
    {
        let mut i: usize = 0;
        while i < self.entities.len()
            invariant
                i <= self.entities@.len(),
                forall|k: int| 0 <= k < i ==> (#[trigger] self.entities@[k]).0.view() != entity.view(),
            decreases self.entities@.len() - i,
        {
            proof {
                use_type_invariant(self);
            }
            match compare_text(self.entities[i].0.as_str(), entity.as_str()) {
                TextOrder::Equal => {
                    proof {
                        assert(self.entity_seq()[i as int].0.view() == entity.view());
                    }
                    return Some(&self.entities[i].1);
                },
                _ => {},
            }
            i = i + 1;
        }
        proof {
            use_type_invariant(self);
        }
        None
    }

    /// One scene reference per entity plus one per persistent reference, saturating.
    pub fn reference_count(&self) -> (r: usize)
        ensures
            r == sat_count(self.entity_seq(), self.entity_seq().len() as int),
            ids_sorted(self.entity_seq()),
    {
        proof {
            use_type_invariant(self);
        }
        let mut count: usize = 0;
        let mut i: usize = 0;
        while i < self.entities.len()
            invariant
                i <= self.entities@.len(),
                count == sat_count(self.entities@, i as int),
            decreases self.entities@.len() - i,
        {
            let add: usize = if self.entities[i].1.persistent.is_some() { 2 } else { 1 };
            count = count.saturating_add(add);
            i = i + 1;
        }
        count
    }
}

/// The saturating count of references of the first `n` entries.
pub open spec fn sat_count(entities: Seq<(SceneEntityId, SceneIdentityReferences)>, n: int) -> usize
    decreases n,
{
    if n <= 0 {
        0
    } else {
        let prior = sat_count(entities, n - 1);
        let add: int = if entities[n - 1].1.persistent is Some { 2 } else { 1 };
        if prior + add > usize::MAX { usize::MAX } else { (prior + add) as usize }
    }
}

} // verus!
