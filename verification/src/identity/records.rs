//! The values an identity domain hands out: settings, tokens, tombstones, lookups, statistics,
//! registered scene instances and errors.

use vstd::prelude::*;

use crate::identity::remap::IdentityRemapError;
use crate::identity::types::{RuntimeEntityReference, SceneEntityId, SceneInstanceId, WorldEntityLocator, WorldIdentityDomainId};
use crate::limit::ItemLimit;
use crate::text::{compare_text, text_lt, TextOrder};

verus! {

/// The lifetime claims a domain may make, and how many retirements it keeps details of.
#[derive(Debug, Clone, Copy, PartialEq, Eq, Structural)]
pub struct WorldIdentityDomainSettings {
    lifetime_claims: ItemLimit,
    recent_tombstones: ItemLimit,
}

#[derive(Debug, Clone, Copy, PartialEq, Eq, Structural)]
pub enum WorldIdentitySettingsError {
    TombstonesExceedClaims { tombstones: usize, claims: usize },
}

impl WorldIdentityDomainSettings {
    pub closed spec fn claim_limit(self) -> usize {
        self.lifetime_claims.value()
    }

    pub closed spec fn tombstone_limit(self) -> usize {
        self.recent_tombstones.value()
    }

    /// The tombstone limit is within the claim limit.
    #[verifier::type_invariant]
    closed spec fn wf(self) -> bool {
        0 < self.recent_tombstones.value() <= self.lifetime_claims.value()
    }

    /// Refused when more tombstones than claims would be kept.
    pub fn new(lifetime_claims: ItemLimit, recent_tombstones: ItemLimit) -> (r: Result<Self, WorldIdentitySettingsError>)
        ensures
            recent_tombstones.value() > lifetime_claims.value() ==> r == Err::<Self, WorldIdentitySettingsError>(
                WorldIdentitySettingsError::TombstonesExceedClaims { tombstones: recent_tombstones.value(), claims: lifetime_claims.value() },
            ),
            recent_tombstones.value() <= lifetime_claims.value() ==> (r matches Ok(s)
                && s.claim_limit() == lifetime_claims.value() && s.tombstone_limit() == recent_tombstones.value()),
    {
        let tombstones = recent_tombstones.get();
        if tombstones > lifetime_claims.get() {
            return Err(WorldIdentitySettingsError::TombstonesExceedClaims {
                tombstones: recent_tombstones.get(),
                claims: lifetime_claims.get(),
            });
        }
        Ok(WorldIdentityDomainSettings { lifetime_claims, recent_tombstones })
    }

    pub fn lifetime_claims(self) -> (r: ItemLimit)
        ensures
            r.value() == self.claim_limit(),
    {
        self.lifetime_claims
    }

    pub fn recent_tombstones(self) -> (r: ItemLimit)
        ensures
            r.value() == self.tombstone_limit(),
    {
        self.recent_tombstones
    }
}

impl Default for WorldIdentityDomainSettings {
    /// 1,048,576 lifetime claims and 4,096 recent tombstones.
    fn default() -> (r: Self)
        ensures
            r.claim_limit() == 1_048_576,
            r.tombstone_limit() == 4_096,
    {
        let lifetime_claims = match ItemLimit::new(1_048_576) {
            Some(l) => l,
            None => unreached(),
        };
        let recent_tombstones = match ItemLimit::new(4_096) {
            Some(l) => l,
            None => unreached(),
        };
        WorldIdentityDomainSettings { lifetime_claims, recent_tombstones }
    }
}

#[derive(Debug, Clone, Copy, PartialEq, Eq, Structural)]
pub enum EntityIdentityAxis {
    Scene,
    Persistent,
}

#[derive(Debug, Clone, Copy, PartialEq, Eq, Structural, PartialOrd, Ord, Hash)]
pub enum TombstoneCause {
    Despawned,
    Unloaded,
    Replaced,
}

/// What was retired: a whole scene instance, or one entity reference.
#[derive(Debug, Clone, PartialEq, Eq, PartialOrd, Ord, Hash)]
pub enum IdentityTombstoneSubject {
    SceneInstance(SceneInstanceId),
    Entity(RuntimeEntityReference),
}

impl IdentityTombstoneSubject {
    pub(crate) fn duplicate(&self) -> (r: Self)
        ensures
            r == *self,
    {
        match self {
            IdentityTombstoneSubject::SceneInstance(i) => IdentityTombstoneSubject::SceneInstance(*i),
            IdentityTombstoneSubject::Entity(r) => IdentityTombstoneSubject::Entity(r.duplicate()),
        }
    }
}

/// The record of one retirement: when, by a non-zero sequence number, and why.
#[derive(Debug, Clone, Copy, PartialEq, Eq, Structural)]
pub struct IdentityTombstone {
    sequence: u64,
    cause: TombstoneCause,
}

impl IdentityTombstone {
    pub closed spec fn spec_sequence(self) -> u64 {
        self.sequence
    }

    pub closed spec fn spec_cause(self) -> TombstoneCause {
        self.cause
    }

    #[verifier::type_invariant]
    closed spec fn non_zero(self) -> bool {
        self.sequence != 0
    }

    /// The tombstone of retirement number `sequence`, for `cause`.
    pub closed spec fn spec_new(sequence: u64, cause: TombstoneCause) -> Self {
        IdentityTombstone { sequence, cause }
    }

    pub broadcast proof fn lemma_spec_new(sequence: u64, cause: TombstoneCause)
        ensures
            #[trigger] Self::spec_new(sequence, cause).spec_sequence() == sequence,
            Self::spec_new(sequence, cause).spec_cause() == cause,
    {
    }

    pub(crate) fn new(sequence: u64, cause: TombstoneCause) -> (r: Self)
        requires
            sequence != 0,
        ensures
            r.spec_sequence() == sequence,
            r.spec_cause() == cause,
            r == Self::spec_new(sequence, cause),
    {
        IdentityTombstone { sequence, cause }
    }

    pub fn sequence(&self) -> (r: u64)
        ensures
            r == self.spec_sequence(),
            r != 0,
    {
        proof {
            use_type_invariant(self);
        }
        self.sequence
    }

    pub fn cause(&self) -> (r: TombstoneCause)
        ensures
            r == self.spec_cause(),
    {
        self.cause
    }
}

/// What a reference resolves to.
#[derive(Debug, Clone, Copy, PartialEq, Eq, Structural)]
pub enum EntityLookup {
    Resolved(u64),
    Tombstoned(Option<IdentityTombstone>),
    Missing,
    ContextRequired,
    DomainUnavailable,
    WrongWorldBinding,
    WrongDomain { expected: WorldIdentityDomainId, actual: WorldIdentityDomainId },
    StaleRegistration,
}

#[derive(Debug, Clone, Copy, PartialEq, Eq, Structural)]
pub struct IdentityDomainStats {
    pub lifetime_claims: usize,
    pub claimed_scene_instances: usize,
    pub active_scene_instances: usize,
    pub active_scene_entities: usize,
    pub active_persistent_entities: usize,
    pub registered_entities: usize,
    pub recent_tombstones: usize,
}

/// A runtime entity as minted by the identity domain of one world: the domain, and the
/// entity's bits in that world. Bits alone do not say which world an entity lives in.
#[derive(Debug, Clone, Copy, PartialEq, Eq, Structural, Hash)]
pub struct WorldEntityToken {
    domain: WorldIdentityDomainId,
    entity: u64,
}

impl WorldEntityToken {
    pub closed spec fn spec_domain(self) -> WorldIdentityDomainId {
        self.domain
    }

    pub closed spec fn spec_entity(self) -> u64 {
        self.entity
    }

    pub(crate) fn new(domain: WorldIdentityDomainId, entity: u64) -> (r: Self)
        ensures
            r.spec_domain() == domain,
            r.spec_entity() == entity,
    {
        WorldEntityToken { domain, entity }
    }

    pub fn domain_id(self) -> (r: WorldIdentityDomainId)
        ensures
            r == self.spec_domain(),
    {
        self.domain
    }

    pub fn entity(self) -> (r: u64)
        ensures
            r == self.spec_entity(),
    {
        self.entity
    }
}

/// The locators of one entity on each identity axis it has.
#[derive(Debug, Clone, PartialEq, Eq)]
pub struct WorldEntityLocators {
    scene: Option<WorldEntityLocator>,
    persistent: Option<WorldEntityLocator>,
}

impl WorldEntityLocators {
    pub closed spec fn spec_scene(&self) -> Option<WorldEntityLocator> {
        self.scene
    }

    pub closed spec fn spec_persistent(&self) -> Option<WorldEntityLocator> {
        self.persistent
    }

    pub(crate) fn new(scene: Option<WorldEntityLocator>, persistent: Option<WorldEntityLocator>) -> (r: Self)
        ensures
            r.spec_scene() == scene,
            r.spec_persistent() == persistent,
    {
        WorldEntityLocators { scene, persistent }
    }

    pub fn scene(&self) -> (r: Option<&WorldEntityLocator>)
        ensures
            match self.spec_scene() {
                Some(l) => r == Some(&l),
                None => r is None,
            },
    {
        self.scene.as_ref()
    }

    pub fn persistent(&self) -> (r: Option<&WorldEntityLocator>)
        ensures
            match self.spec_persistent() {
                Some(l) => r == Some(&l),
                None => r is None,
            },
    {
        self.persistent.as_ref()
    }

    /// The scene locator, then the persistent one, each where present.
    pub fn iter(&self) -> (r: Vec<&WorldEntityLocator>)
        ensures
            r@.len() == (if self.spec_scene() is Some { 1int } else { 0 }) + (if self.spec_persistent() is Some { 1int } else { 0 }),
            self.spec_scene() matches Some(l) ==> *r@[0] == l,
            self.spec_persistent() matches Some(l) ==> *r@[r@.len() - 1] == l,
    {
        let mut out: Vec<&WorldEntityLocator> = Vec::new();
        if let Some(l) = &self.scene {
            out.push(l);
        }
        if let Some(l) = &self.persistent {
            out.push(l);
        }
        out
    }
}

/// The ids strictly increase.
pub open spec fn ids_increasing(ids: Seq<SceneEntityId>) -> bool {
    forall|i: int, j: int| 0 <= i < j < ids.len() ==> text_lt((#[trigger] ids[i]).view(), (#[trigger] ids[j]).view())
}

/// `ids` holds an id with the same text as `entity`.
pub open spec fn has_id(ids: Seq<SceneEntityId>, entity: Seq<char>) -> bool {
    exists|i: int| 0 <= i < ids.len() && (#[trigger] ids[i]).view() == entity
}

/// A scene instance as registered: its domain, its id and its entity ids, increasing.
#[derive(Debug, PartialEq, Eq)]
pub struct SpawnedSceneInstance {
    domain: WorldIdentityDomainId,
    instance: SceneInstanceId,
    entity_ids: Vec<SceneEntityId>,
}

impl SpawnedSceneInstance {
    pub closed spec fn spec_domain(&self) -> WorldIdentityDomainId {
        self.domain
    }

    pub closed spec fn spec_instance(&self) -> SceneInstanceId {
        self.instance
    }

    pub closed spec fn ids(&self) -> Seq<SceneEntityId> {
        self.entity_ids@
    }

    #[verifier::type_invariant]
    closed spec fn sorted(self) -> bool {
        ids_increasing(self.entity_ids@)
    }

    pub(crate) fn new(domain: WorldIdentityDomainId, instance: SceneInstanceId, entity_ids: Vec<SceneEntityId>) -> (r: Self)
        requires
            ids_increasing(entity_ids@),
        ensures
            r.spec_domain() == domain,
            r.spec_instance() == instance,
            r.ids() == entity_ids@,
    {
        SpawnedSceneInstance { domain, instance, entity_ids }
    }

    pub fn domain_id(&self) -> (r: WorldIdentityDomainId)
        ensures
            r == self.spec_domain(),
    {
        self.domain
    }

    pub fn instance_id(&self) -> (r: SceneInstanceId)
        ensures
            r == self.spec_instance(),
    {
        self.instance
    }

    pub fn entity_ids(&self) -> (r: &[SceneEntityId])
        ensures
            r@ == self.ids(),
            ids_increasing(r@),
    {
        proof {
            use_type_invariant(self);
        }
        self.entity_ids.as_slice()
    }

    pub fn len(&self) -> (r: usize)
        ensures
            r == self.ids().len(),
    {
        self.entity_ids.len()
    }

    pub fn is_empty(&self) -> (r: bool)
        ensures
            r == (self.ids().len() == 0),
    {
        self.entity_ids.len() == 0
    }

    pub fn contains(&self, entity: &SceneEntityId) -> (r: bool)
        ensures
            r == has_id(self.ids(), entity.view()),
    {
        let mut i: usize = 0;
        while i < self.entity_ids.len()
            invariant
                i <= self.entity_ids@.len(),
                forall|k: int| 0 <= k < i ==> (#[trigger] self.entity_ids@[k]).view() != entity.view(),
            decreases self.entity_ids@.len() - i,
        {
            match compare_text(self.entity_ids[i].as_str(), entity.as_str()) {
                TextOrder::Equal => {
                    proof {
                        assert(self.entity_ids@[i as int].view() == entity.view());
                    }
                    return true;
                },
                _ => {},
            }
            i = i + 1;
        }
        false
    }

    /// The scene reference of `entity` in this instance, if it is a member.
    pub fn runtime_reference(&self, entity: &SceneEntityId) -> (r: Option<RuntimeEntityReference>)
        ensures
            has_id(self.ids(), entity.view()) ==> r == Some(RuntimeEntityReference::Scene { instance: self.spec_instance(), entity: *entity }),
            !has_id(self.ids(), entity.view()) ==> r is None,
    {
        if self.contains(entity) {
            Some(RuntimeEntityReference::scene(self.instance, entity.duplicate()))
        } else {
            None
        }
    }

    /// The locator of `entity` in this instance's domain, if it is a member.
    pub fn locator(&self, entity: &SceneEntityId) -> (r: Option<WorldEntityLocator>)
        ensures
            has_id(self.ids(), entity.view()) ==> (r matches Some(l) && l.spec_domain() == self.spec_domain()
                && l.spec_entity() == RuntimeEntityReference::Scene { instance: self.spec_instance(), entity: *entity }),
            !has_id(self.ids(), entity.view()) ==> r is None,
    {
        match self.runtime_reference(entity) {
            Some(reference) => Some(WorldEntityLocator::new(self.domain, reference)),
            None => None,
        }
    }
}

#[derive(Debug, Clone, PartialEq, Eq)]
pub enum IdentityDomainError {
    WorldDomainIdExhausted,
    WorldDomainUnavailable,
    WorldBindingMismatch,
    SceneInstanceExhausted,
    SceneInstanceAlreadyClaimed { instance: SceneInstanceId },
    SceneInstanceNotActive { instance: SceneInstanceId },
    SceneInstanceMembershipMismatch { instance: SceneInstanceId },
    ReferenceAlreadyClaimed { reference: RuntimeEntityReference },
    EntityAxisAlreadyRegistered { axis: EntityIdentityAxis },
    EntityTokenNotAlive,
    EntityTokenNotOwned,
    DuplicateSceneEntityId { entity: SceneEntityId },
    DuplicateRuntimeEntity,
    IncompleteSceneFork,
    IncompleteSceneForkIdentityAxes { entity: SceneEntityId },
    InvalidSceneRemap(IdentityRemapError),
    LifetimeClaimLimit { requested: usize, maximum: usize },
    WrongDomain { expected: WorldIdentityDomainId, actual: WorldIdentityDomainId },
    EntityNotRegistered,
    StaleRegistration,
    RetirementSequenceExhausted,
}

} // verus!
