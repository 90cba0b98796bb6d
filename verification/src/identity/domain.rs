//! The identity domain of one world: which scene instances and entity references it has
//! claimed, which runtime entity each active reference names, and what was retired.
//!
//! Claims are never given back: a retired reference resolves as tombstoned, and registering
//! it again is refused. Every refused operation leaves the domain as it was.

use std::collections::{HashMap, HashSet};

use vstd::prelude::*;

use crate::identity::allocator::{IdentityAllocationError, MonotonicNonZeroU64Allocator};
use crate::identity::keys::{compare_runtime, key_lt, ref_key, RefKey};
use crate::identity::records::{
    EntityIdentityAxis, EntityLookup, IdentityDomainError, IdentityDomainStats, IdentityTombstone, IdentityTombstoneSubject,
    SpawnedSceneInstance, WorldEntityLocators, WorldEntityToken, WorldIdentityDomainSettings, ids_increasing,
};
use crate::identity::refmap::{RefMap, RefSet};
use crate::identity::remap::{snapshot_remap, WorldEntityLocatorRemap};
use crate::identity::snapshot::{ids_sorted, sat_count, SceneIdentityReferences, SceneIdentitySnapshot};
use crate::identity::types::{
    EntityReference, PersistentRuntimeReference, RuntimeEntityReference, SceneEntityId, SceneInstanceId, WorldEntityLocator,
    WorldIdentityDomainId,
};
use crate::identity::world::{owned_by, IdentityWorld};
use crate::text::{compare_text, TextOrder};

verus! {

broadcast use vstd::std_specs::hash::group_hash_axioms;

/// The references one runtime entity is registered under, at most one per axis.
#[derive(Debug, Clone, PartialEq, Eq)]
pub struct EntityIdentityAxes {
    pub scene: Option<RuntimeEntityReference>,
    pub persistent: Option<RuntimeEntityReference>,
}

impl EntityIdentityAxes {
    fn duplicate(&self) -> (r: Self)
        ensures
            r == *self,
    {
        EntityIdentityAxes {
            scene: match &self.scene {
                Some(s) => Some(s.duplicate()),
                None => None,
            },
            persistent: match &self.persistent {
                Some(p) => Some(p.duplicate()),
                None => None,
            },
        }
    }
}

/// The state of a domain, as the contracts speak of it.
pub struct IdentityDomainModel {
    pub id: WorldIdentityDomainId,
    pub world_id: u64,
    pub settings: WorldIdentityDomainSettings,
    /// The next scene instance id to hand out, `None` once exhausted.
    pub next_instance: Option<u64>,
    /// The next retirement sequence number, `None` once exhausted.
    pub next_sequence: Option<u64>,
    pub claimed_instances: Set<u64>,
    pub active_instances: Set<u64>,
    /// Every reference key ever claimed.
    pub claimed: Set<RefKey>,
    /// Active scene references and their entities; `scene_refs` holds them in order.
    pub scene: Map<RefKey, u64>,
    pub scene_refs: Seq<RuntimeEntityReference>,
    /// Active persistent references and their entities; `persistent_refs` holds them in order.
    pub persistent: Map<RefKey, u64>,
    pub persistent_refs: Seq<RuntimeEntityReference>,
    /// The identity axes of each registered entity.
    pub axes: Map<u64, EntityIdentityAxes>,
    /// The recent tombstones, oldest first.
    pub tombstones: Seq<(IdentityTombstoneSubject, IdentityTombstone)>,
}

/// Lifetime claims: scene instances plus entity references.
pub open spec fn claims(m: IdentityDomainModel) -> int {
    (m.claimed_instances.len() + m.claimed.len()) as int
}

/// `a` saturated at `usize::MAX`.
pub open spec fn sat(a: int) -> usize {
    if a > usize::MAX { usize::MAX } else { a as usize }
}

/// The refusal of `additional` more claims, if they would exceed the limit.
pub open spec fn capacity_error(m: IdentityDomainModel, additional: int) -> Option<IdentityDomainError> {
    let requested = sat(claims(m) + additional);
    if requested > m.settings.claim_limit() {
        Some(IdentityDomainError::LifetimeClaimLimit { requested, maximum: m.settings.claim_limit() })
    } else {
        None
    }
}

/// The refusal of `token` as a live entity of this domain's world, if any.
pub open spec fn token_error(m: IdentityDomainModel, world_id: u64, live: Map<u64, Option<u64>>, token: WorldEntityToken) -> Option<IdentityDomainError> {
    if world_id != m.world_id {
        Some(IdentityDomainError::WorldBindingMismatch)
    } else if token.spec_domain() != m.id {
        Some(IdentityDomainError::WrongDomain { expected: m.id, actual: token.spec_domain() })
    } else if !live.contains_key(token.spec_entity()) {
        Some(IdentityDomainError::EntityTokenNotAlive)
    } else if !owned_by(live, token.spec_entity(), m.id.value()) {
        Some(IdentityDomainError::EntityTokenNotOwned)
    } else {
        None
    }
}

/// The entity an active reference names.
pub open spec fn registered_entity(m: IdentityDomainModel, r: RuntimeEntityReference) -> Option<u64> {
    let active = match r {
        RuntimeEntityReference::Scene { .. } => m.scene,
        RuntimeEntityReference::Persistent { .. } => m.persistent,
    };
    if active.contains_key(ref_key(r)) {
        Some(active[ref_key(r)])
    } else {
        None
    }
}

/// The subject is the entity reference with key `k`.
pub open spec fn names_reference(s: IdentityTombstoneSubject, k: RefKey) -> bool {
    s matches IdentityTombstoneSubject::Entity(r) && ref_key(r) == k
}

/// The first tombstone from `i` on of the reference with key `k`.
pub open spec fn tombstone_from(ts: Seq<(IdentityTombstoneSubject, IdentityTombstone)>, k: RefKey, i: int) -> Option<IdentityTombstone>
    decreases ts.len() - i,
{
    if i < 0 || i >= ts.len() {
        None
    } else if names_reference(ts[i].0, k) {
        Some(ts[i].1)
    } else {
        tombstone_from(ts, k, i + 1)
    }
}

/// What `r` resolves to in a world with id `world_id` and live entities `live`.
pub open spec fn lookup_outcome(m: IdentityDomainModel, world_id: u64, live: Map<u64, Option<u64>>, r: RuntimeEntityReference) -> EntityLookup {
    if world_id != m.world_id {
        EntityLookup::WrongWorldBinding
    } else {
        match registered_entity(m, r) {
            Some(e) => if owned_by(live, e, m.id.value()) {
                EntityLookup::Resolved(e)
            } else {
                EntityLookup::StaleRegistration
            },
            None => if m.claimed.contains(ref_key(r)) {
                EntityLookup::Tombstoned(tombstone_from(m.tombstones, ref_key(r), 0))
            } else {
                EntityLookup::Missing
            },
        }
    }
}

/// The refusal of registering persistent reference `p` for `token`, if any.
pub open spec fn persistent_registration_error(
    m: IdentityDomainModel,
    world_id: u64,
    live: Map<u64, Option<u64>>,
    token: WorldEntityToken,
    p: PersistentRuntimeReference,
) -> Option<IdentityDomainError> {
    let r = RuntimeEntityReference::Persistent { entity: p };
    match token_error(m, world_id, live, token) {
        Some(e) => Some(e),
        None => if m.claimed.contains(ref_key(r)) {
            Some(IdentityDomainError::ReferenceAlreadyClaimed { reference: r })
        } else if m.axes.contains_key(token.spec_entity()) && m.axes[token.spec_entity()].persistent is Some {
            Some(IdentityDomainError::EntityAxisAlreadyRegistered { axis: EntityIdentityAxis::Persistent })
        } else {
            capacity_error(m, 1)
        },
    }
}

/// The scene axis of `e`, if registered.
pub open spec fn scene_axis(axes: Map<u64, EntityIdentityAxes>, e: u64) -> Option<RuntimeEntityReference> {
    if axes.contains_key(e) { axes[e].scene } else { None }
}

/// The persistent axis of `e`, if registered.
pub open spec fn persistent_axis(axes: Map<u64, EntityIdentityAxes>, e: u64) -> Option<RuntimeEntityReference> {
    if axes.contains_key(e) { axes[e].persistent } else { None }
}

/// The key of the scene reference of `id` in `instance`.
pub open spec fn scene_key_of(instance: SceneInstanceId, id: SceneEntityId) -> RefKey {
    ref_key(RuntimeEntityReference::Scene { instance, entity: id })
}

/// The key of persistent reference `p`.
pub open spec fn persistent_key_of(p: PersistentRuntimeReference) -> RefKey {
    ref_key(RuntimeEntityReference::Persistent { entity: p })
}

/// The lifetime claims a group registration makes for its entities: one scene reference
/// each, plus one for each persistent reference.
pub open spec fn group_claims(items: Seq<(SceneEntityId, WorldEntityToken, Option<PersistentRuntimeReference>)>) -> int
    decreases items.len(),
{
    if items.len() == 0 {
        0
    } else {
        group_claims(items.drop_last()) + 1 + if items.last().2 is Some { 1int } else { 0 }
    }
}

/// The items can be committed as `instance`: increasing distinct ids, distinct entities and
/// persistent references, nothing of it claimed yet, within the claim limit.
pub open spec fn group_committable(
    m: IdentityDomainModel,
    instance: SceneInstanceId,
    items: Seq<(SceneEntityId, WorldEntityToken, Option<PersistentRuntimeReference>)>,
) -> bool {
    &&& forall|i: int, j: int| 0 <= i < j < items.len() ==> crate::text::text_lt((#[trigger] items[i]).0.view(), (#[trigger] items[j]).0.view())
    &&& forall|i: int, j: int| 0 <= i < j < items.len() ==> (#[trigger] items[i]).1.spec_entity() != (#[trigger] items[j]).1.spec_entity()
    &&& forall|i: int, j: int| 0 <= i < j < items.len() && (#[trigger] items[i]).2 is Some && (#[trigger] items[j]).2 is Some
        ==> persistent_key_of(items[i].2->0) != persistent_key_of(items[j].2->0)
    &&& forall|i: int| 0 <= i < items.len() ==> !m.claimed.contains(scene_key_of(instance, (#[trigger] items[i]).0))
    &&& forall|i: int| 0 <= i < items.len() && (#[trigger] items[i]).2 is Some ==> !m.claimed.contains(persistent_key_of(items[i].2->0))
    &&& !m.claimed_instances.contains(instance.value())
    &&& m.settings.claim_limit() < usize::MAX ==> claims(m) + 1 + group_claims(items) <= m.settings.claim_limit()
}

/// `m1` is `m0` with the references of `items` in `instance` added: claimed, active, and on
/// each item's entity.
pub open spec fn entries_added(
    m0: IdentityDomainModel,
    m1: IdentityDomainModel,
    instance: SceneInstanceId,
    items: Seq<(SceneEntityId, WorldEntityToken, Option<PersistentRuntimeReference>)>,
) -> bool {
    &&& forall|k: RefKey| #[trigger] m1.claimed.contains(k) <==> m0.claimed.contains(k)
        || (exists|i: int| 0 <= i < items.len() && k == scene_key_of(instance, (#[trigger] items[i]).0))
        || (exists|i: int| 0 <= i < items.len() && (#[trigger] items[i]).2 is Some && k == persistent_key_of(items[i].2->0))
    &&& forall|k: RefKey| #[trigger] m1.scene.contains_key(k) <==> m0.scene.contains_key(k)
        || (exists|i: int| 0 <= i < items.len() && k == scene_key_of(instance, (#[trigger] items[i]).0))
    &&& forall|k: RefKey| #[trigger] m0.scene.contains_key(k) ==> m1.scene[k] == m0.scene[k]
    &&& forall|i: int| 0 <= i < items.len() ==> m1.scene[scene_key_of(instance, (#[trigger] items[i]).0)] == items[i].1.spec_entity()
    &&& forall|k: RefKey| #[trigger] m1.persistent.contains_key(k) <==> m0.persistent.contains_key(k)
        || (exists|i: int| 0 <= i < items.len() && (#[trigger] items[i]).2 is Some && k == persistent_key_of(items[i].2->0))
    &&& forall|k: RefKey| #[trigger] m0.persistent.contains_key(k) ==> m1.persistent[k] == m0.persistent[k]
    &&& forall|i: int| 0 <= i < items.len() && (#[trigger] items[i]).2 is Some ==> m1.persistent[persistent_key_of(items[i].2->0)] == items[i].1.spec_entity()
    &&& forall|e: u64| #[trigger] m1.axes.contains_key(e) <==> m0.axes.contains_key(e)
        || (exists|i: int| 0 <= i < items.len() && (#[trigger] items[i]).1.spec_entity() == e)
    &&& forall|e: u64| #[trigger] m0.axes.contains_key(e) && !(exists|i: int| 0 <= i < items.len() && (#[trigger] items[i]).1.spec_entity() == e)
        ==> m1.axes[e] == m0.axes[e]
    &&& forall|i: int| 0 <= i < items.len() ==> m1.axes[(#[trigger] items[i]).1.spec_entity()] == (EntityIdentityAxes {
        scene: Some(RuntimeEntityReference::Scene { instance, entity: items[i].0 }),
        persistent: match items[i].2 {
            Some(p) => Some(RuntimeEntityReference::Persistent { entity: p }),
            None => persistent_axis(m0.axes, items[i].1.spec_entity()),
        },
    })
}

/// `m1` is `m0` with `instance` and its items committed; nothing else changes but the
/// ordered views of the maps.
pub open spec fn group_committed(
    m0: IdentityDomainModel,
    m1: IdentityDomainModel,
    instance: SceneInstanceId,
    items: Seq<(SceneEntityId, WorldEntityToken, Option<PersistentRuntimeReference>)>,
) -> bool {
    &&& entries_added(m0, m1, instance, items)
    &&& m1.claimed_instances == m0.claimed_instances.insert(instance.value())
    &&& m1.active_instances == m0.active_instances.insert(instance.value())
    &&& m1.id == m0.id
    &&& m1.world_id == m0.world_id
    &&& m1.settings == m0.settings
    &&& m1.next_instance == m0.next_instance
    &&& m1.next_sequence == m0.next_sequence
    &&& m1.tombstones == m0.tombstones
}

/// `output` holds the entries of `input`, strictly increasing by id.
pub open spec fn arranged<T>(input: Seq<(SceneEntityId, T)>, output: Seq<(SceneEntityId, T)>) -> bool {
    &&& output.len() == input.len()
    &&& forall|i: int, j: int| 0 <= i < j < output.len() ==> crate::text::text_lt((#[trigger] output[i]).0.view(), (#[trigger] output[j]).0.view())
    &&& forall|i: int| 0 <= i < input.len() ==> output.contains(#[trigger] input[i])
    &&& forall|j: int| 0 <= j < output.len() ==> input.contains(#[trigger] output[j])
}

/// The refusal met when collecting `entries` from `i` on, the ones before accepted: too many
/// for the remaining claims, a repeated id, or a repeated entity.
pub open spec fn collect_error(
    entries: Seq<(SceneEntityId, WorldEntityToken)>,
    maximum_entries: int,
    maximum_claims: usize,
    i: int,
) -> Option<IdentityDomainError>
    decreases entries.len() - i,
{
    if i < 0 || i >= entries.len() {
        None
    } else if i >= maximum_entries {
        Some(IdentityDomainError::LifetimeClaimLimit { requested: sat(maximum_claims + 1), maximum: maximum_claims })
    } else if exists|j: int| 0 <= j < i && (#[trigger] entries[j]).0.view() == entries[i].0.view() {
        Some(IdentityDomainError::DuplicateSceneEntityId { entity: entries[i].0 })
    } else if exists|j: int| 0 <= j < i && (#[trigger] entries[j]).1.spec_entity() == entries[i].1.spec_entity() {
        Some(IdentityDomainError::DuplicateRuntimeEntity)
    } else {
        collect_error(entries, maximum_entries, maximum_claims, i + 1)
    }
}

/// The refusal of one scene entry of `instance`: its token, its reference already claimed, or
/// its entity already on the scene axis.
pub open spec fn scene_entry_error(
    m: IdentityDomainModel,
    world_id: u64,
    live: Map<u64, Option<u64>>,
    instance: SceneInstanceId,
    entry: (SceneEntityId, WorldEntityToken),
) -> Option<IdentityDomainError> {
    let reference = RuntimeEntityReference::Scene { instance, entity: entry.0 };
    match token_error(m, world_id, live, entry.1) {
        Some(e) => Some(e),
        None => if m.claimed.contains(ref_key(reference)) {
            Some(IdentityDomainError::ReferenceAlreadyClaimed { reference })
        } else if scene_axis(m.axes, entry.1.spec_entity()) is Some {
            Some(IdentityDomainError::EntityAxisAlreadyRegistered { axis: EntityIdentityAxis::Scene })
        } else {
            None
        },
    }
}

/// The first refusal among `entries` from `i` on.
pub open spec fn scene_entries_error(
    m: IdentityDomainModel,
    world_id: u64,
    live: Map<u64, Option<u64>>,
    instance: SceneInstanceId,
    entries: Seq<(SceneEntityId, WorldEntityToken)>,
    i: int,
) -> Option<IdentityDomainError>
    decreases entries.len() - i,
{
    if i < 0 || i >= entries.len() {
        None
    } else {
        match scene_entry_error(m, world_id, live, instance, entries[i]) {
            Some(e) => Some(e),
            None => scene_entries_error(m, world_id, live, instance, entries, i + 1),
        }
    }
}

/// Scene entries as group items without persistent references.
pub open spec fn scene_items(entries: Seq<(SceneEntityId, WorldEntityToken)>) -> Seq<(SceneEntityId, WorldEntityToken, Option<PersistentRuntimeReference>)> {
    entries.map_values(|e: (SceneEntityId, WorldEntityToken)| (e.0, e.1, None::<PersistentRuntimeReference>))
}

/// What an allocator holding `n` holds after handing it out.
pub open spec fn after_allocation(n: u64) -> Option<u64> {
    if n == u64::MAX { None } else { Some((n + 1) as u64) }
}

proof fn lemma_group_claims_scene_items(entries: Seq<(SceneEntityId, WorldEntityToken)>)
    ensures
        group_claims(scene_items(entries)) == entries.len(),
    decreases entries.len(),
{
    if entries.len() > 0 {
        assert(scene_items(entries).drop_last() =~= scene_items(entries.drop_last()));
        lemma_group_claims_scene_items(entries.drop_last());
    }
}

/// `output` holds the group items of `input`, strictly increasing by id.
pub open spec fn arranged_items(
    input: Seq<(SceneEntityId, WorldEntityToken, Option<PersistentRuntimeReference>)>,
    output: Seq<(SceneEntityId, WorldEntityToken, Option<PersistentRuntimeReference>)>,
) -> bool {
    &&& output.len() == input.len()
    &&& forall|i: int, j: int| 0 <= i < j < output.len() ==> crate::text::text_lt((#[trigger] output[i]).0.view(), (#[trigger] output[j]).0.view())
    &&& forall|i: int| 0 <= i < input.len() ==> output.contains(#[trigger] input[i])
    &&& forall|j: int| 0 <= j < output.len() ==> input.contains(#[trigger] output[j])
}

/// The source snapshot has an entity with the id text `id`.
pub open spec fn in_source(source: Seq<(SceneEntityId, SceneIdentityReferences)>, id: Seq<char>) -> bool {
    exists|k: int| 0 <= k < source.len() && (#[trigger] source[k]).0.view() == id
}

/// The references the source snapshot records for the id text `id`.
pub open spec fn source_references(source: Seq<(SceneEntityId, SceneIdentityReferences)>, id: Seq<char>) -> SceneIdentityReferences {
    source[choose|k: int| 0 <= k < source.len() && (#[trigger] source[k]).0.view() == id].1
}

/// The refusal of group item `i` of `entries`, the ones before accepted, when registering the
/// group of `source` as `instance`.
pub open spec fn group_item_error(
    m: IdentityDomainModel,
    world_id: u64,
    live: Map<u64, Option<u64>>,
    source: Seq<(SceneEntityId, SceneIdentityReferences)>,
    instance: SceneInstanceId,
    entries: Seq<(SceneEntityId, WorldEntityToken, Option<PersistentRuntimeReference>)>,
    i: int,
) -> Option<IdentityDomainError> {
    let x = entries[i];
    let e = x.1.spec_entity();
    let scene = RuntimeEntityReference::Scene { instance, entity: x.0 };
    if i >= source.len() || !in_source(source, x.0.view()) {
        Some(IdentityDomainError::IncompleteSceneFork)
    } else if (source_references(source, x.0.view()).persistent is Some) != (x.2 is Some) {
        Some(IdentityDomainError::IncompleteSceneForkIdentityAxes { entity: x.0 })
    } else if token_error(m, world_id, live, x.1) is Some {
        token_error(m, world_id, live, x.1)
    } else if exists|j: int| 0 <= j < i && (#[trigger] entries[j]).1.spec_entity() == e {
        Some(IdentityDomainError::DuplicateRuntimeEntity)
    } else if scene_axis(m.axes, e) is Some {
        Some(IdentityDomainError::EntityAxisAlreadyRegistered { axis: EntityIdentityAxis::Scene })
    } else if persistent_axis(m.axes, e) is Some {
        Some(IdentityDomainError::EntityAxisAlreadyRegistered { axis: EntityIdentityAxis::Persistent })
    } else if m.claimed.contains(ref_key(scene)) {
        Some(IdentityDomainError::ReferenceAlreadyClaimed { reference: scene })
    } else if x.2 is Some && (m.claimed.contains(persistent_key_of(x.2->0))
        || exists|j: int| 0 <= j < i && (#[trigger] entries[j]).2 is Some && persistent_key_of(entries[j].2->0) == persistent_key_of(x.2->0)) {
        Some(IdentityDomainError::ReferenceAlreadyClaimed { reference: RuntimeEntityReference::Persistent { entity: x.2->0 } })
    } else if exists|j: int| 0 <= j < i && (#[trigger] entries[j]).0.view() == x.0.view() {
        Some(IdentityDomainError::DuplicateSceneEntityId { entity: x.0 })
    } else {
        None
    }
}

/// The first refusal among the group items from `i` on.
pub open spec fn group_items_error(
    m: IdentityDomainModel,
    world_id: u64,
    live: Map<u64, Option<u64>>,
    source: Seq<(SceneEntityId, SceneIdentityReferences)>,
    instance: SceneInstanceId,
    entries: Seq<(SceneEntityId, WorldEntityToken, Option<PersistentRuntimeReference>)>,
    i: int,
) -> Option<IdentityDomainError>
    decreases entries.len() - i,
{
    if i < 0 || i >= entries.len() {
        None
    } else {
        match group_item_error(m, world_id, live, source, instance, entries, i) {
            Some(e) => Some(e),
            None => group_items_error(m, world_id, live, source, instance, entries, i + 1),
        }
    }
}

/// The snapshot entries of group items registered as `instance`.
pub open spec fn target_entries(
    instance: SceneInstanceId,
    items: Seq<(SceneEntityId, WorldEntityToken, Option<PersistentRuntimeReference>)>,
) -> Seq<(SceneEntityId, SceneIdentityReferences)> {
    items.map_values(|x: (SceneEntityId, WorldEntityToken, Option<PersistentRuntimeReference>)| (x.0, SceneIdentityReferences {
        scene: RuntimeEntityReference::Scene { instance, entity: x.0 },
        persistent: match x.2 {
            Some(p) => Some(RuntimeEntityReference::Persistent { entity: p }),
            None => None,
        },
    }))
}

/// The outcome of registering the group of `source` as `instance` from `entries`, before the
/// scene instance allocator is touched: the refusal, or the items arranged by id and their
/// target snapshot entries.
pub open spec fn group_outcome(
    m: IdentityDomainModel,
    world_id: u64,
    live: Map<u64, Option<u64>>,
    source: SceneIdentitySnapshot,
    instance: SceneInstanceId,
    entries: Seq<(SceneEntityId, WorldEntityToken, Option<PersistentRuntimeReference>)>,
) -> Option<IdentityDomainError> {
    let count = sat_count(source.entity_seq(), source.entity_seq().len() as int);
    if m.claimed_instances.contains(instance.value()) {
        Some(IdentityDomainError::SceneInstanceAlreadyClaimed { instance })
    } else if count == usize::MAX {
        Some(IdentityDomainError::LifetimeClaimLimit { requested: usize::MAX, maximum: m.settings.claim_limit() })
    } else if capacity_error(m, count + 1) is Some {
        capacity_error(m, count + 1)
    } else if group_items_error(m, world_id, live, source.entity_seq(), instance, entries, 0) is Some {
        group_items_error(m, world_id, live, source.entity_seq(), instance, entries, 0)
    } else if entries.len() != source.entity_seq().len() {
        Some(IdentityDomainError::IncompleteSceneFork)
    } else {
        None
    }
}

/// `r` is what registering the group of `source` as `instance` gives once the group passed
/// its checks, arranged as `sorted`, with `m` the model after the allocator moved on.
pub open spec fn group_registered(
    m: IdentityDomainModel,
    m1: IdentityDomainModel,
    source: SceneIdentitySnapshot,
    instance: SceneInstanceId,
    sorted: Seq<(SceneEntityId, WorldEntityToken, Option<PersistentRuntimeReference>)>,
    r: Result<(SpawnedSceneInstance, WorldEntityLocatorRemap), IdentityDomainError>,
) -> bool {
    match r {
        Err(IdentityDomainError::InvalidSceneRemap(e)) => snapshot_remap(source.entity_seq(), target_entries(instance, sorted), Err(e)),
        Ok((spawned, remap)) => {
            &&& snapshot_remap(source.entity_seq(), target_entries(instance, sorted), Ok(*remap.spec_references()))
            &&& remap.spec_source_domain() == source.spec_domain()
            &&& remap.spec_target_domain() == m.id
            &&& spawned.spec_domain() == m.id
            &&& spawned.spec_instance() == instance
            &&& spawned.ids() == sorted.map_values(|x: (SceneEntityId, WorldEntityToken, Option<PersistentRuntimeReference>)| x.0)
            &&& group_committed(m, m1, instance, sorted)
        },
        _ => false,
    }
}

/// The references of the first `n` snapshot entries, counted exactly.
pub open spec fn exact_count(entities: Seq<(SceneEntityId, SceneIdentityReferences)>, n: int) -> int
    decreases n,
{
    if n <= 0 {
        0
    } else {
        exact_count(entities, n - 1) + 1 + if entities[n - 1].1.persistent is Some { 1int } else { 0 }
    }
}

proof fn lemma_sat_count_exact(entities: Seq<(SceneEntityId, SceneIdentityReferences)>, n: int)
    requires
        0 <= n <= entities.len(),
    ensures
        sat_count(entities, n) == sat(exact_count(entities, n)),
        exact_count(entities, n) >= 0,
    decreases n,
{
    if n > 0 {
        lemma_sat_count_exact(entities, n - 1);
    }
}

proof fn lemma_group_claims_prefix(
    items: Seq<(SceneEntityId, WorldEntityToken, Option<PersistentRuntimeReference>)>,
    entities: Seq<(SceneEntityId, SceneIdentityReferences)>,
    n: int,
)
    requires
        0 <= n <= items.len(),
        items.len() == entities.len(),
        forall|k: int| 0 <= k < items.len() ==> ((#[trigger] entities[k]).1.persistent is Some) == (items[k].2 is Some),
    ensures
        group_claims(items.take(n)) == exact_count(entities, n),
    decreases n,
{
    if n > 0 {
        lemma_group_claims_prefix(items, entities, n - 1);
        assert(items.take(n).drop_last() =~= items.take(n - 1));
    }
}

/// Two strictly increasing id sequences of one length, the first's ids all in the second, are
/// the same.
proof fn lemma_sorted_within_equal(a: Seq<Seq<char>>, b: Seq<Seq<char>>)
    requires
        a.len() == b.len(),
        forall|i: int, j: int| 0 <= i < j < a.len() ==> crate::text::text_lt(#[trigger] a[i], #[trigger] a[j]),
        forall|i: int, j: int| 0 <= i < j < b.len() ==> crate::text::text_lt(#[trigger] b[i], #[trigger] b[j]),
        forall|i: int| 0 <= i < a.len() ==> b.contains(#[trigger] a[i]),
    ensures
        a == b,
{
    let f = |k: int| choose|t: int| 0 <= t < b.len() && b[t] == a[k];
    assert forall|k: int| 0 <= k < a.len() implies 0 <= #[trigger] f(k) < b.len() && b[f(k)] == a[k] by {
        assert(b.contains(a[k]));
    }
    assert forall|k1: int, k2: int| 0 <= k1 < k2 < a.len() implies #[trigger] f(k1) < #[trigger] f(k2) by {
        crate::text::lemma_text_lt_trichotomy(a[k1], a[k2]);
        if f(k1) > f(k2) {
            crate::text::lemma_text_lt_trichotomy(b[f(k2)], b[f(k1)]);
        }
    }
    assert forall|k: int| 0 <= k < a.len() implies #[trigger] f(k) <= k by {
        lemma_increasing_index_map_upper(f, a.len() as int, k);
    }
    assert forall|k: int| 0 <= k < a.len() implies a[k] == b[k] by {
        lemma_increasing_index_map_lower(f, a.len() as int, k);
        assert(f(k) == k);
    }
    assert(a =~= b);
}

proof fn lemma_increasing_index_map_lower(f: spec_fn(int) -> int, n: int, k: int)
    requires
        0 <= k < n,
        forall|i: int| 0 <= i < n ==> 0 <= #[trigger] f(i) < n,
        forall|i: int, j: int| 0 <= i < j < n ==> #[trigger] f(i) < #[trigger] f(j),
    ensures
        f(k) >= k,
    decreases k,
{
    if k > 0 {
        lemma_increasing_index_map_lower(f, n, k - 1);
        assert(f(k - 1) < f(k));
    }
}

proof fn lemma_increasing_index_map_upper(f: spec_fn(int) -> int, n: int, k: int)
    requires
        0 <= k < n,
        forall|i: int| 0 <= i < n ==> 0 <= #[trigger] f(i) < n,
        forall|i: int, j: int| 0 <= i < j < n ==> #[trigger] f(i) < #[trigger] f(j),
    ensures
        f(k) <= k,
    decreases n - k,
{
    if k < n - 1 {
        lemma_increasing_index_map_upper(f, n, k + 1);
        assert(f(k) < f(k + 1));
    }
}

/// What an allocator holding `next` holds after `value` was reserved.
pub open spec fn after_reservation(next: Option<u64>, value: u64) -> Option<u64> {
    match next {
        None => None,
        Some(n) => if value < n {
            Some(n)
        } else if value == u64::MAX {
            None
        } else {
            Some((value + 1) as u64)
        },
    }
}

/// The entity ids of the scene references of `instance` among `refs`, in order.
pub open spec fn members_of(refs: Seq<RuntimeEntityReference>, instance: u64) -> Seq<SceneEntityId>
    decreases refs.len(),
{
    if refs.len() == 0 {
        Seq::empty()
    } else {
        let rest = members_of(refs.drop_last(), instance);
        match refs.last() {
            RuntimeEntityReference::Scene { instance: i, entity } => if i.value() == instance {
                rest.push(entity)
            } else {
                rest
            },
            _ => rest,
        }
    }
}

/// The members of `instance`: the entity ids of its active scene references, in order.
pub open spec fn members(m: IdentityDomainModel, instance: u64) -> Seq<SceneEntityId> {
    members_of(m.scene_refs, instance)
}

/// Each member comes from a scene reference of the instance, and the members strictly increase
/// when the references do.
proof fn lemma_members_of(refs: Seq<RuntimeEntityReference>, instance: u64)
    ensures
        forall|k: int| 0 <= k < members_of(refs, instance).len() ==> exists|j: int| 0 <= j < refs.len()
            && (#[trigger] refs[j]) == (RuntimeEntityReference::Scene { instance: crate::identity::types::instance_id_of(instance), entity: #[trigger] members_of(refs, instance)[k] }),
        (forall|a: int, b: int| 0 <= a < b < refs.len() ==> key_lt(ref_key(#[trigger] refs[a]), ref_key(#[trigger] refs[b])))
            ==> ids_increasing(members_of(refs, instance)),
    decreases refs.len(),
{
    broadcast use crate::identity::types::lemma_instance_id_of;
    if refs.len() > 0 {
        let init = refs.drop_last();
        lemma_members_of(init, instance);
        let rest = members_of(init, instance);
        assert forall|j: int| 0 <= j < init.len() implies #[trigger] init[j] == refs[j] by {}
        if (forall|a: int, b: int| 0 <= a < b < refs.len() ==> key_lt(ref_key(#[trigger] refs[a]), ref_key(#[trigger] refs[b]))) {
            assert forall|a: int, b: int| 0 <= a < b < init.len() implies key_lt(ref_key(#[trigger] init[a]), ref_key(#[trigger] init[b])) by {
                assert(init[a] == refs[a] && init[b] == refs[b]);
            }
            match refs.last() {
                RuntimeEntityReference::Scene { instance: i, entity } => if i.value() == instance {
                    let all = rest.push(entity);
                    assert forall|a: int, b: int| 0 <= a < b < all.len() implies crate::text::text_lt((#[trigger] all[a]).view(), (#[trigger] all[b]).view()) by {
                        if b == rest.len() {
                            let j = choose|j: int| 0 <= j < init.len()
                                && (#[trigger] init[j]) == (RuntimeEntityReference::Scene { instance: crate::identity::types::instance_id_of(instance), entity: rest[a] });
                            assert(key_lt(ref_key(refs[j]), ref_key(refs[refs.len() - 1])));
                        }
                    }
                } else {
                },
                _ => {},
            }
        }
        match refs.last() {
            RuntimeEntityReference::Scene { instance: i, entity } => if i.value() == instance {
                let all = rest.push(entity);
                assert forall|k: int| 0 <= k < all.len() implies exists|j: int| 0 <= j < refs.len()
                    && (#[trigger] refs[j]) == (RuntimeEntityReference::Scene { instance: crate::identity::types::instance_id_of(instance), entity: #[trigger] all[k] }) by {
                    if k < rest.len() {
                        let j = choose|j: int| 0 <= j < init.len()
                            && (#[trigger] init[j]) == (RuntimeEntityReference::Scene { instance: crate::identity::types::instance_id_of(instance), entity: rest[k] });
                        assert(refs[j] == init[j]);
                    } else {
                        assert(refs[refs.len() - 1] == refs.last());
                    }
                }
            } else {
                assert forall|k: int| 0 <= k < rest.len() implies exists|j: int| 0 <= j < refs.len()
                    && (#[trigger] refs[j]) == (RuntimeEntityReference::Scene { instance: crate::identity::types::instance_id_of(instance), entity: #[trigger] rest[k] }) by {
                    let j = choose|j: int| 0 <= j < init.len()
                        && (#[trigger] init[j]) == (RuntimeEntityReference::Scene { instance: crate::identity::types::instance_id_of(instance), entity: rest[k] });
                    assert(refs[j] == init[j]);
                }
            },
            _ => {
                assert forall|k: int| 0 <= k < rest.len() implies exists|j: int| 0 <= j < refs.len()
                    && (#[trigger] refs[j]) == (RuntimeEntityReference::Scene { instance: crate::identity::types::instance_id_of(instance), entity: #[trigger] rest[k] }) by {
                    let j = choose|j: int| 0 <= j < init.len()
                        && (#[trigger] init[j]) == (RuntimeEntityReference::Scene { instance: crate::identity::types::instance_id_of(instance), entity: rest[k] });
                    assert(refs[j] == init[j]);
                }
            },
        }
    }
}

/// The first refusal met when snapshotting members `ms` of `instance` from `k` on.
pub open spec fn snapshot_member_error(
    m: IdentityDomainModel,
    live: Map<u64, Option<u64>>,
    instance: SceneInstanceId,
    ms: Seq<SceneEntityId>,
    k: int,
) -> Option<IdentityDomainError>
    decreases ms.len() - k,
{
    if k < 0 || k >= ms.len() {
        None
    } else {
        let key = scene_key_of(instance, ms[k]);
        if !m.scene.contains_key(key) {
            Some(IdentityDomainError::SceneInstanceMembershipMismatch { instance })
        } else if !owned_by(live, m.scene[key], m.id.value()) {
            Some(IdentityDomainError::StaleRegistration)
        } else if !m.axes.contains_key(m.scene[key]) {
            Some(IdentityDomainError::SceneInstanceMembershipMismatch { instance })
        } else {
            snapshot_member_error(m, live, instance, ms, k + 1)
        }
    }
}

/// The snapshot entries of members `ms` of `instance`: each id with its scene reference and
/// its entity's persistent reference.
pub open spec fn snapshot_entries_of(m: IdentityDomainModel, instance: SceneInstanceId, ms: Seq<SceneEntityId>) -> Seq<(SceneEntityId, SceneIdentityReferences)> {
    ms.map_values(|id: SceneEntityId| (id, SceneIdentityReferences {
        scene: RuntimeEntityReference::Scene { instance, entity: id },
        persistent: m.axes[m.scene[scene_key_of(instance, id)]].persistent,
    }))
}

/// Two id sequences name the same ids in the same order.
pub open spec fn same_ids(a: Seq<SceneEntityId>, b: Seq<SceneEntityId>) -> bool {
    a.len() == b.len() && forall|k: int| 0 <= k < a.len() ==> (#[trigger] a[k]).view() == b[k].view()
}

/// The entities strictly increase.
pub open spec fn increasing(es: Seq<u64>) -> bool {
    forall|i: int, j: int| 0 <= i < j < es.len() ==> es[i] < es[j]
}

/// `out` holds each entity of `input` once, increasing.
pub open spec fn sorted_distinct(input: Seq<u64>, out: Seq<u64>) -> bool {
    increasing(out) && forall|x: u64| #[trigger] out.contains(x) <==> input.contains(x)
}

/// The keys of the scene references of entities `es`.
pub open spec fn scene_keys_of(axes: Map<u64, EntityIdentityAxes>, es: Seq<u64>) -> Set<RefKey> {
    Set::new(|k: RefKey| exists|i: int| 0 <= i < es.len() && (scene_axis(axes, #[trigger] es[i]) matches Some(r) && ref_key(r) == k))
}

/// The keys of the persistent references of entities `es`.
pub open spec fn persistent_keys_of(axes: Map<u64, EntityIdentityAxes>, es: Seq<u64>) -> Set<RefKey> {
    Set::new(|k: RefKey| exists|i: int| 0 <= i < es.len() && (persistent_axis(axes, #[trigger] es[i]) matches Some(r) && ref_key(r) == k))
}

/// `r` is a reference of one of the entities `es`.
pub open spec fn reference_of(axes: Map<u64, EntityIdentityAxes>, es: Seq<u64>, r: RuntimeEntityReference) -> bool {
    exists|i: int| 0 <= i < es.len() && (scene_axis(axes, #[trigger] es[i]) == Some(r) || persistent_axis(axes, es[i]) == Some(r))
}

/// `rs` holds the references of entities `es`, one per key, in increasing key order.
pub open spec fn retired_references(axes: Map<u64, EntityIdentityAxes>, es: Seq<u64>, rs: Seq<RuntimeEntityReference>) -> bool {
    &&& forall|a: int, b: int| 0 <= a < b < rs.len() ==> key_lt(ref_key(#[trigger] rs[a]), ref_key(#[trigger] rs[b]))
    &&& forall|a: int| 0 <= a < rs.len() ==> reference_of(axes, es, #[trigger] rs[a])
    &&& forall|k: RefKey| #[trigger] scene_keys_of(axes, es).contains(k) || persistent_keys_of(axes, es).contains(k)
        <==> exists|a: int| 0 <= a < rs.len() && ref_key(#[trigger] rs[a]) == k
}

/// What a retirement records: the scene instance, if one, then each reference.
pub open spec fn retirement_subjects(instance: Option<SceneInstanceId>, rs: Seq<RuntimeEntityReference>) -> Seq<IdentityTombstoneSubject> {
    let head = match instance {
        Some(i) => seq![IdentityTombstoneSubject::SceneInstance(i)],
        None => Seq::empty(),
    };
    head + rs.map_values(|r: RuntimeEntityReference| IdentityTombstoneSubject::Entity(r))
}

/// The subjects with consecutive sequence numbers from `start`.
pub open spec fn stamped(subjects: Seq<IdentityTombstoneSubject>, start: u64, cause: crate::identity::records::TombstoneCause) -> Seq<(IdentityTombstoneSubject, IdentityTombstone)> {
    Seq::new(subjects.len(), |i: int| (subjects[i], IdentityTombstone::spec_new((start + i) as u64, cause)))
}

/// The newest `limit` tombstones.
pub open spec fn kept(ts: Seq<(IdentityTombstoneSubject, IdentityTombstone)>, limit: int) -> Seq<(IdentityTombstoneSubject, IdentityTombstone)> {
    if ts.len() > limit { ts.skip(ts.len() - limit) } else { ts }
}

/// A sequence allocator holding `next` can hand out `c` more numbers.
pub open spec fn available(next: Option<u64>, c: int) -> bool {
    c == 0 || (next matches Some(s) && s + c - 1 <= u64::MAX)
}

/// What a sequence allocator holding `next` holds after handing out `c` numbers.
pub open spec fn after_sequences(next: Option<u64>, c: int) -> Option<u64> {
    if c == 0 {
        next
    } else if next->0 + c - 1 == u64::MAX {
        None
    } else {
        Some((next->0 + c) as u64)
    }
}

/// `m1` is `m0` after retiring entities `es` (and `instance`, if given), the references `rs`
/// recorded.
pub open spec fn retired(
    m0: IdentityDomainModel,
    m1: IdentityDomainModel,
    instance: Option<SceneInstanceId>,
    es: Seq<u64>,
    rs: Seq<RuntimeEntityReference>,
    cause: crate::identity::records::TombstoneCause,
) -> bool {
    let subjects = retirement_subjects(instance, rs);
    &&& m1.active_instances == match instance {
        Some(i) => m0.active_instances.remove(i.value()),
        None => m0.active_instances,
    }
    &&& forall|k: RefKey| #[trigger] m1.scene.contains_key(k) <==> m0.scene.contains_key(k) && !scene_keys_of(m0.axes, es).contains(k)
    &&& forall|k: RefKey| #[trigger] m1.scene.contains_key(k) ==> m1.scene[k] == m0.scene[k]
    &&& forall|k: RefKey| #[trigger] m1.persistent.contains_key(k) <==> m0.persistent.contains_key(k) && !persistent_keys_of(m0.axes, es).contains(k)
    &&& forall|k: RefKey| #[trigger] m1.persistent.contains_key(k) ==> m1.persistent[k] == m0.persistent[k]
    &&& forall|e: u64| #[trigger] m1.axes.contains_key(e) <==> m0.axes.contains_key(e) && !es.contains(e)
    &&& forall|e: u64| #[trigger] m1.axes.contains_key(e) ==> m1.axes[e] == m0.axes[e]
    &&& m1.next_sequence == after_sequences(m0.next_sequence, subjects.len() as int)
    &&& m1.tombstones == kept(m0.tombstones + stamped(subjects, m0.next_sequence->0, cause), m0.settings.tombstone_limit() as int)
    &&& m1.id == m0.id
    &&& m1.world_id == m0.world_id
    &&& m1.settings == m0.settings
    &&& m1.next_instance == m0.next_instance
    &&& m1.claimed_instances == m0.claimed_instances
    &&& m1.claimed == m0.claimed
}

/// The outcome of retiring `entities` (and `instance`, if given).
pub open spec fn retirement_outcome(
    m0: IdentityDomainModel,
    m1: IdentityDomainModel,
    instance: Option<SceneInstanceId>,
    entities: Seq<u64>,
    cause: crate::identity::records::TombstoneCause,
    r: Result<Vec<u64>, IdentityDomainError>,
) -> bool {
    if exists|i: int| 0 <= i < entities.len() && !m0.axes.contains_key(#[trigger] entities[i]) {
        r == Err::<Vec<u64>, IdentityDomainError>(IdentityDomainError::EntityNotRegistered)
    } else {
        exists|es: Seq<u64>, rs: Seq<RuntimeEntityReference>| {
            &&& #[trigger] sorted_distinct(entities, es)
            &&& #[trigger] retired_references(m0.axes, es, rs)
            &&& if !available(m0.next_sequence, retirement_subjects(instance, rs).len() as int) {
                r == Err::<Vec<u64>, IdentityDomainError>(IdentityDomainError::RetirementSequenceExhausted)
            } else {
                r matches Ok(v) && v@ == es && retired(m0, m1, instance, es, rs, cause)
            }
        }
    }
}

/// The entities the members `ms` of `instance` are registered to.
pub open spec fn member_entities(m: IdentityDomainModel, instance: SceneInstanceId, ms: Seq<SceneEntityId>) -> Seq<u64> {
    ms.map_values(|id: SceneEntityId| m.scene[scene_key_of(instance, id)])
}

/// Adding item `i` of `all` to a model that holds the items before it adds it to the model.
proof fn lemma_entries_added_step(
    m0: IdentityDomainModel,
    before: IdentityDomainModel,
    after: IdentityDomainModel,
    instance: SceneInstanceId,
    all: Seq<(SceneEntityId, WorldEntityToken, Option<PersistentRuntimeReference>)>,
    i: int,
)
    requires
        0 <= i < all.len(),
        group_committable(m0, instance, all),
        m0.scene.dom().subset_of(m0.claimed),
        m0.persistent.dom().subset_of(m0.claimed),
        entries_added(m0, before, instance, all.take(i)),
        ({
            let item = all[i];
            let sref = RuntimeEntityReference::Scene { instance, entity: item.0 };
            let e = item.1.spec_entity();
            &&& after.scene == before.scene.insert(ref_key(sref), e)
            &&& match item.2 {
                Some(p) => {
                    &&& after.claimed == before.claimed.insert(ref_key(sref)).insert(persistent_key_of(p))
                    &&& after.persistent == before.persistent.insert(persistent_key_of(p), e)
                    &&& after.axes == before.axes.insert(e, EntityIdentityAxes {
                        scene: Some(sref),
                        persistent: Some(RuntimeEntityReference::Persistent { entity: p }),
                    })
                },
                None => {
                    &&& after.claimed == before.claimed.insert(ref_key(sref))
                    &&& after.persistent == before.persistent
                    &&& after.axes == before.axes.insert(e, EntityIdentityAxes {
                        scene: Some(sref),
                        persistent: persistent_axis(before.axes, e),
                    })
                },
            }
        }),
    ensures
        entries_added(m0, after, instance, all.take(i + 1)),
{
    let prefix = all.take(i);
    let next = all.take(i + 1);
    let item = all[i];
    let skey = scene_key_of(instance, item.0);
    let e = item.1.spec_entity();
    assert forall|j: int| 0 <= j < prefix.len() implies #[trigger] prefix[j] == all[j] by {}
    assert forall|j: int| 0 <= j < next.len() implies #[trigger] next[j] == all[j] by {}
    assert(next[i] == item);
    // Keys of earlier items differ from this item's keys.
    assert forall|j: int| 0 <= j < i implies scene_key_of(instance, (#[trigger] all[j]).0) != skey by {
        crate::text::lemma_text_lt_trichotomy(all[j].0.view(), item.0.view());
    }
    assert forall|j: int| 0 <= j < i implies (#[trigger] all[j]).1.spec_entity() != e by {}
    // An earlier entity's axes stay those the earlier item set.
    assert forall|k: RefKey| #[trigger] after.claimed.contains(k) <==> m0.claimed.contains(k)
        || (exists|j: int| 0 <= j < next.len() && k == scene_key_of(instance, (#[trigger] next[j]).0))
        || (exists|j: int| 0 <= j < next.len() && (#[trigger] next[j]).2 is Some && k == persistent_key_of(next[j].2->0)) by {
        if exists|j: int| 0 <= j < prefix.len() && k == scene_key_of(instance, (#[trigger] prefix[j]).0) {
            let j = choose|j: int| 0 <= j < prefix.len() && k == scene_key_of(instance, (#[trigger] prefix[j]).0);
            assert(next[j] == prefix[j]);
        }
        if exists|j: int| 0 <= j < prefix.len() && (#[trigger] prefix[j]).2 is Some && k == persistent_key_of(prefix[j].2->0) {
            let j = choose|j: int| 0 <= j < prefix.len() && (#[trigger] prefix[j]).2 is Some && k == persistent_key_of(prefix[j].2->0);
            assert(next[j] == prefix[j]);
        }
        if exists|j: int| 0 <= j < next.len() && k == scene_key_of(instance, (#[trigger] next[j]).0) {
            let j = choose|j: int| 0 <= j < next.len() && k == scene_key_of(instance, (#[trigger] next[j]).0);
            if j < i {
                assert(prefix[j] == next[j]);
            }
        }
        if exists|j: int| 0 <= j < next.len() && (#[trigger] next[j]).2 is Some && k == persistent_key_of(next[j].2->0) {
            let j = choose|j: int| 0 <= j < next.len() && (#[trigger] next[j]).2 is Some && k == persistent_key_of(next[j].2->0);
            if j < i {
                assert(prefix[j] == next[j]);
            }
        }
    }
    assert forall|k: RefKey| #[trigger] after.scene.contains_key(k) <==> m0.scene.contains_key(k)
        || (exists|j: int| 0 <= j < next.len() && k == scene_key_of(instance, (#[trigger] next[j]).0)) by {
        if exists|j: int| 0 <= j < prefix.len() && k == scene_key_of(instance, (#[trigger] prefix[j]).0) {
            let j = choose|j: int| 0 <= j < prefix.len() && k == scene_key_of(instance, (#[trigger] prefix[j]).0);
            assert(next[j] == prefix[j]);
        }
        if exists|j: int| 0 <= j < next.len() && k == scene_key_of(instance, (#[trigger] next[j]).0) {
            let j = choose|j: int| 0 <= j < next.len() && k == scene_key_of(instance, (#[trigger] next[j]).0);
            if j < i {
                assert(prefix[j] == next[j]);
            }
        }
    }
    assert forall|k: RefKey| #[trigger] m0.scene.contains_key(k) implies after.scene[k] == m0.scene[k] by {
        assert(m0.claimed.contains(k));
    }
    assert forall|j: int| 0 <= j < next.len() implies after.scene[scene_key_of(instance, (#[trigger] next[j]).0)] == next[j].1.spec_entity() by {
        if j < i {
            assert(prefix[j] == next[j]);
        }
    }
    assert forall|k: RefKey| #[trigger] after.persistent.contains_key(k) <==> m0.persistent.contains_key(k)
        || (exists|j: int| 0 <= j < next.len() && (#[trigger] next[j]).2 is Some && k == persistent_key_of(next[j].2->0)) by {
        if exists|j: int| 0 <= j < prefix.len() && (#[trigger] prefix[j]).2 is Some && k == persistent_key_of(prefix[j].2->0) {
            let j = choose|j: int| 0 <= j < prefix.len() && (#[trigger] prefix[j]).2 is Some && k == persistent_key_of(prefix[j].2->0);
            assert(next[j] == prefix[j]);
        }
        if exists|j: int| 0 <= j < next.len() && (#[trigger] next[j]).2 is Some && k == persistent_key_of(next[j].2->0) {
            let j = choose|j: int| 0 <= j < next.len() && (#[trigger] next[j]).2 is Some && k == persistent_key_of(next[j].2->0);
            if j < i {
                assert(prefix[j] == next[j]);
            }
        }
    }
    assert forall|k: RefKey| #[trigger] m0.persistent.contains_key(k) implies after.persistent[k] == m0.persistent[k] by {
        assert(m0.claimed.contains(k));
    }
    assert forall|j: int| 0 <= j < next.len() && (#[trigger] next[j]).2 is Some implies after.persistent[persistent_key_of(next[j].2->0)] == next[j].1.spec_entity() by {
        if j < i {
            assert(prefix[j] == next[j]);
            assert(all[j].2 is Some);
        }
    }
    assert forall|x: u64| #[trigger] after.axes.contains_key(x) <==> m0.axes.contains_key(x)
        || (exists|j: int| 0 <= j < next.len() && (#[trigger] next[j]).1.spec_entity() == x) by {
        if exists|j: int| 0 <= j < prefix.len() && (#[trigger] prefix[j]).1.spec_entity() == x {
            let j = choose|j: int| 0 <= j < prefix.len() && (#[trigger] prefix[j]).1.spec_entity() == x;
            assert(next[j] == prefix[j]);
        }
        if exists|j: int| 0 <= j < next.len() && (#[trigger] next[j]).1.spec_entity() == x {
            let j = choose|j: int| 0 <= j < next.len() && (#[trigger] next[j]).1.spec_entity() == x;
            if j < i {
                assert(prefix[j] == next[j]);
            }
        }
    }
    assert forall|x: u64| #[trigger] m0.axes.contains_key(x) && !(exists|j: int| 0 <= j < next.len() && (#[trigger] next[j]).1.spec_entity() == x)
        implies after.axes[x] == m0.axes[x] by {
        assert(x != e);
        assert(!(exists|j: int| 0 <= j < prefix.len() && (#[trigger] prefix[j]).1.spec_entity() == x)) by {
            if exists|j: int| 0 <= j < prefix.len() && (#[trigger] prefix[j]).1.spec_entity() == x {
                let j = choose|j: int| 0 <= j < prefix.len() && (#[trigger] prefix[j]).1.spec_entity() == x;
                assert(next[j] == prefix[j]);
            }
        }
    }
    assert forall|j: int| 0 <= j < next.len() implies after.axes[(#[trigger] next[j]).1.spec_entity()] == (EntityIdentityAxes {
        scene: Some(RuntimeEntityReference::Scene { instance, entity: next[j].0 }),
        persistent: match next[j].2 {
            Some(p) => Some(RuntimeEntityReference::Persistent { entity: p }),
            None => persistent_axis(m0.axes, next[j].1.spec_entity()),
        },
    }) by {
        if j < i {
            assert(prefix[j] == next[j]);
        } else {
            assert(!(exists|j: int| 0 <= j < prefix.len() && (#[trigger] prefix[j]).1.spec_entity() == e)) by {
                if exists|j: int| 0 <= j < prefix.len() && (#[trigger] prefix[j]).1.spec_entity() == e {
                    let j = choose|j: int| 0 <= j < prefix.len() && (#[trigger] prefix[j]).1.spec_entity() == e;
                    assert(prefix[j] == all[j]);
                }
            }
            if m0.axes.contains_key(e) {
                assert(before.axes.contains_key(e));
            } else {
                assert(!before.axes.contains_key(e));
            }
        }
    }
}

/// Every reference an entity is registered under is claimed.
pub open spec fn axes_claimed(axes: Map<u64, EntityIdentityAxes>, claimed: Set<RefKey>) -> bool {
    forall|e: u64| #[trigger] axes.contains_key(e) ==> (axes[e].scene matches Some(r) ==> claimed.contains(ref_key(r)))
        && (axes[e].persistent matches Some(r) ==> claimed.contains(ref_key(r)))
}

/// Active and registered references are all claimed.
pub open spec fn model_consistent(m: IdentityDomainModel) -> bool {
    &&& m.scene.dom().subset_of(m.claimed)
    &&& m.persistent.dom().subset_of(m.claimed)
    &&& axes_claimed(m.axes, m.claimed)
}

/// The identity domain installed in one world.
#[derive(Debug)]
pub struct WorldIdentityDomain {
    id: WorldIdentityDomainId,
    world_id: u64,
    settings: WorldIdentityDomainSettings,
    scene_instance_allocator: MonotonicNonZeroU64Allocator,
    retirement_sequence: MonotonicNonZeroU64Allocator,
    claimed_scene_instances: HashSet<u64>,
    active_scene_instances: HashSet<u64>,
    claimed_references: RefSet,
    scene_entities: RefMap,
    persistent_entities: RefMap,
    identities_by_entity: HashMap<u64, EntityIdentityAxes>,
    tombstones: Vec<(IdentityTombstoneSubject, IdentityTombstone)>,
}

/// Hands out the domain id `*next`; the counter moves on, to zero after `u64::MAX`, and zero
/// means exhausted.
pub fn allocate_world_identity_domain_id_from(next: &mut u64) -> (r: Result<WorldIdentityDomainId, IdentityDomainError>)
    ensures
        *old(next) == 0 ==> r == Err::<WorldIdentityDomainId, IdentityDomainError>(IdentityDomainError::WorldDomainIdExhausted)
            && *final(next) == 0,
        *old(next) != 0 ==> (r matches Ok(d) && d.value() == *old(next))
            && *final(next) == (if *old(next) == u64::MAX { 0 } else { (*old(next) + 1) as u64 }),
{
    let current = *next;
    if current == 0 {
        return Err(IdentityDomainError::WorldDomainIdExhausted);
    }
    *next = if current == u64::MAX { 0 } else { current + 1 };
    match WorldIdentityDomainId::from_raw(current) {
        Some(id) => Ok(id),
        None => unreached(),
    }
}

impl WorldIdentityDomain {
    pub closed spec fn model(&self) -> IdentityDomainModel {
        IdentityDomainModel {
            id: self.id,
            world_id: self.world_id,
            settings: self.settings,
            next_instance: self.scene_instance_allocator.next_value(),
            next_sequence: self.retirement_sequence.next_value(),
            claimed_instances: self.claimed_scene_instances@,
            active_instances: self.active_scene_instances@,
            claimed: self.claimed_references.keys(),
            scene: self.scene_entities.map(),
            scene_refs: self.scene_entities.ordered_refs(),
            persistent: self.persistent_entities.map(),
            persistent_refs: self.persistent_entities.ordered_refs(),
            axes: self.identities_by_entity@,
            tombstones: self.tombstones@,
        }
    }

    /// Allocators never hand out zero, active references are claimed, and the lifetime claims
    /// stay within the limit (a limit of `usize::MAX` is checked with saturating arithmetic, so
    /// there the count is not bounded).
    pub closed spec fn wf(&self) -> bool {
        &&& self.scene_instance_allocator.wf()
        &&& self.retirement_sequence.wf()
        &&& self.claimed_scene_instances@.finite()
        &&& self.active_scene_instances@.finite()
        &&& self.scene_entities.map().dom().subset_of(self.claimed_references.keys())
        &&& self.persistent_entities.map().dom().subset_of(self.claimed_references.keys())
        &&& axes_claimed(self.identities_by_entity@, self.claimed_references.keys())
        &&& axes_well_kinded(self.identities_by_entity@)
        &&& axes_active(self.identities_by_entity@, self.scene_entities.map(), self.persistent_entities.map())
        &&& axes_injective(self.identities_by_entity@)
        &&& maps_kinded(self.scene_entities.map(), self.persistent_entities.map())
        &&& tombstones_inactive(self.tombstones@, self.claimed_references.keys(), self.scene_entities.map(), self.persistent_entities.map())
        &&& self.settings.claim_limit() < usize::MAX ==> self.claimed_scene_instances@.len() + self.claimed_references.count() <= self.settings.claim_limit()
    }

    /// In a well-formed domain every active or registered reference is claimed, each registered
    /// reference is active, on one entity only and of its axis's kind, and every tombstone names
    /// a claimed reference that is no longer active.
    pub proof fn lemma_consistent(&self)
        requires
            self.wf(),
        ensures
            model_consistent(self.model()),
            axes_well_kinded(self.model().axes),
            axes_active(self.model().axes, self.model().scene, self.model().persistent),
            axes_injective(self.model().axes),
            tombstones_inactive(self.model().tombstones, self.model().claimed, self.model().scene, self.model().persistent),
    {
    }

    /// A fresh domain for `world`, with the next id of `domain_ids`.
    pub fn new(world: &IdentityWorld, settings: WorldIdentityDomainSettings, domain_ids: &mut u64) -> (r: Result<Self, IdentityDomainError>)
        ensures
            *old(domain_ids) == 0 ==> r == Err::<Self, IdentityDomainError>(IdentityDomainError::WorldDomainIdExhausted),
            *old(domain_ids) != 0 ==> (r matches Ok(d) && d.wf() && d.model() == (IdentityDomainModel {
                id: d.model().id,
                world_id: world.spec_id(),
                settings,
                next_instance: Some(1),
                next_sequence: Some(1),
                claimed_instances: Set::empty(),
                active_instances: Set::empty(),
                claimed: Set::empty(),
                scene: Map::empty(),
                scene_refs: Seq::empty(),
                persistent: Map::empty(),
                persistent_refs: Seq::empty(),
                axes: Map::empty(),
                tombstones: Seq::empty(),
            }) && d.model().id.value() == *old(domain_ids)),
            *final(domain_ids) == (if *old(domain_ids) == 0 { 0 } else if *old(domain_ids) == u64::MAX { 0 } else { (*old(domain_ids) + 1) as u64 }),
    {
        let id = match allocate_world_identity_domain_id_from(domain_ids) {
            Ok(id) => id,
            Err(e) => return Err(e),
        };
        let scene_instance_allocator = match MonotonicNonZeroU64Allocator::from_next_raw(1) {
            Ok(a) => a,
            Err(_) => unreached(),
        };
        let retirement_sequence = match MonotonicNonZeroU64Allocator::from_next_raw(1) {
            Ok(a) => a,
            Err(_) => unreached(),
        };
        let d = WorldIdentityDomain {
            id,
            world_id: world.id(),
            settings,
            scene_instance_allocator,
            retirement_sequence,
            claimed_scene_instances: HashSet::new(),
            active_scene_instances: HashSet::new(),
            claimed_references: RefSet::new(),
            scene_entities: RefMap::new(),
            persistent_entities: RefMap::new(),
            identities_by_entity: HashMap::new(),
            tombstones: Vec::new(),
        };
        proof {
            assert(d.model().claimed_instances =~= Set::empty());
            assert(d.model().active_instances =~= Set::empty());
            assert(d.model().scene_refs =~= Seq::empty());
            assert(d.model().persistent_refs =~= Seq::empty());
            assert(d.model().axes =~= Map::empty());
            assert(d.model().tombstones =~= Seq::empty());
        }
        Ok(d)
    }

    pub fn id(&self) -> (r: WorldIdentityDomainId)
        ensures
            r == self.model().id,
    {
        self.id
    }

    pub fn settings(&self) -> (r: WorldIdentityDomainSettings)
        ensures
            r == self.model().settings,
    {
        self.settings
    }

    pub fn stats(&self) -> (r: IdentityDomainStats)
        ensures
            self.wf() && self.model().settings.claim_limit() < usize::MAX ==> r.lifetime_claims <= self.model().settings.claim_limit(),
            r.lifetime_claims == sat(claims(self.model())),
            r.claimed_scene_instances == self.model().claimed_instances.len(),
            r.active_scene_instances == self.model().active_instances.len(),
            r.active_scene_entities == self.model().scene.len(),
            r.active_persistent_entities == self.model().persistent.len(),
            r.registered_entities == self.model().axes.len(),
            r.recent_tombstones == self.model().tombstones.len(),
    {
        let claimed_instances = self.claimed_scene_instances.len();
        let claimed_references = self.claimed_references.len();
        IdentityDomainStats {
            lifetime_claims: claimed_instances.saturating_add(claimed_references),
            claimed_scene_instances: claimed_instances,
            active_scene_instances: self.active_scene_instances.len(),
            active_scene_entities: self.scene_entities.len(),
            active_persistent_entities: self.persistent_entities.len(),
            registered_entities: self.identities_by_entity.len(),
            recent_tombstones: self.tombstones.len(),
        }
    }

    fn validate_world_binding(&self, world: &IdentityWorld) -> (r: Result<(), IdentityDomainError>)
        ensures
            world.spec_id() != self.world_id ==> r == Err::<(), IdentityDomainError>(IdentityDomainError::WorldBindingMismatch),
            world.spec_id() == self.world_id ==> r is Ok,
    {
        if world.id() != self.world_id {
            return Err(IdentityDomainError::WorldBindingMismatch);
        }
        Ok(())
    }

    fn is_live_owned_entity(&self, world: &IdentityWorld, entity: u64) -> (r: bool)
        ensures
            r == owned_by(world.live(), entity, self.id.value()),
    {
        match world.marker(entity) {
            Some(domain) => world.is_alive(entity) && domain == self.id.get(),
            None => false,
        }
    }

    fn validate_token_domain(&self, token: WorldEntityToken) -> (r: Result<(), IdentityDomainError>)
        ensures
            token.spec_domain() != self.id ==> r == Err::<(), IdentityDomainError>(
                IdentityDomainError::WrongDomain { expected: self.id, actual: token.spec_domain() }),
            token.spec_domain() == self.id ==> r is Ok,
    {
        if token.domain_id() != self.id {
            return Err(IdentityDomainError::WrongDomain { expected: self.id, actual: token.domain_id() });
        }
        Ok(())
    }

    fn validate_live_token(&self, world: &IdentityWorld, token: WorldEntityToken) -> (r: Result<(), IdentityDomainError>)
        ensures
            match token_error(self.model(), world.spec_id(), world.live(), token) {
                Some(e) => r == Err::<(), IdentityDomainError>(e),
                None => r is Ok,
            },
    {
        match self.validate_world_binding(world) {
            Err(e) => return Err(e),
            Ok(()) => {},
        }
        match self.validate_token_domain(token) {
            Err(e) => return Err(e),
            Ok(()) => {},
        }
        if !world.is_alive(token.entity()) {
            return Err(IdentityDomainError::EntityTokenNotAlive);
        }
        if !self.is_live_owned_entity(world, token.entity()) {
            return Err(IdentityDomainError::EntityTokenNotOwned);
        }
        Ok(())
    }

    /// The lifetime claims made so far, saturating.
    fn retained_claims(&self) -> (r: usize)
        ensures
            r == sat(claims(self.model())),
    {
        self.claimed_scene_instances.len().saturating_add(self.claimed_references.len())
    }

    fn check_claim_capacity(&self, additional: usize) -> (r: Result<(), IdentityDomainError>)
        requires
            self.wf(),
        ensures
            match capacity_error(self.model(), additional as int) {
                Some(e) => r == Err::<(), IdentityDomainError>(e),
                None => r is Ok,
            },
    {
        let requested = self.retained_claims().saturating_add(additional);
        let maximum = self.settings.lifetime_claims().get();
        if requested > maximum {
            return Err(IdentityDomainError::LifetimeClaimLimit { requested, maximum });
        }
        Ok(())
    }

    fn active_entity(&self, reference: &RuntimeEntityReference) -> (r: Option<u64>)
        ensures
            r == registered_entity(self.model(), *reference),
    {
        match reference {
            RuntimeEntityReference::Scene { .. } => self.scene_entities.get(reference),
            RuntimeEntityReference::Persistent { .. } => self.persistent_entities.get(reference),
        }
    }

    /// The most recent details of the retirement of `reference`, while they are kept.
    fn tombstone_of(&self, reference: &RuntimeEntityReference) -> (r: Option<IdentityTombstone>)
        ensures
            r == tombstone_from(self.model().tombstones, ref_key(*reference), 0),
    {
        let mut i: usize = 0;
        while i < self.tombstones.len()
            invariant
                i <= self.tombstones@.len(),
                tombstone_from(self.tombstones@, ref_key(*reference), 0) == tombstone_from(self.tombstones@, ref_key(*reference), i as int),
            decreases self.tombstones@.len() - i,
        {
            match &self.tombstones[i].0 {
                IdentityTombstoneSubject::Entity(r) => match compare_runtime(r, reference) {
                    TextOrder::Equal => return Some(self.tombstones[i].1),
                    _ => {},
                },
                IdentityTombstoneSubject::SceneInstance(_) => {},
            }
            i = i + 1;
        }
        None
    }

    /// What `reference` resolves to in `world`.
    pub fn lookup(&self, world: &IdentityWorld, reference: &RuntimeEntityReference) -> (r: EntityLookup)
        ensures
            r == lookup_outcome(self.model(), world.spec_id(), world.live(), *reference),
    {
        if self.validate_world_binding(world).is_err() {
            return EntityLookup::WrongWorldBinding;
        }
        match self.active_entity(reference) {
            Some(entity) => {
                if self.is_live_owned_entity(world, entity) {
                    EntityLookup::Resolved(entity)
                } else {
                    EntityLookup::StaleRegistration
                }
            },
            None => {
                if self.claimed_references.contains(reference) {
                    EntityLookup::Tombstoned(self.tombstone_of(reference))
                } else {
                    EntityLookup::Missing
                }
            },
        }
    }

    /// What a durable reference resolves to: a scene-local one within `scene_context`.
    pub fn resolve_entity_reference(
        &self,
        world: &IdentityWorld,
        reference: &EntityReference,
        scene_context: Option<SceneInstanceId>,
    ) -> (r: EntityLookup)
        ensures
            world.spec_id() != self.model().world_id ==> r == EntityLookup::WrongWorldBinding,
            world.spec_id() == self.model().world_id ==> match *reference {
                EntityReference::SceneLocal { entity } => match scene_context {
                    None => r == EntityLookup::ContextRequired,
                    Some(instance) => r == lookup_outcome(self.model(), world.spec_id(), world.live(),
                        RuntimeEntityReference::Scene { instance, entity }),
                },
                EntityReference::Persistent { entity } => r == lookup_outcome(self.model(), world.spec_id(), world.live(),
                    RuntimeEntityReference::Persistent { entity }),
            },
    {
        if self.validate_world_binding(world).is_err() {
            return EntityLookup::WrongWorldBinding;
        }
        match reference {
            EntityReference::SceneLocal { entity } => match scene_context {
                None => EntityLookup::ContextRequired,
                Some(instance) => self.lookup(world, &RuntimeEntityReference::scene(instance, entity.duplicate())),
            },
            EntityReference::Persistent { entity } => self.lookup(world, &RuntimeEntityReference::persistent(entity.duplicate())),
        }
    }

    /// Registers `persistent` as the persistent identity of `token`'s entity.
    pub fn register_persistent(
        &mut self,
        world: &IdentityWorld,
        token: WorldEntityToken,
        persistent: PersistentRuntimeReference,
    ) -> (r: Result<WorldEntityLocator, IdentityDomainError>)
        requires
            old(self).wf(),
        ensures
            final(self).wf(),
            match persistent_registration_error(old(self).model(), world.spec_id(), world.live(), token, persistent) {
                Some(e) => r == Err::<WorldEntityLocator, IdentityDomainError>(e) && final(self).model() == old(self).model(),
                None => {
                    let m = old(self).model();
                    let reference = RuntimeEntityReference::Persistent { entity: persistent };
                    let k = ref_key(reference);
                    let e = token.spec_entity();
                    &&& r matches Ok(l) && l.spec_domain() == m.id && l.spec_entity() == reference
                    &&& final(self).model() == (IdentityDomainModel {
                        claimed: m.claimed.insert(k),
                        persistent: m.persistent.insert(k, e),
                        persistent_refs: final(self).model().persistent_refs,
                        axes: m.axes.insert(e, EntityIdentityAxes { scene: scene_axis(m.axes, e), persistent: Some(reference) }),
                        ..m
                    })
                },
            },
    {
        match self.validate_live_token(world, token) {
            Err(e) => return Err(e),
            Ok(()) => {},
        }
        let entity = token.entity();
        let reference = RuntimeEntityReference::persistent(persistent);
        if self.claimed_references.contains(&reference) {
            return Err(IdentityDomainError::ReferenceAlreadyClaimed { reference });
        }
        let scene = match self.identities_by_entity.get(&entity) {
            Some(identity) => {
                if identity.persistent.is_some() {
                    return Err(IdentityDomainError::EntityAxisAlreadyRegistered { axis: EntityIdentityAxis::Persistent });
                }
                match &identity.scene {
                    Some(s) => Some(s.duplicate()),
                    None => None,
                }
            },
            None => None,
        };
        match self.check_claim_capacity(1) {
            Err(e) => return Err(e),
            Ok(()) => {},
        }
        let ghost m = self.model();
        proof {
            assert(!self.persistent_entities.map().contains_key(ref_key(reference)));
        }
        let count = self.claimed_references.len();
        self.claimed_references.insert(reference.duplicate());
        self.persistent_entities.insert(reference.duplicate(), entity);
        self.identities_by_entity.insert(entity, EntityIdentityAxes { scene, persistent: Some(reference.duplicate()) });
        proof {
            assert(self.model() =~= (IdentityDomainModel {
                claimed: m.claimed.insert(ref_key(reference)),
                persistent: m.persistent.insert(ref_key(reference), entity),
                persistent_refs: self.model().persistent_refs,
                axes: m.axes.insert(entity, EntityIdentityAxes { scene: scene_axis(m.axes, entity), persistent: Some(reference) }),
                ..m
            }));
            assert(self.scene_entities.map().dom().subset_of(self.claimed_references.keys()));
            assert(self.persistent_entities.map().dom().subset_of(self.claimed_references.keys()));
            assert(self.claimed_references.count() == count + 1);
            assert(m.claimed.len() == count);
            let now = self.model();
            let new_axes = EntityIdentityAxes { scene: scene_axis(m.axes, entity), persistent: Some(reference) };
            assert forall|k: RefKey| #[trigger] axis_key(m.axes.insert(entity, new_axes), entity, k) implies
                axis_key(m.axes, entity, k) || !m.claimed.contains(k) by {
                if k != ref_key(reference) {
                    assert(m.axes.contains_key(entity));
                }
            }
            lemma_axes_insert_injective(m.axes, m.claimed, entity, new_axes);
            assert forall|x: u64| #[trigger] now.axes.contains_key(x) implies (now.axes[x].scene matches Some(r) ==> now.scene.contains_key(ref_key(r)))
                && (now.axes[x].persistent matches Some(r) ==> now.persistent.contains_key(ref_key(r))) by {
                if x != entity {
                    assert(m.axes.contains_key(x));
                }
            }
            assert forall|i: int| 0 <= i < now.tombstones.len() implies ((#[trigger] now.tombstones[i]).0 matches IdentityTombstoneSubject::Entity(r)
                ==> now.claimed.contains(ref_key(r)) && !now.scene.contains_key(ref_key(r)) && !now.persistent.contains_key(ref_key(r))) by {
                assert(now.tombstones[i] == m.tombstones[i]);
            }
        }
        Ok(WorldEntityLocator::new(self.id, reference))
    }

    /// Claims `instance` and every reference of `items`, binding them to the items' entities.
    fn commit_scene_identity_group(
        &mut self,
        instance: SceneInstanceId,
        items: Vec<(SceneEntityId, WorldEntityToken, Option<PersistentRuntimeReference>)>,
    ) -> (r: SpawnedSceneInstance)
        requires
            old(self).wf(),
            group_committable(old(self).model(), instance, items@),
        ensures
            final(self).wf(),
            group_committed(old(self).model(), final(self).model(), instance, items@),
            r.spec_domain() == old(self).model().id,
            r.spec_instance() == instance,
            r.ids().len() == items@.len(),
            forall|i: int| 0 <= i < items@.len() ==> (#[trigger] r.ids()[i]) == items@[i].0,
    {
        let ghost m0 = self.model();
        let ghost all = items@;
        let count0 = self.claimed_references.len();
        self.claimed_scene_instances.insert(instance.get());
        self.active_scene_instances.insert(instance.get());
        let mut entity_ids: Vec<SceneEntityId> = Vec::new();
        proof {
            assert(all.take(0) =~= Seq::<(SceneEntityId, WorldEntityToken, Option<PersistentRuntimeReference>)>::empty());
            assert(entries_added(m0, self.model(), instance, all.take(0)));
        }
        for item in it: items.into_iter()
            invariant
                it.seq() == all,
                group_committable(m0, instance, all),
                entries_added(m0, self.model(), instance, all.take(it.index() as int)),
                self.claimed_references.count() == count0 + group_claims(all.take(it.index() as int)),
                count0 == m0.claimed.len(),
                m0.claimed_instances.finite(),
                m0.active_instances.finite(),
                axes_claimed(self.model().axes, self.model().claimed),
                m0.scene.dom().subset_of(m0.claimed),
                m0.persistent.dom().subset_of(m0.claimed),
                self.scene_entities.map().dom().subset_of(self.claimed_references.keys()),
                self.persistent_entities.map().dom().subset_of(self.claimed_references.keys()),
                self.claimed_scene_instances@ == m0.claimed_instances.insert(instance.value()),
                self.active_scene_instances@ == m0.active_instances.insert(instance.value()),
                self.id == m0.id,
                self.world_id == m0.world_id,
                self.settings == m0.settings,
                self.scene_instance_allocator.next_value() == m0.next_instance,
                self.scene_instance_allocator.wf(),
                self.retirement_sequence.next_value() == m0.next_sequence,
                self.retirement_sequence.wf(),
                self.tombstones@ == m0.tombstones,
                entity_ids@.len() == it.index(),
                forall|j: int| 0 <= j < it.index() ==> (#[trigger] entity_ids@[j]) == all[j].0,
        {
            let ghost i = it.index() as int;
            let (entity_id, token, persistent) = item;
            let ghost before = self.model();
            let ghost prefix = all.take(i);
            proof {
                assert(item == (entity_id, token, persistent));
                assert(prefix.len() == i);
                assert forall|j: int| 0 <= j < prefix.len() implies #[trigger] prefix[j] == all[j] by {}
            }
            let entity = token.entity();
            let scene_reference = RuntimeEntityReference::scene(instance, entity_id.duplicate());
            proof {
                assert(!before.claimed.contains(ref_key(scene_reference))) by {
                    if before.claimed.contains(ref_key(scene_reference)) {
                        if !m0.claimed.contains(ref_key(scene_reference)) {
                            if exists|j: int| 0 <= j < prefix.len() && ref_key(scene_reference) == scene_key_of(instance, (#[trigger] prefix[j]).0) {
                                let j = choose|j: int| 0 <= j < prefix.len() && ref_key(scene_reference) == scene_key_of(instance, (#[trigger] prefix[j]).0);
                                assert(crate::text::text_lt(all[j].0.view(), all[i].0.view()));
                                crate::text::lemma_text_lt_trichotomy(all[j].0.view(), all[i].0.view());
                            } else {
                                let j = choose|j: int| 0 <= j < prefix.len() && (#[trigger] prefix[j]).2 is Some && ref_key(scene_reference) == persistent_key_of(prefix[j].2->0);
                            }
                        }
                    }
                }
            }
            let ghost count_before = self.claimed_references.count();
            self.claimed_references.insert(scene_reference.duplicate());
            self.scene_entities.insert(scene_reference.duplicate(), entity);
            let mut axes = match self.identities_by_entity.get(&entity) {
                Some(a) => a.duplicate(),
                None => EntityIdentityAxes { scene: None, persistent: None },
            };
            axes.scene = Some(scene_reference);
            let ghost mid = self.model();
            match persistent {
                Some(p) => {
                    let persistent_reference = RuntimeEntityReference::persistent(p);
                    proof {
                        assert(!mid.claimed.contains(ref_key(persistent_reference))) by {
                            if mid.claimed.contains(ref_key(persistent_reference)) {
                                if !m0.claimed.contains(ref_key(persistent_reference)) && ref_key(persistent_reference) != ref_key(RuntimeEntityReference::Scene { instance, entity: entity_id }) {
                                    if exists|j: int| 0 <= j < prefix.len() && (#[trigger] prefix[j]).2 is Some && ref_key(persistent_reference) == persistent_key_of(prefix[j].2->0) {
                                        let j = choose|j: int| 0 <= j < prefix.len() && (#[trigger] prefix[j]).2 is Some && ref_key(persistent_reference) == persistent_key_of(prefix[j].2->0);
                                        assert(all[j].2 is Some && all[i].2 is Some);
                                    }
                                }
                            }
                        }
                    }
                    self.claimed_references.insert(persistent_reference.duplicate());
                    self.persistent_entities.insert(persistent_reference.duplicate(), entity);
                    axes.persistent = Some(persistent_reference);
                },
                None => {},
            }
            self.identities_by_entity.insert(entity, axes);
            entity_ids.push(entity_id);
            proof {
                let now = self.model();
                assert forall|x: u64| #[trigger] now.axes.contains_key(x) implies (now.axes[x].scene matches Some(r) ==> now.claimed.contains(ref_key(r)))
                    && (now.axes[x].persistent matches Some(r) ==> now.claimed.contains(ref_key(r))) by {
                    if x != entity {
                        assert(before.axes.contains_key(x));
                    } else if before.axes.contains_key(x) {
                        assert(before.axes[x].persistent matches Some(r) ==> before.claimed.contains(ref_key(r)));
                    }
                }
                lemma_entries_added_step(m0, before, self.model(), instance, all, i);
                assert(all.take(i + 1).drop_last() =~= all.take(i));
                assert(all.take(i + 1).last() == all[i]);
            }
        }
        proof {
            assert(all.take(all.len() as int) =~= all);
            assert(!m0.claimed_instances.contains(instance.value()));
            assert(self.claimed_scene_instances@.len() == m0.claimed_instances.len() + 1);
            lemma_group_commit_keeps_activity(m0, self.model(), instance, all);
        }
        SpawnedSceneInstance::new(self.id, instance, entity_ids)
    }

    /// How many entries a new scene instance may still register, or why none may be claimed.
    fn scene_entry_capacity(&self, instance: SceneInstanceId) -> (r: Result<usize, IdentityDomainError>)
        requires
            self.wf(),
        ensures
            self.model().claimed_instances.contains(instance.value()) ==> r == Err::<usize, IdentityDomainError>(
                IdentityDomainError::SceneInstanceAlreadyClaimed { instance }),
            !self.model().claimed_instances.contains(instance.value()) ==> match capacity_error(self.model(), 1) {
                Some(e) => r == Err::<usize, IdentityDomainError>(e),
                None => r == Ok::<usize, IdentityDomainError>((self.model().settings.claim_limit() - sat(claims(self.model()) + 1)) as usize),
            },
    {
        if self.claimed_scene_instances.contains(&instance.get()) {
            return Err(IdentityDomainError::SceneInstanceAlreadyClaimed { instance });
        }
        let requested = self.retained_claims().saturating_add(1);
        let maximum = self.settings.lifetime_claims().get();
        if requested > maximum {
            return Err(IdentityDomainError::LifetimeClaimLimit { requested, maximum });
        }
        Ok(maximum - requested)
    }

    /// Refuses the first entry of `entries`, in order, that cannot be registered in `instance`.
    fn preflight_scene_instance(
        &self,
        world: &IdentityWorld,
        instance: SceneInstanceId,
        entries: &Vec<(SceneEntityId, WorldEntityToken)>,
    ) -> (r: Result<(), IdentityDomainError>)
        requires
            self.wf(),
        ensures
            self.model().claimed_instances.contains(instance.value()) ==> r == Err::<(), IdentityDomainError>(
                IdentityDomainError::SceneInstanceAlreadyClaimed { instance }),
            !self.model().claimed_instances.contains(instance.value()) && entries@.len() == usize::MAX ==> r == Err::<(), IdentityDomainError>(
                IdentityDomainError::LifetimeClaimLimit { requested: usize::MAX, maximum: self.model().settings.claim_limit() }),
            !self.model().claimed_instances.contains(instance.value()) && entries@.len() < usize::MAX ==> match capacity_error(self.model(), entries@.len() + 1int) {
                Some(e) => r == Err::<(), IdentityDomainError>(e),
                None => match scene_entries_error(self.model(), world.spec_id(), world.live(), instance, entries@, 0) {
                    Some(e) => r == Err::<(), IdentityDomainError>(e),
                    None => r is Ok,
                },
            },
    {
        if self.claimed_scene_instances.contains(&instance.get()) {
            return Err(IdentityDomainError::SceneInstanceAlreadyClaimed { instance });
        }
        let additional = match entries.len().checked_add(1) {
            Some(a) => a,
            None => return Err(IdentityDomainError::LifetimeClaimLimit {
                requested: usize::MAX,
                maximum: self.settings.lifetime_claims().get(),
            }),
        };
        match self.check_claim_capacity(additional) {
            Err(e) => return Err(e),
            Ok(()) => {},
        }
        let mut i: usize = 0;
        while i < entries.len()
            invariant
                i <= entries@.len(),
                entries@.len() < usize::MAX,
                !self.model().claimed_instances.contains(instance.value()),
                capacity_error(self.model(), entries@.len() + 1int) is None,
                scene_entries_error(self.model(), world.spec_id(), world.live(), instance, entries@, 0)
                    == scene_entries_error(self.model(), world.spec_id(), world.live(), instance, entries@, i as int),
            decreases entries@.len() - i,
        {
            let (entity_id, token) = (&entries[i].0, entries[i].1);
            match self.validate_live_token(world, token) {
                Err(e) => return Err(e),
                Ok(()) => {},
            }
            let reference = RuntimeEntityReference::scene(instance, entity_id.duplicate());
            if self.claimed_references.contains(&reference) {
                return Err(IdentityDomainError::ReferenceAlreadyClaimed { reference });
            }
            match self.identities_by_entity.get(&token.entity()) {
                Some(identity) => {
                    if identity.scene.is_some() {
                        return Err(IdentityDomainError::EntityAxisAlreadyRegistered { axis: EntityIdentityAxis::Scene });
                    }
                },
                None => {},
            }
            i = i + 1;
        }
        Ok(())
    }

    /// Registers a new scene instance holding `entries`, under the next scene instance id.
    pub fn register_new_scene_instance(
        &mut self,
        world: &IdentityWorld,
        entries: Vec<(SceneEntityId, WorldEntityToken)>,
    ) -> (r: Result<SpawnedSceneInstance, IdentityDomainError>)
        requires
            old(self).wf(),
        ensures
            final(self).wf(),
            r is Err ==> final(self).model() == old(self).model(),
            ({
                let m = old(self).model();
                let limit = m.settings.claim_limit();
                if world.spec_id() != m.world_id {
                    r == Err::<SpawnedSceneInstance, IdentityDomainError>(IdentityDomainError::WorldBindingMismatch)
                } else {
                    match m.next_instance {
                        None => r == Err::<SpawnedSceneInstance, IdentityDomainError>(IdentityDomainError::SceneInstanceExhausted),
                        Some(n) => {
                            let instance = crate::identity::types::instance_id_of(n);
                            if m.claimed_instances.contains(n) {
                                r == Err::<SpawnedSceneInstance, IdentityDomainError>(IdentityDomainError::SceneInstanceAlreadyClaimed { instance })
                            } else if capacity_error(m, 1) is Some {
                                r == Err::<SpawnedSceneInstance, IdentityDomainError>(capacity_error(m, 1)->0)
                            } else if collect_error(entries@, limit - sat(claims(m) + 1), limit, 0) is Some {
                                r == Err::<SpawnedSceneInstance, IdentityDomainError>(collect_error(entries@, limit - sat(claims(m) + 1), limit, 0)->0)
                            } else {
                                exists|sorted: Seq<(SceneEntityId, WorldEntityToken)>| {
                                    &&& #[trigger] arranged(entries@, sorted)
                                    &&& match scene_entries_error(m, world.spec_id(), world.live(), instance, sorted, 0) {
                                        Some(e) => r == Err::<SpawnedSceneInstance, IdentityDomainError>(e),
                                        None => r matches Ok(spawned) && spawned.spec_domain() == m.id && spawned.spec_instance() == instance
                                            && spawned.ids() == sorted.map_values(|e: (SceneEntityId, WorldEntityToken)| e.0)
                                            && group_committed(IdentityDomainModel { next_instance: after_allocation(n), ..m },
                                                final(self).model(), instance, scene_items(sorted)),
                                    }
                                }
                            }
                        },
                    }
                }
            }),
    {
        match self.validate_world_binding(world) {
            Err(e) => return Err(e),
            Ok(()) => {},
        }
        let raw = match self.scene_instance_allocator.peek() {
            Ok(n) => n,
            Err(_) => return Err(IdentityDomainError::SceneInstanceExhausted),
        };
        let instance = match SceneInstanceId::new(raw) {
            Ok(i) => i,
            Err(_) => unreached(),
        };
        proof {
            crate::identity::types::lemma_instance_id_of(instance);
        }
        let maximum_entries = match self.scene_entry_capacity(instance) {
            Ok(c) => c,
            Err(e) => return Err(e),
        };
        let maximum_claims = self.settings.lifetime_claims().get();
        let ghost input = entries@;
        let entries = match collect_scene_entries(entries, maximum_entries, maximum_claims) {
            Ok(e) => e,
            Err(e) => return Err(e),
        };
        match self.preflight_scene_instance(world, instance, &entries) {
            Err(e) => return Err(e),
            Ok(()) => {},
        }
        let ghost m0 = self.model();
        let _ = self.scene_instance_allocator.allocate();
        let ghost m1 = self.model();
        let mut items: Vec<(SceneEntityId, WorldEntityToken, Option<PersistentRuntimeReference>)> = Vec::new();
        let ghost sorted = entries@;
        for entry in it: entries.into_iter()
            invariant
                it.seq() == sorted,
                items@ == scene_items(sorted.take(it.index() as int)),
        {
            items.push((entry.0, entry.1, None));
            proof {
                assert(scene_items(sorted.take(it.index() + 1)) =~= scene_items(sorted.take(it.index() as int)).push((entry.0, entry.1, None)));
            }
        }
        proof {
            assert(sorted.take(sorted.len() as int) =~= sorted);
            lemma_group_claims_scene_items(sorted);
            assert forall|i: int| 0 <= i < sorted.len() implies !m1.claimed.contains(scene_key_of(instance, (#[trigger] scene_items(sorted)[i]).0)) by {
                lemma_scene_entries_pass(m0, world.spec_id(), world.live(), instance, sorted, i);
            }
            assert forall|i: int, j: int| 0 <= i < j < sorted.len() implies (#[trigger] scene_items(sorted)[i]).1.spec_entity() != (#[trigger] scene_items(sorted)[j]).1.spec_entity() by {
                assert(sorted[i].1.spec_entity() != sorted[j].1.spec_entity());
            }
            assert(group_committable(m1, instance, scene_items(sorted)));
        }
        let spawned = self.commit_scene_identity_group(instance, items);
        proof {
            assert(spawned.ids() =~= sorted.map_values(|e: (SceneEntityId, WorldEntityToken)| e.0));
            assert(arranged(input, sorted));
        }
        Ok(spawned)
    }
}

/// Entries before the first refused one pass.
proof fn lemma_scene_entries_pass(
    m: IdentityDomainModel,
    world_id: u64,
    live: Map<u64, Option<u64>>,
    instance: SceneInstanceId,
    entries: Seq<(SceneEntityId, WorldEntityToken)>,
    i: int,
)
    requires
        0 <= i < entries.len(),
        scene_entries_error(m, world_id, live, instance, entries, 0) is None,
    ensures
        scene_entry_error(m, world_id, live, instance, entries[i]) is None,
{
    lemma_scene_entries_pass_from(m, world_id, live, instance, entries, 0, i);
}

proof fn lemma_scene_entries_pass_from(
    m: IdentityDomainModel,
    world_id: u64,
    live: Map<u64, Option<u64>>,
    instance: SceneInstanceId,
    entries: Seq<(SceneEntityId, WorldEntityToken)>,
    from: int,
    i: int,
)
    requires
        0 <= from <= i < entries.len(),
        scene_entries_error(m, world_id, live, instance, entries, from) is None,
    ensures
        scene_entry_error(m, world_id, live, instance, entries[i]) is None,
    decreases i - from,
{
    if from < i {
        lemma_scene_entries_pass_from(m, world_id, live, instance, entries, from + 1, i);
    }
}

/// The entries arranged by id; refused as soon as one would exceed `maximum_entries`, or
/// repeats an id or an entity.
fn collect_scene_entries(
    entries: Vec<(SceneEntityId, WorldEntityToken)>,
    maximum_entries: usize,
    maximum_claims: usize,
) -> (r: Result<Vec<(SceneEntityId, WorldEntityToken)>, IdentityDomainError>)
    ensures
        match collect_error(entries@, maximum_entries as int, maximum_claims, 0) {
            Some(e) => r == Err::<Vec<(SceneEntityId, WorldEntityToken)>, IdentityDomainError>(e),
            None => r matches Ok(sorted) && arranged(entries@, sorted@) && sorted@.len() <= maximum_entries
                && forall|i: int, j: int| 0 <= i < j < sorted@.len() ==> (#[trigger] sorted@[i]).1.spec_entity() != (#[trigger] sorted@[j]).1.spec_entity(),
        },
{
    let ghost input = entries@;
    let mut sorted: Vec<(SceneEntityId, WorldEntityToken)> = Vec::new();
    let mut seen: HashSet<u64> = HashSet::new();
    for entry in it: entries.into_iter()
        invariant
            it.seq() == input,
            collect_error(input, maximum_entries as int, maximum_claims, 0) == collect_error(input, maximum_entries as int, maximum_claims, it.index() as int),
            arranged(input.take(it.index() as int), sorted@),
            sorted@.len() <= maximum_entries,
            forall|x: u64| #[trigger] seen@.contains(x) <==> exists|j: int| 0 <= j < it.index() && (#[trigger] input[j]).1.spec_entity() == x,
            forall|i: int, j: int| 0 <= i < j < sorted@.len() ==> (#[trigger] sorted@[i]).1.spec_entity() != (#[trigger] sorted@[j]).1.spec_entity(),
    {
        let ghost i = it.index() as int;
        let ghost prefix = input.take(i);
        proof {
            assert(entry == input[i]);
            assert forall|j: int| 0 <= j < prefix.len() implies #[trigger] prefix[j] == input[j] by {}
        }
        if sorted.len() >= maximum_entries {
            return Err(IdentityDomainError::LifetimeClaimLimit {
                requested: maximum_claims.saturating_add(1),
                maximum: maximum_claims,
            });
        }
        let mut p: usize = 0;
        while p < sorted.len()
            invariant
                p <= sorted@.len(),
                forall|k: int| 0 <= k < p ==> crate::text::text_lt((#[trigger] sorted@[k]).0.view(), entry.0.view()),
            ensures
                p <= sorted@.len(),
                forall|k: int| 0 <= k < p ==> crate::text::text_lt((#[trigger] sorted@[k]).0.view(), entry.0.view()),
                p < sorted@.len() ==> !crate::text::text_lt(sorted@[p as int].0.view(), entry.0.view()),
            decreases sorted@.len() - p,
        {
            match compare_text(sorted[p].0.as_str(), entry.0.as_str()) {
                TextOrder::Less => {},
                _ => break,
            }
            p = p + 1;
        }
        let duplicate = p < sorted.len() && match compare_text(sorted[p].0.as_str(), entry.0.as_str()) {
            TextOrder::Equal => true,
            _ => false,
        };
        proof {
            assert forall|k: int| p <= k < sorted@.len() implies crate::text::text_lt(entry.0.view(), (#[trigger] sorted@[k]).0.view()) || (duplicate && k == p) by {
                crate::text::lemma_text_lt_trichotomy(sorted@[p as int].0.view(), entry.0.view());
                if k > p {
                    crate::text::lemma_text_lt_trichotomy(sorted@[k].0.view(), entry.0.view());
                    if duplicate {
                        assert(crate::text::text_lt(sorted@[p as int].0.view(), sorted@[k].0.view()));
                    } else {
                        crate::text::lemma_text_lt_transitive(entry.0.view(), sorted@[p as int].0.view(), sorted@[k].0.view());
                    }
                }
            }
        }
        if duplicate {
            proof {
                assert(prefix.contains(sorted@[p as int]));
                let j = choose|j: int| 0 <= j < prefix.len() && prefix[j] == sorted@[p as int];
                assert(input[j].0.view() == input[i].0.view());
            }
            return Err(IdentityDomainError::DuplicateSceneEntityId { entity: entry.0 });
        }
        proof {
            assert(!(exists|j: int| 0 <= j < i && (#[trigger] input[j]).0.view() == input[i].0.view())) by {
                if exists|j: int| 0 <= j < i && (#[trigger] input[j]).0.view() == input[i].0.view() {
                    let j = choose|j: int| 0 <= j < i && (#[trigger] input[j]).0.view() == input[i].0.view();
                    assert(sorted@.contains(prefix[j]));
                    let k = choose|k: int| 0 <= k < sorted@.len() && sorted@[k] == prefix[j];
                    crate::text::lemma_text_lt_trichotomy(sorted@[k].0.view(), entry.0.view());
                }
            }
        }
        if seen.contains(&entry.1.entity()) {
            return Err(IdentityDomainError::DuplicateRuntimeEntity);
        }
        seen.insert(entry.1.entity());
        let ghost old_sorted = sorted@;
        sorted.insert(p, entry);
        proof {
            let next = input.take(i + 1);
            assert forall|j: int| 0 <= j < next.len() implies #[trigger] next[j] == input[j] by {}
            let s = sorted@;
            assert forall|a: int, b: int| 0 <= a < b < s.len() implies crate::text::text_lt((#[trigger] s[a]).0.view(), (#[trigger] s[b]).0.view()) by {
                if b < p {
                    assert(s[a] == old_sorted[a] && s[b] == old_sorted[b]);
                } else if b == p {
                    assert(s[a] == old_sorted[a]);
                } else if a < p {
                    assert(s[a] == old_sorted[a] && s[b] == old_sorted[b - 1]);
                    crate::text::lemma_text_lt_transitive(old_sorted[a].0.view(), entry.0.view(), old_sorted[b - 1].0.view());
                } else if a == p {
                    assert(s[b] == old_sorted[b - 1]);
                } else {
                    assert(s[a] == old_sorted[a - 1] && s[b] == old_sorted[b - 1]);
                }
            }
            assert forall|j: int| 0 <= j < next.len() implies s.contains(#[trigger] next[j]) by {
                if j < i {
                    assert(old_sorted.contains(prefix[j]));
                    let k = choose|k: int| 0 <= k < old_sorted.len() && old_sorted[k] == prefix[j];
                    if k < p {
                        assert(s[k] == old_sorted[k]);
                    } else {
                        assert(s[k + 1] == old_sorted[k]);
                    }
                } else {
                    assert(s[p as int] == entry);
                }
            }
            assert forall|k: int| 0 <= k < s.len() implies next.contains(#[trigger] s[k]) by {
                if k < p {
                    assert(s[k] == old_sorted[k]);
                    assert(prefix.contains(old_sorted[k]));
                    let j = choose|j: int| 0 <= j < prefix.len() && prefix[j] == old_sorted[k];
                    assert(next[j] == prefix[j]);
                } else if k == p {
                    assert(next[i] == entry);
                } else {
                    assert(s[k] == old_sorted[k - 1]);
                    assert(prefix.contains(old_sorted[k - 1]));
                    let j = choose|j: int| 0 <= j < prefix.len() && prefix[j] == old_sorted[k - 1];
                    assert(next[j] == prefix[j]);
                }
            }
            assert forall|a: int, b: int| 0 <= a < b < s.len() implies (#[trigger] s[a]).1.spec_entity() != (#[trigger] s[b]).1.spec_entity() by {
                if a != p && b != p {
                    let a2 = if a < p { a } else { a - 1 };
                    let b2 = if b < p { b } else { b - 1 };
                    assert(s[a] == old_sorted[a2] && s[b] == old_sorted[b2]);
                } else {
                    let o = if a == p { b } else { a };
                    let o2 = if o < p { o } else { o - 1 };
                    assert(s[o] == old_sorted[o2]);
                    assert(prefix.contains(old_sorted[o2]));
                    let j = choose|j: int| 0 <= j < prefix.len() && prefix[j] == old_sorted[o2];
                    assert(seen@.contains(input[j].1.spec_entity()));
                }
            }
            assert forall|x: u64| #[trigger] seen@.contains(x) <==> exists|j: int| 0 <= j < i + 1 && (#[trigger] input[j]).1.spec_entity() == x by {
                if x == entry.1.spec_entity() {
                    assert(input[i] == entry);
                }
            }
        }
    }
    proof {
        assert(input.take(input.len() as int) =~= input);
    }
    Ok(sorted)
}

impl WorldIdentityDomain {
    /// Checks a group registration of the entities of `source` as `instance`, in input order,
    /// and gives the items arranged by id with the remap from `source` onto them.
    #[verifier::rlimit(40)]
    #[verifier::spinoff_prover]
    fn preflight_scene_identity_group(
        &self,
        world: &IdentityWorld,
        source: &SceneIdentitySnapshot,
        instance: SceneInstanceId,
        entries: Vec<(SceneEntityId, WorldEntityToken, Option<PersistentRuntimeReference>)>,
    ) -> (r: Result<(Vec<(SceneEntityId, WorldEntityToken, Option<PersistentRuntimeReference>)>, WorldEntityLocatorRemap), IdentityDomainError>)
        requires
            self.wf(),
        ensures
            match group_outcome(self.model(), world.spec_id(), world.live(), *source, instance, entries@) {
                Some(e) => r == Err::<(Vec<(SceneEntityId, WorldEntityToken, Option<PersistentRuntimeReference>)>, WorldEntityLocatorRemap), IdentityDomainError>(e),
                None => exists|sorted: Seq<(SceneEntityId, WorldEntityToken, Option<PersistentRuntimeReference>)>| {
                    &&& #[trigger] arranged_items(entries@, sorted)
                    &&& group_committable(self.model(), instance, sorted)
                    &&& match r {
                        Err(IdentityDomainError::InvalidSceneRemap(e)) => snapshot_remap(source.entity_seq(), target_entries(instance, sorted), Err(e)),
                        Ok((items, remap)) => items@ == sorted
                            && snapshot_remap(source.entity_seq(), target_entries(instance, sorted), Ok(*remap.spec_references()))
                            && remap.spec_source_domain() == source.spec_domain()
                            && remap.spec_target_domain() == self.model().id,
                        _ => false,
                    }
                },
            },
    {
        let ghost m = self.model();
        let ghost src = source.entity_seq();
        let ghost input = entries@;
        if self.claimed_scene_instances.contains(&instance.get()) {
            return Err(IdentityDomainError::SceneInstanceAlreadyClaimed { instance });
        }
        let count = source.reference_count();
        let additional = match count.checked_add(1) {
            Some(a) => a,
            None => return Err(IdentityDomainError::LifetimeClaimLimit {
                requested: usize::MAX,
                maximum: self.settings.lifetime_claims().get(),
            }),
        };
        match self.check_claim_capacity(additional) {
            Err(e) => return Err(e),
            Ok(()) => {},
        }
        let source_len = source.len();
        let mut sorted: Vec<(SceneEntityId, WorldEntityToken, Option<PersistentRuntimeReference>)> = Vec::new();
        let mut entities: HashSet<u64> = HashSet::new();
        let mut persistent_references = RefSet::new();
        for entry in it: entries.into_iter()
            invariant
                it.seq() == input,
                src == source.entity_seq(),
                ids_sorted(src),
                source_len == src.len(),
                m == self.model(),
                self.wf(),
                !m.claimed_instances.contains(instance.value()),
                count == sat_count(src, src.len() as int),
                count < usize::MAX,
                capacity_error(m, count + 1int) is None,
                sorted@.len() == it.index(),
                group_items_error(m, world.spec_id(), world.live(), src, instance, input, 0)
                    == group_items_error(m, world.spec_id(), world.live(), src, instance, input, it.index() as int),
                arranged_items(input.take(it.index() as int), sorted@),
                forall|x: u64| #[trigger] entities@.contains(x) <==> exists|j: int| 0 <= j < it.index() && (#[trigger] input[j]).1.spec_entity() == x,
                forall|k: RefKey| #[trigger] persistent_references.keys().contains(k) <==> exists|j: int| 0 <= j < it.index()
                    && (#[trigger] input[j]).2 is Some && persistent_key_of(input[j].2->0) == k,
                forall|i: int, j: int| 0 <= i < j < sorted@.len() ==> (#[trigger] sorted@[i]).1.spec_entity() != (#[trigger] sorted@[j]).1.spec_entity(),
                forall|i: int, j: int| 0 <= i < j < sorted@.len() && (#[trigger] sorted@[i]).2 is Some && (#[trigger] sorted@[j]).2 is Some
                    ==> persistent_key_of(sorted@[i].2->0) != persistent_key_of(sorted@[j].2->0),
                forall|i: int| 0 <= i < sorted@.len() ==> !m.claimed.contains(scene_key_of(instance, (#[trigger] sorted@[i]).0)),
                forall|i: int| 0 <= i < sorted@.len() && (#[trigger] sorted@[i]).2 is Some ==> !m.claimed.contains(persistent_key_of(sorted@[i].2->0)),
                forall|i: int| 0 <= i < sorted@.len() ==> in_source(src, (#[trigger] sorted@[i]).0.view())
                    && (source_references(src, sorted@[i].0.view()).persistent is Some) == (sorted@[i].2 is Some),
        {
            let ghost i = it.index() as int;
            let ghost prefix = input.take(i);
            proof {
                assert(entry == input[i]);
                assert forall|j: int| 0 <= j < prefix.len() implies #[trigger] prefix[j] == input[j] by {}
            }
            let (entity_id, token, persistent) = entry;
            if sorted.len() >= source_len {
                proof {
                    assert(group_item_error(m, world.spec_id(), world.live(), src, instance, input, i) == Some(IdentityDomainError::IncompleteSceneFork));
                }
                return Err(IdentityDomainError::IncompleteSceneFork);
            }
            let recorded = match source.references(&entity_id) {
                Some(refs) => refs,
                None => {
                    proof {
                        assert(!in_source(src, input[i].0.view()));
                        assert(group_item_error(m, world.spec_id(), world.live(), src, instance, input, i) == Some(IdentityDomainError::IncompleteSceneFork));
                    }
                    return Err(IdentityDomainError::IncompleteSceneFork);
                },
            };
            proof {
                let k = choose|k: int| 0 <= k < src.len() && (#[trigger] src[k]).0.view() == entity_id.view() && *recorded == src[k].1;
                let c = choose|k: int| 0 <= k < src.len() && (#[trigger] src[k]).0.view() == entity_id.view();
                if c != k {
                    if c < k {
                        assert(crate::text::text_lt(src[c].0.view(), src[k].0.view()));
                    } else {
                        assert(crate::text::text_lt(src[k].0.view(), src[c].0.view()));
                    }
                    crate::text::lemma_text_lt_trichotomy(src[c].0.view(), src[k].0.view());
                }
                assert(source_references(src, entity_id.view()) == *recorded);
            }
            if recorded.persistent.is_some() != persistent.is_some() {
                return Err(IdentityDomainError::IncompleteSceneForkIdentityAxes { entity: entity_id });
            }
            match self.validate_live_token(world, token) {
                Err(e) => return Err(e),
                Ok(()) => {},
            }
            let entity = token.entity();
            if entities.contains(&entity) {
                return Err(IdentityDomainError::DuplicateRuntimeEntity);
            }
            entities.insert(entity);
            match self.identities_by_entity.get(&entity) {
                Some(identity) => {
                    if identity.scene.is_some() {
                        return Err(IdentityDomainError::EntityAxisAlreadyRegistered { axis: EntityIdentityAxis::Scene });
                    }
                    if identity.persistent.is_some() {
                        return Err(IdentityDomainError::EntityAxisAlreadyRegistered { axis: EntityIdentityAxis::Persistent });
                    }
                },
                None => {},
            }
            let scene_reference = RuntimeEntityReference::scene(instance, entity_id.duplicate());
            if self.claimed_references.contains(&scene_reference) {
                return Err(IdentityDomainError::ReferenceAlreadyClaimed { reference: scene_reference });
            }
            match &persistent {
                Some(p) => {
                    let reference = RuntimeEntityReference::persistent(p.duplicate());
                    if self.claimed_references.contains(&reference) || persistent_references.contains(&reference) {
                        return Err(IdentityDomainError::ReferenceAlreadyClaimed { reference });
                    }
                    persistent_references.insert(reference);
                },
                None => {},
            }
            let mut p: usize = 0;
            while p < sorted.len()
                invariant
                    p <= sorted@.len(),
                    forall|k: int| 0 <= k < p ==> crate::text::text_lt((#[trigger] sorted@[k]).0.view(), entity_id.view()),
                ensures
                    p <= sorted@.len(),
                    forall|k: int| 0 <= k < p ==> crate::text::text_lt((#[trigger] sorted@[k]).0.view(), entity_id.view()),
                    p < sorted@.len() ==> !crate::text::text_lt(sorted@[p as int].0.view(), entity_id.view()),
                decreases sorted@.len() - p,
            {
                match compare_text(sorted[p].0.as_str(), entity_id.as_str()) {
                    TextOrder::Less => {},
                    _ => break,
                }
                p = p + 1;
            }
            let duplicate = p < sorted.len() && match compare_text(sorted[p].0.as_str(), entity_id.as_str()) {
                TextOrder::Equal => true,
                _ => false,
            };
            proof {
                assert forall|k: int| p <= k < sorted@.len() implies crate::text::text_lt(entity_id.view(), (#[trigger] sorted@[k]).0.view()) || (duplicate && k == p) by {
                    crate::text::lemma_text_lt_trichotomy(sorted@[p as int].0.view(), entity_id.view());
                    if k > p {
                        crate::text::lemma_text_lt_trichotomy(sorted@[k].0.view(), entity_id.view());
                        if duplicate {
                            assert(crate::text::text_lt(sorted@[p as int].0.view(), sorted@[k].0.view()));
                        } else {
                            crate::text::lemma_text_lt_transitive(entity_id.view(), sorted@[p as int].0.view(), sorted@[k].0.view());
                        }
                    }
                }
            }
            if duplicate {
                proof {
                    assert(prefix.contains(sorted@[p as int]));
                    let j = choose|j: int| 0 <= j < prefix.len() && prefix[j] == sorted@[p as int];
                    assert(input[j].0.view() == input[i].0.view());
                }
                return Err(IdentityDomainError::DuplicateSceneEntityId { entity: entity_id });
            }
            proof {
                assert(!(exists|j: int| 0 <= j < i && (#[trigger] input[j]).0.view() == input[i].0.view())) by {
                    if exists|j: int| 0 <= j < i && (#[trigger] input[j]).0.view() == input[i].0.view() {
                        let j = choose|j: int| 0 <= j < i && (#[trigger] input[j]).0.view() == input[i].0.view();
                        assert(sorted@.contains(prefix[j]));
                        let k = choose|k: int| 0 <= k < sorted@.len() && sorted@[k] == prefix[j];
                        crate::text::lemma_text_lt_trichotomy(sorted@[k].0.view(), entity_id.view());
                    }
                }
                assert(group_item_error(m, world.spec_id(), world.live(), src, instance, input, i) is None);
            }
            let ghost old_sorted = sorted@;
            sorted.insert(p, (entity_id, token, persistent));
            proof {
                let item = input[i];
                let next = input.take(i + 1);
                assert forall|j: int| 0 <= j < next.len() implies #[trigger] next[j] == input[j] by {}
                let s = sorted@;
                assert(s[p as int] == item);
                assert forall|k: int| 0 <= k < s.len() && k != p implies #[trigger] s[k] == old_sorted[if k < p { k } else { k - 1 }] by {}
                assert forall|k: int| 0 <= k < s.len() && k != p implies prefix.contains(#[trigger] s[k]) by {
                    assert(s[k] == old_sorted[if k < p { k } else { k - 1 }]);
                }
                assert forall|a: int, b: int| 0 <= a < b < s.len() implies crate::text::text_lt((#[trigger] s[a]).0.view(), (#[trigger] s[b]).0.view()) by {
                    if a < p && b > p {
                        crate::text::lemma_text_lt_transitive(s[a].0.view(), item.0.view(), s[b].0.view());
                    }
                }
                assert forall|j: int| 0 <= j < next.len() implies s.contains(#[trigger] next[j]) by {
                    if j < i {
                        assert(old_sorted.contains(prefix[j]));
                        let k = choose|k: int| 0 <= k < old_sorted.len() && old_sorted[k] == prefix[j];
                        if k < p {
                            assert(s[k] == old_sorted[k]);
                        } else {
                            assert(s[k + 1] == old_sorted[k]);
                        }
                    }
                }
                assert forall|k: int| 0 <= k < s.len() implies next.contains(#[trigger] s[k]) by {
                    if k == p {
                        assert(next[i] == item);
                    } else {
                        let j = choose|j: int| 0 <= j < prefix.len() && prefix[j] == s[k];
                        assert(next[j] == prefix[j]);
                    }
                }
                assert forall|a: int, b: int| 0 <= a < b < s.len() implies (#[trigger] s[a]).1.spec_entity() != (#[trigger] s[b]).1.spec_entity() by {
                    if a == p || b == p {
                        let o = if a == p { b } else { a };
                        let j = choose|j: int| 0 <= j < prefix.len() && prefix[j] == s[o];
                        assert(input[j] == prefix[j]);
                    }
                }
                assert forall|a: int, b: int| 0 <= a < b < s.len() && (#[trigger] s[a]).2 is Some && (#[trigger] s[b]).2 is Some
                    implies persistent_key_of(s[a].2->0) != persistent_key_of(s[b].2->0) by {
                    if a == p || b == p {
                        let o = if a == p { b } else { a };
                        let j = choose|j: int| 0 <= j < prefix.len() && prefix[j] == s[o];
                        assert(input[j] == prefix[j]);
                    }
                }
                assert forall|x: u64| #[trigger] entities@.contains(x) <==> exists|j: int| 0 <= j < i + 1 && (#[trigger] input[j]).1.spec_entity() == x by {
                    if x == entity {
                        assert(input[i].1.spec_entity() == x);
                    }
                }
                assert forall|k: RefKey| #[trigger] persistent_references.keys().contains(k) <==> exists|j: int| 0 <= j < i + 1
                    && (#[trigger] input[j]).2 is Some && persistent_key_of(input[j].2->0) == k by {
                    if item.2 is Some && k == persistent_key_of(item.2->0) {
                        assert(input[i] == item);
                    }
                }
            }
        }
        proof {
            assert(input.take(input.len() as int) =~= input);
        }
        if sorted.len() != source_len {
            return Err(IdentityDomainError::IncompleteSceneFork);
        }
        let mut target_entries_vec: Vec<(SceneEntityId, SceneIdentityReferences)> = Vec::new();
        let mut k: usize = 0;
        while k < sorted.len()
            invariant
                k <= sorted@.len(),
                target_entries_vec@ == target_entries(instance, sorted@.take(k as int)),
            decreases sorted@.len() - k,
        {
            let (entity_id, _, persistent) = &sorted[k];
            target_entries_vec.push((entity_id.duplicate(), SceneIdentityReferences {
                scene: RuntimeEntityReference::scene(instance, entity_id.duplicate()),
                persistent: match persistent {
                    Some(p) => Some(RuntimeEntityReference::persistent(p.duplicate())),
                    None => None,
                },
            }));
            proof {
                assert(target_entries(instance, sorted@.take(k + 1)) =~= target_entries(instance, sorted@.take(k as int)).push(target_entries_vec@.last()));
            }
            k = k + 1;
        }
        proof {
            assert(sorted@.take(k as int) =~= sorted@);
            let t = target_entries_vec@;
            assert forall|a: int, b: int| 0 <= a < b < t.len() implies crate::text::text_lt((#[trigger] t[a]).0.view(), (#[trigger] t[b]).0.view()) by {
                assert(t[a].0 == sorted@[a].0 && t[b].0 == sorted@[b].0);
            }
        }
        let target = match SceneIdentitySnapshot::new(self.id, instance, target_entries_vec) {
            Some(t) => t,
            None => unreached(),
        };
        proof {
            let ids_a = sorted@.map_values(|x: (SceneEntityId, WorldEntityToken, Option<PersistentRuntimeReference>)| x.0.view());
            let ids_b = src.map_values(|x: (SceneEntityId, SceneIdentityReferences)| x.0.view());
            assert forall|a: int| 0 <= a < ids_a.len() implies ids_b.contains(#[trigger] ids_a[a]) by {
                let c = choose|c: int| 0 <= c < src.len() && (#[trigger] src[c]).0.view() == sorted@[a].0.view();
                assert(ids_b[c] == ids_a[a]);
            }
            assert forall|a: int, b: int| 0 <= a < b < ids_b.len() implies crate::text::text_lt(#[trigger] ids_b[a], #[trigger] ids_b[b]) by {
                assert(crate::text::text_lt(src[a].0.view(), src[b].0.view()));
            }
            lemma_sorted_within_equal(ids_a, ids_b);
            assert forall|a: int| 0 <= a < sorted@.len() implies ((#[trigger] src[a]).1.persistent is Some) == (sorted@[a].2 is Some) by {
                assert(ids_a[a] == ids_b[a]);
                let c = choose|c: int| 0 <= c < src.len() && (#[trigger] src[c]).0.view() == sorted@[a].0.view();
                if c != a {
                    crate::text::lemma_text_lt_trichotomy(src[c].0.view(), src[a].0.view());
                    if c < a {
                        assert(crate::text::text_lt(src[c].0.view(), src[a].0.view()));
                    } else {
                        assert(crate::text::text_lt(src[a].0.view(), src[c].0.view()));
                    }
                }
            }
            lemma_group_claims_prefix(sorted@, src, sorted@.len() as int);
            assert(sorted@.take(sorted@.len() as int) =~= sorted@);
            lemma_sat_count_exact(src, src.len() as int);
            assert(arranged_items(input, sorted@));
            assert(group_committable(m, instance, sorted@));
        }
        let remap = match WorldEntityLocatorRemap::between_scene_snapshots(source, &target) {
            Ok(remap) => remap,
            Err(e) => return Err(IdentityDomainError::InvalidSceneRemap(e)),
        };
        Ok((sorted, remap))
    }
}

impl WorldIdentityDomain {
    /// Registers the group of `source` again under its own scene instance id, as restored
    /// from a save, with the remap from the source's references onto the restored ones.
    pub fn register_restored_scene_instance(
        &mut self,
        world: &IdentityWorld,
        source: &SceneIdentitySnapshot,
        entries: Vec<(SceneEntityId, WorldEntityToken, Option<PersistentRuntimeReference>)>,
    ) -> (r: Result<(SpawnedSceneInstance, WorldEntityLocatorRemap), IdentityDomainError>)
        requires
            old(self).wf(),
        ensures
            final(self).wf(),
            r is Err ==> final(self).model() == old(self).model(),
            ({
                let m = old(self).model();
                let instance = source.spec_instance();
                if world.spec_id() != m.world_id {
                    r == Err::<(SpawnedSceneInstance, WorldEntityLocatorRemap), IdentityDomainError>(IdentityDomainError::WorldBindingMismatch)
                } else {
                    match group_outcome(m, world.spec_id(), world.live(), *source, instance, entries@) {
                        Some(e) => r == Err::<(SpawnedSceneInstance, WorldEntityLocatorRemap), IdentityDomainError>(e),
                        None => exists|sorted: Seq<(SceneEntityId, WorldEntityToken, Option<PersistentRuntimeReference>)>| {
                            &&& #[trigger] arranged_items(entries@, sorted)
                            &&& group_registered(IdentityDomainModel { next_instance: after_reservation(m.next_instance, instance.value()), ..m },
                                final(self).model(), *source, instance, sorted, r)
                        },
                    }
                }
            }),
    {
        match self.validate_world_binding(world) {
            Err(e) => return Err(e),
            Ok(()) => {},
        }
        let instance = source.instance_id();
        let (items, remap) = match self.preflight_scene_identity_group(world, source, instance, entries) {
            Ok(group) => group,
            Err(e) => return Err(e),
        };
        let ghost sorted = items@;
        self.scene_instance_allocator.reserve(instance.get());
        let target = self.commit_scene_identity_group(instance, items);
        proof {
            assert(target.ids() =~= sorted.map_values(|x: (SceneEntityId, WorldEntityToken, Option<PersistentRuntimeReference>)| x.0));
            assert(arranged_items(entries@, sorted));
        }
        Ok((target, remap))
    }

    /// Registers the group of `source` under the next scene instance id, as a parallel copy,
    /// with the remap from the source's references onto the copy's.
    pub fn register_parallel_scene_fork(
        &mut self,
        world: &IdentityWorld,
        source: &SceneIdentitySnapshot,
        entries: Vec<(SceneEntityId, WorldEntityToken, Option<PersistentRuntimeReference>)>,
    ) -> (r: Result<(SpawnedSceneInstance, WorldEntityLocatorRemap), IdentityDomainError>)
        requires
            old(self).wf(),
        ensures
            final(self).wf(),
            r is Err ==> final(self).model() == old(self).model(),
            ({
                let m = old(self).model();
                if world.spec_id() != m.world_id {
                    r == Err::<(SpawnedSceneInstance, WorldEntityLocatorRemap), IdentityDomainError>(IdentityDomainError::WorldBindingMismatch)
                } else {
                    match m.next_instance {
                        None => r == Err::<(SpawnedSceneInstance, WorldEntityLocatorRemap), IdentityDomainError>(IdentityDomainError::SceneInstanceExhausted),
                        Some(n) => {
                            let instance = crate::identity::types::instance_id_of(n);
                            match group_outcome(m, world.spec_id(), world.live(), *source, instance, entries@) {
                                Some(e) => r == Err::<(SpawnedSceneInstance, WorldEntityLocatorRemap), IdentityDomainError>(e),
                                None => exists|sorted: Seq<(SceneEntityId, WorldEntityToken, Option<PersistentRuntimeReference>)>| {
                                    &&& #[trigger] arranged_items(entries@, sorted)
                                    &&& group_registered(IdentityDomainModel { next_instance: after_allocation(n), ..m },
                                        final(self).model(), *source, instance, sorted, r)
                                },
                            }
                        },
                    }
                }
            }),
    {
        match self.validate_world_binding(world) {
            Err(e) => return Err(e),
            Ok(()) => {},
        }
        let raw = match self.scene_instance_allocator.peek() {
            Ok(n) => n,
            Err(_) => return Err(IdentityDomainError::SceneInstanceExhausted),
        };
        let instance = match SceneInstanceId::new(raw) {
            Ok(i) => i,
            Err(_) => unreached(),
        };
        proof {
            crate::identity::types::lemma_instance_id_of(instance);
        }
        let (items, remap) = match self.preflight_scene_identity_group(world, source, instance, entries) {
            Ok(group) => group,
            Err(e) => return Err(e),
        };
        let ghost sorted = items@;
        let _ = self.scene_instance_allocator.allocate();
        let target = self.commit_scene_identity_group(instance, items);
        proof {
            assert(target.ids() =~= sorted.map_values(|x: (SceneEntityId, WorldEntityToken, Option<PersistentRuntimeReference>)| x.0));
            assert(arranged_items(entries@, sorted));
        }
        Ok((target, remap))
    }
}

/// The locator of `r` in the domain `domain`, if `r` is present.
pub open spec fn locator_in(domain: WorldIdentityDomainId, r: Option<RuntimeEntityReference>) -> Option<WorldEntityLocator> {
    match r {
        Some(reference) => Some(WorldEntityLocator::spec_new(domain, reference)),
        None => None,
    }
}

impl WorldIdentityDomain {
    fn locator_for(&self, reference: &Option<RuntimeEntityReference>) -> (r: Option<WorldEntityLocator>)
        ensures
            r == locator_in(self.id, *reference),
    {
        match reference {
            Some(reference) => Some(WorldEntityLocator::new(self.id, reference.duplicate())),
            None => None,
        }
    }

    /// The locators of every identity axis `token`'s entity is registered on, if any.
    pub fn locators_for_token(&self, world: &IdentityWorld, token: WorldEntityToken) -> (r: Result<Option<WorldEntityLocators>, IdentityDomainError>)
        ensures
            match token_error(self.model(), world.spec_id(), world.live(), token) {
                Some(e) => r == Err::<Option<WorldEntityLocators>, IdentityDomainError>(e),
                None => if self.model().axes.contains_key(token.spec_entity()) {
                    let axes = self.model().axes[token.spec_entity()];
                    (r matches Ok(Some(l)) && l.spec_scene() == locator_in(self.model().id, axes.scene)
                        && l.spec_persistent() == locator_in(self.model().id, axes.persistent))
                } else {
                    (r matches Ok(None))
                },
            },
    {
        match self.validate_live_token(world, token) {
            Err(e) => return Err(e),
            Ok(()) => {},
        }
        match self.identities_by_entity.get(&token.entity()) {
            None => Ok(None),
            Some(identity) => Ok(Some(WorldEntityLocators::new(self.locator_for(&identity.scene), self.locator_for(&identity.persistent)))),
        }
    }

    /// The locators of every active reference: scene references, then persistent ones, each
    /// in increasing order.
    pub fn registered_locators(&self, world: &IdentityWorld) -> (r: Result<Vec<WorldEntityLocator>, IdentityDomainError>)
        ensures
            world.spec_id() != self.model().world_id ==> r == Err::<Vec<WorldEntityLocator>, IdentityDomainError>(IdentityDomainError::WorldBindingMismatch),
            world.spec_id() == self.model().world_id ==> (r matches Ok(ls) && ls@ == (self.model().scene_refs + self.model().persistent_refs).map_values(
                |reference: RuntimeEntityReference| WorldEntityLocator::spec_new(self.model().id, reference))),
    {
        match self.validate_world_binding(world) {
            Err(e) => return Err(e),
            Ok(()) => {},
        }
        let scene = self.scene_entities.refs();
        let persistent = self.persistent_entities.refs();
        let ghost all = scene@ + persistent@;
        let mut out: Vec<WorldEntityLocator> = Vec::new();
        let mut i: usize = 0;
        while i < scene.len()
            invariant
                i <= scene@.len(),
                out@ == all.take(i as int).map_values(|reference: RuntimeEntityReference| WorldEntityLocator::spec_new(self.id, reference)),
                all == scene@ + persistent@,
            decreases scene@.len() - i,
        {
            out.push(WorldEntityLocator::new(self.id, scene[i].duplicate()));
            proof {
                assert(all.take(i + 1) =~= all.take(i as int).push(scene@[i as int]));
                assert(out@ =~= all.take(i + 1).map_values(|reference: RuntimeEntityReference| WorldEntityLocator::spec_new(self.id, reference)));
            }
            i = i + 1;
        }
        let mut j: usize = 0;
        while j < persistent.len()
            invariant
                j <= persistent@.len(),
                i == scene@.len(),
                out@ == all.take(i + j).map_values(|reference: RuntimeEntityReference| WorldEntityLocator::spec_new(self.id, reference)),
                all == scene@ + persistent@,
            decreases persistent@.len() - j,
        {
            out.push(WorldEntityLocator::new(self.id, persistent[j].duplicate()));
            proof {
                assert(all.take(i + j + 1) =~= all.take(i + j).push(persistent@[j as int]));
                assert(out@ =~= all.take(i + j + 1).map_values(|reference: RuntimeEntityReference| WorldEntityLocator::spec_new(self.id, reference)));
            }
            j = j + 1;
        }
        proof {
            assert(all.take(i + j) =~= all);
        }
        Ok(out)
    }
}

/// What `locator` resolves to in `world`, whose identity domain is `domain` where it has one.
pub fn resolve_in_world(world: &IdentityWorld, domain: Option<&WorldIdentityDomain>, locator: &WorldEntityLocator) -> (r: EntityLookup)
    ensures
        match domain {
            None => r == EntityLookup::DomainUnavailable,
            Some(d) => if world.spec_id() != d.model().world_id {
                r == EntityLookup::WrongWorldBinding
            } else if locator.spec_domain() != d.model().id {
                r == (EntityLookup::WrongDomain { expected: d.model().id, actual: locator.spec_domain() })
            } else {
                r == lookup_outcome(d.model(), world.spec_id(), world.live(), locator.spec_entity())
            },
        },
{
    let domain = match domain {
        Some(d) => d,
        None => return EntityLookup::DomainUnavailable,
    };
    if domain.validate_world_binding(world).is_err() {
        return EntityLookup::WrongWorldBinding;
    }
    if locator.domain_id() != domain.id() {
        return EntityLookup::WrongDomain { expected: domain.id(), actual: locator.domain_id() };
    }
    domain.lookup(world, locator.entity())
}

/// Spawns an entity marked by `world`'s identity domain and gives its token.
pub fn spawn_identity_entity(world: &mut IdentityWorld, domain: Option<&WorldIdentityDomain>) -> (r: Result<WorldEntityToken, IdentityDomainError>)
    requires
        old(world).spec_next_entity() < u64::MAX,
    ensures
        match domain {
            None => r == Err::<WorldEntityToken, IdentityDomainError>(IdentityDomainError::WorldDomainUnavailable) && *final(world) == *old(world),
            Some(d) => if old(world).spec_id() != d.model().world_id {
                r == Err::<WorldEntityToken, IdentityDomainError>(IdentityDomainError::WorldBindingMismatch) && *final(world) == *old(world)
            } else {
                let e = old(world).spec_next_entity();
                &&& (r matches Ok(t) && t.spec_domain() == d.model().id && t.spec_entity() == e)
                &&& !old(world).live().contains_key(e)
                &&& final(world).live() == old(world).live().insert(e, Some(d.model().id.value()))
                &&& final(world).spec_id() == old(world).spec_id()
            },
        },
{
    let domain = match domain {
        Some(d) => d,
        None => return Err(IdentityDomainError::WorldDomainUnavailable),
    };
    match domain.validate_world_binding(world) {
        Err(e) => return Err(e),
        Ok(()) => {},
    }
    let id = domain.id();
    let entity = world.spawn(Some(id.get()));
    Ok(WorldEntityToken::new(id, entity))
}

impl SpawnedSceneInstance {
    /// What `entity` of this instance resolves to in `world`, whose identity domain is
    /// `domain` where it has one.
    pub fn resolve(&self, world: &IdentityWorld, domain: Option<&WorldIdentityDomain>, entity: &SceneEntityId) -> (r: EntityLookup)
        ensures
            match domain {
                None => r == EntityLookup::DomainUnavailable,
                Some(d) => if world.spec_id() != d.model().world_id {
                    r == EntityLookup::WrongWorldBinding
                } else if self.spec_domain() != d.model().id {
                    r == (EntityLookup::WrongDomain { expected: d.model().id, actual: self.spec_domain() })
                } else if !crate::identity::records::has_id(self.ids(), entity.view()) {
                    r == EntityLookup::Missing
                } else {
                    r == lookup_outcome(d.model(), world.spec_id(), world.live(),
                        RuntimeEntityReference::Scene { instance: self.spec_instance(), entity: *entity })
                },
            },
    {
        let domain = match domain {
            Some(d) => d,
            None => return EntityLookup::DomainUnavailable,
        };
        if domain.validate_world_binding(world).is_err() {
            return EntityLookup::WrongWorldBinding;
        }
        if self.domain_id() != domain.id() {
            return EntityLookup::WrongDomain { expected: domain.id(), actual: self.domain_id() };
        }
        match self.runtime_reference(entity) {
            None => EntityLookup::Missing,
            Some(reference) => domain.lookup(world, &reference),
        }
    }
}

impl WorldIdentityDomain {
    /// The members of `instance`, as the domain holds them.
    fn members(&self, instance: SceneInstanceId) -> (r: Vec<SceneEntityId>)
        ensures
            r@ == members(self.model(), instance.value()),
            ids_increasing(r@),
    {
        let refs = self.scene_entities.refs();
        let mut out: Vec<SceneEntityId> = Vec::new();
        let mut k: usize = 0;
        proof {
            assert(refs@.take(0) =~= Seq::<RuntimeEntityReference>::empty());
        }
        while k < refs.len()
            invariant
                k <= refs@.len(),
                out@ == members_of(refs@.take(k as int), instance.value()),
            decreases refs@.len() - k,
        {
            proof {
                assert(refs@.take(k + 1).drop_last() =~= refs@.take(k as int));
                assert(refs@.take(k + 1).last() == refs@[k as int]);
            }
            match &refs[k] {
                RuntimeEntityReference::Scene { instance: i, entity } => {
                    if i.get() == instance.get() {
                        out.push(entity.duplicate());
                    }
                },
                RuntimeEntityReference::Persistent { .. } => {},
            }
            k = k + 1;
        }
        proof {
            assert(refs@.take(k as int) =~= refs@);
            lemma_members_of(refs@, instance.value());
        }
        out
    }

    /// A snapshot of the identities of the members of `instance`, which must match the
    /// domain's own record of it.
    pub fn scene_identity_snapshot(&self, world: &IdentityWorld, instance: &SpawnedSceneInstance) -> (r: Result<SceneIdentitySnapshot, IdentityDomainError>)
        ensures
            ({
                let m = self.model();
                let inst = instance.spec_instance();
                let ms = members(m, inst.value());
                if world.spec_id() != m.world_id {
                    r == Err::<SceneIdentitySnapshot, IdentityDomainError>(IdentityDomainError::WorldBindingMismatch)
                } else if instance.spec_domain() != m.id {
                    r == Err::<SceneIdentitySnapshot, IdentityDomainError>(IdentityDomainError::WrongDomain { expected: m.id, actual: instance.spec_domain() })
                } else if !m.active_instances.contains(inst.value()) {
                    r == Err::<SceneIdentitySnapshot, IdentityDomainError>(IdentityDomainError::SceneInstanceNotActive { instance: inst })
                } else if !same_ids(ms, instance.ids()) {
                    r == Err::<SceneIdentitySnapshot, IdentityDomainError>(IdentityDomainError::SceneInstanceMembershipMismatch { instance: inst })
                } else {
                    match snapshot_member_error(m, world.live(), inst, ms, 0) {
                        Some(e) => r == Err::<SceneIdentitySnapshot, IdentityDomainError>(e),
                        None => r matches Ok(snap) && snap.spec_domain() == m.id && snap.spec_instance() == inst
                            && snap.entity_seq() == snapshot_entries_of(m, inst, ms),
                    }
                }
            }),
    {
        match self.validate_world_binding(world) {
            Err(e) => return Err(e),
            Ok(()) => {},
        }
        if instance.domain_id() != self.id {
            return Err(IdentityDomainError::WrongDomain { expected: self.id, actual: instance.domain_id() });
        }
        let inst = instance.instance_id();
        if !self.active_scene_instances.contains(&inst.get()) {
            return Err(IdentityDomainError::SceneInstanceNotActive { instance: inst });
        }
        let ms = self.members(inst);
        let expected = instance.entity_ids();
        if ms.len() != expected.len() {
            return Err(IdentityDomainError::SceneInstanceMembershipMismatch { instance: inst });
        }
        let mut k: usize = 0;
        while k < ms.len()
            invariant
                k <= ms@.len(),
                ms@.len() == expected@.len(),
                ms@ == members(self.model(), inst.value()),
                expected@ == instance.ids(),
                inst == instance.spec_instance(),
                world.spec_id() == self.model().world_id,
                instance.spec_domain() == self.model().id,
                self.model().active_instances.contains(inst.value()),
                forall|j: int| 0 <= j < k ==> (#[trigger] ms@[j]).view() == expected@[j].view(),
            decreases ms@.len() - k,
        {
            match compare_text(ms[k].as_str(), expected[k].as_str()) {
                TextOrder::Equal => {},
                _ => return Err(IdentityDomainError::SceneInstanceMembershipMismatch { instance: inst }),
            }
            k = k + 1;
        }
        let ghost m = self.model();
        let mut entries: Vec<(SceneEntityId, SceneIdentityReferences)> = Vec::new();
        let mut k: usize = 0;
        while k < ms.len()
            invariant
                k <= ms@.len(),
                m == self.model(),
                ms@ == members(m, inst.value()),
                inst == instance.spec_instance(),
                world.spec_id() == m.world_id,
                instance.spec_domain() == m.id,
                m.active_instances.contains(inst.value()),
                same_ids(ms@, instance.ids()),
                snapshot_member_error(m, world.live(), inst, ms@, 0) == snapshot_member_error(m, world.live(), inst, ms@, k as int),
                entries@ == snapshot_entries_of(m, inst, ms@.take(k as int)),
            decreases ms@.len() - k,
        {
            let scene = RuntimeEntityReference::scene(inst, ms[k].duplicate());
            let entity = match self.scene_entities.get(&scene) {
                Some(e) => e,
                None => return Err(IdentityDomainError::SceneInstanceMembershipMismatch { instance: inst }),
            };
            if !self.is_live_owned_entity(world, entity) {
                return Err(IdentityDomainError::StaleRegistration);
            }
            let persistent = match self.identities_by_entity.get(&entity) {
                Some(identity) => match &identity.persistent {
                    Some(p) => Some(p.duplicate()),
                    None => None,
                },
                None => return Err(IdentityDomainError::SceneInstanceMembershipMismatch { instance: inst }),
            };
            entries.push((ms[k].duplicate(), SceneIdentityReferences { scene, persistent }));
            proof {
                assert(ms@.take(k + 1) =~= ms@.take(k as int).push(ms@[k as int]));
                assert(entries@ =~= snapshot_entries_of(m, inst, ms@.take(k + 1)));
            }
            k = k + 1;
        }
        proof {
            assert(ms@.take(k as int) =~= ms@);
            assert(ids_sorted(entries@)) by {
                assert forall|a: int, b: int| 0 <= a < b < entries@.len() implies crate::text::text_lt((#[trigger] entries@[a]).0.view(), (#[trigger] entries@[b]).0.view()) by {
                    assert(entries@[a].0 == ms@[a] && entries@[b].0 == ms@[b]);
                }
            }
        }
        match SceneIdentitySnapshot::new(self.id, inst, entries) {
            Some(snapshot) => Ok(snapshot),
            None => unreached(),
        }
    }
}

/// Each entity of `entities` once, increasing.
fn sort_entities(entities: Vec<u64>) -> (r: Vec<u64>)
    ensures
        sorted_distinct(entities@, r@),
{
    let mut out: Vec<u64> = Vec::new();
    let mut i: usize = 0;
    while i < entities.len()
        invariant
            i <= entities@.len(),
            increasing(out@),
            forall|x: u64| #[trigger] out@.contains(x) <==> entities@.take(i as int).contains(x),
        decreases entities@.len() - i,
    {
        let e = entities[i];
        let mut p: usize = 0;
        while p < out.len() && out[p] < e
            invariant
                p <= out@.len(),
                forall|k: int| 0 <= k < p ==> out@[k] < e,
            decreases out@.len() - p,
        {
            p = p + 1;
        }
        proof {
            assert(entities@.take(i + 1) =~= entities@.take(i as int).push(e));
        }
        if p < out.len() && out[p] == e {
            proof {
                let pre = entities@.take(i as int);
                let next = entities@.take(i + 1);
                assert forall|x: u64| #[trigger] out@.contains(x) <==> next.contains(x) by {
                    if x == e {
                        assert(out@[p as int] == e);
                        assert(next[i as int] == e);
                    } else {
                        if next.contains(x) {
                            let j = choose|j: int| 0 <= j < next.len() && next[j] == x;
                            assert(pre[j] == x);
                        }
                        if pre.contains(x) {
                            let j = choose|j: int| 0 <= j < pre.len() && pre[j] == x;
                            assert(next[j] == x);
                        }
                    }
                }
            }
        } else {
            let ghost before = out@;
            out.insert(p, e);
            proof {
                assert forall|a: int, b: int| 0 <= a < b < out@.len() implies out@[a] < out@[b] by {
                    if b < p {
                        assert(out@[a] == before[a] && out@[b] == before[b]);
                    } else if b == p {
                        assert(out@[a] == before[a]);
                    } else if a < p {
                        assert(out@[a] == before[a] && out@[b] == before[b - 1]);
                    } else if a == p {
                        assert(out@[b] == before[b - 1]);
                        assert(before[p as int] >= e);
                    } else {
                        assert(out@[a] == before[a - 1] && out@[b] == before[b - 1]);
                    }
                }
                let pre = entities@.take(i as int);
                let next = entities@.take(i + 1);
                assert forall|x: u64| #[trigger] out@.contains(x) <==> next.contains(x) by {
                    if next.contains(x) && x != e {
                        let j = choose|j: int| 0 <= j < next.len() && next[j] == x;
                        assert(pre[j] == x);
                    }
                    if pre.contains(x) {
                        let j = choose|j: int| 0 <= j < pre.len() && pre[j] == x;
                        assert(next[j] == x);
                    }
                    if x == e {
                        assert(next[i as int] == e);
                    }
                    if out@.contains(x) {
                        let k = choose|k: int| 0 <= k < out@.len() && out@[k] == x;
                        if k < p {
                            assert(before[k] == x);
                        } else if k > p {
                            assert(before[k - 1] == x);
                        }
                    }
                    if before.contains(x) {
                        let k = choose|k: int| 0 <= k < before.len() && before[k] == x;
                        if k < p {
                            assert(out@[k] == x);
                        } else {
                            assert(out@[k + 1] == x);
                        }
                    }
                    if x == e {
                        assert(out@[p as int] == e);
                    }
                }
            }
        }
        i = i + 1;
    }
    proof {
        assert(entities@.take(i as int) =~= entities@);
    }
    out
}

impl WorldIdentityDomain {
    /// Appends `tombstones` to the recent ones and drops the oldest beyond the limit.
    fn record_tombstones(&mut self, tombstones: Vec<(IdentityTombstoneSubject, IdentityTombstone)>)
        requires
            old(self).wf(),
            tombstones_inactive(tombstones@, old(self).model().claimed, old(self).model().scene, old(self).model().persistent),
        ensures
            final(self).wf(),
            final(self).model() == (IdentityDomainModel {
                tombstones: kept(old(self).model().tombstones + tombstones@, old(self).model().settings.tombstone_limit() as int),
                ..old(self).model()
            }),
    {
        let ghost all = self.tombstones@ + tombstones@;
        let ghost m0 = self.model();
        for t in it: tombstones.into_iter()
            invariant
                self.tombstones@ == m0.tombstones + it.seq().take(it.index() as int),
                it.seq() == tombstones@,
                self.model() == (IdentityDomainModel { tombstones: self.tombstones@, ..m0 }),
                self.wf(),
                tombstones_inactive(tombstones@, m0.claimed, m0.scene, m0.persistent),
        {
            let ghost before = self.tombstones@;
            self.tombstones.push(t);
            proof {
                assert(it.seq().take(it.index() + 1) =~= it.seq().take(it.index() as int).push(t));
                assert(t == tombstones@[it.index() as int]);
                assert forall|i: int| 0 <= i < self.tombstones@.len() implies ((#[trigger] self.tombstones@[i]).0 matches IdentityTombstoneSubject::Entity(r)
                    ==> m0.claimed.contains(ref_key(r)) && !m0.scene.contains_key(ref_key(r)) && !m0.persistent.contains_key(ref_key(r))) by {
                    if i < before.len() {
                        assert(self.tombstones@[i] == before[i]);
                    }
                }
            }
        }
        proof {
            assert(tombstones@.take(tombstones@.len() as int) =~= tombstones@);
        }
        let maximum = self.settings.recent_tombstones().get();
        let ghost d0: int = 0;
        proof {
            assert(all.skip(0) =~= all);
        }
        let ghost mut d: int = 0;
        while self.tombstones.len() > maximum
            invariant
                self.tombstones@ == all.skip(d),
                0 <= d <= all.len(),
                d <= all.len() - maximum || d == 0,
                maximum == m0.settings.tombstone_limit(),
                self.model() == (IdentityDomainModel { tombstones: self.tombstones@, ..m0 }),
                self.wf(),
            decreases self.tombstones@.len(),
        {
            let ghost before = self.tombstones@;
            self.tombstones.remove(0);
            proof {
                assert(all.skip(d).remove(0) =~= all.skip(d + 1));
                assert forall|i: int| 0 <= i < self.tombstones@.len() implies ((#[trigger] self.tombstones@[i]).0 matches IdentityTombstoneSubject::Entity(r)
                    ==> m0.claimed.contains(ref_key(r)) && !m0.scene.contains_key(ref_key(r)) && !m0.persistent.contains_key(ref_key(r))) by {
                    assert(self.tombstones@[i] == before[i + 1]);
                }
                d = d + 1;
            }
        }
        proof {
            if all.len() > maximum {
                assert(d == all.len() - maximum);
            } else {
                assert(d == 0);
            }
        }
    }

    /// The identity axes of each of `es`, or `None` when one is not registered.
    fn identities_of(&self, es: &Vec<u64>) -> (r: Option<Vec<EntityIdentityAxes>>)
        ensures
            match r {
                Some(v) => v@.len() == es@.len()
                    && (forall|j: int| 0 <= j < es@.len() ==> #[trigger] self.model().axes.contains_key(es@[j]))
                    && (forall|j: int| 0 <= j < es@.len() ==> (#[trigger] v@[j]) == self.model().axes[es@[j]]),
                None => exists|j: int| 0 <= j < es@.len() && !self.model().axes.contains_key(#[trigger] es@[j]),
            },
    {
        let mut identities: Vec<EntityIdentityAxes> = Vec::new();
        let mut k: usize = 0;
        while k < es.len()
            invariant
                k <= es@.len(),
                identities@.len() == k,
                forall|j: int| 0 <= j < k ==> #[trigger] self.model().axes.contains_key(es@[j]),
                forall|j: int| 0 <= j < k ==> (#[trigger] identities@[j]) == self.model().axes[es@[j]],
            decreases es@.len() - k,
        {
            match self.identities_by_entity.get(&es[k]) {
                Some(identity) => identities.push(identity.duplicate()),
                None => {
                    proof {
                        assert(!self.model().axes.contains_key(es@[k as int]));
                    }
                    return None;
                },
            }
            k = k + 1;
        }
        Some(identities)
    }

    /// Takes entities `es` off every axis and out of the active maps.
    fn unregister_entities(&mut self, es: &Vec<u64>, identities: &Vec<EntityIdentityAxes>)
        requires
            old(self).wf(),
            increasing(es@),
            identities@.len() == es@.len(),
            forall|j: int| 0 <= j < es@.len() ==> #[trigger] old(self).model().axes.contains_key(es@[j]),
                forall|j: int| 0 <= j < es@.len() ==> (#[trigger] identities@[j]) == old(self).model().axes[es@[j]],
        ensures
            final(self).wf(),
            ({
                let m0 = old(self).model();
                let m1 = final(self).model();
                &&& forall|k: RefKey| #[trigger] m1.scene.contains_key(k) <==> m0.scene.contains_key(k) && !scene_keys_of(m0.axes, es@).contains(k)
                &&& forall|k: RefKey| #[trigger] m1.scene.contains_key(k) ==> m1.scene[k] == m0.scene[k]
                &&& forall|k: RefKey| #[trigger] m1.persistent.contains_key(k) <==> m0.persistent.contains_key(k) && !persistent_keys_of(m0.axes, es@).contains(k)
                &&& forall|k: RefKey| #[trigger] m1.persistent.contains_key(k) ==> m1.persistent[k] == m0.persistent[k]
                &&& forall|e: u64| #[trigger] m1.axes.contains_key(e) <==> m0.axes.contains_key(e) && !es@.contains(e)
                &&& forall|e: u64| #[trigger] m1.axes.contains_key(e) ==> m1.axes[e] == m0.axes[e]
                &&& m1 == (IdentityDomainModel { scene: m1.scene, scene_refs: m1.scene_refs, persistent: m1.persistent,
                    persistent_refs: m1.persistent_refs, axes: m1.axes, ..m0 })
            }),
    {
        let ghost m0 = self.model();
        let mut k: usize = 0;
        proof {
            assert(es@.take(0) =~= Seq::<u64>::empty());
            assert(scene_keys_of(m0.axes, es@.take(0)) =~= Set::empty());
            assert(persistent_keys_of(m0.axes, es@.take(0)) =~= Set::empty());
            assert(self.model().scene =~= m0.scene);
        }
        while k < es.len()
            invariant
                k <= es@.len(),
                identities@.len() == es@.len(),
                increasing(es@),
                forall|j: int| 0 <= j < es@.len() ==> #[trigger] m0.axes.contains_key(es@[j]),
                forall|j: int| 0 <= j < es@.len() ==> (#[trigger] identities@[j]) == m0.axes[es@[j]],
                self.wf(),
                forall|key: RefKey| #[trigger] self.model().scene.contains_key(key) <==> m0.scene.contains_key(key) && !scene_keys_of(m0.axes, es@.take(k as int)).contains(key),
                forall|key: RefKey| #[trigger] self.model().scene.contains_key(key) ==> self.model().scene[key] == m0.scene[key],
                forall|key: RefKey| #[trigger] self.model().persistent.contains_key(key) <==> m0.persistent.contains_key(key) && !persistent_keys_of(m0.axes, es@.take(k as int)).contains(key),
                forall|key: RefKey| #[trigger] self.model().persistent.contains_key(key) ==> self.model().persistent[key] == m0.persistent[key],
                forall|e: u64| #[trigger] self.model().axes.contains_key(e) <==> m0.axes.contains_key(e) && !es@.take(k as int).contains(e),
                forall|e: u64| #[trigger] self.model().axes.contains_key(e) ==> self.model().axes[e] == m0.axes[e],
                self.model() == (IdentityDomainModel { scene: self.model().scene, scene_refs: self.model().scene_refs, persistent: self.model().persistent,
                    persistent_refs: self.model().persistent_refs, axes: self.model().axes, ..m0 }),
            decreases es@.len() - k,
        {
            let ghost pre = es@.take(k as int);
            let ghost next = es@.take(k + 1);
            let ghost before = self.model();
            let ghost e = es@[k as int];
            proof {
                assert forall|j: int| 0 <= j < next.len() implies #[trigger] next[j] == es@[j] by {}
                assert forall|j: int| 0 <= j < pre.len() implies #[trigger] pre[j] == es@[j] by {}
                assert(identities@[k as int] == m0.axes[e]);
            }
            match &identities[k].scene {
                Some(r) => self.scene_entities.remove(r),
                None => {},
            }
            match &identities[k].persistent {
                Some(r) => self.persistent_entities.remove(r),
                None => {},
            }
            self.identities_by_entity.remove(&es[k]);
            proof {
                assert(before.axes.contains_key(e)) by {
                    if es@.take(k as int).contains(e) {
                        let i = choose|i: int| 0 <= i < k && es@.take(k as int)[i] == e;
                        assert(es@[i] == e);
                        assert(es@[i] < es@[k as int]);
                    }
                }
                assert(before.axes[e] == m0.axes[e]);
                let now = self.model();
                assert(now.axes =~= before.axes.remove(e));
                lemma_axes_remove_injective(before.axes, e);
                assert forall|x: u64| #[trigger] now.axes.contains_key(x) implies (now.axes[x].scene matches Some(r) ==> now.scene.contains_key(ref_key(r)))
                    && (now.axes[x].persistent matches Some(r) ==> now.persistent.contains_key(ref_key(r))) by {
                    assert(before.axes.contains_key(x) && x != e);
                    if let Some(r) = now.axes[x].scene {
                        assert(axis_key(before.axes, x, ref_key(r)));
                        if scene_axis(m0.axes, e) matches Some(q) && ref_key(q) == ref_key(r) {
                            assert(axis_key(before.axes, e, ref_key(r)));
                        }
                    }
                    if let Some(r) = now.axes[x].persistent {
                        assert(axis_key(before.axes, x, ref_key(r)));
                        if persistent_axis(m0.axes, e) matches Some(q) && ref_key(q) == ref_key(r) {
                            assert(axis_key(before.axes, e, ref_key(r)));
                        }
                    }
                }
                assert forall|i: int| 0 <= i < now.tombstones.len() implies ((#[trigger] now.tombstones[i]).0 matches IdentityTombstoneSubject::Entity(r)
                    ==> now.claimed.contains(ref_key(r)) && !now.scene.contains_key(ref_key(r)) && !now.persistent.contains_key(ref_key(r))) by {
                    assert(now.tombstones[i] == before.tombstones[i]);
                }
                assert(self.model().scene == match scene_axis(m0.axes, e) {
                    Some(r) => before.scene.remove(ref_key(r)),
                    None => before.scene,
                });
                assert(self.model().persistent == match persistent_axis(m0.axes, e) {
                    Some(r) => before.persistent.remove(ref_key(r)),
                    None => before.persistent,
                });
                assert forall|key: RefKey| scene_keys_of(m0.axes, next).contains(key) <==> scene_keys_of(m0.axes, pre).contains(key)
                    || (scene_axis(m0.axes, e) matches Some(r) && ref_key(r) == key) by {
                    if scene_keys_of(m0.axes, next).contains(key) {
                        let i = choose|i: int| 0 <= i < next.len() && (scene_axis(m0.axes, #[trigger] next[i]) matches Some(r) && ref_key(r) == key);
                        if i < k {
                            assert(pre[i] == next[i]);
                        }
                    }
                    if scene_keys_of(m0.axes, pre).contains(key) {
                        let i = choose|i: int| 0 <= i < pre.len() && (scene_axis(m0.axes, #[trigger] pre[i]) matches Some(r) && ref_key(r) == key);
                        assert(next[i] == pre[i]);
                    }
                    if scene_axis(m0.axes, e) matches Some(r) && ref_key(r) == key {
                        assert(next[k as int] == e);
                    }
                }
                assert forall|key: RefKey| persistent_keys_of(m0.axes, next).contains(key) <==> persistent_keys_of(m0.axes, pre).contains(key)
                    || (persistent_axis(m0.axes, e) matches Some(r) && ref_key(r) == key) by {
                    if persistent_keys_of(m0.axes, next).contains(key) {
                        let i = choose|i: int| 0 <= i < next.len() && (persistent_axis(m0.axes, #[trigger] next[i]) matches Some(r) && ref_key(r) == key);
                        if i < k {
                            assert(pre[i] == next[i]);
                        }
                    }
                    if persistent_keys_of(m0.axes, pre).contains(key) {
                        let i = choose|i: int| 0 <= i < pre.len() && (persistent_axis(m0.axes, #[trigger] pre[i]) matches Some(r) && ref_key(r) == key);
                        assert(next[i] == pre[i]);
                    }
                    if persistent_axis(m0.axes, e) matches Some(r) && ref_key(r) == key {
                        assert(next[k as int] == e);
                    }
                }
                assert forall|x: u64| next.contains(x) <==> pre.contains(x) || x == e by {
                    if next.contains(x) {
                        let i = choose|i: int| 0 <= i < next.len() && next[i] == x;
                        if i < k {
                            assert(pre[i] == x);
                        }
                    }
                    if pre.contains(x) {
                        let i = choose|i: int| 0 <= i < pre.len() && pre[i] == x;
                        assert(next[i] == x);
                    }
                    if x == e {
                        assert(next[k as int] == e);
                    }
                }
            }
            k = k + 1;
        }
        proof {
            assert(es@.take(es@.len() as int) =~= es@);
        }
    }

    /// Retires `entities`, and `instance` when given: each entity's references stop resolving,
    /// the instance stops being active, and the retirements are recorded in subject order.
    fn retire_entities_and_instance(
        &mut self,
        instance: Option<SceneInstanceId>,
        entities: Vec<u64>,
        cause: crate::identity::records::TombstoneCause,
    ) -> (r: Result<Vec<u64>, IdentityDomainError>)
        requires
            old(self).wf(),
        ensures
            final(self).wf(),
            r is Err ==> final(self).model() == old(self).model(),
            retirement_outcome(old(self).model(), final(self).model(), instance, entities@, cause, r),
            tombstone_sequences_ordered(old(self).model()) ==> tombstone_sequences_ordered(final(self).model()),
    {
        let ghost m0 = self.model();
        let ghost input = entities@;
        let es = sort_entities(entities);
        let identities = match self.identities_of(&es) {
            Some(v) => v,
            None => {
                proof {
                    let j = choose|j: int| 0 <= j < es@.len() && !m0.axes.contains_key(#[trigger] es@[j]);
                    assert(es@.contains(es@[j]));
                    assert(input.contains(es@[j]));
                    let i = choose|i: int| 0 <= i < input.len() && input[i] == es@[j];
                    assert(!m0.axes.contains_key(input[i]));
                }
                return Err(IdentityDomainError::EntityNotRegistered);
            },
        };
        proof {
            assert forall|i: int| 0 <= i < input.len() implies m0.axes.contains_key(#[trigger] input[i]) by {
                assert(input.contains(input[i]));
                assert(es@.contains(input[i]));
                let j = choose|j: int| 0 <= j < es@.len() && es@[j] == input[i];
                assert(identities@[j] == m0.axes[es@[j]]);
            }
        }
        let rs = retired_refs(&es, &identities, Ghost(m0.axes));
        let subjects = tombstone_subjects(instance, &rs);
        let mut sequence = self.retirement_sequence;
        let tombstones = match stamp_subjects(&mut sequence, &subjects, cause) {
            Ok(t) => t,
            Err(()) => return Err(IdentityDomainError::RetirementSequenceExhausted),
        };
        match instance {
            Some(i) => {
                self.active_scene_instances.remove(&i.get());
            },
            None => {},
        }
        self.unregister_entities(&es, &identities);
        self.retirement_sequence = sequence;
        proof {
            let m1 = self.model();
            let subs = retirement_subjects(instance, rs@);
            assert forall|i: int| 0 <= i < tombstones@.len() implies ((#[trigger] tombstones@[i]).0 matches IdentityTombstoneSubject::Entity(r)
                ==> m1.claimed.contains(ref_key(r)) && !m1.scene.contains_key(ref_key(r)) && !m1.persistent.contains_key(ref_key(r))) by {
                if let IdentityTombstoneSubject::Entity(r) = tombstones@[i].0 {
                    assert(tombstones@[i].0 == subs[i]);
                    let h = subs.len() - rs@.len();
                    assert(i >= h);
                    assert(subs[i] == IdentityTombstoneSubject::Entity(rs@[i - h]));
                    assert(reference_of(m0.axes, es@, rs@[i - h]));
                    let j = choose|j: int| 0 <= j < es@.len() && (scene_axis(m0.axes, #[trigger] es@[j]) == Some(r) || persistent_axis(m0.axes, es@[j]) == Some(r));
                    assert(m0.axes.contains_key(es@[j]));
                    assert(m0.claimed.contains(ref_key(r)));
                    if scene_axis(m0.axes, es@[j]) == Some(r) {
                        assert(scene_keys_of(m0.axes, es@).contains(ref_key(r)));
                        assert(r is Scene);
                    } else {
                        assert(persistent_keys_of(m0.axes, es@).contains(ref_key(r)));
                        assert(r is Persistent);
                    }
                }
            }
        }
        self.record_tombstones(tombstones);
        proof {
            assert(retired(m0, self.model(), instance, es@, rs@, cause));
            if tombstone_sequences_ordered(m0) {
                lemma_retirement_keeps_sequences_ordered(m0, self.model(), instance, es@, rs@, cause);
            }
        }
        Ok(es)
    }
}

/// The references of entities `es`, one per key, in increasing key order.
fn retired_refs(es: &Vec<u64>, identities: &Vec<EntityIdentityAxes>, Ghost(axes): Ghost<Map<u64, EntityIdentityAxes>>) -> (rs: Vec<RuntimeEntityReference>)
    requires
        identities@.len() == es@.len(),
        forall|j: int| 0 <= j < es@.len() ==> #[trigger] axes.contains_key(es@[j]),
                forall|j: int| 0 <= j < es@.len() ==> (#[trigger] identities@[j]) == axes[es@[j]],
    ensures
        retired_references(axes, es@, rs@),
{
    let mut refs = RefMap::new();
    let mut k: usize = 0;
    proof {
        assert(es@.take(0) =~= Seq::<u64>::empty());
    }
    while k < es.len()
        invariant
            k <= es@.len(),
            identities@.len() == es@.len(),
            forall|j: int| 0 <= j < es@.len() ==> #[trigger] axes.contains_key(es@[j]),
                forall|j: int| 0 <= j < es@.len() ==> (#[trigger] identities@[j]) == axes[es@[j]],
            forall|key: RefKey| #[trigger] refs.map().contains_key(key) <==> scene_keys_of(axes, es@.take(k as int)).contains(key)
                || persistent_keys_of(axes, es@.take(k as int)).contains(key),
            forall|x: RuntimeEntityReference| #[trigger] refs.ordered_refs().contains(x) ==> reference_of(axes, es@, x),
        decreases es@.len() - k,
    {
        let ghost pre = es@.take(k as int);
        let ghost next = es@.take(k + 1);
        let ghost e = es@[k as int];
        proof {
            assert forall|j: int| 0 <= j < next.len() implies #[trigger] next[j] == es@[j] by {}
            assert forall|j: int| 0 <= j < pre.len() implies #[trigger] pre[j] == es@[j] by {}
            assert(identities@[k as int] == axes[e]);
        }
        match &identities[k].scene {
            Some(r) => {
                if refs.get(r).is_none() {
                    refs.insert(r.duplicate(), 0);
                }
            },
            None => {},
        }
        match &identities[k].persistent {
            Some(r) => {
                if refs.get(r).is_none() {
                    refs.insert(r.duplicate(), 0);
                }
            },
            None => {},
        }
        proof {
            assert forall|key: RefKey| #[trigger] refs.map().contains_key(key) <==> scene_keys_of(axes, next).contains(key)
                || persistent_keys_of(axes, next).contains(key) by {
                if scene_keys_of(axes, next).contains(key) {
                    let i = choose|i: int| 0 <= i < next.len() && (scene_axis(axes, #[trigger] next[i]) matches Some(r) && ref_key(r) == key);
                    if i < k {
                        assert(pre[i] == next[i]);
                    }
                }
                if persistent_keys_of(axes, next).contains(key) {
                    let i = choose|i: int| 0 <= i < next.len() && (persistent_axis(axes, #[trigger] next[i]) matches Some(r) && ref_key(r) == key);
                    if i < k {
                        assert(pre[i] == next[i]);
                    }
                }
                if scene_keys_of(axes, pre).contains(key) {
                    let i = choose|i: int| 0 <= i < pre.len() && (scene_axis(axes, #[trigger] pre[i]) matches Some(r) && ref_key(r) == key);
                    assert(next[i] == pre[i]);
                }
                if persistent_keys_of(axes, pre).contains(key) {
                    let i = choose|i: int| 0 <= i < pre.len() && (persistent_axis(axes, #[trigger] pre[i]) matches Some(r) && ref_key(r) == key);
                    assert(next[i] == pre[i]);
                }
                if scene_axis(axes, e) matches Some(r) && ref_key(r) == key {
                    assert(next[k as int] == e);
                }
                if persistent_axis(axes, e) matches Some(r) && ref_key(r) == key {
                    assert(next[k as int] == e);
                }
            }
            assert forall|x: RuntimeEntityReference| #[trigger] refs.ordered_refs().contains(x) implies reference_of(axes, es@, x) by {
                if scene_axis(axes, e) == Some(x) || persistent_axis(axes, e) == Some(x) {
                    assert(es@[k as int] == e);
                }
            }
        }
        k = k + 1;
    }
    let rs = refs.refs();
    proof {
        assert(es@.take(es@.len() as int) =~= es@);
        assert forall|a: int| 0 <= a < rs@.len() implies reference_of(axes, es@, #[trigger] rs@[a]) by {
            assert(refs.ordered_refs().contains(rs@[a]));
        }
        assert forall|key: RefKey| #[trigger] scene_keys_of(axes, es@).contains(key) || persistent_keys_of(axes, es@).contains(key)
            <==> exists|a: int| 0 <= a < rs@.len() && ref_key(#[trigger] rs@[a]) == key by {
            assert(refs.map().contains_key(key) <==> scene_keys_of(axes, es@.take(es@.len() as int)).contains(key)
                || persistent_keys_of(axes, es@.take(es@.len() as int)).contains(key));
        }
    }
    rs
}

/// The retirement subjects: the scene instance, if given, then each reference.
fn tombstone_subjects(instance: Option<SceneInstanceId>, rs: &Vec<RuntimeEntityReference>) -> (r: Vec<IdentityTombstoneSubject>)
    ensures
        r@ == retirement_subjects(instance, rs@),
{
    let mut subjects: Vec<IdentityTombstoneSubject> = Vec::new();
    match instance {
        Some(i) => subjects.push(IdentityTombstoneSubject::SceneInstance(i)),
        None => {},
    }
    let ghost head = subjects@;
    proof {
        assert(head =~= match instance {
            Some(i) => seq![IdentityTombstoneSubject::SceneInstance(i)],
            None => Seq::<IdentityTombstoneSubject>::empty(),
        });
    }
    let mut k: usize = 0;
    while k < rs.len()
        invariant
            k <= rs@.len(),
            subjects@ == head + rs@.take(k as int).map_values(|r: RuntimeEntityReference| IdentityTombstoneSubject::Entity(r)),
        decreases rs@.len() - k,
    {
        subjects.push(IdentityTombstoneSubject::Entity(rs[k].duplicate()));
        proof {
            assert(rs@.take(k + 1).map_values(|r: RuntimeEntityReference| IdentityTombstoneSubject::Entity(r))
                =~= rs@.take(k as int).map_values(|r: RuntimeEntityReference| IdentityTombstoneSubject::Entity(r)).push(IdentityTombstoneSubject::Entity(rs@[k as int])));
        }
        k = k + 1;
    }
    proof {
        assert(rs@.take(rs@.len() as int) =~= rs@);
        assert(subjects@ =~= retirement_subjects(instance, rs@));
    }
    subjects
}

/// Stamps each subject with the next retirement number of `sequence`, refusing, with
/// `sequence` untouched in effect, when the numbers run out.
fn stamp_subjects(
    sequence: &mut MonotonicNonZeroU64Allocator,
    subjects: &Vec<IdentityTombstoneSubject>,
    cause: crate::identity::records::TombstoneCause,
) -> (r: Result<Vec<(IdentityTombstoneSubject, IdentityTombstone)>, ()>)
    requires
        old(sequence).wf(),
    ensures
        final(sequence).wf(),
        !available(old(sequence).next_value(), subjects@.len() as int) ==> r is Err,
        available(old(sequence).next_value(), subjects@.len() as int) ==> (r matches Ok(v)
            && v@ == stamped(subjects@, old(sequence).next_value()->0, cause)
            && final(sequence).next_value() == after_sequences(old(sequence).next_value(), subjects@.len() as int)),
{
    let ghost next0 = sequence.next_value();
    let ghost start = next0->0;
    let mut tombstones: Vec<(IdentityTombstoneSubject, IdentityTombstone)> = Vec::new();
    let mut k: usize = 0;
    while k < subjects.len()
        invariant
            k <= subjects@.len(),
            sequence.wf(),
            available(next0, k as int),
            sequence.next_value() == after_sequences(next0, k as int),
            tombstones@ == stamped(subjects@.take(k as int), start, cause),
            start == next0->0,
            next0 == old(sequence).next_value(),
        decreases subjects@.len() - k,
    {
        let ghost before = sequence.next_value();
        let n = match sequence.allocate() {
            Ok(n) => n,
            Err(_) => {
                proof {
                    assert(before is None);
                    if k > 0 {
                        assert(next0->0 + k - 1 == u64::MAX);
                    }
                }
                return Err(());
            },
        };
        tombstones.push((subjects[k].duplicate(), IdentityTombstone::new(n, cause)));
        proof {
            assert(stamped(subjects@.take(k + 1), start, cause) =~= stamped(subjects@.take(k as int), start, cause).push(tombstones@.last()));
        }
        k = k + 1;
    }
    proof {
        assert(subjects@.take(subjects@.len() as int) =~= subjects@);
    }
    Ok(tombstones)
}

impl WorldIdentityDomain {
    /// Retires a whole scene instance: every member entity still registered, and the
    /// instance itself. Gives the retired entities, increasing.
    pub fn retire_scene_instance(
        &mut self,
        world: &IdentityWorld,
        instance: &SpawnedSceneInstance,
        cause: crate::identity::records::TombstoneCause,
    ) -> (r: Result<Vec<u64>, IdentityDomainError>)
        requires
            old(self).wf(),
        ensures
            final(self).wf(),
            r is Err ==> final(self).model() == old(self).model(),
            tombstone_sequences_ordered(old(self).model()) ==> tombstone_sequences_ordered(final(self).model()),
            ({
                let m = old(self).model();
                let inst = instance.spec_instance();
                let ms = members(m, inst.value());
                if world.spec_id() != m.world_id {
                    r == Err::<Vec<u64>, IdentityDomainError>(IdentityDomainError::WorldBindingMismatch)
                } else if instance.spec_domain() != m.id {
                    r == Err::<Vec<u64>, IdentityDomainError>(IdentityDomainError::WrongDomain { expected: m.id, actual: instance.spec_domain() })
                } else if !m.active_instances.contains(inst.value()) {
                    r == Err::<Vec<u64>, IdentityDomainError>(IdentityDomainError::SceneInstanceNotActive { instance: inst })
                } else if exists|k: int| 0 <= k < ms.len() && !crate::identity::records::has_id(instance.ids(), (#[trigger] ms[k]).view()) {
                    r == Err::<Vec<u64>, IdentityDomainError>(IdentityDomainError::SceneInstanceMembershipMismatch { instance: inst })
                } else if exists|k: int| 0 <= k < ms.len() && !m.scene.contains_key(scene_key_of(inst, #[trigger] ms[k])) {
                    r == Err::<Vec<u64>, IdentityDomainError>(IdentityDomainError::SceneInstanceMembershipMismatch { instance: inst })
                } else {
                    retirement_outcome(m, final(self).model(), Some(inst), member_entities(m, inst, ms), cause, r)
                }
            }),
    {
        match self.validate_world_binding(world) {
            Err(e) => return Err(e),
            Ok(()) => {},
        }
        if instance.domain_id() != self.id {
            return Err(IdentityDomainError::WrongDomain { expected: self.id, actual: instance.domain_id() });
        }
        let inst = instance.instance_id();
        if !self.active_scene_instances.contains(&inst.get()) {
            return Err(IdentityDomainError::SceneInstanceNotActive { instance: inst });
        }
        let ms = self.members(inst);
        let ghost m = self.model();
        let mut k: usize = 0;
        while k < ms.len()
            invariant
                k <= ms@.len(),
                self.wf(),
                m == self.model(),
                m == old(self).model(),
                *self == *old(self),
                ms@ == members(m, inst.value()),
                inst == instance.spec_instance(),
                world.spec_id() == m.world_id,
                instance.spec_domain() == m.id,
                m.active_instances.contains(inst.value()),
                forall|j: int| 0 <= j < k ==> crate::identity::records::has_id(instance.ids(), (#[trigger] ms@[j]).view()),
            decreases ms@.len() - k,
        {
            if !instance.contains(&ms[k]) {
                return Err(IdentityDomainError::SceneInstanceMembershipMismatch { instance: inst });
            }
            k = k + 1;
        }
        let mut entities: Vec<u64> = Vec::new();
        let mut k: usize = 0;
        while k < ms.len()
            invariant
                k <= ms@.len(),
                self.wf(),
                m == self.model(),
                m == old(self).model(),
                *self == *old(self),
                ms@ == members(m, inst.value()),
                inst == instance.spec_instance(),
                world.spec_id() == m.world_id,
                instance.spec_domain() == m.id,
                m.active_instances.contains(inst.value()),
                forall|j: int| 0 <= j < ms@.len() ==> crate::identity::records::has_id(instance.ids(), (#[trigger] ms@[j]).view()),
                entities@ == member_entities(m, inst, ms@.take(k as int)),
                forall|j: int| 0 <= j < k ==> m.scene.contains_key(scene_key_of(inst, #[trigger] ms@[j])),
            decreases ms@.len() - k,
        {
            let scene = RuntimeEntityReference::scene(inst, ms[k].duplicate());
            match self.scene_entities.get(&scene) {
                Some(e) => entities.push(e),
                None => return Err(IdentityDomainError::SceneInstanceMembershipMismatch { instance: inst }),
            }
            proof {
                assert(ms@.take(k + 1) =~= ms@.take(k as int).push(ms@[k as int]));
                assert(entities@ =~= member_entities(m, inst, ms@.take(k + 1)));
            }
            k = k + 1;
        }
        proof {
            assert(ms@.take(k as int) =~= ms@);
        }
        self.retire_entities_and_instance(Some(inst), entities, cause)
    }

    /// Retires one entity on every axis it is registered on.
    pub fn retire_entity(
        &mut self,
        world: &IdentityWorld,
        token: WorldEntityToken,
        cause: crate::identity::records::TombstoneCause,
    ) -> (r: Result<(), IdentityDomainError>)
        requires
            old(self).wf(),
        ensures
            final(self).wf(),
            r is Err ==> final(self).model() == old(self).model(),
            tombstone_sequences_ordered(old(self).model()) ==> tombstone_sequences_ordered(final(self).model()),
            ({
                let m = old(self).model();
                let e = token.spec_entity();
                if world.spec_id() != m.world_id {
                    r == Err::<(), IdentityDomainError>(IdentityDomainError::WorldBindingMismatch)
                } else if token.spec_domain() != m.id {
                    r == Err::<(), IdentityDomainError>(IdentityDomainError::WrongDomain { expected: m.id, actual: token.spec_domain() })
                } else if !m.axes.contains_key(e) {
                    r == Err::<(), IdentityDomainError>(IdentityDomainError::EntityNotRegistered)
                } else {
                    exists|rs: Seq<RuntimeEntityReference>| {
                        &&& #[trigger] retired_references(m.axes, seq![e], rs)
                        &&& if !available(m.next_sequence, retirement_subjects(None, rs).len() as int) {
                            r == Err::<(), IdentityDomainError>(IdentityDomainError::RetirementSequenceExhausted)
                        } else {
                            r is Ok && retired(m, final(self).model(), None, seq![e], rs, cause)
                        }
                    }
                }
            }),
    {
        match self.validate_world_binding(world) {
            Err(e) => return Err(e),
            Ok(()) => {},
        }
        match self.validate_token_domain(token) {
            Err(e) => return Err(e),
            Ok(()) => {},
        }
        let mut entities: Vec<u64> = Vec::new();
        entities.push(token.entity());
        let ghost input = entities@;
        let ghost m = self.model();
        proof {
            assert(input =~= seq![token.spec_entity()]);
        }
        let result = self.retire_entities_and_instance(None, entities, cause);
        proof {
            if m.axes.contains_key(token.spec_entity()) {
                assert(!(exists|i: int| 0 <= i < input.len() && !m.axes.contains_key(#[trigger] input[i])));
                let (es, rs) = choose|es: Seq<u64>, rs: Seq<RuntimeEntityReference>| {
                    &&& #[trigger] sorted_distinct(input, es)
                    &&& #[trigger] retired_references(m.axes, es, rs)
                    &&& if !available(m.next_sequence, retirement_subjects(None, rs).len() as int) {
                        result == Err::<Vec<u64>, IdentityDomainError>(IdentityDomainError::RetirementSequenceExhausted)
                    } else {
                        result matches Ok(v) && v@ == es && retired(m, self.model(), None, es, rs, cause)
                    }
                };
                assert(input[0] == token.spec_entity());
                assert(input.contains(token.spec_entity()));
                assert(es.contains(token.spec_entity()));
                assert(es =~= seq![token.spec_entity()]) by {
                    let j = choose|j: int| 0 <= j < es.len() && es[j] == token.spec_entity();
                    assert forall|a: int| 0 <= a < es.len() implies es[a] == token.spec_entity() by {
                        assert(es.contains(es[a]));
                        assert(input.contains(es[a]));
                    }
                    if es.len() > 1 {
                        assert(es[0] < es[1]);
                    }
                }
            } else {
                assert(input[0] == token.spec_entity());
            }
        }
        match result {
            Ok(_) => Ok(()),
            Err(e) => Err(e),
        }
    }
}

/// Once an entity is retired, each reference it was registered under resolves as tombstoned:
/// never as missing and never to an entity.
pub proof fn lemma_retired_reference_resolves_tombstoned(
    m0: IdentityDomainModel,
    m1: IdentityDomainModel,
    instance: Option<SceneInstanceId>,
    es: Seq<u64>,
    rs: Seq<RuntimeEntityReference>,
    cause: crate::identity::records::TombstoneCause,
    live: Map<u64, Option<u64>>,
    i: int,
    r: RuntimeEntityReference,
)
    requires
        model_consistent(m0),
        retired(m0, m1, instance, es, rs, cause),
        0 <= i < es.len(),
        m0.axes.contains_key(es[i]),
        (r is Scene && m0.axes[es[i]].scene == Some(r)) || (r is Persistent && m0.axes[es[i]].persistent == Some(r)),
    ensures
        lookup_outcome(m1, m1.world_id, live, r) is Tombstoned,
{
    assert(m0.claimed.contains(ref_key(r)));
    if r is Scene {
        assert(scene_keys_of(m0.axes, es).contains(ref_key(r)));
    } else {
        assert(persistent_keys_of(m0.axes, es).contains(ref_key(r)));
    }
}

/// After a group is committed, each of its scene references resolves to its item's entity,
/// while that entity is alive and marked by the domain.
pub proof fn lemma_registered_scene_entry_resolves(
    m0: IdentityDomainModel,
    m1: IdentityDomainModel,
    instance: SceneInstanceId,
    items: Seq<(SceneEntityId, WorldEntityToken, Option<PersistentRuntimeReference>)>,
    live: Map<u64, Option<u64>>,
    i: int,
)
    requires
        group_committed(m0, m1, instance, items),
        0 <= i < items.len(),
        owned_by(live, items[i].1.spec_entity(), m1.id.value()),
    ensures
        lookup_outcome(m1, m1.world_id, live, RuntimeEntityReference::Scene { instance, entity: items[i].0 })
            == EntityLookup::Resolved(items[i].1.spec_entity()),
{
    assert(m1.scene.contains_key(scene_key_of(instance, items[i].0)));
}

/// After a group is committed, each persistent reference of it resolves to its item's entity,
/// while that entity is alive and marked by the domain.
pub proof fn lemma_registered_group_persistent_resolves(
    m0: IdentityDomainModel,
    m1: IdentityDomainModel,
    instance: SceneInstanceId,
    items: Seq<(SceneEntityId, WorldEntityToken, Option<PersistentRuntimeReference>)>,
    live: Map<u64, Option<u64>>,
    i: int,
)
    requires
        group_committed(m0, m1, instance, items),
        0 <= i < items.len(),
        items[i].2 is Some,
        owned_by(live, items[i].1.spec_entity(), m1.id.value()),
    ensures
        lookup_outcome(m1, m1.world_id, live, RuntimeEntityReference::Persistent { entity: items[i].2->0 })
            == EntityLookup::Resolved(items[i].1.spec_entity()),
{
    assert(m1.persistent.contains_key(persistent_key_of(items[i].2->0)));
}

/// A reference that was ever claimed is refused when registered again, on either axis and in
/// any registration.
pub proof fn lemma_claimed_reference_refused(
    m: IdentityDomainModel,
    world_id: u64,
    live: Map<u64, Option<u64>>,
    instance: SceneInstanceId,
    entry: (SceneEntityId, WorldEntityToken),
    p: PersistentRuntimeReference,
)
    requires
        token_error(m, world_id, live, entry.1) is None,
    ensures
        m.claimed.contains(scene_key_of(instance, entry.0)) ==> scene_entry_error(m, world_id, live, instance, entry)
            == Some(IdentityDomainError::ReferenceAlreadyClaimed { reference: RuntimeEntityReference::Scene { instance, entity: entry.0 } }),
        m.claimed.contains(persistent_key_of(p)) ==> persistent_registration_error(m, world_id, live, entry.1, p)
            == Some(IdentityDomainError::ReferenceAlreadyClaimed { reference: RuntimeEntityReference::Persistent { entity: p } }),
{
}

/// Claims are never given back: registering only adds claims and retiring keeps them all.
pub proof fn lemma_claims_only_grow(
    m0: IdentityDomainModel,
    m1: IdentityDomainModel,
    m2: IdentityDomainModel,
    instance: SceneInstanceId,
    items: Seq<(SceneEntityId, WorldEntityToken, Option<PersistentRuntimeReference>)>,
    retired_instance: Option<SceneInstanceId>,
    es: Seq<u64>,
    rs: Seq<RuntimeEntityReference>,
    cause: crate::identity::records::TombstoneCause,
)
    requires
        group_committed(m0, m1, instance, items),
        retired(m1, m2, retired_instance, es, rs, cause),
    ensures
        m0.claimed.subset_of(m1.claimed),
        m0.claimed_instances.subset_of(m1.claimed_instances),
        m1.claimed_instances.contains(instance.value()),
        m2.claimed == m1.claimed,
        m2.claimed_instances == m1.claimed_instances,
{
}

/// A token minted by another domain never names an entity of this one, even with equal
/// entity bits.
pub proof fn lemma_foreign_token_refused(m: IdentityDomainModel, live: Map<u64, Option<u64>>, token: WorldEntityToken)
    requires
        token.spec_domain() != m.id,
    ensures
        token_error(m, m.world_id, live, token) == Some(IdentityDomainError::WrongDomain { expected: m.id, actual: token.spec_domain() }),
{
}

/// The first tombstone from `start` on of key `k` is the one at `p` when none before it names `k`.
proof fn lemma_tombstone_from_first(ts: Seq<(IdentityTombstoneSubject, IdentityTombstone)>, k: RefKey, start: int, p: int)
    requires
        0 <= start <= p < ts.len(),
        names_reference(ts[p].0, k),
        forall|i: int| start <= i < p ==> !names_reference(#[trigger] ts[i].0, k),
    ensures
        tombstone_from(ts, k, start) == Some(ts[p].1),
    decreases p - start,
{
    if start < p {
        lemma_tombstone_from_first(ts, k, start + 1, p);
    }
}

/// No tombstone of key `k` is found from `start` on when none there names it.
proof fn lemma_tombstone_from_none(ts: Seq<(IdentityTombstoneSubject, IdentityTombstone)>, k: RefKey, start: int)
    requires
        0 <= start,
        forall|i: int| start <= i < ts.len() ==> !names_reference(#[trigger] ts[i].0, k),
    ensures
        tombstone_from(ts, k, start) is None,
    decreases ts.len() - start,
{
    if start < ts.len() {
        lemma_tombstone_from_none(ts, k, start + 1);
    }
}

/// Active scene references have scene keys and active persistent references persistent keys.
pub open spec fn maps_kinded(scene: Map<RefKey, u64>, persistent: Map<RefKey, u64>) -> bool {
    &&& forall|k: RefKey| #[trigger] scene.contains_key(k) ==> k.kind == 0
    &&& forall|k: RefKey| #[trigger] persistent.contains_key(k) ==> k.kind == 1
}

/// `k` is the key of a reference of entity `e`.
pub open spec fn axis_key(axes: Map<u64, EntityIdentityAxes>, e: u64, k: RefKey) -> bool {
    axes.contains_key(e) && ((axes[e].scene matches Some(r) && ref_key(r) == k) || (axes[e].persistent matches Some(r) && ref_key(r) == k))
}

/// No reference key belongs to two entities.
pub open spec fn axes_injective(axes: Map<u64, EntityIdentityAxes>) -> bool {
    forall|x: u64, y: u64, k: RefKey| #[trigger] axis_key(axes, x, k) && #[trigger] axis_key(axes, y, k) ==> x == y
}

/// Each registered entity's references are active.
pub open spec fn axes_active(axes: Map<u64, EntityIdentityAxes>, scene: Map<RefKey, u64>, persistent: Map<RefKey, u64>) -> bool {
    forall|e: u64| #[trigger] axes.contains_key(e) ==> (axes[e].scene matches Some(r) ==> scene.contains_key(ref_key(r)))
        && (axes[e].persistent matches Some(r) ==> persistent.contains_key(ref_key(r)))
}

/// Every tombstone names a claimed reference that is no longer active.
pub open spec fn tombstones_inactive(
    ts: Seq<(IdentityTombstoneSubject, IdentityTombstone)>,
    claimed: Set<RefKey>,
    scene: Map<RefKey, u64>,
    persistent: Map<RefKey, u64>,
) -> bool {
    forall|i: int| 0 <= i < ts.len() ==> ((#[trigger] ts[i]).0 matches IdentityTombstoneSubject::Entity(r)
        ==> claimed.contains(ref_key(r)) && !scene.contains_key(ref_key(r)) && !persistent.contains_key(ref_key(r)))
}

/// Giving entity `e` new axes whose keys are its old ones or unclaimed keeps reference keys
/// each on one entity.
proof fn lemma_axes_insert_injective(axes: Map<u64, EntityIdentityAxes>, claimed: Set<RefKey>, e: u64, new_axes: EntityIdentityAxes)
    requires
        axes_injective(axes),
        axes_claimed(axes, claimed),
        forall|k: RefKey| #[trigger] axis_key(axes.insert(e, new_axes), e, k) ==> axis_key(axes, e, k) || !claimed.contains(k),
    ensures
        axes_injective(axes.insert(e, new_axes)),
{
    let a1 = axes.insert(e, new_axes);
    assert forall|x: u64, y: u64, k: RefKey| #[trigger] axis_key(a1, x, k) && #[trigger] axis_key(a1, y, k) implies x == y by {
        if x != e {
            assert(axis_key(axes, x, k));
        }
        if y != e {
            assert(axis_key(axes, y, k));
        }
        if x == e && y != e {
            assert(claimed.contains(k));
            assert(axis_key(axes, e, k));
        }
        if y == e && x != e {
            assert(claimed.contains(k));
            assert(axis_key(axes, e, k));
        }
    }
}

/// Removing an entity's axes keeps reference keys each on one entity.
proof fn lemma_axes_remove_injective(axes: Map<u64, EntityIdentityAxes>, e: u64)
    requires
        axes_injective(axes),
    ensures
        axes_injective(axes.remove(e)),
{
    let a1 = axes.remove(e);
    assert forall|x: u64, y: u64, k: RefKey| #[trigger] axis_key(a1, x, k) && #[trigger] axis_key(a1, y, k) implies x == y by {
        assert(axis_key(axes, x, k) && axis_key(axes, y, k));
    }
}

/// Committing a group keeps every registered reference active and every tombstone naming a
/// claimed, inactive reference.
proof fn lemma_group_commit_keeps_activity(
    m0: IdentityDomainModel,
    m1: IdentityDomainModel,
    instance: SceneInstanceId,
    items: Seq<(SceneEntityId, WorldEntityToken, Option<PersistentRuntimeReference>)>,
)
    requires
        group_committable(m0, instance, items),
        entries_added(m0, m1, instance, items),
        m1.tombstones == m0.tombstones,
        axes_active(m0.axes, m0.scene, m0.persistent),
        tombstones_inactive(m0.tombstones, m0.claimed, m0.scene, m0.persistent),
        axes_injective(m0.axes),
        axes_claimed(m0.axes, m0.claimed),
    ensures
        axes_active(m1.axes, m1.scene, m1.persistent),
        tombstones_inactive(m1.tombstones, m1.claimed, m1.scene, m1.persistent),
        axes_injective(m1.axes),
{
    assert forall|x: u64, y: u64, k: RefKey| #[trigger] axis_key(m1.axes, x, k) && #[trigger] axis_key(m1.axes, y, k) implies x == y by {
        let xi = exists|i: int| 0 <= i < items.len() && (#[trigger] items[i]).1.spec_entity() == x;
        let yi = exists|i: int| 0 <= i < items.len() && (#[trigger] items[i]).1.spec_entity() == y;
        // A key of an item's entity is new and unclaimed, or that entity's old key.
        assert forall|z: u64| #![trigger axis_key(m1.axes, z, k)] axis_key(m1.axes, z, k) && (exists|i: int| 0 <= i < items.len() && (#[trigger] items[i]).1.spec_entity() == z)
            implies (axis_key(m0.axes, z, k) || !m0.claimed.contains(k)) by {
            let i = choose|i: int| 0 <= i < items.len() && (#[trigger] items[i]).1.spec_entity() == z;
            assert(!m0.claimed.contains(scene_key_of(instance, items[i].0)));
            if items[i].2 is Some {
                assert(!m0.claimed.contains(persistent_key_of(items[i].2->0)));
            }
        }
        if !xi {
            assert(m0.axes.contains_key(x) && m1.axes[x] == m0.axes[x]);
            assert(axis_key(m0.axes, x, k));
        }
        if !yi {
            assert(m0.axes.contains_key(y) && m1.axes[y] == m0.axes[y]);
            assert(axis_key(m0.axes, y, k));
        }
        if xi && yi && x != y {
            let i = choose|i: int| 0 <= i < items.len() && (#[trigger] items[i]).1.spec_entity() == x;
            let j = choose|j: int| 0 <= j < items.len() && (#[trigger] items[j]).1.spec_entity() == y;
            assert(i != j);
            if axis_key(m0.axes, x, k) && axis_key(m0.axes, y, k) {
            } else if axis_key(m0.axes, x, k) {
                assert(m0.claimed.contains(k));
            } else if axis_key(m0.axes, y, k) {
                assert(m0.claimed.contains(k));
            } else {
                // Both keys are new keys of two distinct items.
                if i < j {
                    crate::text::lemma_text_lt_trichotomy(items[i].0.view(), items[j].0.view());
                } else {
                    crate::text::lemma_text_lt_trichotomy(items[j].0.view(), items[i].0.view());
                }
            }
        }
        if axis_key(m0.axes, x, k) && axis_key(m0.axes, y, k) {
            assert(x == y);
        }
    }
    assert forall|x: u64| #[trigger] m1.axes.contains_key(x) implies (m1.axes[x].scene matches Some(r) ==> m1.scene.contains_key(ref_key(r)))
        && (m1.axes[x].persistent matches Some(r) ==> m1.persistent.contains_key(ref_key(r))) by {
        if exists|i: int| 0 <= i < items.len() && (#[trigger] items[i]).1.spec_entity() == x {
            let i = choose|i: int| 0 <= i < items.len() && (#[trigger] items[i]).1.spec_entity() == x;
            assert(m1.scene.contains_key(scene_key_of(instance, items[i].0)));
            if items[i].2 is Some {
                assert(m1.persistent.contains_key(persistent_key_of(items[i].2->0)));
            } else if m0.axes.contains_key(x) {
                if let Some(r) = m0.axes[x].persistent {
                    assert(m0.persistent.contains_key(ref_key(r)));
                    assert(m1.persistent.contains_key(ref_key(r)));
                }
            }
        } else {
            assert(m0.axes.contains_key(x));
            if let Some(r) = m0.axes[x].scene {
                assert(m1.scene.contains_key(ref_key(r)));
            }
            if let Some(r) = m0.axes[x].persistent {
                assert(m1.persistent.contains_key(ref_key(r)));
            }
        }
    }
    assert forall|i: int| 0 <= i < m1.tombstones.len() implies ((#[trigger] m1.tombstones[i]).0 matches IdentityTombstoneSubject::Entity(r)
        ==> m1.claimed.contains(ref_key(r)) && !m1.scene.contains_key(ref_key(r)) && !m1.persistent.contains_key(ref_key(r))) by {
        assert(m1.tombstones[i] == m0.tombstones[i]);
        if let IdentityTombstoneSubject::Entity(r) = m0.tombstones[i].0 {
            let k = ref_key(r);
            assert(m0.claimed.contains(k));
            assert(m1.claimed.contains(k));
            if exists|j: int| 0 <= j < items.len() && k == scene_key_of(instance, (#[trigger] items[j]).0) {
                let j = choose|j: int| 0 <= j < items.len() && k == scene_key_of(instance, (#[trigger] items[j]).0);
                assert(!m0.claimed.contains(scene_key_of(instance, items[j].0)));
            }
            if exists|j: int| 0 <= j < items.len() && (#[trigger] items[j]).2 is Some && k == persistent_key_of(items[j].2->0) {
                let j = choose|j: int| 0 <= j < items.len() && (#[trigger] items[j]).2 is Some && k == persistent_key_of(items[j].2->0);
                assert(!m0.claimed.contains(persistent_key_of(items[j].2->0)));
            }
        }
    }
}

/// Each registered entity's scene axis holds a scene reference and its persistent axis a
/// persistent one.
pub open spec fn axes_well_kinded(axes: Map<u64, EntityIdentityAxes>) -> bool {
    forall|e: u64| #[trigger] axes.contains_key(e) ==> (axes[e].scene matches Some(r) ==> r is Scene)
        && (axes[e].persistent matches Some(r) ==> r is Persistent)
}

/// A retired reference is reported with the cause of its retirement while its tombstone is
/// among the recent ones, and as tombstoned without detail once later tombstones evicted it;
/// never as missing or resolved. Its tombstone carries the sequence number issued to it. The
/// domain's state satisfies what this asks of `m0` (see `lemma_consistent`).
pub proof fn lemma_retired_reference_reports_cause(
    m0: IdentityDomainModel,
    m1: IdentityDomainModel,
    instance: Option<SceneInstanceId>,
    es: Seq<u64>,
    rs: Seq<RuntimeEntityReference>,
    cause: crate::identity::records::TombstoneCause,
    live: Map<u64, Option<u64>>,
    j: int,
)
    requires
        model_consistent(m0),
        axes_well_kinded(m0.axes),
        axes_active(m0.axes, m0.scene, m0.persistent),
        tombstones_inactive(m0.tombstones, m0.claimed, m0.scene, m0.persistent),
        retired(m0, m1, instance, es, rs, cause),
        retired_references(m0.axes, es, rs),
        0 <= j < rs.len(),
    ensures
        ({
            let subjects = retirement_subjects(instance, rs);
            let all = m0.tombstones + stamped(subjects, m0.next_sequence->0, cause);
            let p = m0.tombstones.len() + (subjects.len() - rs.len()) + j;
            let evicted = all.len() > m0.settings.tombstone_limit() && p < all.len() - m0.settings.tombstone_limit();
            &&& !evicted ==> (lookup_outcome(m1, m1.world_id, live, rs[j]) matches EntityLookup::Tombstoned(Some(t))
                && t.spec_cause() == cause
                && t.spec_sequence() == (m0.next_sequence->0 + (subjects.len() - rs.len()) + j) as u64)
            &&& evicted ==> lookup_outcome(m1, m1.world_id, live, rs[j]) == EntityLookup::Tombstoned(None)
        }),
{
    broadcast use IdentityTombstone::lemma_spec_new;
    let r = rs[j];
    let k = ref_key(r);
    let subjects = retirement_subjects(instance, rs);
    let h = subjects.len() - rs.len();
    let n = m0.next_sequence->0;
    let st = stamped(subjects, n, cause);
    let all = m0.tombstones + st;
    let limit = m0.settings.tombstone_limit() as int;
    let p = m0.tombstones.len() + h + j;
    let d = if all.len() > limit { all.len() - limit } else { 0 };
    assert(h == 0 || h == 1);
    assert(subjects[h + j] == IdentityTombstoneSubject::Entity(r));
    assert(all[p] == st[h + j]);
    assert(names_reference(all[p].0, k));
    // The retired reference was active, so no older tombstone names it.
    let i0 = choose|i: int| 0 <= i < es.len() && (scene_axis(m0.axes, #[trigger] es[i]) == Some(r) || persistent_axis(m0.axes, es[i]) == Some(r));
    assert(reference_of(m0.axes, es, r));
    assert(m0.axes.contains_key(es[i0]));
    assert(m0.scene.contains_key(k) || m0.persistent.contains_key(k));
    assert forall|i: int| 0 <= i < m0.tombstones.len() implies !names_reference(#[trigger] m0.tombstones[i].0, k) by {
        if let IdentityTombstoneSubject::Entity(q) = m0.tombstones[i].0 {
            assert(!m0.scene.contains_key(ref_key(q)) && !m0.persistent.contains_key(ref_key(q)));
        }
    }
    // No other entry of `all` names `k`.
    assert forall|i: int| 0 <= i < all.len() && i != p implies !names_reference(#[trigger] all[i].0, k) by {
        if i < m0.tombstones.len() {
            assert(all[i] == m0.tombstones[i]);
        } else {
            let q = i - m0.tombstones.len();
            assert(all[i] == st[q]);
            if q >= h {
                let other = rs[q - h];
                assert(subjects[q] == IdentityTombstoneSubject::Entity(other));
                crate::identity::keys::lemma_key_lt_trichotomy(ref_key(other), k);
                if q - h < j {
                    assert(key_lt(ref_key(rs[q - h]), ref_key(rs[j])));
                } else {
                    assert(key_lt(ref_key(rs[j]), ref_key(rs[q - h])));
                }
            }
        }
    }
    assert(m1.tombstones =~= all.skip(d));
    // The retired reference resolves as tombstoned.
    lemma_retired_reference_resolves_tombstoned(m0, m1, instance, es, rs, cause, live, i0, r);
    if p >= d {
        assert forall|i: int| 0 <= i < p - d implies !names_reference(#[trigger] m1.tombstones[i].0, k) by {
            assert(m1.tombstones[i] == all[i + d]);
        }
        assert(m1.tombstones[p - d] == all[p]);
        lemma_tombstone_from_first(m1.tombstones, k, 0, p - d);
        assert(st[h + j].1 == IdentityTombstone::spec_new((n + (h + j)) as u64, cause));
        assert(st[h + j].1.spec_sequence() == (n + (h + j)) as u64);
        assert((n + (h + j)) as u64 == (n + h + j) as u64);
    } else {
        assert forall|i: int| 0 <= i < m1.tombstones.len() implies !names_reference(#[trigger] m1.tombstones[i].0, k) by {
            assert(m1.tombstones[i] == all[i + d]);
        }
        lemma_tombstone_from_none(m1.tombstones, k, 0);
    }
}

/// A reference that looks up as tombstoned keeps looking up as tombstoned after a later
/// retirement: a retired identity is never resolved or missing again.
pub proof fn lemma_tombstoned_stays_after_retirement(
    m0: IdentityDomainModel,
    m1: IdentityDomainModel,
    instance: Option<SceneInstanceId>,
    es: Seq<u64>,
    rs: Seq<RuntimeEntityReference>,
    cause: crate::identity::records::TombstoneCause,
    live: Map<u64, Option<u64>>,
    r: RuntimeEntityReference,
)
    requires
        retired(m0, m1, instance, es, rs, cause),
        lookup_outcome(m0, m0.world_id, live, r) is Tombstoned,
    ensures
        lookup_outcome(m1, m1.world_id, live, r) is Tombstoned,
{
}

/// A reference that looks up as tombstoned keeps looking up as tombstoned after a later
/// group registration: only unclaimed references are registered, and a tombstoned one stays
/// claimed.
pub proof fn lemma_tombstoned_stays_after_registration(
    m0: IdentityDomainModel,
    m1: IdentityDomainModel,
    instance: SceneInstanceId,
    items: Seq<(SceneEntityId, WorldEntityToken, Option<PersistentRuntimeReference>)>,
    live: Map<u64, Option<u64>>,
    r: RuntimeEntityReference,
)
    requires
        group_committable(m0, instance, items),
        group_committed(m0, m1, instance, items),
        lookup_outcome(m0, m0.world_id, live, r) is Tombstoned,
    ensures
        lookup_outcome(m1, m1.world_id, live, r) is Tombstoned,
{
    let k = ref_key(r);
    assert(m0.claimed.contains(k));
    assert(m1.claimed.contains(k));
    if exists|i: int| 0 <= i < items.len() && k == scene_key_of(instance, (#[trigger] items[i]).0) {
        let i = choose|i: int| 0 <= i < items.len() && k == scene_key_of(instance, (#[trigger] items[i]).0);
        assert(!m0.claimed.contains(scene_key_of(instance, items[i].0)));
    }
    if exists|i: int| 0 <= i < items.len() && (#[trigger] items[i]).2 is Some && k == persistent_key_of(items[i].2->0) {
        let i = choose|i: int| 0 <= i < items.len() && (#[trigger] items[i]).2 is Some && k == persistent_key_of(items[i].2->0);
        assert(!m0.claimed.contains(persistent_key_of(items[i].2->0)));
    }
}

/// A reference that looks up as tombstoned keeps looking up as tombstoned after a persistent
/// reference is registered: only an unclaimed reference is registered.
pub proof fn lemma_tombstoned_stays_after_persistent_registration(
    m0: IdentityDomainModel,
    live: Map<u64, Option<u64>>,
    p: PersistentRuntimeReference,
    e: u64,
    r: RuntimeEntityReference,
)
    requires
        !m0.claimed.contains(ref_key(RuntimeEntityReference::Persistent { entity: p })),
        lookup_outcome(m0, m0.world_id, live, r) is Tombstoned,
    ensures
        ({
            let k = ref_key(RuntimeEntityReference::Persistent { entity: p });
            let m1 = IdentityDomainModel {
                claimed: m0.claimed.insert(k),
                persistent: m0.persistent.insert(k, e),
                axes: m0.axes.insert(e, EntityIdentityAxes { scene: scene_axis(m0.axes, e), persistent: Some(RuntimeEntityReference::Persistent { entity: p }) }),
                ..m0
            };
            lookup_outcome(m1, m1.world_id, live, r) is Tombstoned
        }),
{
}

/// Tombstones carry strictly increasing sequence numbers, each below the next one to issue.
pub open spec fn tombstone_sequences_ordered(m: IdentityDomainModel) -> bool {
    &&& forall|i: int, j: int| 0 <= i < j < m.tombstones.len() ==>
        (#[trigger] m.tombstones[i]).1.spec_sequence() < (#[trigger] m.tombstones[j]).1.spec_sequence()
    &&& forall|i: int| 0 <= i < m.tombstones.len() ==> (m.next_sequence matches Some(n) ==> (#[trigger] m.tombstones[i]).1.spec_sequence() < n)
}

/// Retirement issues tombstone sequence numbers in increasing order, each above every earlier
/// one, so none is ever reused; registering issues none.
pub proof fn lemma_retirement_keeps_sequences_ordered(
    m0: IdentityDomainModel,
    m1: IdentityDomainModel,
    instance: Option<SceneInstanceId>,
    es: Seq<u64>,
    rs: Seq<RuntimeEntityReference>,
    cause: crate::identity::records::TombstoneCause,
)
    requires
        tombstone_sequences_ordered(m0),
        retired(m0, m1, instance, es, rs, cause),
        available(m0.next_sequence, retirement_subjects(instance, rs).len() as int),
    ensures
        tombstone_sequences_ordered(m1),
{
    broadcast use IdentityTombstone::lemma_spec_new;
    let subjects = retirement_subjects(instance, rs);
    let c = subjects.len() as int;
    if c == 0 {
        assert(subjects =~= Seq::<IdentityTombstoneSubject>::empty());
    }
    let n = m0.next_sequence->0;
    let st = stamped(subjects, n, cause);
    let all = m0.tombstones + st;
    let limit = m0.settings.tombstone_limit() as int;
    let d = if all.len() > limit { all.len() - limit } else { 0 };
    assert(m1.tombstones =~= all.skip(d));
    assert forall|i: int| 0 <= i < all.len() implies
        (m1.next_sequence matches Some(x) ==> (#[trigger] all[i]).1.spec_sequence() < x)
        && (i >= m0.tombstones.len() ==> all[i].1.spec_sequence() == n + (i - m0.tombstones.len()))
        && (i < m0.tombstones.len() ==> all[i] == m0.tombstones[i])
        && (i < m0.tombstones.len() && c > 0 ==> all[i].1.spec_sequence() < n) by {
        if i >= m0.tombstones.len() {
            assert(all[i] == st[i - m0.tombstones.len()]);
        }
    }
    assert forall|i: int, j: int| 0 <= i < j < all.len() implies
        (#[trigger] all[i]).1.spec_sequence() < (#[trigger] all[j]).1.spec_sequence() by {
        if j < m0.tombstones.len() {
            assert(m0.tombstones[i].1.spec_sequence() < m0.tombstones[j].1.spec_sequence());
        }
    }
    assert forall|i: int, j: int| 0 <= i < j < m1.tombstones.len() implies
        (#[trigger] m1.tombstones[i]).1.spec_sequence() < (#[trigger] m1.tombstones[j]).1.spec_sequence() by {
        assert(m1.tombstones[i] == all[i + d] && m1.tombstones[j] == all[j + d]);
    }
    assert forall|i: int| 0 <= i < m1.tombstones.len() implies
        (m1.next_sequence matches Some(x) ==> (#[trigger] m1.tombstones[i]).1.spec_sequence() < x) by {
        assert(m1.tombstones[i] == all[i + d]);
    }
}

/// Registering a scene group issues no tombstone and keeps the retirement sequence.
pub proof fn lemma_registration_keeps_sequences_ordered(
    m0: IdentityDomainModel,
    m1: IdentityDomainModel,
    instance: SceneInstanceId,
    items: Seq<(SceneEntityId, WorldEntityToken, Option<PersistentRuntimeReference>)>,
)
    requires
        tombstone_sequences_ordered(m0),
        group_committed(m0, m1, instance, items),
    ensures
        tombstone_sequences_ordered(m1),
{
}

/// A refused retirement (an exhausted retirement sequence among the refusals) leaves the
/// domain as it was, so every reference resolves as it did before and no sequence number is
/// spent.
pub proof fn lemma_refused_retirement_keeps_lookups(
    m0: IdentityDomainModel,
    m1: IdentityDomainModel,
    world_id: u64,
    live: Map<u64, Option<u64>>,
    r: RuntimeEntityReference,
)
    requires
        m1 == m0,
    ensures
        lookup_outcome(m1, world_id, live, r) == lookup_outcome(m0, world_id, live, r),
        m1.next_sequence == m0.next_sequence,
        m1.tombstones == m0.tombstones,
{
}

impl WorldIdentityDomain {
    /// Moves the scene instance allocator to hand out `raw` next.
    pub fn set_next_scene_instance_for_test(&mut self, raw: u64) -> (r: Result<(), IdentityAllocationError>)
        requires
            old(self).wf(),
        ensures
            final(self).wf(),
            raw == 0 ==> r == Err::<(), IdentityAllocationError>(IdentityAllocationError::Zero) && final(self).model() == old(self).model(),
            raw != 0 ==> r is Ok && final(self).model() == (IdentityDomainModel { next_instance: Some(raw), ..old(self).model() }),
    {
        match MonotonicNonZeroU64Allocator::from_next_raw(raw) {
            Ok(a) => {
                self.scene_instance_allocator = a;
                Ok(())
            },
            Err(e) => Err(e),
        }
    }

    /// Moves the retirement sequence to hand out `raw` next.
    pub fn set_next_retirement_sequence_for_test(&mut self, raw: u64) -> (r: Result<(), IdentityAllocationError>)
        requires
            old(self).wf(),
        ensures
            final(self).wf(),
            raw == 0 ==> r == Err::<(), IdentityAllocationError>(IdentityAllocationError::Zero) && final(self).model() == old(self).model(),
            raw != 0 ==> r is Ok && final(self).model() == (IdentityDomainModel { next_sequence: Some(raw), ..old(self).model() }),
    {
        match MonotonicNonZeroU64Allocator::from_next_raw(raw) {
            Ok(a) => {
                self.retirement_sequence = a;
                Ok(())
            },
            Err(e) => Err(e),
        }
    }
}

} // verus!
