use nara::identity::allocator::{IdentityAllocationError, MonotonicNonZeroU64Allocator};

#[test]
fn monotonic_allocator_rejects_zero_and_exhaustion_atomically() {
    assert_eq!(MonotonicNonZeroU64Allocator::from_next_raw(0), Err(IdentityAllocationError::Zero));

    let mut allocator = MonotonicNonZeroU64Allocator::from_next_raw(u64::MAX).unwrap();
    assert_eq!(allocator.allocate().unwrap(), u64::MAX);
    let exhausted = allocator.clone();
    assert_eq!(allocator.allocate(), Err(IdentityAllocationError::Exhausted));
    assert_eq!(allocator, exhausted);
    assert_eq!(allocator.allocate(), Err(IdentityAllocationError::Exhausted));
    assert_eq!(allocator, exhausted);
}

use nara::identity::domain::{
    allocate_world_identity_domain_id_from, resolve_in_world, spawn_identity_entity, WorldIdentityDomain,
};
use nara::identity::records::{
    EntityLookup, IdentityDomainError, TombstoneCause, WorldEntityToken, WorldIdentityDomainSettings,
};
use nara::identity::remap::{EntityReferenceRemap, IdentityRemapError};
use nara::identity::types::{
    EntityReference, PersistentRuntimeId, PersistentRuntimeNamespaceId, PersistentRuntimeReference,
    RuntimeEntityReference, SceneEntityId, SceneInstanceId, WorldEntityLocator,
};
use nara::identity::world::IdentityWorld;
use nara::limit::ItemLimit;

fn scene_id(value: &str) -> SceneEntityId {
    SceneEntityId::new(value).unwrap()
}

fn persistent_ref(value: &str) -> PersistentRuntimeReference {
    PersistentRuntimeReference::new(
        PersistentRuntimeNamespaceId::new("runtime").unwrap(),
        PersistentRuntimeId::parse_str(value).unwrap(),
    )
}

fn settings(claims: usize, tombstones: usize) -> WorldIdentityDomainSettings {
    WorldIdentityDomainSettings::new(ItemLimit::new(claims).unwrap(), ItemLimit::new(tombstones).unwrap()).unwrap()
}

/// A world with its own id and an identity domain drawn from `domain_ids`.
fn world_with_domain(world_id: u64, domain_ids: &mut u64, claims: usize, tombstones: usize) -> (IdentityWorld, WorldIdentityDomain) {
    let world = IdentityWorld::new(world_id);
    let domain = WorldIdentityDomain::new(&world, settings(claims, tombstones), domain_ids).unwrap();
    (world, domain)
}

fn spawn_token(world: &mut IdentityWorld, domain: &WorldIdentityDomain) -> WorldEntityToken {
    spawn_identity_entity(world, Some(domain)).unwrap()
}

#[test]
fn world_domain_allocator_issues_the_last_id_once_then_fails_atomically() {
    let mut allocator = u64::MAX;
    assert_eq!(allocate_world_identity_domain_id_from(&mut allocator).unwrap().get(), u64::MAX);
    assert_eq!(allocator, 0);
    assert_eq!(
        allocate_world_identity_domain_id_from(&mut allocator),
        Err(IdentityDomainError::WorldDomainIdExhausted)
    );
    assert_eq!(allocator, 0);
}

#[test]
fn scene_instance_allocator_issues_the_last_id_once_then_fails_atomically() {
    let mut ids = 1;
    let (world, mut domain) = world_with_domain(1, &mut ids, 3, 1);
    domain.set_next_scene_instance_for_test(u64::MAX).unwrap();
    let last = domain.register_new_scene_instance(&world, vec![]).unwrap();
    assert_eq!(last.instance_id().get(), u64::MAX);
    let before = domain.stats();
    assert_eq!(
        domain.register_new_scene_instance(&world, vec![]),
        Err(IdentityDomainError::SceneInstanceExhausted)
    );
    assert_eq!(domain.stats(), before);
}

#[test]
fn bidirectional_registration_rejects_both_collision_directions_atomically() {
    let mut ids = 1;
    let (mut world, mut domain) = world_with_domain(1, &mut ids, 16, 4);
    let first = spawn_token(&mut world, &domain);
    let second = spawn_token(&mut world, &domain);
    let first_ref = persistent_ref("11111111-1111-4111-8111-111111111111");
    let second_ref = persistent_ref("22222222-2222-4222-8222-222222222222");

    domain.register_persistent(&world, first, first_ref.clone()).unwrap();
    let before = domain.stats();

    assert!(matches!(
        domain.register_persistent(&world, second, first_ref.clone()),
        Err(IdentityDomainError::ReferenceAlreadyClaimed { .. })
    ));
    assert_eq!(domain.stats(), before);
    assert_eq!(
        domain.lookup(&world, &RuntimeEntityReference::persistent(first_ref.clone())),
        EntityLookup::Resolved(first.entity())
    );

    assert!(matches!(
        domain.register_persistent(&world, first, second_ref.clone()),
        Err(IdentityDomainError::EntityAxisAlreadyRegistered { .. })
    ));
    assert_eq!(domain.stats(), before);
    assert_eq!(
        domain.lookup(&world, &RuntimeEntityReference::persistent(second_ref)),
        EntityLookup::Missing
    );
}

#[test]
fn scene_batch_rejects_duplicate_ids_and_entities_without_claiming_an_instance() {
    let mut ids = 1;
    let (mut world, mut domain) = world_with_domain(1, &mut ids, 16, 4);
    let first = spawn_token(&mut world, &domain);
    let second = spawn_token(&mut world, &domain);
    let before = domain.stats();

    assert!(matches!(
        domain.register_new_scene_instance(&world, vec![(scene_id("duplicate"), first), (scene_id("duplicate"), second)]),
        Err(IdentityDomainError::DuplicateSceneEntityId { .. })
    ));
    assert_eq!(domain.stats(), before);

    assert_eq!(
        domain.register_new_scene_instance(&world, vec![(scene_id("a"), first), (scene_id("b"), first)]),
        Err(IdentityDomainError::DuplicateRuntimeEntity)
    );
    assert_eq!(domain.stats(), before);
    assert_eq!(
        domain
            .register_new_scene_instance(&world, vec![(scene_id("valid"), first)])
            .unwrap()
            .instance_id()
            .get(),
        1
    );
}

#[test]
fn equal_entity_bits_in_two_worlds_never_alias_and_scene_local_requires_context() {
    let mut ids = 1;
    let (mut first_world, mut first_domain) = world_with_domain(1, &mut ids, 16, 4);
    let (mut second_world, mut second_domain) = world_with_domain(2, &mut ids, 16, 4);
    let first_entity = spawn_token(&mut first_world, &first_domain);
    let second_entity = spawn_token(&mut second_world, &second_domain);
    assert_eq!(first_entity.entity(), second_entity.entity());

    let first_instance = first_domain
        .register_new_scene_instance(&first_world, vec![(scene_id("player"), first_entity)])
        .unwrap();
    let second_instance = second_domain
        .register_new_scene_instance(&second_world, vec![(scene_id("player"), second_entity)])
        .unwrap();

    let first_locator = first_instance.locator(&scene_id("player")).unwrap();
    let second_locator = second_instance.locator(&scene_id("player")).unwrap();
    assert_ne!(first_locator, second_locator);
    assert!(matches!(
        resolve_in_world(&second_world, Some(&second_domain), &first_locator),
        EntityLookup::WrongDomain { .. }
    ));
    assert!(matches!(
        first_instance.resolve(&second_world, Some(&second_domain), &scene_id("not-in-instance")),
        EntityLookup::WrongDomain { .. }
    ));
    assert_eq!(
        resolve_in_world(&second_world, Some(&second_domain), &second_locator),
        EntityLookup::Resolved(second_entity.entity())
    );

    let durable = EntityReference::SceneLocal { entity: scene_id("player") };
    assert_eq!(
        second_domain.resolve_entity_reference(&second_world, &durable, None),
        EntityLookup::ContextRequired
    );
    assert_eq!(
        second_domain.resolve_entity_reference(&second_world, &durable, Some(second_instance.instance_id())),
        EntityLookup::Resolved(second_entity.entity())
    );
}

#[test]
fn foreign_world_token_never_aliases_equal_entity_bits_in_the_target_world() {
    let mut ids = 1;
    let (mut source_world, source_domain) = world_with_domain(1, &mut ids, 8, 2);
    let (mut target_world, mut target_domain) = world_with_domain(2, &mut ids, 8, 2);
    let source_token = spawn_token(&mut source_world, &source_domain);
    let target_token = spawn_token(&mut target_world, &target_domain);
    assert_eq!(source_token.entity(), target_token.entity());

    let before = target_domain.stats();
    assert!(matches!(
        target_domain.register_new_scene_instance(&target_world, vec![(scene_id("foreign"), source_token)]),
        Err(IdentityDomainError::WrongDomain { .. })
    ));
    assert!(matches!(
        target_domain.locators_for_token(&target_world, source_token),
        Err(IdentityDomainError::WrongDomain { .. })
    ));
    assert_eq!(target_domain.stats(), before);

    let instance = target_domain
        .register_new_scene_instance(&target_world, vec![(scene_id("local"), target_token)])
        .unwrap();
    assert_eq!(instance.instance_id().get(), 1);
}

#[test]
fn moving_a_domain_resource_cannot_rebind_its_tokens_to_another_world() {
    let mut ids = 1;
    let (mut source_world, mut source_domain) = world_with_domain(1, &mut ids, 8, 2);
    let source_token = spawn_token(&mut source_world, &source_domain);
    let mut target_world = IdentityWorld::new(2);

    assert_eq!(
        spawn_identity_entity(&mut target_world, Some(&source_domain)),
        Err(IdentityDomainError::WorldBindingMismatch)
    );
    let before = source_domain.stats();
    assert_eq!(
        source_domain.register_new_scene_instance(&target_world, vec![(scene_id("foreign"), source_token)]),
        Err(IdentityDomainError::WorldBindingMismatch)
    );
    assert_eq!(
        source_domain.register_new_scene_instance(&target_world, vec![]),
        Err(IdentityDomainError::WorldBindingMismatch)
    );
    assert_eq!(
        source_domain.resolve_entity_reference(
            &target_world,
            &EntityReference::SceneLocal { entity: scene_id("foreign") },
            None,
        ),
        EntityLookup::WrongWorldBinding
    );
    assert_eq!(source_domain.stats(), before);
}

#[test]
fn moving_a_domain_resource_cannot_resolve_an_equal_bits_unrelated_entity() {
    let mut ids = 1;
    let (mut source_world, mut source_domain) = world_with_domain(1, &mut ids, 8, 2);
    let source_token = spawn_token(&mut source_world, &source_domain);
    let instance = source_domain
        .register_new_scene_instance(&source_world, vec![(scene_id("source"), source_token)])
        .unwrap();
    let locator = instance.locator(&scene_id("source")).unwrap();

    let (mut target_world, target_domain) = world_with_domain(2, &mut ids, 8, 2);
    let unrelated = spawn_token(&mut target_world, &target_domain);
    assert_eq!(source_token.entity(), unrelated.entity());

    assert_eq!(
        resolve_in_world(&target_world, Some(&source_domain), &locator),
        EntityLookup::WrongWorldBinding
    );
}

#[test]
fn despawned_token_cannot_register_or_consume_identity_claims() {
    let mut ids = 1;
    let (mut world, mut domain) = world_with_domain(1, &mut ids, 8, 2);
    let stale = spawn_token(&mut world, &domain);
    let live = spawn_token(&mut world, &domain);
    assert!(world.despawn(stale.entity()));

    let before = domain.stats();
    assert_eq!(
        domain.register_new_scene_instance(&world, vec![(scene_id("stale"), stale)]),
        Err(IdentityDomainError::EntityTokenNotAlive)
    );
    assert_eq!(domain.stats(), before);

    let instance = domain
        .register_new_scene_instance(&world, vec![(scene_id("live"), live)])
        .unwrap();
    assert_eq!(instance.instance_id().get(), 1);
}

#[test]
fn world_resolution_detects_direct_despawn_as_a_stale_registration() {
    let mut ids = 1;
    let (mut world, mut domain) = world_with_domain(1, &mut ids, 8, 2);
    let entity = spawn_token(&mut world, &domain);
    let instance = domain
        .register_new_scene_instance(&world, vec![(scene_id("stale"), entity)])
        .unwrap();
    let locator = instance.locator(&scene_id("stale")).unwrap();
    assert!(world.despawn(entity.entity()));
    assert_eq!(
        resolve_in_world(&world, Some(&domain), &locator),
        EntityLookup::StaleRegistration
    );
}

#[test]
fn persistent_uuid_identity_is_scoped_by_namespace() {
    let mut ids = 1;
    let (mut world, mut domain) = world_with_domain(1, &mut ids, 8, 2);
    let uuid = PersistentRuntimeId::parse_str("55555555-5555-4555-8555-555555555555").unwrap();
    let first = PersistentRuntimeReference::new(PersistentRuntimeNamespaceId::new("save_a").unwrap(), uuid);
    let second = PersistentRuntimeReference::new(PersistentRuntimeNamespaceId::new("save_b").unwrap(), uuid);
    let first_entity = spawn_token(&mut world, &domain);
    let second_entity = spawn_token(&mut world, &domain);

    domain.register_persistent(&world, first_entity, first.clone()).unwrap();
    domain.register_persistent(&world, second_entity, second.clone()).unwrap();
    assert_eq!(
        domain.lookup(&world, &RuntimeEntityReference::persistent(first)),
        EntityLookup::Resolved(first_entity.entity())
    );
    assert_eq!(
        domain.lookup(&world, &RuntimeEntityReference::persistent(second)),
        EntityLookup::Resolved(second_entity.entity())
    );
}

#[test]
fn parallel_fork_remaps_every_scene_reference_as_a_group() {
    let mut ids = 1;
    let (mut source_world, mut source_domain) = world_with_domain(1, &mut ids, 32, 8);
    let source_a = spawn_token(&mut source_world, &source_domain);
    let source_b = spawn_token(&mut source_world, &source_domain);
    let source = source_domain
        .register_new_scene_instance(&source_world, vec![(scene_id("a"), source_a), (scene_id("b"), source_b)])
        .unwrap();
    let source_snapshot = source_domain.scene_identity_snapshot(&source_world, &source).unwrap();

    let (mut target_world, mut target_domain) = world_with_domain(2, &mut ids, 32, 8);
    let target_a = spawn_token(&mut target_world, &target_domain);
    let target_b = spawn_token(&mut target_world, &target_domain);
    let (target, remap) = target_domain
        .register_parallel_scene_fork(
            &target_world,
            &source_snapshot,
            vec![(scene_id("a"), target_a, None), (scene_id("b"), target_b, None)],
        )
        .unwrap();

    assert_ne!(source.domain_id(), target.domain_id());
    assert_eq!(remap.references().len(), 2);
    for id in [scene_id("a"), scene_id("b")] {
        assert_ne!(source.locator(&id), target.locator(&id));
        assert_eq!(
            remap.rewrite(&source.locator(&id).unwrap()).unwrap(),
            target.locator(&id).unwrap()
        );
    }
    assert_eq!(
        target.resolve(&target_world, Some(&target_domain), &scene_id("b")),
        EntityLookup::Resolved(target_b.entity())
    );
}

#[test]
fn same_timeline_restore_resolves_recorded_reference_to_a_fresh_entity_slot() {
    let mut ids = 1;
    let (mut source_world, mut source_domain) = world_with_domain(1, &mut ids, 16, 4);
    let source_entity = spawn_token(&mut source_world, &source_domain);
    let source = source_domain
        .register_new_scene_instance(&source_world, vec![(scene_id("player"), source_entity)])
        .unwrap();
    let recorded = source.runtime_reference(&scene_id("player")).unwrap();
    let source_snapshot = source_domain.scene_identity_snapshot(&source_world, &source).unwrap();

    let (mut restored_world, mut restored_domain) = world_with_domain(2, &mut ids, 16, 4);
    let _occupied = restored_world.spawn(None);
    let restored_entity = spawn_token(&mut restored_world, &restored_domain);
    assert_ne!(source_entity.entity(), restored_entity.entity());
    let (restored, remap) = restored_domain
        .register_restored_scene_instance(
            &restored_world,
            &source_snapshot,
            vec![(scene_id("player"), restored_entity, None)],
        )
        .unwrap();

    assert_ne!(source.domain_id(), restored.domain_id());
    assert_eq!(source.instance_id(), restored.instance_id());
    let restored_locator = remap.rewrite(&WorldEntityLocator::new(source.domain_id(), recorded)).unwrap();
    assert_eq!(
        resolve_in_world(&restored_world, Some(&restored_domain), &restored_locator),
        EntityLookup::Resolved(restored_entity.entity())
    );
}

#[test]
fn scene_snapshot_remap_covers_persistent_axes_or_fails_as_incomplete() {
    let persistent = persistent_ref("77777777-7777-4777-8777-777777777777");
    let mut ids = 1;
    let (mut source_world, mut source_domain) = world_with_domain(1, &mut ids, 16, 4);
    let source_token = spawn_token(&mut source_world, &source_domain);
    let source = source_domain
        .register_new_scene_instance(&source_world, vec![(scene_id("player"), source_token)])
        .unwrap();
    let source_persistent = source_domain
        .register_persistent(&source_world, source_token, persistent.clone())
        .unwrap();
    let source_snapshot = source_domain.scene_identity_snapshot(&source_world, &source).unwrap();

    let (mut target_world, mut target_domain) = world_with_domain(2, &mut ids, 16, 4);
    let target_token = spawn_token(&mut target_world, &target_domain);
    let before = target_domain.stats();
    assert!(matches!(
        target_domain.register_parallel_scene_fork(
            &target_world,
            &source_snapshot,
            vec![(scene_id("player"), target_token, None)],
        ),
        Err(IdentityDomainError::IncompleteSceneForkIdentityAxes { .. })
    ));
    assert_eq!(target_domain.stats(), before);

    let (target, remap) = target_domain
        .register_parallel_scene_fork(
            &target_world,
            &source_snapshot,
            vec![(scene_id("player"), target_token, Some(persistent.clone()))],
        )
        .unwrap();
    assert_eq!(target.instance_id().get(), 1);
    let target_persistent = WorldEntityLocator::new(target.domain_id(), RuntimeEntityReference::persistent(persistent));

    assert_eq!(
        remap.rewrite(&source.locator(&scene_id("player")).unwrap()).unwrap(),
        target.locator(&scene_id("player")).unwrap()
    );
    assert_eq!(remap.rewrite(&source_persistent).unwrap(), target_persistent);
}

#[test]
fn retirement_remains_typed_after_detail_eviction_and_identity_is_never_reused() {
    let mut ids = 1;
    let (mut world, mut domain) = world_with_domain(1, &mut ids, 32, 1);
    let first_entity = spawn_token(&mut world, &domain);
    let first = domain
        .register_new_scene_instance(&world, vec![(scene_id("first"), first_entity)])
        .unwrap();
    let first_ref = first.runtime_reference(&scene_id("first")).unwrap();
    let first_snapshot = domain.scene_identity_snapshot(&world, &first).unwrap();
    domain.retire_scene_instance(&world, &first, TombstoneCause::Unloaded).unwrap();
    assert!(matches!(domain.lookup(&world, &first_ref), EntityLookup::Tombstoned(Some(_))));

    let second_entity = spawn_token(&mut world, &domain);
    let second = domain
        .register_new_scene_instance(&world, vec![(scene_id("second"), second_entity)])
        .unwrap();
    let replacement_entity = spawn_token(&mut world, &domain);
    domain.retire_scene_instance(&world, &second, TombstoneCause::Unloaded).unwrap();
    assert_eq!(domain.lookup(&world, &first_ref), EntityLookup::Tombstoned(None));
    assert_eq!(
        domain.lookup(
            &world,
            &RuntimeEntityReference::scene(SceneInstanceId::new(99).unwrap(), scene_id("missing")),
        ),
        EntityLookup::Missing
    );
    let before = domain.stats();
    assert!(matches!(
        domain.register_restored_scene_instance(&world, &first_snapshot, vec![(scene_id("first"), replacement_entity, None)]),
        Err(IdentityDomainError::SceneInstanceAlreadyClaimed { .. })
    ));
    assert_eq!(domain.stats(), before);
}

#[test]
fn retirement_sequence_exhaustion_is_failure_atomic() {
    let mut ids = 1;
    let (mut world, mut domain) = world_with_domain(1, &mut ids, 8, 2);
    let token = spawn_token(&mut world, &domain);
    let instance = domain
        .register_new_scene_instance(&world, vec![(scene_id("entity"), token)])
        .unwrap();
    let reference = instance.runtime_reference(&scene_id("entity")).unwrap();
    domain.set_next_retirement_sequence_for_test(u64::MAX).unwrap();
    let before = domain.stats();

    assert_eq!(
        domain.retire_scene_instance(&world, &instance, TombstoneCause::Unloaded),
        Err(IdentityDomainError::RetirementSequenceExhausted)
    );
    assert_eq!(domain.stats(), before);
    assert_eq!(domain.lookup(&world, &reference), EntityLookup::Resolved(token.entity()));

    domain.set_next_retirement_sequence_for_test(u64::MAX - 1).unwrap();
    assert_eq!(
        domain.retire_scene_instance(&world, &instance, TombstoneCause::Unloaded).unwrap(),
        [token.entity()]
    );
}

#[test]
fn scene_instance_can_retire_after_one_member_was_already_despawned() {
    let mut ids = 1;
    let (mut world, mut domain) = world_with_domain(1, &mut ids, 16, 8);
    let first = spawn_token(&mut world, &domain);
    let second = spawn_token(&mut world, &domain);
    let persistent = persistent_ref("88888888-8888-4888-8888-888888888888");
    let instance = domain
        .register_new_scene_instance(&world, vec![(scene_id("first"), first), (scene_id("second"), second)])
        .unwrap();
    let persistent_locator = domain.register_persistent(&world, first, persistent).unwrap();

    domain.retire_entity(&world, first, TombstoneCause::Despawned).unwrap();
    assert_eq!(
        domain.retire_scene_instance(&world, &instance, TombstoneCause::Unloaded).unwrap(),
        [second.entity()]
    );
    assert!(matches!(
        domain.lookup(&world, &instance.runtime_reference(&scene_id("first")).unwrap()),
        EntityLookup::Tombstoned(_)
    ));
    assert!(matches!(
        domain.lookup(&world, &instance.runtime_reference(&scene_id("second")).unwrap()),
        EntityLookup::Tombstoned(_)
    ));
    assert!(matches!(
        domain.lookup(&world, persistent_locator.entity()),
        EntityLookup::Tombstoned(_)
    ));
}

#[test]
fn lifetime_claim_budget_charges_instances_and_entity_axes_atomically() {
    let mut ids = 1;
    let (mut world, mut domain) = world_with_domain(1, &mut ids, 2, 1);
    let scene_entity = spawn_token(&mut world, &domain);
    domain
        .register_new_scene_instance(&world, vec![(scene_id("only"), scene_entity)])
        .unwrap();
    let before = domain.stats();
    assert!(matches!(
        domain.register_persistent(&world, scene_entity, persistent_ref("33333333-3333-4333-8333-333333333333")),
        Err(IdentityDomainError::LifetimeClaimLimit { .. })
    ));
    assert_eq!(domain.stats(), before);
}

#[test]
fn scene_registration_stops_consuming_input_when_the_claim_budget_is_exceeded() {
    let mut ids = 1;
    let (mut world, mut domain) = world_with_domain(1, &mut ids, 3, 1);
    let first = spawn_token(&mut world, &domain);
    let second = spawn_token(&mut world, &domain);
    let third = spawn_token(&mut world, &domain);
    let fourth = spawn_token(&mut world, &domain);
    // The entry after the claim budget is a duplicate: had it been read, the refusal would
    // name the duplicate instead of the claim limit.
    let entries = vec![
        (scene_id("first"), first),
        (scene_id("second"), second),
        (scene_id("third"), third),
        (scene_id("first"), fourth),
    ];

    let before = domain.stats();
    assert_eq!(
        domain.register_new_scene_instance(&world, entries),
        Err(IdentityDomainError::LifetimeClaimLimit { requested: 4, maximum: 3 })
    );
    assert_eq!(domain.stats(), before);

    let instance = domain.register_new_scene_instance(&world, vec![]).unwrap();
    assert_eq!(instance.instance_id().get(), 1);
}

#[test]
fn reverse_lookup_returns_every_registered_identity_axis() {
    let mut ids = 1;
    let (mut world, mut domain) = world_with_domain(1, &mut ids, 4, 2);
    let token = spawn_token(&mut world, &domain);
    let persistent = persistent_ref("66666666-6666-4666-8666-666666666666");

    let instance = domain
        .register_new_scene_instance(&world, vec![(scene_id("dual"), token)])
        .unwrap();
    let persistent_locator = domain.register_persistent(&world, token, persistent).unwrap();

    let locators = domain.locators_for_token(&world, token).unwrap().unwrap();
    assert_eq!(locators.scene(), instance.locator(&scene_id("dual")).as_ref());
    assert_eq!(locators.persistent(), Some(&persistent_locator));
    assert_eq!(locators.iter().len(), 2);

    let registered = domain.registered_locators(&world).unwrap();
    assert_eq!(registered, locators.iter().into_iter().cloned().collect::<Vec<_>>());
}

#[test]
fn registered_locators_are_sorted_by_semantic_identity() {
    let mut ids = 1;
    let (mut world, mut domain) = world_with_domain(1, &mut ids, 8, 2);
    let z_entity = spawn_token(&mut world, &domain);
    let a_entity = spawn_token(&mut world, &domain);

    let instance = domain
        .register_new_scene_instance(&world, vec![(scene_id("z"), z_entity), (scene_id("a"), a_entity)])
        .unwrap();
    let registered = domain.registered_locators(&world).unwrap();

    assert_eq!(
        registered,
        [instance.locator(&scene_id("a")).unwrap(), instance.locator(&scene_id("z")).unwrap()]
    );
}

#[test]
fn explicit_reference_remap_rejects_an_incomplete_source_set() {
    let first = RuntimeEntityReference::scene(SceneInstanceId::new(1).unwrap(), scene_id("first"));
    let second = RuntimeEntityReference::scene(SceneInstanceId::new(1).unwrap(), scene_id("second"));

    assert_eq!(
        EntityReferenceRemap::complete(vec![first.clone(), second], vec![(first.clone(), first)]),
        Err(IdentityRemapError::IncompleteSourceSet)
    );
}

#[test]
fn empty_scene_instance_is_a_non_reusable_lifetime_claim() {
    let mut ids = 1;
    let (world, mut domain) = world_with_domain(1, &mut ids, 1, 1);
    let empty = domain.register_new_scene_instance(&world, vec![]).unwrap();
    assert!(empty.is_empty());
    let empty_snapshot = domain.scene_identity_snapshot(&world, &empty).unwrap();
    let before = domain.stats();
    assert!(matches!(
        domain.register_restored_scene_instance(&world, &empty_snapshot, vec![]),
        Err(IdentityDomainError::SceneInstanceAlreadyClaimed { .. })
    ));
    assert_eq!(domain.stats(), before);
    assert!(matches!(
        domain.register_new_scene_instance(&world, vec![]),
        Err(IdentityDomainError::LifetimeClaimLimit { .. })
    ));
    assert_eq!(domain.stats(), before);
}

#[test]
fn entity_type_remains_local_to_lookup_results() {
    let mut ids = 1;
    let (mut world, mut domain) = world_with_domain(1, &mut ids, 4, 1);
    let entity = spawn_token(&mut world, &domain);
    let instance = domain
        .register_new_scene_instance(&world, vec![(scene_id("entity"), entity)])
        .unwrap();
    let EntityLookup::Resolved(resolved) = instance.resolve(&world, Some(&domain), &scene_id("entity")) else {
        panic!("registered identity should resolve")
    };
    assert_eq!(resolved, entity.entity());
}

#[test]
fn persistent_runtime_ids_print_as_hyphenated_lower_case_text() {
    let id = nara::identity::types::PersistentRuntimeId::parse_str("A1B2C3D4-E5F6-47A8-90AB-1234567890CD").unwrap();
    assert_eq!(id.as_u128(), 0xa1b2c3d4_e5f6_47a8_90ab_1234567890cd);
    assert_eq!(id.to_text(), "a1b2c3d4-e5f6-47a8-90ab-1234567890cd");
    assert_eq!(nara::identity::types::PersistentRuntimeId::parse_str(&id.to_text()).unwrap(), id);
}
