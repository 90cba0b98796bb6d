use std::collections::{HashMap, HashSet};

use nara::hierarchy::error::HierarchyError;
use nara::hierarchy::generation::HierarchyGenerationState;
use nara::hierarchy::validation::{validate_dirty_hierarchy, validate_hierarchy};
use nara::hierarchy::writer::{prepare_hierarchy_construction_batch, validate_new_edge, HierarchyConstructionEdge};

const DEEP_HIERARCHY_DEPTH: usize = 4_096;

/// A world's entities and both projections of its parent relation, in insertion order.
#[derive(Default)]
struct World {
    next: u64,
    live: HashSet<u64>,
    parents: Vec<(u64, u64)>,
    children: Vec<(u64, Vec<u64>)>,
}

impl World {
    fn spawn(&mut self) -> u64 {
        self.next += 1;
        self.live.insert(self.next);
        self.next
    }

    fn despawn(&mut self, entity: u64) -> bool {
        self.live.remove(&entity)
    }

    fn parent_map(&self) -> HashMap<u64, u64> {
        self.parents.iter().copied().collect()
    }

    fn parent_of(&self, child: u64) -> Option<u64> {
        self.parents.iter().find(|(c, _)| *c == child).map(|(_, p)| *p)
    }

    fn children_of(&mut self, parent: u64) -> &mut Vec<u64> {
        if let Some(index) = self.children.iter().position(|(p, _)| *p == parent) {
            &mut self.children[index].1
        } else {
            self.children.push((parent, Vec::new()));
            &mut self.children.last_mut().unwrap().1
        }
    }

    /// Sets `child`'s parent without touching the reverse projection.
    fn set_parent_raw(&mut self, child: u64, parent: u64) {
        self.parents.retain(|(c, _)| *c != child);
        self.parents.push((child, parent));
    }

    /// Sets `child`'s parent and records it in `parent`'s children, as the relation hook does.
    fn set_parent(&mut self, child: u64, parent: u64) {
        self.set_parent_raw(child, parent);
        self.children_of(parent).push(child);
    }

    fn attach(&mut self, child: u64, parent: u64) -> Result<(), HierarchyError> {
        validate_new_edge(&self.live, &self.parent_map(), child, parent)?;
        self.set_parent(child, parent);
        Ok(())
    }

    fn validate(&self) -> Result<(), HierarchyError> {
        validate_hierarchy(&self.live, &self.parents, &self.children)
    }

    fn raw_chain(&mut self, depth: usize) -> Vec<u64> {
        let entities = (0..depth).map(|_| self.spawn()).collect::<Vec<_>>();
        for index in 1..entities.len() {
            self.set_parent(entities[index], entities[index - 1]);
        }
        entities
    }
}

#[test]
fn construction_flushes_an_immediate_reverse_projection() {
    let mut world = World::default();
    let parent = world.spawn();
    let child = world.spawn();

    world.attach(child, parent).expect("a valid edge should be accepted");

    assert_eq!(world.parent_of(child), Some(parent));
    assert_eq!(world.children_of(parent).as_slice(), [child].as_slice());
    world.validate().expect("the forward and reverse projections should agree");
}

#[test]
fn construction_rejects_invalid_edges_before_topology_mutation() {
    let mut world = World::default();
    let parent = world.spawn();
    let child = world.spawn();
    let missing = world.spawn();
    assert!(world.despawn(missing));

    assert_eq!(world.attach(missing, parent).unwrap_err(), HierarchyError::MissingChild { child: missing });
    assert_eq!(world.attach(child, missing).unwrap_err(), HierarchyError::MissingParent { child, parent: missing });
    assert_eq!(world.attach(child, child).unwrap_err(), HierarchyError::SelfParent { entity: child });
    assert!(world.parent_of(child).is_none());

    world.attach(child, parent).unwrap();
    assert_eq!(world.attach(child, parent).unwrap_err(), HierarchyError::AlreadyParented { child, parent });

    let cycle = world.attach(parent, child).unwrap_err();
    assert!(matches!(cycle, HierarchyError::Cycle { entity } if entity == parent));
    assert!(world.parent_of(parent).is_none());
}

#[test]
fn batch_construction_rejects_the_complete_plan_before_mutation() {
    let mut world = World::default();
    let parent = world.spawn();
    let first_child = world.spawn();
    let second_child = world.spawn();
    let missing_parent = world.spawn();
    assert!(world.despawn(missing_parent));

    let error = prepare_hierarchy_construction_batch(
        &world.live,
        &world.parents,
        &world.children,
        &[HierarchyConstructionEdge::new(first_child, parent), HierarchyConstructionEdge::new(second_child, missing_parent)],
    )
    .unwrap_err();
    assert_eq!(error, HierarchyError::MissingParent { child: second_child, parent: missing_parent });
    assert!(world.parent_of(first_child).is_none());
    assert!(world.parent_of(second_child).is_none());

    let first = world.spawn();
    let second = world.spawn();
    let error = prepare_hierarchy_construction_batch(
        &world.live,
        &world.parents,
        &world.children,
        &[HierarchyConstructionEdge::new(first, second), HierarchyConstructionEdge::new(second, first)],
    )
    .unwrap_err();
    assert!(matches!(error, HierarchyError::Cycle { .. }));
    assert!(world.parent_of(first).is_none());
    assert!(world.parent_of(second).is_none());
}

#[test]
fn prepared_batch_keeps_every_edge_for_insertion() {
    let mut world = World::default();
    let root = world.spawn();
    let children = (0..DEEP_HIERARCHY_DEPTH).map(|_| world.spawn()).collect::<Vec<_>>();
    let edges = children.iter().copied().map(|child| HierarchyConstructionEdge::new(child, root)).collect::<Vec<_>>();

    let batch = prepare_hierarchy_construction_batch(&world.live, &world.parents, &world.children, &edges).unwrap();
    assert_eq!(batch.edges(), edges.as_slice());
    for edge in batch.edges() {
        world.set_parent(edge.child(), edge.parent());
    }
    assert_eq!(world.children_of(root).len(), children.len());
    world.validate().unwrap();
}

#[test]
fn unchanged_generation_skips_full_validation_scans() {
    let mut world = World::default();
    let mut state = HierarchyGenerationState::new();
    let mut validation_scans = 0;

    for _ in 0..2 {
        if validate_dirty_hierarchy(&mut state, &world.live, &world.parents, &world.children).unwrap().is_some() {
            validation_scans += 1;
        }
    }
    assert_eq!(validation_scans, 0);

    let parent = world.spawn();
    let child = world.spawn();
    world.attach(child, parent).unwrap();
    state.mark_dirty();

    for _ in 0..2 {
        if validate_dirty_hierarchy(&mut state, &world.live, &world.parents, &world.children).unwrap().is_some() {
            validation_scans += 1;
        }
    }
    assert_eq!(state.topology_generation, 1);
    assert_eq!(state.completed_generation, Some(1));
    assert_eq!(validation_scans, 1);
}

#[test]
fn failed_dirty_validation_leaves_the_generation_incomplete() {
    let mut world = World::default();
    let parent = world.spawn();
    let child = world.spawn();
    world.set_parent_raw(child, parent);
    let mut state = HierarchyGenerationState::new();
    state.mark_dirty();

    assert_eq!(
        validate_dirty_hierarchy(&mut state, &world.live, &world.parents, &world.children),
        Err(HierarchyError::ReverseMissing { parent, child })
    );
    assert_eq!(state.completed_generation, None);
    assert!(state.needs_validation());
}

#[test]
fn deep_cycle_detection_is_iterative() {
    let mut world = World::default();
    let entities = world.raw_chain(DEEP_HIERARCHY_DEPTH);
    world.set_parent(entities[0], *entities.last().expect("the chain is non-empty"));

    assert!(matches!(world.validate(), Err(HierarchyError::Cycle { .. })));
}

#[test]
fn deep_missing_parent_detection_is_iterative() {
    let mut world = World::default();
    let entities = world.raw_chain(DEEP_HIERARCHY_DEPTH);
    let missing = world.spawn();
    assert!(world.despawn(missing));
    world.set_parent_raw(entities[0], missing);

    assert_eq!(world.validate(), Err(HierarchyError::MissingParent { child: entities[0], parent: missing }));
}

#[test]
fn deep_reverse_projection_detection_is_iterative() {
    let mut world = World::default();
    let entities = world.raw_chain(DEEP_HIERARCHY_DEPTH);
    let child = entities[DEEP_HIERARCHY_DEPTH / 2];
    let parent = entities[DEEP_HIERARCHY_DEPTH / 2 - 1];
    let sibling = world.spawn();
    world.set_parent(sibling, parent);
    world.children_of(parent).retain(|candidate| *candidate != child);

    assert_eq!(world.validate(), Err(HierarchyError::ReverseMissing { parent, child }));
    assert_eq!(world.parent_of(sibling), Some(parent));
}

#[test]
fn sparse_one_sided_relationships_remain_visible_to_complete_validation() {
    let mut parent_only_world = World::default();
    for _ in 0..DEEP_HIERARCHY_DEPTH {
        parent_only_world.spawn();
    }
    let parent = parent_only_world.spawn();
    let child = parent_only_world.spawn();
    parent_only_world.set_parent_raw(child, parent);

    assert_eq!(parent_only_world.validate(), Err(HierarchyError::ReverseMissing { parent, child }));

    let mut children_only_world = World::default();
    for _ in 0..DEEP_HIERARCHY_DEPTH {
        children_only_world.spawn();
    }
    let parent = children_only_world.spawn();
    let child = children_only_world.spawn();
    children_only_world.children_of(parent).push(child);

    assert_eq!(
        children_only_world.validate(),
        Err(HierarchyError::ReverseUnexpected { parent, child, actual_parent: None })
    );
}

#[test]
fn reverse_projection_corruption_reports_exact_errors() {
    let mut empty_world = World::default();
    let empty_parent = empty_world.spawn();
    let empty_child = empty_world.spawn();
    empty_world.set_parent(empty_child, empty_parent);
    empty_world.children_of(empty_parent).clear();
    assert_eq!(empty_world.validate(), Err(HierarchyError::ReverseEmpty { parent: empty_parent }));
    assert_eq!(empty_world.parent_of(empty_child), Some(empty_parent));

    let mut missing_world = World::default();
    let missing_parent = missing_world.spawn();
    let missing_child = missing_world.spawn();
    missing_world.set_parent(missing_child, missing_parent);
    let missing = missing_world.spawn();
    assert!(missing_world.despawn(missing));
    missing_world.children_of(missing_parent).push(missing);
    assert_eq!(
        missing_world.validate(),
        Err(HierarchyError::ReverseChildMissing { parent: missing_parent, child: missing })
    );
    assert_eq!(missing_world.parent_of(missing_child), Some(missing_parent));

    let mut duplicate_world = World::default();
    let duplicate_parent = duplicate_world.spawn();
    let duplicate_child = duplicate_world.spawn();
    duplicate_world.set_parent(duplicate_child, duplicate_parent);
    duplicate_world.children_of(duplicate_parent).push(duplicate_child);
    assert_eq!(
        duplicate_world.validate(),
        Err(HierarchyError::ReverseDuplicate { parent: duplicate_parent, child: duplicate_child })
    );

    let mut unexpected_world = World::default();
    let recorded_parent = unexpected_world.spawn();
    let actual_parent = unexpected_world.spawn();
    let unexpected_child = unexpected_world.spawn();
    unexpected_world.set_parent(unexpected_child, recorded_parent);
    unexpected_world.set_parent_raw(unexpected_child, actual_parent);
    assert_eq!(
        unexpected_world.validate(),
        Err(HierarchyError::ReverseUnexpected {
            parent: recorded_parent,
            child: unexpected_child,
            actual_parent: Some(actual_parent),
        })
    );
}
