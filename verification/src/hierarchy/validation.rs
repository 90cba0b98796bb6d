//! Validation of the complete structural hierarchy, with optional additional edges.
//!
//! The world is given as plain values: the live entities, the `(child, parent)` rows of the
//! parent relation, the `(parent, children)` rows of its reverse projection, in query order,
//! and the `(child, parent)` edges to add.

use vstd::prelude::*;
use std::collections::{HashMap, HashSet};

use crate::hierarchy::error::HierarchyError;
use crate::hierarchy::generation::{CompletedHierarchyProjection, HierarchyGenerationState};

verus! {

broadcast use vstd::std_specs::hash::group_hash_axioms;

/// One 128-bit key per `(parent, child)` pair.
pub open spec fn pair_key(parent: u64, child: u64) -> u128 {
    (parent as int * 0x1_0000_0000_0000_0000 + child as int) as u128
}

fn make_pair_key(parent: u64, child: u64) -> (r: u128)
    ensures
        r == pair_key(parent, child),
{
    (parent as u128) * 0x1_0000_0000_0000_0000u128 + (child as u128)
}

// ---- the parent relation ----

/// The first invalid parent row from `i` on: an entity that is its own parent, or a parent
/// that does not exist.
pub open spec fn parent_rows_error(rows: Seq<(u64, u64)>, live: Set<u64>, i: int) -> Option<HierarchyError>
    decreases rows.len() - i,
{
    if i < 0 || i >= rows.len() {
        None
    } else if rows[i].0 == rows[i].1 {
        Some(HierarchyError::SelfParent { entity: rows[i].0 })
    } else if !live.contains(rows[i].1) {
        Some(HierarchyError::MissingParent { child: rows[i].0, parent: rows[i].1 })
    } else {
        parent_rows_error(rows, live, i + 1)
    }
}

/// The parent of each child, from `(child, parent)` rows.
pub open spec fn parent_map(rows: Seq<(u64, u64)>) -> Map<u64, u64>
    decreases rows.len(),
{
    if rows.len() == 0 {
        Map::empty()
    } else {
        parent_map(rows.drop_last()).insert(rows.last().0, rows.last().1)
    }
}

// ---- the reverse projection ----

/// The keys of the pairs `(parent, c)` for the children `c`.
pub open spec fn keys_of(parent: u64, children: Seq<u64>) -> Set<u128> {
    Set::new(|k: u128| exists|j: int| 0 <= j < children.len() && k == pair_key(parent, #[trigger] children[j]))
}

/// The first invalid child of one reverse row from `j` on, given the pairs already `seen`.
pub open spec fn child_error(parent: u64, children: Seq<u64>, live: Set<u64>, j: int, seen: Set<u128>) -> Option<HierarchyError>
    decreases children.len() - j,
{
    if j < 0 || j >= children.len() {
        None
    } else if !live.contains(children[j]) {
        Some(HierarchyError::ReverseChildMissing { parent, child: children[j] })
    } else if seen.contains(pair_key(parent, children[j])) {
        Some(HierarchyError::ReverseDuplicate { parent, child: children[j] })
    } else {
        child_error(parent, children, live, j + 1, seen.insert(pair_key(parent, children[j])))
    }
}

/// The pair keys of all reverse rows.
pub open spec fn rows_keys(rows: Seq<(u64, Vec<u64>)>) -> Set<u128>
    decreases rows.len(),
{
    if rows.len() == 0 {
        Set::empty()
    } else {
        rows_keys(rows.drop_last()).union(keys_of(rows.last().0, rows.last().1@))
    }
}

/// The `(parent, child)` pairs of all reverse rows, row by row.
pub open spec fn reverse_edges(rows: Seq<(u64, Vec<u64>)>) -> Seq<(u64, u64)>
    decreases rows.len(),
{
    if rows.len() == 0 {
        Seq::empty()
    } else {
        let last = rows.last();
        reverse_edges(rows.drop_last()) + last.1@.map_values(|c: u64| (last.0, c))
    }
}

/// The first invalid reverse row from `i` on: an empty one, a missing child or a duplicate pair.
pub open spec fn children_rows_error(rows: Seq<(u64, Vec<u64>)>, live: Set<u64>, i: int) -> Option<HierarchyError>
    decreases rows.len() - i,
{
    if i < 0 || i >= rows.len() {
        None
    } else if rows[i].1@.len() == 0 {
        Some(HierarchyError::ReverseEmpty { parent: rows[i].0 })
    } else {
        match child_error(rows[i].0, rows[i].1@, live, 0, rows_keys(rows.take(i))) {
            Some(e) => Some(e),
            None => children_rows_error(rows, live, i + 1),
        }
    }
}

/// The first reverse pair from `i` on whose child does not have that parent.
pub open spec fn unexpected_error(edges: Seq<(u64, u64)>, parents: Map<u64, u64>, i: int) -> Option<HierarchyError>
    decreases edges.len() - i,
{
    if i < 0 || i >= edges.len() {
        None
    } else if !(parents.contains_key(edges[i].1) && parents[edges[i].1] == edges[i].0) {
        Some(HierarchyError::ReverseUnexpected {
            parent: edges[i].0,
            child: edges[i].1,
            actual_parent: if parents.contains_key(edges[i].1) { Some(parents[edges[i].1]) } else { None },
        })
    } else {
        unexpected_error(edges, parents, i + 1)
    }
}

/// The first parent row from `i` on that the reverse projection lacks.
pub open spec fn missing_error(rows: Seq<(u64, u64)>, keys: Set<u128>, i: int) -> Option<HierarchyError>
    decreases rows.len() - i,
{
    if i < 0 || i >= rows.len() {
        None
    } else if !keys.contains(pair_key(rows[i].1, rows[i].0)) {
        Some(HierarchyError::ReverseMissing { parent: rows[i].1, child: rows[i].0 })
    } else {
        missing_error(rows, keys, i + 1)
    }
}

// ---- additions ----

/// The first invalid addition from `i` on, with `parents` the relation so far.
pub open spec fn additions_error(adds: Seq<(u64, u64)>, live: Set<u64>, parents: Map<u64, u64>, i: int) -> Option<HierarchyError>
    decreases adds.len() - i,
{
    if i < 0 || i >= adds.len() {
        None
    } else if !live.contains(adds[i].0) {
        Some(HierarchyError::MissingChild { child: adds[i].0 })
    } else if !live.contains(adds[i].1) {
        Some(HierarchyError::MissingParent { child: adds[i].0, parent: adds[i].1 })
    } else if adds[i].0 == adds[i].1 {
        Some(HierarchyError::SelfParent { entity: adds[i].0 })
    } else if parents.contains_key(adds[i].0) {
        Some(HierarchyError::AlreadyParented { child: adds[i].0, parent: parents[adds[i].0] })
    } else {
        additions_error(adds, live, parents.insert(adds[i].0, adds[i].1), i + 1)
    }
}

/// The relation after the additions from `i` on.
pub open spec fn with_additions(adds: Seq<(u64, u64)>, parents: Map<u64, u64>, i: int) -> Map<u64, u64>
    decreases adds.len() - i,
{
    if i < 0 || i >= adds.len() {
        parents
    } else {
        with_additions(adds, parents.insert(adds[i].0, adds[i].1), i + 1)
    }
}

// ---- cycles ----

/// The entity reached from `a` after `k` parent steps, if every step has a parent.
pub open spec fn follow(p: Map<u64, u64>, a: u64, k: nat) -> Option<u64>
    decreases k,
{
    if k == 0 {
        Some(a)
    } else if p.contains_key(a) {
        follow(p, p[a], (k - 1) as nat)
    } else {
        None
    }
}

/// `a` reaches itself again by parent steps.
pub open spec fn on_cycle(p: Map<u64, u64>, a: u64) -> bool {
    exists|k: nat| k >= 1 && #[trigger] follow(p, a, k) == Some(a)
}

/// No entity lies on a parent cycle.
pub open spec fn acyclic(p: Map<u64, u64>) -> bool {
    forall|a: u64| !on_cycle(p, a)
}

/// Following parents from `a` reaches an entity without a parent.
pub open spec fn reaches_root(p: Map<u64, u64>, a: u64) -> bool {
    exists|k: nat| #[trigger] follow(p, a, k) matches Some(r) && !p.contains_key(r)
}

proof fn lemma_follow_add(p: Map<u64, u64>, a: u64, n: nat, m: nat)
    ensures
        follow(p, a, n + m) == match follow(p, a, n) {
            Some(b) => follow(p, b, m),
            None => None,
        },
    decreases n,
{
    if n > 0 && p.contains_key(a) {
        lemma_follow_add(p, p[a], (n - 1) as nat, m);
        assert((n + m - 1) as nat == ((n - 1) as nat + m) as nat);
    } else if n > 0 {
        assert(follow(p, a, n + m) == None::<u64>);
    }
}

proof fn lemma_cycle_stays_in_domain(p: Map<u64, u64>, a: u64, k: nat, i: nat)
    requires
        k >= 1,
        follow(p, a, k) == Some(a),
    ensures
        follow(p, a, i) matches Some(x) && p.contains_key(x),
    decreases i,
{
    if i < k {
        lemma_follow_add(p, a, i, (k - i) as nat);
        assert(((i + (k - i)) as nat) == k);
        match follow(p, a, i) {
            Some(x) => {
                if !p.contains_key(x) {
                    assert(follow(p, x, (k - i) as nat) == None::<u64>);
                }
            },
            None => {},
        }
    } else {
        lemma_follow_add(p, a, k, (i - k) as nat);
        assert(((k + (i - k)) as nat) == i);
        lemma_cycle_stays_in_domain(p, a, k, (i - k) as nat);
    }
}

proof fn lemma_root_reaching_not_on_cycle(p: Map<u64, u64>, a: u64)
    requires
        reaches_root(p, a),
    ensures
        !on_cycle(p, a),
{
    if on_cycle(p, a) {
        let k = choose|k: nat| k >= 1 && #[trigger] follow(p, a, k) == Some(a);
        let m = choose|m: nat| #[trigger] follow(p, a, m) matches Some(r) && !p.contains_key(r);
        lemma_cycle_stays_in_domain(p, a, k, m);
    }
}

#[derive(Debug, Clone, Copy, PartialEq, Eq, Structural)]
enum VisitState {
    Visiting,
    Complete,
}

/// Every visited entity has a parent; complete ones reach a root.
spec fn visits_settled(p: Map<u64, u64>, v: Map<u64, VisitState>) -> bool {
    &&& forall|x: u64| #[trigger] v.contains_key(x) ==> p.contains_key(x)
    &&& forall|x: u64| #[trigger] v.contains_key(x) ==> v[x] == VisitState::Complete && reaches_root(p, x)
}

/// Marks every entity of `path` complete.
fn complete_path(visits: &mut HashMap<u64, VisitState>, path: &Vec<u64>, Ghost(p): Ghost<Map<u64, u64>>)
    requires
        forall|x: u64| #[trigger] old(visits)@.contains_key(x) ==> p.contains_key(x),
        forall|x: u64| #[trigger] old(visits)@.contains_key(x) && old(visits)@[x] == VisitState::Complete ==> reaches_root(p, x),
        forall|j: int| 0 <= j < path@.len() ==> p.contains_key(#[trigger] path@[j]) && reaches_root(p, path@[j]),
        forall|x: u64| #[trigger] old(visits)@.contains_key(x) && old(visits)@[x] == VisitState::Visiting ==> path@.contains(x),
    ensures
        visits_settled(p, final(visits)@),
        forall|x: u64| #[trigger] old(visits)@.contains_key(x) ==> final(visits)@.contains_key(x),
        forall|j: int| 0 <= j < path@.len() ==> final(visits)@.contains_key(#[trigger] path@[j]),
        forall|x: u64| #[trigger] final(visits)@.contains_key(x) ==> old(visits)@.contains_key(x) || path@.contains(x),
{
    let mut i: usize = 0;
    proof {
        assert(path@.skip(0) =~= path@);
    }
    while i < path.len()
        invariant
            i <= path@.len(),
            forall|j: int| 0 <= j < path@.len() ==> p.contains_key(#[trigger] path@[j]) && reaches_root(p, path@[j]),
            forall|x: u64| #[trigger] visits@.contains_key(x) ==> p.contains_key(x),
            forall|x: u64| #[trigger] visits@.contains_key(x) && visits@[x] == VisitState::Complete ==> reaches_root(p, x),
            forall|x: u64| #[trigger] visits@.contains_key(x) && visits@[x] == VisitState::Visiting ==> path@.skip(i as int).contains(x),
            forall|x: u64| #[trigger] old(visits)@.contains_key(x) ==> visits@.contains_key(x),
            forall|j: int| 0 <= j < i ==> visits@.contains_key(#[trigger] path@[j]),
            forall|x: u64| #[trigger] visits@.contains_key(x) ==> old(visits)@.contains_key(x) || path@.contains(x),
        decreases path@.len() - i,
    {
        let entity = path[i];
        visits.insert(entity, VisitState::Complete);
        proof {
            assert forall|x: u64| #[trigger] visits@.contains_key(x) && visits@[x] == VisitState::Visiting implies path@.skip(i + 1).contains(x) by {
                assert(path@.skip(i as int).contains(x));
                let w = choose|w: int| 0 <= w < path@.skip(i as int).len() && path@.skip(i as int)[w] == x;
                assert(w != 0);
                assert(path@.skip(i + 1)[w - 1] == x);
            }
            assert forall|x: u64| #[trigger] visits@.contains_key(x) implies old(visits)@.contains_key(x) || path@.contains(x) by {
                if x == entity {
                    assert(path@[i as int] == x);
                }
            }
        }
        i = i + 1;
    }
    proof {
        assert forall|x: u64| #[trigger] visits@.contains_key(x) implies visits@[x] == VisitState::Complete by {
            if visits@[x] == VisitState::Visiting {
                assert(path@.skip(i as int).len() == 0);
            }
        }
    }
}

/// Walks parents from `start`; reports a cycle through an entity on it, or marks the walk
/// complete.
fn walk_from(
    start: u64,
    parents: &HashMap<u64, u64>,
    visits: &mut HashMap<u64, VisitState>,
    path: &mut Vec<u64>,
) -> (r: Option<u64>)
    requires
        visits_settled(parents@, old(visits)@),
    ensures
        r matches Some(e) ==> on_cycle(parents@, e),
        r is None ==> visits_settled(parents@, final(visits)@),
        r is None ==> parents@.contains_key(start) ==> final(visits)@.contains_key(start),
        r is None ==> forall|x: u64| #[trigger] old(visits)@.contains_key(x) ==> final(visits)@.contains_key(x),
{
    let ghost p = parents@;
    let ghost before = visits@;
    path.clear();
    let mut cursor = start;
    loop
        invariant
            p == parents@,
            visits_settled(p, before),
            forall|j: int| 0 <= j < path@.len() ==> p.contains_key(#[trigger] path@[j]),
            forall|j: int| 0 <= j < path@.len() ==> #[trigger] follow(p, path@[j], (path@.len() - j) as nat) == Some(cursor),
            path@.len() == 0 ==> cursor == start,
            path@.len() > 0 ==> path@[0] == start,
            forall|x: u64| #[trigger] visits@.contains_key(x) ==> p.contains_key(x),
            forall|x: u64| #[trigger] visits@.contains_key(x) && visits@[x] == VisitState::Complete ==> reaches_root(p, x),
            forall|x: u64| #[trigger] visits@.contains_key(x) && visits@[x] == VisitState::Visiting ==> path@.contains(x),
            forall|j: int| 0 <= j < path@.len() ==> visits@.contains_key(#[trigger] path@[j]) && visits@[path@[j]] == VisitState::Visiting,
            forall|x: u64| #[trigger] before.contains_key(x) ==> visits@.contains_key(x) && visits@[x] == before[x],
            forall|x: u64| #[trigger] visits@.contains_key(x) ==> before.contains_key(x) || path@.contains(x),
            visits@.dom().subset_of(p.dom()),
        ensures
            visits@.contains_key(cursor) ==> visits@[cursor] == VisitState::Complete,
            !visits@.contains_key(cursor) ==> !p.contains_key(cursor),
        decreases p.dom().len() - visits@.dom().len(),
    {
        match visits.get(&cursor) {
            Some(VisitState::Visiting) => {
                proof {
                    let j = choose|j: int| 0 <= j < path@.len() && path@[j] == cursor;
                    assert(follow(p, path@[j], (path@.len() - j) as nat) == Some(cursor));
                    assert(on_cycle(p, cursor));
                }
                return Some(cursor);
            },
            Some(VisitState::Complete) => {
                break;
            },
            None => {},
        }
        let parent = match parents.get(&cursor) {
            None => {
                break;
            },
            Some(parent) => *parent,
        };
        proof {
            reveal_with_fuel(follow, 2);
            assert(!visits@.contains_key(cursor));
            assert forall|j: int| 0 <= j < path@.len() implies #[trigger] follow(p, path@[j], (path@.len() + 1 - j) as nat) == Some(parent) by {
                lemma_follow_add(p, path@[j], (path@.len() - j) as nat, 1);
                assert(((path@.len() - j) as nat + 1) as nat == (path@.len() + 1 - j) as nat);
                assert(follow(p, cursor, 1) == Some(parent));
            }
            assert(follow(p, cursor, 1) == Some(parent));
            vstd::set_lib::lemma_len_subset(visits@.dom().insert(cursor), p.dom());
        }
        let ghost old_path = path@;
        let ghost old_visits = visits@;
        visits.insert(cursor, VisitState::Visiting);
        path.push(cursor);
        proof {
            assert forall|j: int| 0 <= j < path@.len() implies #[trigger] follow(p, path@[j], (path@.len() - j) as nat) == Some(parent) by {
                if j == path@.len() - 1 {
                    assert(path@[j] == cursor);
                }
            }
            assert forall|x: u64| #[trigger] visits@.contains_key(x) && visits@[x] == VisitState::Visiting implies path@.contains(x) by {
                if x == cursor {
                    assert(path@[path@.len() - 1] == x);
                } else {
                    assert(old_visits.contains_key(x) && old_visits[x] == VisitState::Visiting);
                    assert(old_path.contains(x));
                    let w = choose|w: int| 0 <= w < old_path.len() && old_path[w] == x;
                    assert(path@[w] == x);
                }
            }
            assert forall|x: u64| #[trigger] visits@.contains_key(x) implies before.contains_key(x) || path@.contains(x) by {
                if x == cursor {
                    assert(path@[path@.len() - 1] == x);
                } else if !before.contains_key(x) {
                    assert(old_visits.contains_key(x));
                    assert(old_path.contains(x));
                    let w = choose|w: int| 0 <= w < old_path.len() && old_path[w] == x;
                    assert(path@[w] == x);
                }
            }
        }
        cursor = parent;
    }
    proof {
        // The walk ended at a complete entity or at a root: every path entity reaches a root.
        assert(reaches_root(p, cursor)) by {
            if visits@.contains_key(cursor) {
                assert(visits@[cursor] == VisitState::Complete);
            } else {
                assert(!p.contains_key(cursor));
                assert(follow(p, cursor, 0) == Some(cursor));
            }
        }
        let m = choose|m: nat| #[trigger] follow(p, cursor, m) matches Some(r) && !p.contains_key(r);
        assert forall|j: int| 0 <= j < path@.len() implies p.contains_key(#[trigger] path@[j]) && reaches_root(p, path@[j]) by {
            lemma_follow_add(p, path@[j], (path@.len() - j) as nat, m);
            let total = ((path@.len() - j) as nat + m) as nat;
            assert(follow(p, path@[j], total) matches Some(r) && !p.contains_key(r));
        }
    }
    complete_path(visits, path, Ghost(p));
    proof {
        if p.contains_key(start) {
            if path@.len() == 0 {
                assert(visits@.contains_key(start));
            } else {
                assert(path@[0] == start);
            }
        }
    }
    None
}

/// Reports a parent cycle through some entity, or confirms there is none, given every child
/// of the relation among `starts`.
fn check_acyclic(parents: &HashMap<u64, u64>, starts: &Vec<u64>) -> (r: Result<(), HierarchyError>)
    requires
        forall|x: u64| #[trigger] parents@.contains_key(x) ==> starts@.contains(x),
    ensures
        r is Ok <==> acyclic(parents@),
        r matches Err(e) ==> (e matches HierarchyError::Cycle { entity } && on_cycle(parents@, entity)),
{
    let mut visits: HashMap<u64, VisitState> = HashMap::new();
    let mut path: Vec<u64> = Vec::new();
    let mut i: usize = 0;
    while i < starts.len()
        invariant
            i <= starts@.len(),
            visits_settled(parents@, visits@),
            forall|j: int| 0 <= j < i && parents@.contains_key(#[trigger] starts@[j]) ==> visits@.contains_key(starts@[j]),
        decreases starts@.len() - i,
    {
        let start = starts[i];
        let done = match visits.get(&start) {
            Some(VisitState::Complete) => true,
            _ => false,
        };
        if !done {
            match walk_from(start, parents, &mut visits, &mut path) {
                Some(entity) => return Err(HierarchyError::Cycle { entity }),
                None => {},
            }
        }
        i = i + 1;
    }
    proof {
        assert forall|a: u64| !on_cycle(parents@, a) by {
            if parents@.contains_key(a) {
                assert(starts@.contains(a));
                let j = choose|j: int| 0 <= j < starts@.len() && starts@[j] == a;
                assert(visits@.contains_key(starts@[j]));
                lemma_root_reaching_not_on_cycle(parents@, a);
            } else if on_cycle(parents@, a) {
                let k = choose|k: nat| k >= 1 && #[trigger] follow(parents@, a, k) == Some(a);
                assert(follow(parents@, a, k) == None::<u64>);
            }
        }
    }
    Ok(())
}

fn scan_parent_rows(live: &HashSet<u64>, rows: &Vec<(u64, u64)>, parents: &mut HashMap<u64, u64>, starts: &mut Vec<u64>) -> (r: Option<HierarchyError>)
    requires
        old(parents)@ == Map::<u64, u64>::empty(),
        old(starts)@.len() == 0,
    ensures
        r == parent_rows_error(rows@, live@, 0),
        r is None ==> final(parents)@ == parent_map(rows@),
        r is None ==> final(starts)@ == firsts(rows@),
{
    let mut i: usize = 0;
    while i < rows.len()
        invariant
            i <= rows@.len(),
            parent_rows_error(rows@, live@, i as int) == parent_rows_error(rows@, live@, 0),
            parents@ == parent_map(rows@.take(i as int)),
            starts@ == firsts(rows@.take(i as int)),
        decreases rows@.len() - i,
    {
        let (entity, parent) = rows[i];
        if entity == parent {
            return Some(HierarchyError::SelfParent { entity });
        }
        if !live.contains(&parent) {
            return Some(HierarchyError::MissingParent { child: entity, parent });
        }
        parents.insert(entity, parent);
        starts.push(entity);
        proof {
            assert(rows@.take(i + 1).drop_last() =~= rows@.take(i as int));
            assert(starts@ =~= firsts(rows@.take(i + 1)));
        }
        i = i + 1;
    }
    proof {
        assert(rows@.take(i as int) =~= rows@);
    }
    None
}

fn scan_children_rows(live: &HashSet<u64>, rows: &Vec<(u64, Vec<u64>)>, keys: &mut HashSet<u128>, edges: &mut Vec<(u64, u64)>) -> (r: Option<HierarchyError>)
    requires
        old(keys)@ == Set::<u128>::empty(),
        old(edges)@.len() == 0,
    ensures
        r == children_rows_error(rows@, live@, 0),
        r is None ==> final(keys)@ == rows_keys(rows@),
        r is None ==> final(edges)@ == reverse_edges(rows@),
{
    let mut i: usize = 0;
    proof {
        assert(rows@.take(0) =~= Seq::<(u64, Vec<u64>)>::empty());
    }
    while i < rows.len()
        invariant
            i <= rows@.len(),
            children_rows_error(rows@, live@, i as int) == children_rows_error(rows@, live@, 0),
            keys@ == rows_keys(rows@.take(i as int)),
            edges@ == reverse_edges(rows@.take(i as int)),
        decreases rows@.len() - i,
    {
        let parent = rows[i].0;
        let children = &rows[i].1;
        if children.len() == 0 {
            return Some(HierarchyError::ReverseEmpty { parent });
        }
        let ghost seen = keys@;
        let ghost edges_before = edges@;
        let mut j: usize = 0;
        while j < children.len()
            invariant
                i < rows@.len(),
                children@.len() > 0,
                children_rows_error(rows@, live@, i as int) == children_rows_error(rows@, live@, 0),
                j <= children@.len(),
                children@ == rows@[i as int].1@,
                parent == rows@[i as int].0,
                seen == rows_keys(rows@.take(i as int)),
                child_error(parent, children@, live@, j as int, keys@) == child_error(parent, children@, live@, 0, seen),
                keys@ == seen.union(keys_of(parent, children@.take(j as int))),
                edges@ == edges_before + children@.take(j as int).map_values(|c: u64| (parent, c)),
            decreases children@.len() - j,
        {
            let child = children[j];
            if !live.contains(&child) {
                return Some(HierarchyError::ReverseChildMissing { parent, child });
            }
            let key = make_pair_key(parent, child);
            if keys.contains(&key) {
                return Some(HierarchyError::ReverseDuplicate { parent, child });
            }
            keys.insert(key);
            edges.push((parent, child));
            proof {
                assert(keys@ =~= seen.union(keys_of(parent, children@.take(j + 1)))) by {
                    assert forall|k: u128| keys_of(parent, children@.take(j + 1)).contains(k)
                        <==> keys_of(parent, children@.take(j as int)).contains(k) || k == pair_key(parent, child) by {
                        if keys_of(parent, children@.take(j + 1)).contains(k) {
                            let w = choose|w: int| 0 <= w < children@.take(j + 1).len() && k == pair_key(parent, #[trigger] children@.take(j + 1)[w]);
                            if w < j {
                                assert(children@.take(j as int)[w] == children@.take(j + 1)[w]);
                            }
                        }
                        if keys_of(parent, children@.take(j as int)).contains(k) {
                            let w = choose|w: int| 0 <= w < children@.take(j as int).len() && k == pair_key(parent, #[trigger] children@.take(j as int)[w]);
                            assert(children@.take(j + 1)[w] == children@.take(j as int)[w]);
                        }
                        if k == pair_key(parent, child) {
                            assert(children@.take(j + 1)[j as int] == child);
                        }
                    }
                }
                assert(edges@ =~= edges_before + children@.take(j + 1).map_values(|c: u64| (parent, c)));
            }
            j = j + 1;
        }
        proof {
            assert(children@.take(j as int) =~= children@);
            assert(rows@.take(i + 1).drop_last() =~= rows@.take(i as int));
            assert(rows@.take(i + 1).last() == rows@[i as int]);
            assert(rows@.take(i as int) =~= rows@.take(i + 1).take(i as int));
        }
        i = i + 1;
    }
    proof {
        assert(rows@.take(i as int) =~= rows@);
    }
    None
}

fn scan_unexpected(edges: &Vec<(u64, u64)>, parents: &HashMap<u64, u64>) -> (r: Option<HierarchyError>)
    ensures
        r == unexpected_error(edges@, parents@, 0),
{
    let mut i: usize = 0;
    while i < edges.len()
        invariant
            i <= edges@.len(),
            unexpected_error(edges@, parents@, i as int) == unexpected_error(edges@, parents@, 0),
        decreases edges@.len() - i,
    {
        let (parent, child) = edges[i];
        let actual_parent = match parents.get(&child) {
            Some(p) => Some(*p),
            None => None,
        };
        let expected = match actual_parent {
            Some(p) => p == parent,
            None => false,
        };
        if !expected {
            return Some(HierarchyError::ReverseUnexpected { parent, child, actual_parent });
        }
        i = i + 1;
    }
    None
}

fn scan_missing(rows: &Vec<(u64, u64)>, keys: &HashSet<u128>) -> (r: Option<HierarchyError>)
    ensures
        r == missing_error(rows@, keys@, 0),
{
    let mut i: usize = 0;
    while i < rows.len()
        invariant
            i <= rows@.len(),
            missing_error(rows@, keys@, i as int) == missing_error(rows@, keys@, 0),
        decreases rows@.len() - i,
    {
        let (child, parent) = rows[i];
        if !keys.contains(&make_pair_key(parent, child)) {
            return Some(HierarchyError::ReverseMissing { parent, child });
        }
        i = i + 1;
    }
    None
}

fn scan_additions(live: &HashSet<u64>, adds: &Vec<(u64, u64)>, parents: &mut HashMap<u64, u64>, starts: &mut Vec<u64>) -> (r: Option<HierarchyError>)
    ensures
        r == additions_error(adds@, live@, old(parents)@, 0),
        r is None ==> final(parents)@ == with_additions(adds@, old(parents)@, 0),
        r is None ==> final(starts)@ == old(starts)@ + firsts(adds@),
{
    let mut i: usize = 0;
    while i < adds.len()
        invariant
            i <= adds@.len(),
            additions_error(adds@, live@, parents@, i as int) == additions_error(adds@, live@, old(parents)@, 0),
            with_additions(adds@, parents@, i as int) == with_additions(adds@, old(parents)@, 0),
            starts@ == old(starts)@ + firsts(adds@.take(i as int)),
        decreases adds@.len() - i,
    {
        let (child, parent) = adds[i];
        if !live.contains(&child) {
            return Some(HierarchyError::MissingChild { child });
        }
        if !live.contains(&parent) {
            return Some(HierarchyError::MissingParent { child, parent });
        }
        if child == parent {
            return Some(HierarchyError::SelfParent { entity: child });
        }
        match parents.get(&child) {
            Some(existing) => return Some(HierarchyError::AlreadyParented { child, parent: *existing }),
            None => {},
        }
        parents.insert(child, parent);
        starts.push(child);
        proof {
            assert(starts@ =~= old(starts)@ + firsts(adds@.take(i + 1)));
        }
        i = i + 1;
    }
    proof {
        assert(adds@.take(i as int) =~= adds@);
    }
    None
}

/// The children of `(child, parent)` edges, in order.
pub open spec fn firsts(edges: Seq<(u64, u64)>) -> Seq<u64> {
    edges.map_values(|e: (u64, u64)| e.0)
}

/// The first failure of every check but the cycle check, in the order the checks run.
pub open spec fn structural_error(
    live: Set<u64>,
    parent_rows: Seq<(u64, u64)>,
    children_rows: Seq<(u64, Vec<u64>)>,
    additions: Seq<(u64, u64)>,
) -> Option<HierarchyError> {
    if let Some(e) = parent_rows_error(parent_rows, live, 0) {
        Some(e)
    } else if let Some(e) = children_rows_error(children_rows, live, 0) {
        Some(e)
    } else if let Some(e) = unexpected_error(reverse_edges(children_rows), parent_map(parent_rows), 0) {
        Some(e)
    } else if let Some(e) = missing_error(parent_rows, rows_keys(children_rows), 0) {
        Some(e)
    } else {
        additions_error(additions, live, parent_map(parent_rows), 0)
    }
}

/// The parent relation with the additions applied.
pub open spec fn final_parents(parent_rows: Seq<(u64, u64)>, additions: Seq<(u64, u64)>) -> Map<u64, u64> {
    with_additions(additions, parent_map(parent_rows), 0)
}

proof fn lemma_parent_map_has_row_children(rows: Seq<(u64, u64)>, k: int)
    requires
        0 <= k < rows.len(),
    ensures
        parent_map(rows).contains_key(rows[k].0),
    decreases rows.len(),
{
    if k < rows.len() - 1 {
        lemma_parent_map_has_row_children(rows.drop_last(), k);
    }
}

proof fn lemma_accepted_additions_from(adds: Seq<(u64, u64)>, live: Set<u64>, m: Map<u64, u64>, i: int)
    requires
        0 <= i,
        additions_error(adds, live, m, i) is None,
    ensures
        forall|j: int| i <= j < adds.len() ==> !m.contains_key(#[trigger] adds[j].0),
        forall|j: int, l: int| i <= j < l < adds.len() ==> #[trigger] adds[j].0 != #[trigger] adds[l].0,
    decreases adds.len() - i,
{
    if i < adds.len() {
        let m2 = m.insert(adds[i].0, adds[i].1);
        lemma_accepted_additions_from(adds, live, m2, i + 1);
        assert forall|j: int| i <= j < adds.len() implies !m.contains_key(#[trigger] adds[j].0) by {
            if j > i {
                assert(!m2.contains_key(adds[j].0));
            }
        }
        assert forall|j: int, l: int| i <= j < l < adds.len() implies #[trigger] adds[j].0 != #[trigger] adds[l].0 by {
            if j == i {
                assert(!m2.contains_key(adds[l].0));
            }
        }
    }
}

proof fn lemma_accepted_additions_live_from(adds: Seq<(u64, u64)>, live: Set<u64>, m: Map<u64, u64>, i: int)
    requires
        0 <= i,
        additions_error(adds, live, m, i) is None,
    ensures
        forall|j: int| i <= j < adds.len() ==> {
            &&& live.contains(#[trigger] adds[j].0)
            &&& live.contains(adds[j].1)
            &&& adds[j].0 != adds[j].1
        },
    decreases adds.len() - i,
{
    if i < adds.len() {
        lemma_accepted_additions_live_from(adds, live, m.insert(adds[i].0, adds[i].1), i + 1);
    }
}

proof fn lemma_accepted_parent_rows_from(rows: Seq<(u64, u64)>, live: Set<u64>, i: int)
    requires
        0 <= i,
        parent_rows_error(rows, live, i) is None,
    ensures
        forall|k: int| i <= k < rows.len() ==> #[trigger] rows[k].0 != rows[k].1 && live.contains(rows[k].1),
    decreases rows.len() - i,
{
    if i < rows.len() {
        lemma_accepted_parent_rows_from(rows, live, i + 1);
    }
}

/// Every link of a hierarchy that passes every structural check joins two different entities
/// whose parent exists, and every added link joins two existing entities.
pub proof fn lemma_accepted_links_are_live(
    live: Set<u64>,
    parent_rows: Seq<(u64, u64)>,
    children_rows: Seq<(u64, Vec<u64>)>,
    additions: Seq<(u64, u64)>,
)
    requires
        structural_error(live, parent_rows, children_rows, additions) is None,
    ensures
        forall|k: int| 0 <= k < parent_rows.len()
            ==> #[trigger] parent_rows[k].0 != parent_rows[k].1 && live.contains(parent_rows[k].1),
        forall|i: int| 0 <= i < additions.len() ==> {
            &&& live.contains(#[trigger] additions[i].0)
            &&& live.contains(additions[i].1)
            &&& additions[i].0 != additions[i].1
        },
{
    lemma_accepted_parent_rows_from(parent_rows, live, 0);
    lemma_accepted_additions_live_from(additions, live, parent_map(parent_rows), 0);
}

/// A batch of additions that passes every structural check (as every batch that
/// `prepare_hierarchy_construction_batch` accepts does) never gives a child a second parent: no
/// added child already has a parent row, and no two additions share a child.
pub proof fn lemma_accepted_additions_single_parent(
    live: Set<u64>,
    parent_rows: Seq<(u64, u64)>,
    children_rows: Seq<(u64, Vec<u64>)>,
    additions: Seq<(u64, u64)>,
)
    requires
        structural_error(live, parent_rows, children_rows, additions) is None,
    ensures
        forall|i: int, k: int| 0 <= i < additions.len() && 0 <= k < parent_rows.len()
            ==> #[trigger] additions[i].0 != #[trigger] parent_rows[k].0,
        forall|i: int, j: int| 0 <= i < j < additions.len() ==> #[trigger] additions[i].0 != #[trigger] additions[j].0,
{
    let m = parent_map(parent_rows);
    assert(additions_error(additions, live, m, 0) is None);
    lemma_accepted_additions_from(additions, live, m, 0);
    assert forall|i: int, k: int| 0 <= i < additions.len() && 0 <= k < parent_rows.len()
        implies #[trigger] additions[i].0 != #[trigger] parent_rows[k].0 by {
        lemma_parent_map_has_row_children(parent_rows, k);
        assert(!m.contains_key(additions[i].0));
    }
}

proof fn lemma_parent_map_keys(rows: Seq<(u64, u64)>, x: u64)
    requires
        parent_map(rows).contains_key(x),
    ensures
        firsts(rows).contains(x),
    decreases rows.len(),
{
    if rows.len() > 0 && x != rows.last().0 {
        lemma_parent_map_keys(rows.drop_last(), x);
        let w = choose|w: int| 0 <= w < rows.drop_last().len() && #[trigger] firsts(rows.drop_last())[w] == x;
        assert(firsts(rows)[w] == x);
    } else if rows.len() > 0 {
        assert(firsts(rows)[rows.len() - 1] == x);
    }
}

proof fn lemma_addition_keys(adds: Seq<(u64, u64)>, m: Map<u64, u64>, i: int, x: u64)
    requires
        0 <= i <= adds.len(),
        with_additions(adds, m, i).contains_key(x),
    ensures
        m.contains_key(x) || firsts(adds.skip(i)).contains(x),
    decreases adds.len() - i,
{
    if i < adds.len() {
        lemma_addition_keys(adds, m.insert(adds[i].0, adds[i].1), i + 1, x);
        if !m.contains_key(x) {
            if x == adds[i].0 {
                assert(firsts(adds.skip(i))[0] == x);
            } else {
                let w = choose|w: int| 0 <= w < adds.skip(i + 1).len() && #[trigger] firsts(adds.skip(i + 1))[w] == x;
                assert(firsts(adds.skip(i))[w + 1] == x);
            }
        }
    } else {
        assert(with_additions(adds, m, i) == m);
    }
}

/// Validates the parent relation, its reverse projection and the additional edges, then
/// that the resulting relation has no cycle.
pub fn validate_hierarchy_with_additions(
    live: &HashSet<u64>,
    parent_rows: &Vec<(u64, u64)>,
    children_rows: &Vec<(u64, Vec<u64>)>,
    additions: &Vec<(u64, u64)>,
) -> (r: Result<(), HierarchyError>)
    ensures
        match structural_error(live@, parent_rows@, children_rows@, additions@) {
            Some(e) => r == Err::<(), HierarchyError>(e),
            None => {
                &&& r is Ok <==> acyclic(final_parents(parent_rows@, additions@))
                &&& r matches Err(e) ==> (e matches HierarchyError::Cycle { entity } && on_cycle(final_parents(parent_rows@, additions@), entity))
            },
        },
{
    let mut parents: HashMap<u64, u64> = HashMap::new();
    let mut starts: Vec<u64> = Vec::new();
    match scan_parent_rows(live, parent_rows, &mut parents, &mut starts) {
        Some(e) => return Err(e),
        None => {},
    }
    let mut keys: HashSet<u128> = HashSet::new();
    let mut edges: Vec<(u64, u64)> = Vec::new();
    match scan_children_rows(live, children_rows, &mut keys, &mut edges) {
        Some(e) => return Err(e),
        None => {},
    }
    match scan_unexpected(&edges, &parents) {
        Some(e) => return Err(e),
        None => {},
    }
    match scan_missing(parent_rows, &keys) {
        Some(e) => return Err(e),
        None => {},
    }
    let ghost base = parents@;
    let ghost base_starts = starts@;
    match scan_additions(live, additions, &mut parents, &mut starts) {
        Some(e) => return Err(e),
        None => {},
    }
    proof {
        assert forall|x: u64| #[trigger] parents@.contains_key(x) implies starts@.contains(x) by {
            lemma_addition_keys(additions@, base, 0, x);
            assert(additions@.skip(0) =~= additions@);
            if base.contains_key(x) {
                lemma_parent_map_keys(parent_rows@, x);
                let w = choose|w: int| 0 <= w < base_starts.len() && base_starts[w] == x;
                assert(starts@[w] == x);
            } else {
                let w = choose|w: int| 0 <= w < additions@.len() && #[trigger] firsts(additions@)[w] == x;
                assert(starts@[base_starts.len() + w] == x);
            }
        }
    }
    check_acyclic(&parents, &starts)
}

/// Validates the hierarchy as it stands.
pub fn validate_hierarchy(
    live: &HashSet<u64>,
    parent_rows: &Vec<(u64, u64)>,
    children_rows: &Vec<(u64, Vec<u64>)>,
) -> (r: Result<(), HierarchyError>)
    ensures
        match structural_error(live@, parent_rows@, children_rows@, Seq::empty()) {
            Some(e) => r == Err::<(), HierarchyError>(e),
            None => {
                &&& r is Ok <==> acyclic(parent_map(parent_rows@))
                &&& r matches Err(e) ==> (e matches HierarchyError::Cycle { entity } && on_cycle(parent_map(parent_rows@), entity))
            },
        },
{
    let additions: Vec<(u64, u64)> = Vec::new();
    let r = validate_hierarchy_with_additions(live, parent_rows, children_rows, &additions);
    proof {
        assert(additions@ =~= Seq::<(u64, u64)>::empty());
        assert(with_additions(additions@, parent_map(parent_rows@), 0) == parent_map(parent_rows@));
    }
    r
}


/// Validates the hierarchy only when its topology generation is not yet complete. A clean
/// validation completes the generation and returns its completed projection; a failed one
/// leaves the state as it was; a complete generation is not scanned again (`Ok(None)`).
pub fn validate_dirty_hierarchy(
    state: &mut HierarchyGenerationState,
    live: &HashSet<u64>,
    parent_rows: &Vec<(u64, u64)>,
    children_rows: &Vec<(u64, Vec<u64>)>,
) -> (r: Result<Option<CompletedHierarchyProjection>, HierarchyError>)
    ensures
        old(state).completed_generation == Some(old(state).topology_generation) ==> r == Ok::<Option<CompletedHierarchyProjection>, HierarchyError>(None)
            && *final(state) == *old(state),
        old(state).completed_generation != Some(old(state).topology_generation) ==> match structural_error(live@, parent_rows@, children_rows@, Seq::empty()) {
            Some(e) => r == Err::<Option<CompletedHierarchyProjection>, HierarchyError>(e) && *final(state) == *old(state),
            None => if acyclic(parent_map(parent_rows@)) {
                &&& r matches Ok(Some(completed)) && completed.spec_generation() == old(state).topology_generation
                &&& final(state).topology_generation == old(state).topology_generation
                &&& final(state).completed_generation == Some(old(state).topology_generation)
            } else {
                &&& r matches Err(e) && e matches HierarchyError::Cycle { entity } && on_cycle(parent_map(parent_rows@), entity)
                &&& *final(state) == *old(state)
            },
        },
{
    if !state.needs_validation() {
        return Ok(None);
    }
    let generation = state.topology_generation;
    match validate_hierarchy(live, parent_rows, children_rows) {
        Err(e) => Err(e),
        Ok(()) => {
            state.complete();
            Ok(Some(CompletedHierarchyProjection::new(generation)))
        },
    }
}

} // verus!
