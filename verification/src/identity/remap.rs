//! Complete, bijective remaps of entity references between two scene instances or worlds.

use vstd::prelude::*;

use crate::identity::keys::{
    compare_durable, compare_runtime, durable, durable_key, durable_reference, key_lt,
    lemma_key_lt_transitive, lemma_key_lt_trichotomy, ref_key, RefKey,
};
use crate::identity::types::{
    EntityReference, RuntimeEntityReference, SceneEntityId, WorldEntityLocator,
    WorldIdentityDomainId,
};
use crate::identity::snapshot::{SceneIdentityReferences, SceneIdentitySnapshot};
use crate::text::{compare_text, TextOrder};

verus! {

#[derive(Debug, Clone, PartialEq, Eq)]
pub enum IdentityRemapError {
    DuplicateExpectedSource { reference: RuntimeEntityReference },
    DuplicateSource { reference: RuntimeEntityReference },
    DuplicateTarget {
        target: Box<RuntimeEntityReference>,
        first_source: Box<RuntimeEntityReference>,
        second_source: Box<RuntimeEntityReference>,
    },
    IncompatibleReferenceAxes { from: Box<RuntimeEntityReference>, to: Box<RuntimeEntityReference> },
    DuplicateEntityReferenceSource { reference: EntityReference },
    DuplicateEntityReferenceTarget {
        target: Box<EntityReference>,
        first_source: Box<EntityReference>,
        second_source: Box<EntityReference>,
    },
    MissingSource { reference: RuntimeEntityReference },
    MissingEntityReferenceSource { reference: EntityReference },
    IncompleteSourceSet,
    IncompleteSceneGroup,
    IncompleteIdentityAxes { entity: SceneEntityId },
    WrongSourceDomain { expected: WorldIdentityDomainId, actual: WorldIdentityDomainId },
}

/// The first expected source from `i` on whose key repeats an earlier one.
pub open spec fn expected_error(expected: Seq<RuntimeEntityReference>, i: int) -> Option<IdentityRemapError>
    decreases expected.len() - i,
{
    if i < 0 || i >= expected.len() {
        None
    } else if exists|j: int| 0 <= j < i && ref_key(#[trigger] expected[j]) == ref_key(expected[i]) {
        Some(IdentityRemapError::DuplicateExpectedSource { reference: expected[i] })
    } else {
        expected_error(expected, i + 1)
    }
}

/// The first entry from `i` on whose source, or else whose target, repeats an earlier one.
pub open spec fn entry_error(entries: Seq<(RuntimeEntityReference, RuntimeEntityReference)>, i: int) -> Option<IdentityRemapError>
    decreases entries.len() - i,
{
    if i < 0 || i >= entries.len() {
        None
    } else if exists|j: int| 0 <= j < i && ref_key((#[trigger] entries[j]).0) == ref_key(entries[i].0) {
        Some(IdentityRemapError::DuplicateSource { reference: entries[i].0 })
    } else if exists|j: int| 0 <= j < i && ref_key((#[trigger] entries[j]).1) == ref_key(entries[i].1) {
        let j = choose|j: int| 0 <= j < i && ref_key((#[trigger] entries[j]).1) == ref_key(entries[i].1);
        Some(IdentityRemapError::DuplicateTarget {
            target: Box::new(entries[i].1),
            first_source: Box::new(entries[j].0),
            second_source: Box::new(entries[i].0),
        })
    } else {
        entry_error(entries, i + 1)
    }
}

pub open spec fn source_keys(entries: Seq<(RuntimeEntityReference, RuntimeEntityReference)>) -> Set<RefKey> {
    Set::new(|k: RefKey| exists|i: int| 0 <= i < entries.len() && ref_key((#[trigger] entries[i]).0) == k)
}

pub open spec fn expected_keys(expected: Seq<RuntimeEntityReference>) -> Set<RefKey> {
    Set::new(|k: RefKey| exists|i: int| 0 <= i < expected.len() && ref_key(#[trigger] expected[i]) == k)
}

/// `sorted` holds exactly the entries, in strictly increasing source key order.
pub open spec fn sorted_by_source(
    sorted: Seq<(RuntimeEntityReference, RuntimeEntityReference)>,
    entries: Seq<(RuntimeEntityReference, RuntimeEntityReference)>,
) -> bool {
    &&& sorted.len() == entries.len()
    &&& forall|i: int, j: int| 0 <= i < j < sorted.len() ==> key_lt(ref_key((#[trigger] sorted[i]).0), ref_key((#[trigger] sorted[j]).0))
    &&& forall|i: int| 0 <= i < sorted.len() ==> entries.contains(#[trigger] sorted[i])
    &&& forall|j: int| 0 <= j < entries.len() ==> sorted.contains(#[trigger] entries[j])
}

/// In the sorted entries from `i` on, the first that changes the reference kind, or whose
/// durable source or durable target repeats an earlier one.
pub open spec fn durable_error(sorted: Seq<(RuntimeEntityReference, RuntimeEntityReference)>, i: int) -> Option<IdentityRemapError>
    decreases sorted.len() - i,
{
    if i < 0 || i >= sorted.len() {
        None
    } else if ref_key(sorted[i].0).kind != ref_key(sorted[i].1).kind {
        Some(IdentityRemapError::IncompatibleReferenceAxes { from: Box::new(sorted[i].0), to: Box::new(sorted[i].1) })
    } else if exists|j: int| 0 <= j < i && durable_key(durable((#[trigger] sorted[j]).0)) == durable_key(durable(sorted[i].0)) {
        Some(IdentityRemapError::DuplicateEntityReferenceSource { reference: durable(sorted[i].0) })
    } else if exists|j: int| 0 <= j < i && durable_key(durable((#[trigger] sorted[j]).1)) == durable_key(durable(sorted[i].1)) {
        let j = choose|j: int| 0 <= j < i && durable_key(durable((#[trigger] sorted[j]).1)) == durable_key(durable(sorted[i].1));
        Some(IdentityRemapError::DuplicateEntityReferenceTarget {
            target: Box::new(durable(sorted[i].1)),
            first_source: Box::new(durable(sorted[j].0)),
            second_source: Box::new(durable(sorted[i].0)),
        })
    } else {
        durable_error(sorted, i + 1)
    }
}

/// The durable pairs of entries.
pub open spec fn durable_pairs(entries: Seq<(RuntimeEntityReference, RuntimeEntityReference)>) -> Seq<(EntityReference, EntityReference)> {
    entries.map_values(|e: (RuntimeEntityReference, RuntimeEntityReference)| (durable(e.0), durable(e.1)))
}

/// A complete bijective remap of runtime references and of their durable references.
#[derive(Debug, PartialEq, Eq)]
pub struct EntityReferenceRemap {
    entries: Vec<(RuntimeEntityReference, RuntimeEntityReference)>,
    entity_references: Vec<(EntityReference, EntityReference)>,
}

impl EntityReferenceRemap {
    pub closed spec fn entry_seq(&self) -> Seq<(RuntimeEntityReference, RuntimeEntityReference)> {
        self.entries@
    }

    pub closed spec fn durable_seq(&self) -> Seq<(EntityReference, EntityReference)> {
        self.entity_references@
    }

    /// Entries in strictly increasing source order; the durable pairs are theirs, with
    /// distinct durable sources.
    #[verifier::type_invariant]
    closed spec fn well_formed(self) -> bool {
        &&& forall|i: int, j: int| 0 <= i < j < self.entries@.len() ==> key_lt(ref_key((#[trigger] self.entries@[i]).0), ref_key((#[trigger] self.entries@[j]).0))
        &&& self.entity_references@ == durable_pairs(self.entries@)
        &&& forall|i: int, j: int| 0 <= i < j < self.entries@.len() ==> durable_key(durable((#[trigger] self.entries@[i]).0)) != durable_key(durable((#[trigger] self.entries@[j]).0))
    }

    /// The target of the entry whose source has `key`, if any.
    pub open spec fn target_of(&self, key: RefKey) -> Option<RuntimeEntityReference> {
        if exists|i: int| 0 <= i < self.entry_seq().len() && ref_key((#[trigger] self.entry_seq()[i]).0) == key {
            let i = choose|i: int| 0 <= i < self.entry_seq().len() && ref_key((#[trigger] self.entry_seq()[i]).0) == key;
            Some(self.entry_seq()[i].1)
        } else {
            None
        }
    }

    /// The durable target of the durable pair whose source has `key`, if any.
    pub open spec fn durable_target_of(&self, key: RefKey) -> Option<EntityReference> {
        if exists|i: int| 0 <= i < self.durable_seq().len() && durable_key((#[trigger] self.durable_seq()[i]).0) == key {
            let i = choose|i: int| 0 <= i < self.durable_seq().len() && durable_key((#[trigger] self.durable_seq()[i]).0) == key;
            Some(self.durable_seq()[i].1)
        } else {
            None
        }
    }

    pub fn get(&self, source: &RuntimeEntityReference) -> (r: Option<&RuntimeEntityReference>)
        ensures
            match self.target_of(ref_key(*source)) {
                Some(t) => r matches Some(x) && *x == t,
                None => r is None,
            },
    {
        proof {
            use_type_invariant(self);
        }
        match find_in_pairs(&self.entries, self.entries.len(), 0, source) {
            Some(i) => {
                proof {
                    let k = choose|k: int| 0 <= k < self.entry_seq().len() && ref_key((#[trigger] self.entry_seq()[k]).0) == ref_key(*source);
                    if k != i {
                        lemma_key_lt_trichotomy(ref_key(self.entries@[k].0), ref_key(self.entries@[k].0));
                        if k < i {
                            assert(key_lt(ref_key(self.entries@[k].0), ref_key(self.entries@[i as int].0)));
                        } else {
                            assert(key_lt(ref_key(self.entries@[i as int].0), ref_key(self.entries@[k].0)));
                        }
                    }
                }
                Some(&self.entries[i].1)
            },
            None => None,
        }
    }

    pub fn len(&self) -> (r: usize)
        ensures
            r == self.entry_seq().len(),
    {
        self.entries.len()
    }

    pub fn is_empty(&self) -> (r: bool)
        ensures
            r == (self.entry_seq().len() == 0),
    {
        self.entries.len() == 0
    }

    /// The pairs in increasing source order.
    pub fn iter(&self) -> (r: &[(RuntimeEntityReference, RuntimeEntityReference)])
        ensures
            r@ == self.entry_seq(),
    {
        self.entries.as_slice()
    }

    /// The target of `source`, or `MissingSource`.
    pub fn rewrite(&self, source: &RuntimeEntityReference) -> (r: Result<RuntimeEntityReference, IdentityRemapError>)
        ensures
            match self.target_of(ref_key(*source)) {
                Some(t) => r == Ok::<RuntimeEntityReference, IdentityRemapError>(t),
                None => r == Err::<RuntimeEntityReference, IdentityRemapError>(IdentityRemapError::MissingSource { reference: *source }),
            },
    {
        match self.get(source) {
            Some(t) => Ok(t.duplicate()),
            None => Err(IdentityRemapError::MissingSource { reference: source.duplicate() }),
        }
    }

    /// The durable target of a durable `source`, or `MissingEntityReferenceSource`.
    pub fn rewrite_entity_reference(&self, source: &EntityReference) -> (r: Result<EntityReference, IdentityRemapError>)
        ensures
            match self.durable_target_of(durable_key(*source)) {
                Some(t) => r == Ok::<EntityReference, IdentityRemapError>(t),
                None => r == Err::<EntityReference, IdentityRemapError>(IdentityRemapError::MissingEntityReferenceSource { reference: *source }),
            },
    {
        proof {
            use_type_invariant(self);
        }
        match find_durable(&self.entity_references, 0, source) {
            Some(i) => {
                proof {
                    let k = choose|k: int| 0 <= k < self.durable_seq().len() && durable_key((#[trigger] self.durable_seq()[k]).0) == durable_key(*source);
                    assert(self.durable_seq()[k].0 == durable(self.entries@[k].0));
                    assert(self.durable_seq()[i as int].0 == durable(self.entries@[i as int].0));
                    if k < i {
                        assert(durable_key(durable(self.entries@[k].0)) != durable_key(durable(self.entries@[i as int].0)));
                    } else if i < k {
                        assert(durable_key(durable(self.entries@[i as int].0)) != durable_key(durable(self.entries@[k].0)));
                    }
                }
                Ok(self.entity_references[i].1.duplicate())
            },
            None => Err(IdentityRemapError::MissingEntityReferenceSource { reference: source.duplicate() }),
        }
    }
}

fn duplicate_pair(p: &(RuntimeEntityReference, RuntimeEntityReference)) -> (r: (RuntimeEntityReference, RuntimeEntityReference))
    ensures
        r == *p,
{
    (p.0.duplicate(), p.1.duplicate())
}

/// The index of the first of the first `n` references of `v` with the key of `r`, if any.
fn find_runtime(v: &Vec<RuntimeEntityReference>, n: usize, r: &RuntimeEntityReference) -> (found: Option<usize>)
    requires
        n <= v@.len(),
    ensures
        match found {
            Some(i) => i < n && ref_key(v@[i as int]) == ref_key(*r)
                && forall|j: int| 0 <= j < i ==> ref_key(#[trigger] v@[j]) != ref_key(*r),
            None => forall|j: int| 0 <= j < n ==> ref_key(#[trigger] v@[j]) != ref_key(*r),
        },
{
    let mut i: usize = 0;
    while i < n
        invariant
            n <= v@.len(),
            i <= n,
            forall|j: int| 0 <= j < i ==> ref_key(#[trigger] v@[j]) != ref_key(*r),
        decreases n - i,
    {
        match compare_runtime(&v[i], r) {
            TextOrder::Equal => return Some(i),
            _ => {},
        }
        i = i + 1;
    }
    None
}

/// The index of the first of the first `n` pairs of `v` whose side `side` (0 or 1) has the
/// key of `r`, if any.
fn find_in_pairs(v: &Vec<(RuntimeEntityReference, RuntimeEntityReference)>, n: usize, side: u8, r: &RuntimeEntityReference) -> (found: Option<usize>)
    requires
        n <= v@.len(),
    ensures
        match found {
            Some(i) => i < n && ref_key(if side == 0 { v@[i as int].0 } else { v@[i as int].1 }) == ref_key(*r)
                && forall|j: int| 0 <= j < i ==> ref_key(if side == 0 { (#[trigger] v@[j]).0 } else { v@[j].1 }) != ref_key(*r),
            None => forall|j: int| 0 <= j < n ==> ref_key(if side == 0 { (#[trigger] v@[j]).0 } else { v@[j].1 }) != ref_key(*r),
        },
{
    let mut i: usize = 0;
    while i < n
        invariant
            n <= v@.len(),
            i <= n,
            forall|j: int| 0 <= j < i ==> ref_key(if side == 0 { (#[trigger] v@[j]).0 } else { v@[j].1 }) != ref_key(*r),
        decreases n - i,
    {
        let candidate = if side == 0 { &v[i].0 } else { &v[i].1 };
        match compare_runtime(candidate, r) {
            TextOrder::Equal => return Some(i),
            _ => {},
        }
        i = i + 1;
    }
    None
}

fn check_expected(expected: &Vec<RuntimeEntityReference>) -> (r: Option<IdentityRemapError>)
    ensures
        r == expected_error(expected@, 0),
        r is None ==> forall|a: int, b: int| 0 <= a < b < expected@.len() ==> ref_key(#[trigger] expected@[a]) != ref_key(#[trigger] expected@[b]),
{
    let mut i: usize = 0;
    while i < expected.len()
        invariant
            i <= expected@.len(),
            expected_error(expected@, i as int) == expected_error(expected@, 0),
            forall|a: int, b: int| 0 <= a < b < i ==> ref_key(#[trigger] expected@[a]) != ref_key(#[trigger] expected@[b]),
        decreases expected@.len() - i,
    {
        match find_runtime(expected, i, &expected[i]) {
            Some(j) => {
                proof {
                    assert(ref_key(expected@[j as int]) == ref_key(expected@[i as int]));
                }
                return Some(IdentityRemapError::DuplicateExpectedSource { reference: expected[i].duplicate() });
            },
            None => {},
        }
        i = i + 1;
    }
    None
}

fn check_entries(entries: &Vec<(RuntimeEntityReference, RuntimeEntityReference)>) -> (r: Option<IdentityRemapError>)
    ensures
        r == entry_error(entries@, 0),
        r is None ==> forall|a: int, b: int| 0 <= a < b < entries@.len() ==> ref_key((#[trigger] entries@[a]).0) != ref_key((#[trigger] entries@[b]).0),
{
    let mut i: usize = 0;
    while i < entries.len()
        invariant
            i <= entries@.len(),
            entry_error(entries@, i as int) == entry_error(entries@, 0),
            forall|a: int, b: int| 0 <= a < b < i ==> ref_key((#[trigger] entries@[a]).0) != ref_key((#[trigger] entries@[b]).0),
            forall|a: int, b: int| 0 <= a < b < i ==> ref_key((#[trigger] entries@[a]).1) != ref_key((#[trigger] entries@[b]).1),
        decreases entries@.len() - i,
    {
        match find_in_pairs(entries, i, 0, &entries[i].0) {
            Some(j) => {
                proof {
                    assert(ref_key(entries@[j as int].0) == ref_key(entries@[i as int].0));
                }
                return Some(IdentityRemapError::DuplicateSource { reference: entries[i].0.duplicate() });
            },
            None => {},
        }
        match find_in_pairs(entries, i, 1, &entries[i].1) {
            Some(j) => {
                proof {
                    let k = choose|k: int| 0 <= k < i && ref_key((#[trigger] entries@[k]).1) == ref_key(entries@[i as int].1);
                    assert(ref_key(entries@[j as int].1) == ref_key(entries@[i as int].1));
                    if k != j {
                        if k < j {
                            assert(ref_key(entries@[k].1) != ref_key(entries@[j as int].1));
                        } else {
                            assert(ref_key(entries@[j as int].1) != ref_key(entries@[k].1));
                        }
                    }
                }
                return Some(IdentityRemapError::DuplicateTarget {
                    target: Box::new(entries[i].1.duplicate()),
                    first_source: Box::new(entries[j].0.duplicate()),
                    second_source: Box::new(entries[i].0.duplicate()),
                });
            },
            None => {},
        }
        i = i + 1;
    }
    None
}

proof fn lemma_source_key_count(entries: Seq<(RuntimeEntityReference, RuntimeEntityReference)>)
    requires
        forall|a: int, b: int| 0 <= a < b < entries.len() ==> ref_key((#[trigger] entries[a]).0) != ref_key((#[trigger] entries[b]).0),
    ensures
        source_keys(entries).finite(),
        source_keys(entries).len() == entries.len(),
{
    let keys = entries.map_values(|e: (RuntimeEntityReference, RuntimeEntityReference)| ref_key(e.0));
    assert(keys.no_duplicates()) by {
        assert forall|a: int, b: int| 0 <= a < keys.len() && 0 <= b < keys.len() && a != b implies keys[a] != keys[b] by {
            if a < b {
                assert(ref_key(entries[a].0) != ref_key(entries[b].0));
            } else {
                assert(ref_key(entries[b].0) != ref_key(entries[a].0));
            }
        }
    }
    keys.unique_seq_to_set();
    assert(source_keys(entries) =~= keys.to_set()) by {
        assert forall|k: RefKey| source_keys(entries).contains(k) <==> keys.to_set().contains(k) by {
            if source_keys(entries).contains(k) {
                let i = choose|i: int| 0 <= i < entries.len() && ref_key((#[trigger] entries[i]).0) == k;
                assert(keys[i] == k);
            }
            if keys.to_set().contains(k) {
                let i = choose|i: int| 0 <= i < keys.len() && keys[i] == k;
                assert(ref_key(entries[i].0) == k);
            }
        }
    }
}

proof fn lemma_expected_key_count(expected: Seq<RuntimeEntityReference>)
    requires
        forall|a: int, b: int| 0 <= a < b < expected.len() ==> ref_key(#[trigger] expected[a]) != ref_key(#[trigger] expected[b]),
    ensures
        expected_keys(expected).finite(),
        expected_keys(expected).len() == expected.len(),
{
    let keys = expected.map_values(|e: RuntimeEntityReference| ref_key(e));
    assert(keys.no_duplicates()) by {
        assert forall|a: int, b: int| 0 <= a < keys.len() && 0 <= b < keys.len() && a != b implies keys[a] != keys[b] by {
            if a < b {
                assert(ref_key(expected[a]) != ref_key(expected[b]));
            } else {
                assert(ref_key(expected[b]) != ref_key(expected[a]));
            }
        }
    }
    keys.unique_seq_to_set();
    assert(expected_keys(expected) =~= keys.to_set()) by {
        assert forall|k: RefKey| expected_keys(expected).contains(k) <==> keys.to_set().contains(k) by {
            if expected_keys(expected).contains(k) {
                let i = choose|i: int| 0 <= i < expected.len() && ref_key(#[trigger] expected[i]) == k;
                assert(keys[i] == k);
            }
            if keys.to_set().contains(k) {
                let i = choose|i: int| 0 <= i < keys.len() && keys[i] == k;
                assert(ref_key(expected[i]) == k);
            }
        }
    }
}

/// Whether the entries' sources are exactly the expected sources, as sets of keys.
fn keys_match(expected: &Vec<RuntimeEntityReference>, entries: &Vec<(RuntimeEntityReference, RuntimeEntityReference)>) -> (r: bool)
    requires
        forall|a: int, b: int| 0 <= a < b < expected@.len() ==> ref_key(#[trigger] expected@[a]) != ref_key(#[trigger] expected@[b]),
        forall|a: int, b: int| 0 <= a < b < entries@.len() ==> ref_key((#[trigger] entries@[a]).0) != ref_key((#[trigger] entries@[b]).0),
    ensures
        r == (source_keys(entries@) == expected_keys(expected@)),
{
    proof {
        lemma_source_key_count(entries@);
        lemma_expected_key_count(expected@);
    }
    if entries.len() != expected.len() {
        return false;
    }
    let mut i: usize = 0;
    while i < entries.len()
        invariant
            i <= entries@.len(),
            entries@.len() == expected@.len(),
            forall|a: int| 0 <= a < i ==> expected_keys(expected@).contains(ref_key((#[trigger] entries@[a]).0)),
        decreases entries@.len() - i,
    {
        match find_runtime(expected, expected.len(), &entries[i].0) {
            None => {
                proof {
                    assert(source_keys(entries@).contains(ref_key(entries@[i as int].0)));
                    assert(!expected_keys(expected@).contains(ref_key(entries@[i as int].0)));
                }
                return false;
            },
            Some(j) => {
                proof {
                    assert(ref_key(expected@[j as int]) == ref_key(entries@[i as int].0));
                }
            },
        }
        i = i + 1;
    }
    proof {
        assert(source_keys(entries@).subset_of(expected_keys(expected@))) by {
            assert forall|k: RefKey| source_keys(entries@).contains(k) implies expected_keys(expected@).contains(k) by {
                let a = choose|a: int| 0 <= a < entries@.len() && ref_key((#[trigger] entries@[a]).0) == k;
            }
        }
        vstd::set_lib::lemma_subset_equality(source_keys(entries@), expected_keys(expected@));
    }
    true
}

/// The entries in strictly increasing source key order.
fn sort_by_source(entries: &Vec<(RuntimeEntityReference, RuntimeEntityReference)>) -> (sorted: Vec<(RuntimeEntityReference, RuntimeEntityReference)>)
    requires
        forall|a: int, b: int| 0 <= a < b < entries@.len() ==> ref_key((#[trigger] entries@[a]).0) != ref_key((#[trigger] entries@[b]).0),
    ensures
        sorted_by_source(sorted@, entries@),
{
    let mut sorted: Vec<(RuntimeEntityReference, RuntimeEntityReference)> = Vec::new();
    let mut i: usize = 0;
    while i < entries.len()
        invariant
            i <= entries@.len(),
            forall|a: int, b: int| 0 <= a < b < entries@.len() ==> ref_key((#[trigger] entries@[a]).0) != ref_key((#[trigger] entries@[b]).0),
            sorted@.len() == i,
            forall|a: int, b: int| 0 <= a < b < sorted@.len() ==> key_lt(ref_key((#[trigger] sorted@[a]).0), ref_key((#[trigger] sorted@[b]).0)),
            forall|a: int| 0 <= a < sorted@.len() ==> exists|k: int| 0 <= k < i && #[trigger] sorted@[a] == entries@[k],
            forall|k: int| 0 <= k < i ==> sorted@.contains(#[trigger] entries@[k]),
        decreases entries@.len() - i,
    {
        let ghost e = entries@[i as int];
        let mut p: usize = 0;
        while p < sorted.len() && compare_runtime(&sorted[p].0, &entries[i].0) == TextOrder::Less
            invariant
                i < entries@.len(),
                p <= sorted@.len(),
                forall|a: int| 0 <= a < p ==> key_lt(ref_key((#[trigger] sorted@[a]).0), ref_key(e.0)),
                e == entries@[i as int],
            decreases sorted@.len() - p,
        {
            p = p + 1;
        }
        proof {
            // Every later entry of `sorted` has a greater key than `e`.
            assert forall|a: int| p <= a < sorted@.len() implies key_lt(ref_key(e.0), ref_key((#[trigger] sorted@[a]).0)) by {
                let k = choose|k: int| 0 <= k < i && #[trigger] sorted@[p as int] == entries@[k];
                assert(ref_key(entries@[k].0) != ref_key(e.0));
                lemma_key_lt_trichotomy(ref_key(sorted@[p as int].0), ref_key(e.0));
                if a > p {
                    lemma_key_lt_transitive(ref_key(e.0), ref_key(sorted@[p as int].0), ref_key(sorted@[a].0));
                }
            }
        }
        let ghost before = sorted@;
        sorted.insert(p, duplicate_pair(&entries[i]));
        proof {
            let s = sorted@;
            assert(s[p as int] == e);
            assert forall|a: int, b: int| 0 <= a < b < s.len() implies key_lt(ref_key((#[trigger] s[a]).0), ref_key((#[trigger] s[b]).0)) by {
                if b < p {
                    assert(s[a] == before[a] && s[b] == before[b]);
                } else if b == p {
                    assert(s[a] == before[a]);
                } else if a < p {
                    assert(s[a] == before[a] && s[b] == before[b - 1]);
                    lemma_key_lt_transitive(ref_key(before[a].0), ref_key(e.0), ref_key(before[b - 1].0));
                } else if a == p {
                    assert(s[b] == before[b - 1]);
                } else {
                    assert(s[a] == before[a - 1] && s[b] == before[b - 1]);
                }
            }
            assert forall|a: int| 0 <= a < s.len() implies exists|k: int| 0 <= k < i + 1 && #[trigger] s[a] == entries@[k] by {
                if a < p {
                    assert(s[a] == before[a]);
                } else if a == p {
                    assert(s[a] == entries@[i as int]);
                } else {
                    assert(s[a] == before[a - 1]);
                }
            }
            assert forall|k: int| 0 <= k < i + 1 implies s.contains(#[trigger] entries@[k]) by {
                if k == i {
                    assert(s[p as int] == entries@[k]);
                } else {
                    assert(before.contains(entries@[k]));
                    let a = choose|a: int| 0 <= a < before.len() && before[a] == entries@[k];
                    if a < p {
                        assert(s[a] == before[a]);
                    } else {
                        assert(s[a + 1] == before[a]);
                    }
                }
            }
        }
        i = i + 1;
    }
    proof {
        assert forall|a: int| 0 <= a < sorted@.len() implies entries@.contains(#[trigger] sorted@[a]) by {
            let k = choose|k: int| 0 <= k < i && #[trigger] sorted@[a] == entries@[k];
        }
    }
    sorted
}

fn same_axis(a: &RuntimeEntityReference, b: &RuntimeEntityReference) -> (r: bool)
    ensures
        r == (ref_key(*a).kind == ref_key(*b).kind),
{
    match (a, b) {
        (RuntimeEntityReference::Scene { .. }, RuntimeEntityReference::Scene { .. }) => true,
        (RuntimeEntityReference::Persistent { .. }, RuntimeEntityReference::Persistent { .. }) => true,
        _ => false,
    }
}

/// The index of the first of the durable pairs whose side `side` has the key of `r`, if any.
fn find_durable(v: &Vec<(EntityReference, EntityReference)>, side: u8, r: &EntityReference) -> (found: Option<usize>)
    ensures
        match found {
            Some(i) => i < v@.len() && durable_key(if side == 0 { v@[i as int].0 } else { v@[i as int].1 }) == durable_key(*r)
                && forall|j: int| 0 <= j < i ==> durable_key(if side == 0 { (#[trigger] v@[j]).0 } else { v@[j].1 }) != durable_key(*r),
            None => forall|j: int| 0 <= j < v@.len() ==> durable_key(if side == 0 { (#[trigger] v@[j]).0 } else { v@[j].1 }) != durable_key(*r),
        },
{
    let mut i: usize = 0;
    while i < v.len()
        invariant
            i <= v@.len(),
            forall|j: int| 0 <= j < i ==> durable_key(if side == 0 { (#[trigger] v@[j]).0 } else { v@[j].1 }) != durable_key(*r),
        decreases v@.len() - i,
    {
        let candidate = if side == 0 { &v[i].0 } else { &v[i].1 };
        match compare_durable(candidate, r) {
            TextOrder::Equal => return Some(i),
            _ => {},
        }
        i = i + 1;
    }
    None
}

fn check_durable(sorted: &Vec<(RuntimeEntityReference, RuntimeEntityReference)>) -> (r: (Option<IdentityRemapError>, Vec<(EntityReference, EntityReference)>))
    ensures
        r.0 == durable_error(sorted@, 0),
        r.0 is None ==> r.1@ == durable_pairs(sorted@),
{
    let mut pairs: Vec<(EntityReference, EntityReference)> = Vec::new();
    let mut i: usize = 0;
    while i < sorted.len()
        invariant
            i <= sorted@.len(),
            durable_error(sorted@, i as int) == durable_error(sorted@, 0),
            pairs@ == durable_pairs(sorted@.take(i as int)),
            forall|a: int, b: int| 0 <= a < b < i ==> durable_key(durable((#[trigger] sorted@[a]).1)) != durable_key(durable((#[trigger] sorted@[b]).1)),
        decreases sorted@.len() - i,
    {
        let source = &sorted[i].0;
        let target = &sorted[i].1;
        if !same_axis(source, target) {
            return (Some(IdentityRemapError::IncompatibleReferenceAxes { from: Box::new(source.duplicate()), to: Box::new(target.duplicate()) }), pairs);
        }
        let durable_source = durable_reference(source);
        let durable_target = durable_reference(target);
        match find_durable(&pairs, 0, &durable_source) {
            Some(j) => {
                proof {
                    assert(pairs@[j as int].0 == durable(sorted@[j as int].0));
                }
                return (Some(IdentityRemapError::DuplicateEntityReferenceSource { reference: durable_source }), pairs);
            },
            None => {
                proof {
                    assert forall|j: int| 0 <= j < i implies durable_key(durable((#[trigger] sorted@[j]).0)) != durable_key(durable(sorted@[i as int].0)) by {
                        assert(pairs@[j].0 == durable(sorted@[j].0));
                    }
                }
            },
        }
        match find_durable(&pairs, 1, &durable_target) {
            Some(j) => {
                proof {
                    assert(pairs@[j as int].1 == durable(sorted@[j as int].1));
                    let k = choose|k: int| 0 <= k < i && durable_key(durable((#[trigger] sorted@[k]).1)) == durable_key(durable(sorted@[i as int].1));
                    if k != j {
                        if k < j {
                            assert(durable_key(durable(sorted@[k].1)) != durable_key(durable(sorted@[j as int].1)));
                        } else {
                            assert(durable_key(durable(sorted@[j as int].1)) != durable_key(durable(sorted@[k].1)));
                        }
                    }
                    assert(pairs@[j as int].0 == durable(sorted@[j as int].0));
                }
                let first_source = pairs[j].0.duplicate();
                return (Some(IdentityRemapError::DuplicateEntityReferenceTarget {
                    target: Box::new(durable_target),
                    first_source: Box::new(first_source),
                    second_source: Box::new(durable_source),
                }), pairs);
            },
            None => {
                proof {
                    assert forall|j: int| 0 <= j < i implies durable_key(durable((#[trigger] sorted@[j]).1)) != durable_key(durable(sorted@[i as int].1)) by {
                        assert(pairs@[j].1 == durable(sorted@[j].1));
                    }
                }
            },
        }
        pairs.push((durable_source, durable_target));
        proof {
            assert(pairs@ =~= durable_pairs(sorted@.take(i + 1)));
        }
        i = i + 1;
    }
    proof {
        assert(sorted@.take(i as int) =~= sorted@);
    }
    (None, pairs)
}

/// `r` is the outcome of completing a remap of `entries` expected to cover `expected`.
pub open spec fn completes(
    expected: Seq<RuntimeEntityReference>,
    entries: Seq<(RuntimeEntityReference, RuntimeEntityReference)>,
    r: Result<EntityReferenceRemap, IdentityRemapError>,
) -> bool {
    match expected_error(expected, 0) {
        Some(e) => r == Err::<EntityReferenceRemap, IdentityRemapError>(e),
        None => match entry_error(entries, 0) {
            Some(e) => r == Err::<EntityReferenceRemap, IdentityRemapError>(e),
            None => if source_keys(entries) != expected_keys(expected) {
                r == Err::<EntityReferenceRemap, IdentityRemapError>(IdentityRemapError::IncompleteSourceSet)
            } else {
                exists|sorted: Seq<(RuntimeEntityReference, RuntimeEntityReference)>|
                    #[trigger] sorted_by_source(sorted, entries) && match durable_error(sorted, 0) {
                        Some(e) => r == Err::<EntityReferenceRemap, IdentityRemapError>(e),
                        None => r matches Ok(m) && m.entry_seq() == sorted && m.durable_seq() == durable_pairs(sorted),
                    }
            },
        },
    }
}

proof fn lemma_durable_sources_distinct(sorted: Seq<(RuntimeEntityReference, RuntimeEntityReference)>)
    requires
        durable_error(sorted, 0) is None,
    ensures
        forall|i: int, j: int| 0 <= i < j < sorted.len() ==> durable_key(durable((#[trigger] sorted[i]).0)) != durable_key(durable((#[trigger] sorted[j]).0)),
{
    assert forall|i: int, j: int| 0 <= i < j < sorted.len() implies durable_key(durable((#[trigger] sorted[i]).0)) != durable_key(durable((#[trigger] sorted[j]).0)) by {
        lemma_durable_error_none_at(sorted, 0, j);
    }
}

proof fn lemma_durable_error_none_at(sorted: Seq<(RuntimeEntityReference, RuntimeEntityReference)>, from: int, j: int)
    requires
        0 <= from <= j < sorted.len(),
        durable_error(sorted, from) is None,
    ensures
        !(exists|i: int| 0 <= i < j && durable_key(durable((#[trigger] sorted[i]).0)) == durable_key(durable(sorted[j].0))),
    decreases j - from,
{
    if from < j {
        lemma_durable_error_none_at(sorted, from + 1, j);
    }
}

impl EntityReferenceRemap {
    /// The remap of `entries`, which must be a bijection with distinct sources and targets,
    /// covering exactly `expected_sources`, and keeping each reference's kind; the durable
    /// references must form a bijection too.
    pub fn complete(expected_sources: Vec<RuntimeEntityReference>, entries: Vec<(RuntimeEntityReference, RuntimeEntityReference)>) -> (r: Result<Self, IdentityRemapError>)
        ensures
            completes(expected_sources@, entries@, r),
    {
        match check_expected(&expected_sources) {
            Some(e) => return Err(e),
            None => {},
        }
        match check_entries(&entries) {
            Some(e) => return Err(e),
            None => {},
        }
        if !keys_match(&expected_sources, &entries) {
            return Err(IdentityRemapError::IncompleteSourceSet);
        }
        let sorted = sort_by_source(&entries);
        let (error, pairs) = check_durable(&sorted);
        proof {
            assert(sorted_by_source(sorted@, entries@));
        }
        match error {
            Some(e) => Err(e),
            None => {
                proof {
                    lemma_durable_sources_distinct(sorted@);
                }
                Ok(EntityReferenceRemap { entries: sorted, entity_references: pairs })
            },
        }
    }
}

/// The scene entity id texts of snapshot entries, in order.
pub open spec fn snapshot_ids(s: Seq<(SceneEntityId, SceneIdentityReferences)>) -> Seq<Seq<char>> {
    s.map_values(|e: (SceneEntityId, SceneIdentityReferences)| e.0.view())
}

/// The first entity from `i` on registered with a persistent reference on one side only.
pub open spec fn axes_error(
    source: Seq<(SceneEntityId, SceneIdentityReferences)>,
    target: Seq<(SceneEntityId, SceneIdentityReferences)>,
    i: int,
) -> Option<IdentityRemapError>
    decreases source.len() - i,
{
    if i < 0 || i >= source.len() || i >= target.len() {
        None
    } else if (source[i].1.persistent is Some) != (target[i].1.persistent is Some) {
        Some(IdentityRemapError::IncompleteIdentityAxes { entity: source[i].0 })
    } else {
        axes_error(source, target, i + 1)
    }
}

/// The reference pairs of two snapshots with the same entities: each entity's scene
/// references, then its persistent references where both have them.
pub open spec fn snapshot_entries(
    source: Seq<(SceneEntityId, SceneIdentityReferences)>,
    target: Seq<(SceneEntityId, SceneIdentityReferences)>,
) -> Seq<(RuntimeEntityReference, RuntimeEntityReference)>
    decreases source.len(),
{
    if source.len() == 0 || target.len() == 0 {
        Seq::empty()
    } else {
        let s = source.last().1;
        let t = target.last().1;
        snapshot_entries(source.drop_last(), target.drop_last())
            + seq![(s.scene, t.scene)]
            + match (s.persistent, t.persistent) {
                (Some(sp), Some(tp)) => seq![(sp, tp)],
                _ => Seq::empty(),
            }
    }
}

/// The sources of entries, in order.
pub open spec fn entry_sources(entries: Seq<(RuntimeEntityReference, RuntimeEntityReference)>) -> Seq<RuntimeEntityReference> {
    entries.map_values(|e: (RuntimeEntityReference, RuntimeEntityReference)| e.0)
}

/// `r` is the outcome of remapping snapshot `source` onto snapshot `target`.
pub open spec fn snapshot_remap(
    source: Seq<(SceneEntityId, SceneIdentityReferences)>,
    target: Seq<(SceneEntityId, SceneIdentityReferences)>,
    r: Result<EntityReferenceRemap, IdentityRemapError>,
) -> bool {
    if snapshot_ids(source) != snapshot_ids(target) {
        r == Err::<EntityReferenceRemap, IdentityRemapError>(IdentityRemapError::IncompleteSceneGroup)
    } else {
        match axes_error(source, target, 0) {
            Some(e) => r == Err::<EntityReferenceRemap, IdentityRemapError>(e),
            None => completes(entry_sources(snapshot_entries(source, target)), snapshot_entries(source, target), r),
        }
    }
}

fn same_ids(source: &SceneIdentitySnapshot, target: &SceneIdentitySnapshot) -> (r: bool)
    ensures
        r == (snapshot_ids(source.entity_seq()) == snapshot_ids(target.entity_seq())),
{
    let a = source.entries();
    let b = target.entries();
    if a.len() != b.len() {
        proof {
            assert(snapshot_ids(a@).len() != snapshot_ids(b@).len());
        }
        return false;
    }
    let mut i: usize = 0;
    while i < a.len()
        invariant
            a@ == source.entity_seq(),
            b@ == target.entity_seq(),
            a@.len() == b@.len(),
            i <= a@.len(),
            forall|k: int| 0 <= k < i ==> (#[trigger] a@[k]).0.view() == b@[k].0.view(),
        decreases a@.len() - i,
    {
        match compare_text(a[i].0.as_str(), b[i].0.as_str()) {
            TextOrder::Equal => {},
            _ => {
                proof {
                    assert(snapshot_ids(a@)[i as int] != snapshot_ids(b@)[i as int]);
                }
                return false;
            },
        }
        i = i + 1;
    }
    proof {
        assert(snapshot_ids(a@) =~= snapshot_ids(b@));
    }
    true
}

impl EntityReferenceRemap {
    /// The remap from the identities of one scene snapshot onto another with the same entities.
    pub fn between_scene_snapshots(source: &SceneIdentitySnapshot, target: &SceneIdentitySnapshot) -> (r: Result<Self, IdentityRemapError>)
        ensures
            snapshot_remap(source.entity_seq(), target.entity_seq(), r),
    {
        if !same_ids(source, target) {
            return Err(IdentityRemapError::IncompleteSceneGroup);
        }
        let a = source.entries();
        let b = target.entries();
        let mut entries: Vec<(RuntimeEntityReference, RuntimeEntityReference)> = Vec::new();
        let mut expected: Vec<RuntimeEntityReference> = Vec::new();
        let mut i: usize = 0;
        proof {
            assert(snapshot_ids(a@).len() == a@.len());
            assert(a@.take(0) =~= Seq::<(SceneEntityId, SceneIdentityReferences)>::empty());
            assert(b@.take(0) =~= Seq::<(SceneEntityId, SceneIdentityReferences)>::empty());
        }
        while i < a.len()
            invariant
                a@ == source.entity_seq(),
                b@ == target.entity_seq(),
                a@.len() == b@.len(),
                snapshot_ids(a@) == snapshot_ids(b@),
                i <= a@.len(),
                axes_error(a@, b@, i as int) == axes_error(a@, b@, 0),
                entries@ == snapshot_entries(a@.take(i as int), b@.take(i as int)),
                expected@ == entry_sources(entries@),
            decreases a@.len() - i,
        {
            let s = &a[i].1;
            let t = &b[i].1;
            entries.push((s.scene.duplicate(), t.scene.duplicate()));
            expected.push(s.scene.duplicate());
            match (&s.persistent, &t.persistent) {
                (Some(sp), Some(tp)) => {
                    entries.push((sp.duplicate(), tp.duplicate()));
                    expected.push(sp.duplicate());
                },
                (None, None) => {},
                _ => return Err(IdentityRemapError::IncompleteIdentityAxes { entity: a[i].0.duplicate() }),
            }
            proof {
                assert(a@.take(i + 1).drop_last() =~= a@.take(i as int));
                assert(b@.take(i + 1).drop_last() =~= b@.take(i as int));
                assert(a@.take(i + 1).last() == a@[i as int]);
                assert(b@.take(i + 1).last() == b@[i as int]);
                assert(entries@ =~= snapshot_entries(a@.take(i + 1), b@.take(i + 1)));
                assert(expected@ =~= entry_sources(entries@));
            }
            i = i + 1;
        }
        proof {
            assert(a@.take(i as int) =~= a@);
            assert(b@.take(i as int) =~= b@);
        }
        EntityReferenceRemap::complete(expected, entries)
    }
}

/// A reference remap between two world identity domains.
#[derive(Debug, PartialEq, Eq)]
pub struct WorldEntityLocatorRemap {
    source_domain: WorldIdentityDomainId,
    target_domain: WorldIdentityDomainId,
    references: EntityReferenceRemap,
}

impl WorldEntityLocatorRemap {
    pub closed spec fn spec_source_domain(&self) -> WorldIdentityDomainId {
        self.source_domain
    }

    pub closed spec fn spec_target_domain(&self) -> WorldIdentityDomainId {
        self.target_domain
    }

    pub closed spec fn spec_references(&self) -> &EntityReferenceRemap {
        &self.references
    }

    /// The remap from one scene snapshot's domain and identities onto another's.
    pub fn between_scene_snapshots(source: &SceneIdentitySnapshot, target: &SceneIdentitySnapshot) -> (r: Result<Self, IdentityRemapError>)
        ensures
            match r {
                Ok(m) => m.spec_source_domain() == source.spec_domain()
                    && m.spec_target_domain() == target.spec_domain()
                    && snapshot_remap(source.entity_seq(), target.entity_seq(), Ok(*m.spec_references())),
                Err(e) => snapshot_remap(source.entity_seq(), target.entity_seq(), Err(e)),
            },
    {
        match EntityReferenceRemap::between_scene_snapshots(source, target) {
            Err(e) => Err(e),
            Ok(references) => Ok(WorldEntityLocatorRemap {
                source_domain: source.domain_id(),
                target_domain: target.domain_id(),
                references,
            }),
        }
    }

    /// The locator in the target domain of a locator in the source domain.
    pub fn rewrite(&self, source: &WorldEntityLocator) -> (r: Result<WorldEntityLocator, IdentityRemapError>)
        ensures
            source.spec_domain() != self.spec_source_domain() ==> r == Err::<WorldEntityLocator, IdentityRemapError>(
                IdentityRemapError::WrongSourceDomain { expected: self.spec_source_domain(), actual: source.spec_domain() }),
            source.spec_domain() == self.spec_source_domain() ==> match self.spec_references().target_of(ref_key(source.spec_entity())) {
                Some(t) => r matches Ok(l) && l.spec_domain() == self.spec_target_domain() && l.spec_entity() == t,
                None => r == Err::<WorldEntityLocator, IdentityRemapError>(IdentityRemapError::MissingSource { reference: source.spec_entity() }),
            },
    {
        if source.domain_id() != self.source_domain {
            return Err(IdentityRemapError::WrongSourceDomain { expected: self.source_domain, actual: source.domain_id() });
        }
        match self.references.rewrite(source.entity()) {
            Err(e) => Err(e),
            Ok(entity) => Ok(WorldEntityLocator::new(self.target_domain, entity)),
        }
    }

    pub fn source_domain(&self) -> (r: WorldIdentityDomainId)
        ensures
            r == self.spec_source_domain(),
    {
        self.source_domain
    }

    pub fn target_domain(&self) -> (r: WorldIdentityDomainId)
        ensures
            r == self.spec_target_domain(),
    {
        self.target_domain
    }

    pub fn references(&self) -> (r: &EntityReferenceRemap)
        ensures
            *r == *self.spec_references(),
    {
        &self.references
    }
}

} // verus!
