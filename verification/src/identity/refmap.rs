//! Collections keyed by entity references: a set, and a map to runtime entities kept in
//! reference order.

use vstd::prelude::*;

use crate::identity::keys::{compare_runtime, key_lt, lemma_key_lt_transitive, lemma_key_lt_trichotomy, ref_key, RefKey};
use crate::identity::types::RuntimeEntityReference;
use crate::text::TextOrder;

verus! {

/// References with distinct keys.
#[derive(Debug)]
pub struct RefSet {
    refs: Vec<RuntimeEntityReference>,
}

impl RefSet {
    pub closed spec fn keys(&self) -> Set<RefKey> {
        Set::new(|k: RefKey| exists|i: int| 0 <= i < self.refs@.len() && ref_key(#[trigger] self.refs@[i]) == k)
    }

    pub closed spec fn count(&self) -> nat {
        self.refs@.len()
    }

    #[verifier::type_invariant]
    closed spec fn distinct(self) -> bool {
        forall|i: int, j: int| 0 <= i < j < self.refs@.len() ==> ref_key(#[trigger] self.refs@[i]) != ref_key(#[trigger] self.refs@[j])
    }

    pub fn new() -> (r: Self)
        ensures
            r.keys() == Set::<RefKey>::empty(),
            r.count() == 0,
    {
        let r = RefSet { refs: Vec::new() };
        proof {
            assert(r.keys() =~= Set::<RefKey>::empty());
        }
        r
    }

    pub fn contains(&self, r: &RuntimeEntityReference) -> (b: bool)
        ensures
            b == self.keys().contains(ref_key(*r)),
    {
        let mut i: usize = 0;
        while i < self.refs.len()
            invariant
                i <= self.refs@.len(),
                forall|j: int| 0 <= j < i ==> ref_key(#[trigger] self.refs@[j]) != ref_key(*r),
            decreases self.refs@.len() - i,
        {
            match compare_runtime(&self.refs[i], r) {
                TextOrder::Equal => {
                    proof {
                        assert(ref_key(self.refs@[i as int]) == ref_key(*r));
                    }
                    return true;
                },
                _ => {},
            }
            i = i + 1;
        }
        false
    }

    /// Adds `r`, whose key must be new.
    pub fn insert(&mut self, r: RuntimeEntityReference)
        requires
            !old(self).keys().contains(ref_key(r)),
        ensures
            final(self).keys() == old(self).keys().insert(ref_key(r)),
            final(self).count() == old(self).count() + 1,
    {
        proof {
            use_type_invariant(&*self);
        }
        let ghost before = self.refs@;
        let ghost k = ref_key(r);
        let mut refs = Vec::new();
        std::mem::swap(&mut refs, &mut self.refs);
        refs.push(r);
        proof {
            assert forall|i: int, j: int| 0 <= i < j < refs@.len() implies ref_key(#[trigger] refs@[i]) != ref_key(#[trigger] refs@[j]) by {
                if j == refs@.len() - 1 {
                    assert(refs@[i] == before[i]);
                }
            }
        }
        self.refs = refs;
        proof {
            assert forall|x: RefKey| self.keys().contains(x) <==> old(self).keys().insert(k).contains(x) by {
                if self.keys().contains(x) {
                    let i = choose|i: int| 0 <= i < self.refs@.len() && ref_key(#[trigger] self.refs@[i]) == x;
                    if i < before.len() {
                        assert(before[i] == self.refs@[i]);
                    }
                }
                if old(self).keys().contains(x) {
                    let i = choose|i: int| 0 <= i < before.len() && ref_key(#[trigger] before[i]) == x;
                    assert(self.refs@[i] == before[i]);
                }
                if x == k {
                    assert(self.refs@[before.len() as int] == r);
                }
            }
            assert(self.keys() =~= old(self).keys().insert(k));
        }
    }

    pub fn len(&self) -> (r: usize)
        ensures
            r == self.count(),
            self.keys().finite(),
            self.keys().len() == r,
    {
        proof {
            use_type_invariant(self);
            lemma_distinct_key_count(self.refs@);
            assert(self.keys() =~= Set::new(|k: RefKey| exists|i: int| 0 <= i < self.refs@.len() && ref_key(#[trigger] self.refs@[i]) == k));
        }
        self.refs.len()
    }
}

/// Distinct keys, counted.
proof fn lemma_distinct_key_count(refs: Seq<RuntimeEntityReference>)
    requires
        forall|i: int, j: int| 0 <= i < j < refs.len() ==> ref_key(#[trigger] refs[i]) != ref_key(#[trigger] refs[j]),
    ensures
        ({
            let keys = Set::new(|k: RefKey| exists|i: int| 0 <= i < refs.len() && ref_key(#[trigger] refs[i]) == k);
            keys.finite() && keys.len() == refs.len()
        }),
{
    let keys = Set::new(|k: RefKey| exists|i: int| 0 <= i < refs.len() && ref_key(#[trigger] refs[i]) == k);
    let ks = refs.map_values(|r: RuntimeEntityReference| ref_key(r));
    assert(keys =~= ks.to_set()) by {
        assert forall|k: RefKey| keys.contains(k) implies ks.to_set().contains(k) by {
            let i = choose|i: int| 0 <= i < refs.len() && ref_key(#[trigger] refs[i]) == k;
            assert(ks[i] == k);
        }
        assert forall|k: RefKey| ks.to_set().contains(k) implies keys.contains(k) by {
            let i = choose|i: int| 0 <= i < ks.len() && ks[i] == k;
            assert(ref_key(refs[i]) == k);
        }
    }
    assert(ks.no_duplicates()) by {
        assert forall|i: int, j: int| 0 <= i < ks.len() && 0 <= j < ks.len() && i != j implies ks[i] != ks[j] by {
            if i < j {
                assert(ref_key(refs[i]) != ref_key(refs[j]));
            } else {
                assert(ref_key(refs[j]) != ref_key(refs[i]));
            }
        }
    }
    ks.unique_seq_to_set();
    vstd::seq_lib::seq_to_set_is_finite(ks);
}

spec fn sorted_entries(s: Seq<(RuntimeEntityReference, u64)>) -> bool {
    forall|i: int, j: int| 0 <= i < j < s.len() ==> key_lt(ref_key((#[trigger] s[i]).0), ref_key((#[trigger] s[j]).0))
}

/// In a strictly increasing sequence a key sits at one position only.
proof fn lemma_unique(s: Seq<(RuntimeEntityReference, u64)>, i: int, j: int)
    requires
        sorted_entries(s),
        0 <= i < s.len(),
        0 <= j < s.len(),
        ref_key(s[i].0) == ref_key(s[j].0),
    ensures
        i == j,
{
    if i < j {
        lemma_key_lt_trichotomy(ref_key(s[i].0), ref_key(s[j].0));
    } else if j < i {
        lemma_key_lt_trichotomy(ref_key(s[j].0), ref_key(s[i].0));
    }
}

/// Runtime entities by reference, kept in strictly increasing reference order.
#[derive(Debug)]
pub struct RefMap {
    entries: Vec<(RuntimeEntityReference, u64)>,
}

impl RefMap {
    /// The entity of each reference key.
    pub closed spec fn map(&self) -> Map<RefKey, u64> {
        Map::new(
            |k: RefKey| exists|i: int| 0 <= i < self.entries@.len() && ref_key((#[trigger] self.entries@[i]).0) == k,
            |k: RefKey| self.entries@[choose|i: int| 0 <= i < self.entries@.len() && ref_key((#[trigger] self.entries@[i]).0) == k].1,
        )
    }

    /// The references, in increasing order.
    pub closed spec fn ordered_refs(&self) -> Seq<RuntimeEntityReference> {
        self.entries@.map_values(|e: (RuntimeEntityReference, u64)| e.0)
    }

    #[verifier::type_invariant]
    closed spec fn sorted(self) -> bool {
        sorted_entries(self.entries@)
    }

    pub fn new() -> (r: Self)
        ensures
            r.map() == Map::<RefKey, u64>::empty(),
            r.ordered_refs().len() == 0,
    {
        let r = RefMap { entries: Vec::new() };
        proof {
            assert(r.map() =~= Map::<RefKey, u64>::empty());
        }
        r
    }

    /// The first position whose key is not below `r`'s, and whether it holds `r`'s key.
    fn position(&self, r: &RuntimeEntityReference) -> (p: (usize, bool))
        ensures
            p.0 <= self.entries@.len(),
            forall|i: int| 0 <= i < p.0 ==> key_lt(ref_key((#[trigger] self.entries@[i]).0), ref_key(*r)),
            p.1 <==> (p.0 < self.entries@.len() && ref_key(self.entries@[p.0 as int].0) == ref_key(*r)),
            !p.1 ==> forall|i: int| p.0 <= i < self.entries@.len() ==> key_lt(ref_key(*r), ref_key((#[trigger] self.entries@[i]).0)),
    {
        proof {
            use_type_invariant(self);
        }
        let mut i: usize = 0;
        while i < self.entries.len()
            invariant
                i <= self.entries@.len(),
                sorted_entries(self.entries@),
                forall|k: int| 0 <= k < i ==> key_lt(ref_key((#[trigger] self.entries@[k]).0), ref_key(*r)),
            decreases self.entries@.len() - i,
        {
            match compare_runtime(&self.entries[i].0, r) {
                TextOrder::Less => {},
                TextOrder::Equal => return (i, true),
                TextOrder::Greater => {
                    proof {
                        assert forall|k: int| i <= k < self.entries@.len() implies key_lt(ref_key(*r), ref_key((#[trigger] self.entries@[k]).0)) by {
                            if k > i {
                                lemma_key_lt_transitive(ref_key(*r), ref_key(self.entries@[i as int].0), ref_key(self.entries@[k].0));
                            }
                        }
                        lemma_key_lt_trichotomy(ref_key(*r), ref_key(self.entries@[i as int].0));
                    }
                    return (i, false);
                },
            }
            i = i + 1;
        }
        (i, false)
    }

    pub fn get(&self, r: &RuntimeEntityReference) -> (v: Option<u64>)
        ensures
            self.map().contains_key(ref_key(*r)) ==> v == Some(self.map()[ref_key(*r)]),
            !self.map().contains_key(ref_key(*r)) ==> v is None,
    {
        proof {
            use_type_invariant(self);
        }
        let (p, found) = self.position(r);
        proof {
            if self.map().contains_key(ref_key(*r)) {
                let i = choose|i: int| 0 <= i < self.entries@.len() && ref_key((#[trigger] self.entries@[i]).0) == ref_key(*r);
                if !found {
                    if i < p {
                        lemma_key_lt_trichotomy(ref_key(*r), ref_key(*r));
                    } else {
                        lemma_key_lt_trichotomy(ref_key(*r), ref_key(*r));
                    }
                } else {
                    lemma_unique(self.entries@, i, p as int);
                }
            }
        }
        if found {
            Some(self.entries[p].1)
        } else {
            None
        }
    }

    /// Adds `r -> entity`; `r`'s key must be new.
    pub fn insert(&mut self, r: RuntimeEntityReference, entity: u64)
        requires
            !old(self).map().contains_key(ref_key(r)),
        ensures
            final(self).map() == old(self).map().insert(ref_key(r), entity),
            final(self).ordered_refs().contains(r),
            forall|x: RuntimeEntityReference| #[trigger] final(self).ordered_refs().contains(x) ==> x == r || old(self).ordered_refs().contains(x),
    {
        proof {
            use_type_invariant(&*self);
        }
        let (p, _) = self.position(&r);
        let ghost before = self.entries@;
        let ghost k = ref_key(r);
        proof {
            if p < before.len() && ref_key(before[p as int].0) == k {
                assert(old(self).map().contains_key(k));
            }
        }
        let mut entries = Vec::new();
        std::mem::swap(&mut entries, &mut self.entries);
        entries.insert(p, (r, entity));
        proof {
            let s = entries@;
            assert forall|a: int, b: int| 0 <= a < b < s.len() implies key_lt(ref_key((#[trigger] s[a]).0), ref_key((#[trigger] s[b]).0)) by {
                if b < p {
                    assert(s[a] == before[a] && s[b] == before[b]);
                } else if b == p {
                    assert(s[a] == before[a]);
                } else if a < p {
                    assert(s[a] == before[a] && s[b] == before[b - 1]);
                    lemma_key_lt_transitive(ref_key(before[a].0), k, ref_key(before[b - 1].0));
                } else if a == p {
                    assert(s[b] == before[b - 1]);
                } else {
                    assert(s[a] == before[a - 1] && s[b] == before[b - 1]);
                }
            }
        }
        self.entries = entries;
        proof {
            let s = self.entries@;
            let m = old(self).map().insert(k, entity);
            assert forall|x: RefKey| #[trigger] self.map().contains_key(x) <==> m.contains_key(x) by {
                if self.map().contains_key(x) {
                    let i = choose|i: int| 0 <= i < s.len() && ref_key((#[trigger] s[i]).0) == x;
                    if i < p {
                        assert(s[i] == before[i]);
                    } else if i > p {
                        assert(s[i] == before[i - 1]);
                    }
                }
                if old(self).map().contains_key(x) {
                    let i = choose|i: int| 0 <= i < before.len() && ref_key((#[trigger] before[i]).0) == x;
                    if i < p {
                        assert(s[i] == before[i]);
                    } else {
                        assert(s[i + 1] == before[i]);
                    }
                }
                if x == k {
                    assert(s[p as int].0 == r);
                }
            }
            assert forall|x: RefKey| #[trigger] self.map().contains_key(x) implies self.map()[x] == m[x] by {
                let i = choose|i: int| 0 <= i < s.len() && ref_key((#[trigger] s[i]).0) == x;
                lemma_unique(self.entries@, i, i);
                if x == k {
                    assert(s[p as int].0 == r);
                    lemma_unique(self.entries@, i, p as int);
                } else {
                    let j = choose|j: int| 0 <= j < before.len() && ref_key((#[trigger] before[j]).0) == x;
                    if i < p {
                        assert(s[i] == before[i]);
                        lemma_unique(before, i, j);
                    } else {
                        assert(s[i] == before[i - 1]);
                        lemma_unique(before, i - 1, j);
                    }
                }
            }
            assert(self.map() =~= m);
            let o = self.ordered_refs();
            assert(o[p as int] == r);
            assert forall|x: RuntimeEntityReference| #[trigger] o.contains(x) implies x == r || old(self).ordered_refs().contains(x) by {
                let j = choose|j: int| 0 <= j < o.len() && o[j] == x;
                if j < p {
                    assert(old(self).ordered_refs()[j] == x);
                } else if j > p {
                    assert(old(self).ordered_refs()[j - 1] == x);
                }
            }
        }
    }

    /// Removes `r`'s key, if present.
    pub fn remove(&mut self, r: &RuntimeEntityReference)
        ensures
            final(self).map() == old(self).map().remove(ref_key(*r)),
    {
        proof {
            use_type_invariant(&*self);
        }
        let (p, found) = self.position(r);
        let ghost k = ref_key(*r);
        if !found {
            proof {
                assert forall|x: RefKey| !(#[trigger] self.map().contains_key(x)) || x != k by {
                    if self.map().contains_key(x) && x == k {
                        let i = choose|i: int| 0 <= i < self.entries@.len() && ref_key((#[trigger] self.entries@[i]).0) == x;
                        if i < p {
                            lemma_key_lt_trichotomy(k, k);
                        } else {
                            lemma_key_lt_trichotomy(k, k);
                        }
                    }
                }
                assert(self.map() =~= old(self).map().remove(k));
            }
            return;
        }
        let ghost before = self.entries@;
        let mut entries = Vec::new();
        std::mem::swap(&mut entries, &mut self.entries);
        entries.remove(p);
        proof {
            let s = entries@;
            assert forall|a: int, b: int| 0 <= a < b < s.len() implies key_lt(ref_key((#[trigger] s[a]).0), ref_key((#[trigger] s[b]).0)) by {
                if b < p {
                    assert(s[a] == before[a] && s[b] == before[b]);
                } else if a < p {
                    assert(s[a] == before[a] && s[b] == before[b + 1]);
                } else {
                    assert(s[a] == before[a + 1] && s[b] == before[b + 1]);
                }
            }
        }
        self.entries = entries;
        proof {
            let s = self.entries@;
            let m = old(self).map().remove(k);
            assert forall|x: RefKey| #[trigger] self.map().contains_key(x) <==> m.contains_key(x) by {
                if self.map().contains_key(x) {
                    let i = choose|i: int| 0 <= i < s.len() && ref_key((#[trigger] s[i]).0) == x;
                    if i < p {
                        assert(s[i] == before[i]);
                        lemma_key_lt_trichotomy(k, k);
                    } else {
                        assert(s[i] == before[i + 1]);
                        if x == k {
                            lemma_unique(before, i + 1, p as int);
                        }
                    }
                }
                if m.contains_key(x) {
                    let i = choose|i: int| 0 <= i < before.len() && ref_key((#[trigger] before[i]).0) == x;
                    if i < p {
                        assert(s[i] == before[i]);
                    } else if i > p {
                        assert(s[i - 1] == before[i]);
                    }
                }
            }
            assert forall|x: RefKey| #[trigger] self.map().contains_key(x) implies self.map()[x] == m[x] by {
                let i = choose|i: int| 0 <= i < s.len() && ref_key((#[trigger] s[i]).0) == x;
                let j = choose|j: int| 0 <= j < before.len() && ref_key((#[trigger] before[j]).0) == x;
                lemma_unique(self.entries@, i, i);
                if i < p {
                    assert(s[i] == before[i]);
                    lemma_unique(before, i, j);
                } else {
                    assert(s[i] == before[i + 1]);
                    lemma_unique(before, i + 1, j);
                }
            }
            assert(self.map() =~= m);
        }
    }

    pub fn len(&self) -> (r: usize)
        ensures
            r == self.ordered_refs().len(),
            self.map().dom().finite(),
            self.map().dom().len() == r,
    {
        proof {
            use_type_invariant(self);
            let es = self.entries@;
            let refs = es.map_values(|e: (RuntimeEntityReference, u64)| e.0);
            assert forall|i: int, j: int| 0 <= i < j < refs.len() implies ref_key(#[trigger] refs[i]) != ref_key(#[trigger] refs[j]) by {
                if ref_key(refs[i]) == ref_key(refs[j]) {
                    lemma_unique(es, i, j);
                }
            }
            lemma_distinct_key_count(refs);
            assert(self.map().dom() =~= Set::new(|k: RefKey| exists|i: int| 0 <= i < refs.len() && ref_key(#[trigger] refs[i]) == k)) by {
                assert forall|k: RefKey| self.map().dom().contains(k) implies exists|i: int| 0 <= i < refs.len() && ref_key(#[trigger] refs[i]) == k by {
                    let i = choose|i: int| 0 <= i < es.len() && ref_key((#[trigger] es[i]).0) == k;
                    assert(refs[i] == es[i].0);
                }
                assert forall|k: RefKey| (exists|i: int| 0 <= i < refs.len() && ref_key(#[trigger] refs[i]) == k) implies self.map().dom().contains(k) by {
                    let i = choose|i: int| 0 <= i < refs.len() && ref_key(#[trigger] refs[i]) == k;
                    assert(refs[i] == es[i].0);
                }
            }
        }
        self.entries.len()
    }

    /// The references, in increasing order.
    pub fn refs(&self) -> (r: Vec<RuntimeEntityReference>)
        ensures
            r@ == self.ordered_refs(),
            forall|i: int, j: int| 0 <= i < j < r@.len() ==> key_lt(ref_key(#[trigger] r@[i]), ref_key(#[trigger] r@[j])),
            forall|k: RefKey| #[trigger] self.map().contains_key(k) <==> exists|i: int| 0 <= i < r@.len() && ref_key(#[trigger] r@[i]) == k,
    {
        proof {
            use_type_invariant(self);
        }
        let mut out: Vec<RuntimeEntityReference> = Vec::new();
        let mut i: usize = 0;
        while i < self.entries.len()
            invariant
                i <= self.entries@.len(),
                out@ == self.entries@.take(i as int).map_values(|e: (RuntimeEntityReference, u64)| e.0),
            decreases self.entries@.len() - i,
        {
            out.push(self.entries[i].0.duplicate());
            proof {
                assert(out@ =~= self.entries@.take(i + 1).map_values(|e: (RuntimeEntityReference, u64)| e.0));
            }
            i = i + 1;
        }
        proof {
            assert(self.entries@.take(i as int) =~= self.entries@);
            let es = self.entries@;
            assert forall|a: int, b: int| 0 <= a < b < out@.len() implies key_lt(ref_key(#[trigger] out@[a]), ref_key(#[trigger] out@[b])) by {
                assert(out@[a] == es[a].0 && out@[b] == es[b].0);
            }
            assert forall|k: RefKey| #[trigger] self.map().contains_key(k) implies exists|i: int| 0 <= i < out@.len() && ref_key(#[trigger] out@[i]) == k by {
                let i = choose|i: int| 0 <= i < es.len() && ref_key((#[trigger] es[i]).0) == k;
                assert(out@[i] == es[i].0);
            }
            assert forall|k: RefKey| (exists|i: int| 0 <= i < out@.len() && ref_key(#[trigger] out@[i]) == k) implies #[trigger] self.map().contains_key(k) by {
                let i = choose|i: int| 0 <= i < out@.len() && ref_key(#[trigger] out@[i]) == k;
                assert(out@[i] == es[i].0);
            }
        }
        out
    }
}

} // verus!
