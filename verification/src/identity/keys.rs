//! The order of runtime and durable entity references: kind, then scene instance, then
//! identifier text, then persistent id.

use vstd::prelude::*;

use crate::identity::types::{EntityReference, RuntimeEntityReference};
use crate::text::{compare_text, lemma_text_lt_transitive, lemma_text_lt_trichotomy, text_lt, TextOrder};

verus! {

/// The order-relevant content of a reference.
pub struct RefKey {
    pub kind: u8,
    pub instance: u64,
    pub text: Seq<char>,
    pub id: u128,
}

/// Scene references: kind 0, their instance and entity path; persistent references: kind 1,
/// their namespace and id.
pub open spec fn ref_key(r: RuntimeEntityReference) -> RefKey {
    match r {
        RuntimeEntityReference::Scene { instance, entity } => RefKey { kind: 0, instance: instance.value(), text: entity.view(), id: 0 },
        RuntimeEntityReference::Persistent { entity } => RefKey { kind: 1, instance: 0, text: entity.namespace.view(), id: entity.entity.value() },
    }
}

/// Scene-local references: kind 0 and their entity path; persistent ones as above.
pub open spec fn durable_key(r: EntityReference) -> RefKey {
    match r {
        EntityReference::SceneLocal { entity } => RefKey { kind: 0, instance: 0, text: entity.view(), id: 0 },
        EntityReference::Persistent { entity } => RefKey { kind: 1, instance: 0, text: entity.namespace.view(), id: entity.entity.value() },
    }
}

/// Strict order of reference keys, field by field.
pub open spec fn key_lt(a: RefKey, b: RefKey) -> bool {
    ||| a.kind < b.kind
    ||| (a.kind == b.kind && a.instance < b.instance)
    ||| (a.kind == b.kind && a.instance == b.instance && text_lt(a.text, b.text))
    ||| (a.kind == b.kind && a.instance == b.instance && a.text == b.text && a.id < b.id)
}

pub proof fn lemma_key_lt_transitive(a: RefKey, b: RefKey, c: RefKey)
    requires
        key_lt(a, b),
        key_lt(b, c),
    ensures
        key_lt(a, c),
{
    if a.kind == b.kind && b.kind == c.kind && a.instance == b.instance && b.instance == c.instance {
        if text_lt(a.text, b.text) && text_lt(b.text, c.text) {
            lemma_text_lt_transitive(a.text, b.text, c.text);
        }
    }
}

pub proof fn lemma_key_lt_trichotomy(a: RefKey, b: RefKey)
    ensures
        !(key_lt(a, b) && key_lt(b, a)),
        !key_lt(a, a),
        a != b ==> (key_lt(a, b) || key_lt(b, a)),
{
    lemma_text_lt_trichotomy(a.text, b.text);
    lemma_text_lt_trichotomy(a.text, a.text);
}

fn compare_parts(kind_a: u8, instance_a: u64, text_a: &str, id_a: u128, kind_b: u8, instance_b: u64, text_b: &str, id_b: u128) -> (r: TextOrder)
    ensures
        ({
            let a = RefKey { kind: kind_a, instance: instance_a, text: text_a@, id: id_a };
            let b = RefKey { kind: kind_b, instance: instance_b, text: text_b@, id: id_b };
            &&& r == TextOrder::Less <==> key_lt(a, b)
            &&& r == TextOrder::Greater <==> key_lt(b, a)
            &&& r == TextOrder::Equal <==> a == b
        }),
{
    proof {
        lemma_text_lt_trichotomy(text_a@, text_b@);
    }
    if kind_a < kind_b {
        return TextOrder::Less;
    }
    if kind_b < kind_a {
        return TextOrder::Greater;
    }
    if instance_a < instance_b {
        return TextOrder::Less;
    }
    if instance_b < instance_a {
        return TextOrder::Greater;
    }
    match compare_text(text_a, text_b) {
        TextOrder::Less => TextOrder::Less,
        TextOrder::Greater => TextOrder::Greater,
        TextOrder::Equal => {
            if id_a < id_b {
                TextOrder::Less
            } else if id_b < id_a {
                TextOrder::Greater
            } else {
                TextOrder::Equal
            }
        },
    }
}

fn runtime_parts(r: &RuntimeEntityReference) -> (p: (u8, u64, &str, u128))
    ensures
        ref_key(*r) == (RefKey { kind: p.0, instance: p.1, text: p.2@, id: p.3 }),
{
    match r {
        RuntimeEntityReference::Scene { instance, entity } => (0, instance.get(), entity.as_str(), 0),
        RuntimeEntityReference::Persistent { entity } => (1, 0, entity.namespace.as_str(), entity.entity.as_u128()),
    }
}

fn durable_parts(r: &EntityReference) -> (p: (u8, u64, &str, u128))
    ensures
        durable_key(*r) == (RefKey { kind: p.0, instance: p.1, text: p.2@, id: p.3 }),
{
    match r {
        EntityReference::SceneLocal { entity } => (0, 0, entity.as_str(), 0),
        EntityReference::Persistent { entity } => (1, 0, entity.namespace.as_str(), entity.entity.as_u128()),
    }
}

/// Three-way comparison of runtime references by their keys.
pub fn compare_runtime(a: &RuntimeEntityReference, b: &RuntimeEntityReference) -> (r: TextOrder)
    ensures
        r == TextOrder::Less <==> key_lt(ref_key(*a), ref_key(*b)),
        r == TextOrder::Greater <==> key_lt(ref_key(*b), ref_key(*a)),
        r == TextOrder::Equal <==> ref_key(*a) == ref_key(*b),
{
    let (ka, ia, ta, da) = runtime_parts(a);
    let (kb, ib, tb, db) = runtime_parts(b);
    compare_parts(ka, ia, ta, da, kb, ib, tb, db)
}

/// Three-way comparison of durable references by their keys.
pub fn compare_durable(a: &EntityReference, b: &EntityReference) -> (r: TextOrder)
    ensures
        r == TextOrder::Less <==> key_lt(durable_key(*a), durable_key(*b)),
        r == TextOrder::Greater <==> key_lt(durable_key(*b), durable_key(*a)),
        r == TextOrder::Equal <==> durable_key(*a) == durable_key(*b),
{
    let (ka, ia, ta, da) = durable_parts(a);
    let (kb, ib, tb, db) = durable_parts(b);
    compare_parts(ka, ia, ta, da, kb, ib, tb, db)
}

/// The durable reference of a runtime reference: a scene reference loses its instance.
pub open spec fn durable(r: RuntimeEntityReference) -> EntityReference {
    match r {
        RuntimeEntityReference::Scene { entity, .. } => EntityReference::SceneLocal { entity },
        RuntimeEntityReference::Persistent { entity } => EntityReference::Persistent { entity },
    }
}

pub fn durable_reference(r: &RuntimeEntityReference) -> (d: EntityReference)
    ensures
        d == durable(*r),
{
    match r {
        RuntimeEntityReference::Scene { entity, .. } => EntityReference::SceneLocal { entity: entity.duplicate() },
        RuntimeEntityReference::Persistent { entity } => EntityReference::Persistent { entity: entity.duplicate() },
    }
}

} // verus!
