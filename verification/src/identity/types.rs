//! Scene-local, persistent and world-scoped entity references.

use vstd::prelude::*;

use crate::identity::allocator::IdentityAllocationError;
use crate::text::{byte_len, char_is_ascii_alphanumeric, chars_of, is_ascii_alphanumeric_char};
use crate::uuid_text::{format_uuid, parse_uuid, uuid_hyphenated_text, uuid_parse_value};

verus! {

pub const MAX_PERSISTENT_RUNTIME_NAMESPACE_BYTES: usize = 256;

#[derive(Debug, Clone, Copy, PartialEq, Eq, Structural)]
pub enum SceneEntityIdError {
    Empty,
    LeadingSlash,
    TrailingSlash,
    EmptySegment,
    CurrentDirectorySegment,
    ParentDirectorySegment,
    InvalidCharacter(char),
}

/// Characters of a scene entity id: ASCII letters and digits, `_`, `-`, `.` and `/`.
pub open spec fn scene_id_char(c: char) -> bool {
    is_ascii_alphanumeric_char(c) || c == '_' || c == '-' || c == '.' || c == '/'
}

/// Characters of a persistent namespace: ASCII letters and digits, `_`, `-` and `.`.
pub open spec fn namespace_char(c: char) -> bool {
    is_ascii_alphanumeric_char(c) || c == '_' || c == '-' || c == '.'
}

/// The error of the first `/`-separated segment of `s`, scanning from the segment that starts
/// at `start` with `i` the current position: empty, `.` or `..` segments are refused.
pub open spec fn segment_error(s: Seq<char>, start: int, i: int) -> Option<SceneEntityIdError>
    decreases s.len() - i,
{
    if i < s.len() && s[i] != '/' {
        segment_error(s, start, i + 1)
    } else {
        let segment = s.subrange(start, i);
        if segment.len() == 0 {
            Some(SceneEntityIdError::EmptySegment)
        } else if segment == seq!['.'] {
            Some(SceneEntityIdError::CurrentDirectorySegment)
        } else if segment == seq!['.', '.'] {
            Some(SceneEntityIdError::ParentDirectorySegment)
        } else if i >= s.len() {
            None
        } else {
            segment_error(s, i + 1, i + 1)
        }
    }
}

/// The first character of `s` from `i` on that `allowed` refuses.
pub open spec fn first_refused(s: Seq<char>, i: int, allowed: spec_fn(char) -> bool) -> Option<char>
    decreases s.len() - i,
{
    if i >= s.len() {
        None
    } else if !allowed(s[i]) {
        Some(s[i])
    } else {
        first_refused(s, i + 1, allowed)
    }
}

/// The first character of `s` outside the scene entity id alphabet.
pub open spec fn refused_scene_id_char(s: Seq<char>) -> Option<char> {
    first_refused(s, 0, |c: char| scene_id_char(c))
}

/// The first character of `s` outside the persistent namespace alphabet.
pub open spec fn refused_namespace_id_char(s: Seq<char>) -> Option<char> {
    first_refused(s, 0, |c: char| namespace_char(c))
}

/// The outcome of validating a scene entity id, checks in order.
pub open spec fn scene_entity_id_check(s: Seq<char>) -> Result<(), SceneEntityIdError> {
    if s.len() == 0 {
        Err(SceneEntityIdError::Empty)
    } else if s[0] == '/' {
        Err(SceneEntityIdError::LeadingSlash)
    } else if s.last() == '/' {
        Err(SceneEntityIdError::TrailingSlash)
    } else if let Some(e) = segment_error(s, 0, 0) {
        Err(e)
    } else if let Some(c) = refused_scene_id_char(s) {
        Err(SceneEntityIdError::InvalidCharacter(c))
    } else {
        Ok(())
    }
}

fn is_scene_id_char(c: char) -> (r: bool)
    ensures
        r == scene_id_char(c),
{
    char_is_ascii_alphanumeric(c) || c == '_' || c == '-' || c == '.' || c == '/'
}

fn is_namespace_char(c: char) -> (r: bool)
    ensures
        r == namespace_char(c),
{
    char_is_ascii_alphanumeric(c) || c == '_' || c == '-' || c == '.'
}

fn check_segments(chars: &Vec<char>) -> (r: Option<SceneEntityIdError>)
    ensures
        r == segment_error(chars@, 0, 0),
{
    let mut start: usize = 0;
    let mut i: usize = 0;
    while i <= chars.len()
        invariant
            start <= i <= chars@.len(),
            start <= chars@.len(),
            i <= chars@.len() ==> segment_error(chars@, start as int, i as int) == segment_error(chars@, 0, 0),
        decreases chars@.len() + 1 - i,
    {
        if i < chars.len() && chars[i] != '/' {
            i = i + 1;
        } else {
            let length = i - start;
            if length == 0 {
                return Some(SceneEntityIdError::EmptySegment);
            }
            proof {
                assert(chars@.subrange(start as int, i as int).len() == length);
            }
            if length == 1 && chars[start] == '.' {
                proof {
                    assert(chars@.subrange(start as int, i as int) =~= seq!['.']);
                }
                return Some(SceneEntityIdError::CurrentDirectorySegment);
            }
            if length == 2 && chars[start] == '.' && chars[start + 1] == '.' {
                proof {
                    assert(chars@.subrange(start as int, i as int) =~= seq!['.', '.']);
                }
                return Some(SceneEntityIdError::ParentDirectorySegment);
            }
            proof {
                if length == 1 {
                    assert(chars@.subrange(start as int, i as int)[0] == chars@[start as int]);
                }
                if length == 2 {
                    assert(chars@.subrange(start as int, i as int)[0] == chars@[start as int]);
                    assert(chars@.subrange(start as int, i as int)[1] == chars@[start + 1]);
                }
                assert(chars@.subrange(start as int, i as int) != seq!['.'] ==> true);
            }
            if i >= chars.len() {
                return None;
            }
            i = i + 1;
            start = i;
        }
    }
    None
}

fn refused_scene_char(chars: &Vec<char>) -> (r: Option<char>)
    ensures
        r == refused_scene_id_char(chars@),
{
    let mut i: usize = 0;
    while i < chars.len()
        invariant
            i <= chars@.len(),
            first_refused(chars@, i as int, |c: char| scene_id_char(c)) == first_refused(chars@, 0, |c: char| scene_id_char(c)),
        decreases chars@.len() - i,
    {
        if !is_scene_id_char(chars[i]) {
            return Some(chars[i]);
        }
        i = i + 1;
    }
    None
}

fn refused_namespace_char(chars: &Vec<char>) -> (r: Option<char>)
    ensures
        r == refused_namespace_id_char(chars@),
{
    let mut i: usize = 0;
    while i < chars.len()
        invariant
            i <= chars@.len(),
            first_refused(chars@, i as int, |c: char| namespace_char(c)) == first_refused(chars@, 0, |c: char| namespace_char(c)),
        decreases chars@.len() - i,
    {
        if !is_namespace_char(chars[i]) {
            return Some(chars[i]);
        }
        i = i + 1;
    }
    None
}

/// A `/`-separated scene-local entity path such as `level/door.01`.
#[derive(Debug, Clone, PartialEq, Eq, PartialOrd, Ord, Hash)]
pub struct SceneEntityId(String);

impl SceneEntityId {
    pub closed spec fn view(&self) -> Seq<char> {
        self.0@
    }

    pub fn new(id: &str) -> (r: Result<Self, SceneEntityIdError>)
        ensures
            match scene_entity_id_check(id@) {
                Ok(()) => r matches Ok(v) && v.view() == id@,
                Err(e) => r == Err::<Self, SceneEntityIdError>(e),
            },
    {
        let chars = chars_of(id);
        if chars.len() == 0 {
            return Err(SceneEntityIdError::Empty);
        }
        if chars[0] == '/' {
            return Err(SceneEntityIdError::LeadingSlash);
        }
        if chars[chars.len() - 1] == '/' {
            return Err(SceneEntityIdError::TrailingSlash);
        }
        match check_segments(&chars) {
            Some(e) => return Err(e),
            None => {},
        }
        match refused_scene_char(&chars) {
            Some(c) => return Err(SceneEntityIdError::InvalidCharacter(c)),
            None => {},
        }
        Ok(SceneEntityId(id.to_owned()))
    }

    pub fn as_str(&self) -> (r: &str)
        ensures
            r@ == self.view(),
    {
        self.0.as_str()
    }

    pub fn duplicate(&self) -> (r: Self)
        ensures
            r == *self,
    {
        SceneEntityId(self.0.clone())
    }
}

/// A claimed scene instance; never zero.
#[derive(Debug, Clone, Copy, PartialEq, Eq, Structural, PartialOrd, Ord, Hash)]
pub struct SceneInstanceId(u64);

impl SceneInstanceId {
    pub closed spec fn value(self) -> u64 {
        self.0
    }

    pub fn new(raw: u64) -> (r: Result<Self, IdentityAllocationError>)
        ensures
            raw == 0 ==> r == Err::<Self, IdentityAllocationError>(IdentityAllocationError::Zero),
            raw != 0 ==> (r matches Ok(v) && v.value() == raw),
    {
        if raw == 0 {
            return Err(IdentityAllocationError::Zero);
        }
        Ok(SceneInstanceId(raw))
    }

    pub fn get(self) -> (r: u64)
        ensures
            r == self.value(),
            r != 0,
    {
        proof {
            use_type_invariant(self);
        }
        self.0
    }

    #[verifier::type_invariant]
    closed spec fn non_zero(self) -> bool {
        self.0 != 0
    }
}

/// The scene instance id with value `v`.
pub closed spec fn instance_id_of(v: u64) -> SceneInstanceId {
    SceneInstanceId(v)
}

/// A scene instance id is the one of its value.
pub broadcast proof fn lemma_instance_id_of(x: SceneInstanceId)
    ensures
        #[trigger] instance_id_of(x.value()) == x,
{
}

/// The identity domain of one world; never zero.
#[derive(Debug, Clone, Copy, PartialEq, Eq, Structural, PartialOrd, Ord, Hash)]
pub struct WorldIdentityDomainId(u64);

impl WorldIdentityDomainId {
    pub closed spec fn value(self) -> u64 {
        self.0
    }

    #[verifier::type_invariant]
    closed spec fn non_zero(self) -> bool {
        self.0 != 0
    }

    pub fn from_raw(raw: u64) -> (r: Option<Self>)
        ensures
            raw == 0 ==> r is None,
            raw != 0 ==> (r matches Some(v) && v.value() == raw),
    {
        if raw == 0 {
            return None;
        }
        Some(WorldIdentityDomainId(raw))
    }

    pub fn get(self) -> (r: u64)
        ensures
            r == self.value(),
            r != 0,
    {
        proof {
            use_type_invariant(self);
        }
        self.0
    }
}

#[derive(Debug, Clone, Copy, PartialEq, Eq, Structural)]
pub enum PersistentRuntimeNamespaceIdError {
    Empty,
    TooLong { length: usize, maximum: usize },
    InvalidCharacter(char),
}

/// The outcome of validating a persistent namespace, checks in order.
pub open spec fn namespace_check(s: Seq<char>) -> Result<(), PersistentRuntimeNamespaceIdError> {
    let length = vstd::utf8::encode_utf8(s).len() as usize;
    if s.len() == 0 {
        Err(PersistentRuntimeNamespaceIdError::Empty)
    } else if length > MAX_PERSISTENT_RUNTIME_NAMESPACE_BYTES {
        Err(PersistentRuntimeNamespaceIdError::TooLong { length, maximum: MAX_PERSISTENT_RUNTIME_NAMESPACE_BYTES })
    } else if let Some(c) = refused_namespace_id_char(s) {
        Err(PersistentRuntimeNamespaceIdError::InvalidCharacter(c))
    } else {
        Ok(())
    }
}

/// The namespace that owns a set of persistent runtime ids.
#[derive(Debug, Clone, PartialEq, Eq, PartialOrd, Ord, Hash)]
pub struct PersistentRuntimeNamespaceId(String);

impl PersistentRuntimeNamespaceId {
    pub closed spec fn view(&self) -> Seq<char> {
        self.0@
    }

    pub fn new(id: &str) -> (r: Result<Self, PersistentRuntimeNamespaceIdError>)
        ensures
            match namespace_check(id@) {
                Ok(()) => r matches Ok(v) && v.view() == id@,
                Err(e) => r == Err::<Self, PersistentRuntimeNamespaceIdError>(e),
            },
    {
        let chars = chars_of(id);
        if chars.len() == 0 {
            return Err(PersistentRuntimeNamespaceIdError::Empty);
        }
        let length = byte_len(id);
        if length > MAX_PERSISTENT_RUNTIME_NAMESPACE_BYTES {
            return Err(PersistentRuntimeNamespaceIdError::TooLong { length, maximum: MAX_PERSISTENT_RUNTIME_NAMESPACE_BYTES });
        }
        match refused_namespace_char(&chars) {
            Some(c) => return Err(PersistentRuntimeNamespaceIdError::InvalidCharacter(c)),
            None => {},
        }
        Ok(PersistentRuntimeNamespaceId(id.to_owned()))
    }

    pub fn as_str(&self) -> (r: &str)
        ensures
            r@ == self.view(),
    {
        self.0.as_str()
    }

    pub fn duplicate(&self) -> (r: Self)
        ensures
            r == *self,
    {
        PersistentRuntimeNamespaceId(self.0.clone())
    }
}

#[derive(Debug, Clone, Copy, PartialEq, Eq, Structural)]
pub enum PersistentRuntimeIdError {
    InvalidUuid,
}

/// A persistent runtime entity id: a UUID, held as its 128-bit value.
#[derive(Debug, Clone, Copy, PartialEq, Eq, Structural, PartialOrd, Ord, Hash)]
pub struct PersistentRuntimeId(u128);

impl PersistentRuntimeId {
    pub closed spec fn value(self) -> u128 {
        self.0
    }

    /// Accepts exactly the texts the UUID parser accepts.
    pub fn parse_str(id: &str) -> (r: Result<Self, PersistentRuntimeIdError>)
        ensures
            match uuid_parse_value(id@) {
                Some(v) => r matches Ok(p) && p.value() == v,
                None => r == Err::<Self, PersistentRuntimeIdError>(PersistentRuntimeIdError::InvalidUuid),
            },
    {
        match parse_uuid(id) {
            Some(v) => Ok(PersistentRuntimeId(v)),
            None => Err(PersistentRuntimeIdError::InvalidUuid),
        }
    }

    pub fn from_u128(value: u128) -> (r: Self)
        ensures
            r.value() == value,
    {
        PersistentRuntimeId(value)
    }

    pub fn as_u128(self) -> (r: u128)
        ensures
            r == self.value(),
    {
        self.0
    }

    /// The hyphenated lower-case text of the UUID, which parses back to this id.
    pub fn to_text(self) -> (r: String)
        ensures
            r@ == uuid_hyphenated_text(self.value()),
            uuid_parse_value(r@) == Some(self.value()),
    {
        format_uuid(self.0)
    }
}

/// A persistent entity: its namespace and id.
#[derive(Debug, Clone, PartialEq, Eq, PartialOrd, Ord, Hash)]
pub struct PersistentRuntimeReference {
    pub namespace: PersistentRuntimeNamespaceId,
    pub entity: PersistentRuntimeId,
}

impl PersistentRuntimeReference {
    pub fn new(namespace: PersistentRuntimeNamespaceId, entity: PersistentRuntimeId) -> (r: Self)
        ensures
            r.namespace == namespace,
            r.entity == entity,
    {
        PersistentRuntimeReference { namespace, entity }
    }

    pub fn duplicate(&self) -> (r: Self)
        ensures
            r == *self,
    {
        PersistentRuntimeReference { namespace: self.namespace.duplicate(), entity: self.entity }
    }
}

/// A durable reference, scene-local or persistent.
#[derive(Debug, Clone, PartialEq, Eq, PartialOrd, Ord, Hash)]
#[allow(inconsistent_fields)]
pub enum EntityReference {
    SceneLocal { entity: SceneEntityId },
    Persistent { entity: PersistentRuntimeReference },
}

impl EntityReference {
    pub fn duplicate(&self) -> (r: Self)
        ensures
            r == *self,
    {
        match self {
            EntityReference::SceneLocal { entity } => EntityReference::SceneLocal { entity: entity.duplicate() },
            EntityReference::Persistent { entity } => EntityReference::Persistent { entity: entity.duplicate() },
        }
    }
}

/// A runtime reference: a scene entity within a scene instance, or a persistent entity.
#[derive(Debug, Clone, PartialEq, Eq, PartialOrd, Ord, Hash)]
#[allow(inconsistent_fields)]
pub enum RuntimeEntityReference {
    Scene { instance: SceneInstanceId, entity: SceneEntityId },
    Persistent { entity: PersistentRuntimeReference },
}

impl RuntimeEntityReference {
    pub fn scene(instance: SceneInstanceId, entity: SceneEntityId) -> (r: Self)
        ensures
            r == (RuntimeEntityReference::Scene { instance, entity }),
    {
        RuntimeEntityReference::Scene { instance, entity }
    }

    pub fn persistent(entity: PersistentRuntimeReference) -> (r: Self)
        ensures
            r == (RuntimeEntityReference::Persistent { entity }),
    {
        RuntimeEntityReference::Persistent { entity }
    }

    pub fn duplicate(&self) -> (r: Self)
        ensures
            r == *self,
    {
        match self {
            RuntimeEntityReference::Scene { instance, entity } => RuntimeEntityReference::Scene { instance: *instance, entity: entity.duplicate() },
            RuntimeEntityReference::Persistent { entity } => RuntimeEntityReference::Persistent { entity: entity.duplicate() },
        }
    }
}

/// A runtime reference within one world identity domain.
#[derive(Debug, Clone, PartialEq, Eq, PartialOrd, Ord, Hash)]
pub struct WorldEntityLocator {
    domain: WorldIdentityDomainId,
    entity: RuntimeEntityReference,
}

impl WorldEntityLocator {
    pub closed spec fn spec_domain(&self) -> WorldIdentityDomainId {
        self.domain
    }

    pub closed spec fn spec_entity(&self) -> RuntimeEntityReference {
        self.entity
    }

    /// The locator of `entity` in `domain`.
    pub closed spec fn spec_new(domain: WorldIdentityDomainId, entity: RuntimeEntityReference) -> Self {
        WorldEntityLocator { domain, entity }
    }

    pub fn new(domain: WorldIdentityDomainId, entity: RuntimeEntityReference) -> (r: Self)
        ensures
            r.spec_domain() == domain,
            r.spec_entity() == entity,
            r == Self::spec_new(domain, entity),
    {
        WorldEntityLocator { domain, entity }
    }

    /// A locator is made of its domain and its entity.
    pub broadcast proof fn lemma_spec_new(domain: WorldIdentityDomainId, entity: RuntimeEntityReference)
        ensures
            #[trigger] Self::spec_new(domain, entity).spec_domain() == domain,
            Self::spec_new(domain, entity).spec_entity() == entity,
    {
    }

    pub fn domain_id(&self) -> (r: WorldIdentityDomainId)
        ensures
            r == self.spec_domain(),
    {
        self.domain
    }

    pub fn entity(&self) -> (r: &RuntimeEntityReference)
        ensures
            *r == self.spec_entity(),
    {
        &self.entity
    }
}

} // verus!
