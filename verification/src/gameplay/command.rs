//! Gameplay command identifiers, payloads, sources, keys and envelopes.

use vstd::prelude::*;

use crate::text::{
    byte_len, compare_text, contains_control, has_control_char, lemma_text_lt_transitive,
    lemma_text_lt_trichotomy, text_lt, utf8_len, TextOrder,
};
use crate::uuid_text::{format_uuid, parse_uuid, uuid_hyphenated_text, uuid_parse_value};

verus! {

pub const MAX_GAMEPLAY_COMMAND_ID_BYTES: usize = 256;
pub const MAX_GAMEPLAY_COMMAND_PAYLOAD_ITEMS: usize = 256;
pub const MAX_GAMEPLAY_COMMAND_PAYLOAD_BYTES: usize = 262144;
pub const MAX_GAMEPLAY_COMMAND_PAYLOAD_KEY_BYTES: usize = 256;
pub const MAX_GAMEPLAY_COMMAND_STRING_BYTES: usize = 131072;

pub const VARIANT_TAG_BYTES: usize = 1;
pub const U64_BYTES: usize = 8;
pub const I64_BYTES: usize = 8;
pub const F64_BYTES: usize = 8;
pub const BOOL_BYTES: usize = 1;

#[derive(Debug, Clone, PartialEq, Eq)]
pub enum GameplayCommandIdError {
    Empty { kind: &'static str },
    ContainsControl { kind: &'static str },
    TooLong { kind: &'static str, length: usize, maximum: usize },
    InvalidUuid,
}

/// The outcome of validating a command identifier of the given kind.
pub open spec fn id_check(kind: &'static str, id: &str) -> Result<(), GameplayCommandIdError> {
    if id@.len() == 0 {
        Err(GameplayCommandIdError::Empty { kind })
    } else if has_control_char(id@) {
        Err(GameplayCommandIdError::ContainsControl { kind })
    } else if text_bytes(id@) > MAX_GAMEPLAY_COMMAND_ID_BYTES {
        Err(GameplayCommandIdError::TooLong {
            kind,
            length: text_bytes(id@),
            maximum: MAX_GAMEPLAY_COMMAND_ID_BYTES,
        })
    } else {
        Ok(())
    }
}

fn validate_id(kind: &'static str, id: &str) -> (r: Result<(), GameplayCommandIdError>)
    ensures
        r == id_check(kind, id),
{
    if id.is_empty() {
        return Err(GameplayCommandIdError::Empty { kind });
    }
    if contains_control(id) {
        return Err(GameplayCommandIdError::ContainsControl { kind });
    }
    let length = byte_len(id);
    if length > MAX_GAMEPLAY_COMMAND_ID_BYTES {
        return Err(GameplayCommandIdError::TooLong { kind, length, maximum: MAX_GAMEPLAY_COMMAND_ID_BYTES });
    }
    Ok(())
}

/// Identifier of a command type.
#[derive(Debug, Clone, PartialEq, Eq, PartialOrd, Ord, Hash)]
pub struct GameplayCommandTypeId(String);

impl GameplayCommandTypeId {
    pub closed spec fn view(&self) -> Seq<char> {
        self.0@
    }

    pub fn new(id: &str) -> (r: Result<Self, GameplayCommandIdError>)
        ensures
            match id_check("command type id", id) {
                Ok(()) => r is Ok && r->Ok_0.view() == id@,
                Err(e) => r == Err::<Self, GameplayCommandIdError>(e),
            },
    {
        match validate_id("command type id", id) {
            Err(e) => Err(e),
            Ok(()) => Ok(GameplayCommandTypeId(id.to_owned())),
        }
    }

    pub fn as_str(&self) -> (r: &str)
        ensures
            r@ == self.view(),
    {
        self.0.as_str()
    }
}

/// Identifier of a non-local command producer (driver, stream, agent or producer).
#[derive(Debug, Clone, PartialEq, Eq, PartialOrd, Ord, Hash)]
pub struct GameplayCommandSourceId(String);

impl GameplayCommandSourceId {
    pub closed spec fn view(&self) -> Seq<char> {
        self.0@
    }

    pub fn new(id: &str) -> (r: Result<Self, GameplayCommandIdError>)
        ensures
            match id_check("command source id", id) {
                Ok(()) => r is Ok && r->Ok_0.view() == id@,
                Err(e) => r == Err::<Self, GameplayCommandIdError>(e),
            },
    {
        match validate_id("command source id", id) {
            Err(e) => Err(e),
            Ok(()) => Ok(GameplayCommandSourceId(id.to_owned())),
        }
    }

    pub fn as_str(&self) -> (r: &str)
        ensures
            r@ == self.view(),
    {
        self.0.as_str()
    }

    pub fn duplicate(&self) -> (r: Self)
        ensures
            r.view() == self.view(),
    {
        GameplayCommandSourceId(self.0.clone())
    }
}

/// Identifier of a named command target.
#[derive(Debug, Clone, PartialEq, Eq, PartialOrd, Ord, Hash)]
pub struct GameplayCommandTargetId(String);

impl GameplayCommandTargetId {
    pub closed spec fn view(&self) -> Seq<char> {
        self.0@
    }

    pub fn new(id: &str) -> (r: Result<Self, GameplayCommandIdError>)
        ensures
            match id_check("named command target", id) {
                Ok(()) => r is Ok && r->Ok_0.view() == id@,
                Err(e) => r == Err::<Self, GameplayCommandIdError>(e),
            },
    {
        match validate_id("named command target", id) {
            Err(e) => Err(e),
            Ok(()) => Ok(GameplayCommandTargetId(id.to_owned())),
        }
    }

    pub fn as_str(&self) -> (r: &str)
        ensures
            r@ == self.view(),
    {
        self.0.as_str()
    }
}

/// Stable identifier of a scene-authored target.
#[derive(Debug, Clone, PartialEq, Eq, PartialOrd, Ord, Hash)]
pub struct SceneStableId(String);

impl SceneStableId {
    pub closed spec fn view(&self) -> Seq<char> {
        self.0@
    }

    pub fn new(id: &str) -> (r: Result<Self, GameplayCommandIdError>)
        ensures
            match id_check("scene stable id", id) {
                Ok(()) => r is Ok && r->Ok_0.view() == id@,
                Err(e) => r == Err::<Self, GameplayCommandIdError>(e),
            },
    {
        match validate_id("scene stable id", id) {
            Err(e) => Err(e),
            Ok(()) => Ok(SceneStableId(id.to_owned())),
        }
    }

    pub fn as_str(&self) -> (r: &str)
        ensures
            r@ == self.view(),
    {
        self.0.as_str()
    }
}

/// A persistent runtime id held in canonical UUID text.
#[derive(Debug, Clone, PartialEq, Eq, PartialOrd, Ord, Hash)]
pub struct PersistentRuntimeId(String);

impl PersistentRuntimeId {
    pub closed spec fn view(&self) -> Seq<char> {
        self.0@
    }

    /// Accepts exactly the texts that parse as a UUID; keeps the canonical hyphenated form,
    /// which itself parses as the same UUID.
    pub fn parse_str(id: &str) -> (r: Result<Self, GameplayCommandIdError>)
        ensures
            match uuid_parse_value(id@) {
                Some(v) => r is Ok && r->Ok_0.view() == uuid_hyphenated_text(v) && uuid_parse_value(r->Ok_0.view()) == Some(v),
                None => r == Err::<Self, GameplayCommandIdError>(GameplayCommandIdError::InvalidUuid),
            },
    {
        match parse_uuid(id) {
            None => Err(GameplayCommandIdError::InvalidUuid),
            Some(v) => Ok(PersistentRuntimeId(format_uuid(v))),
        }
    }

    pub fn as_str(&self) -> (r: &str)
        ensures
            r@ == self.view(),
    {
        self.0.as_str()
    }
}

#[derive(Debug, Clone, PartialEq, Eq)]
pub enum GameplayCommandTarget {
    Scene(SceneStableId),
    Persistent(PersistentRuntimeId),
    Named(GameplayCommandTargetId),
}

impl GameplayCommandTarget {
    pub open spec fn id_view(&self) -> Seq<char> {
        match self {
            GameplayCommandTarget::Scene(id) => id.view(),
            GameplayCommandTarget::Persistent(id) => id.view(),
            GameplayCommandTarget::Named(id) => id.view(),
        }
    }

    pub fn named(id: &str) -> (r: Result<Self, GameplayCommandIdError>)
        ensures
            match id_check("named command target", id) {
                Ok(()) => r is Ok && r->Ok_0 is Named && r->Ok_0.id_view() == id@,
                Err(e) => r == Err::<Self, GameplayCommandIdError>(e),
            },
    {
        match GameplayCommandTargetId::new(id) {
            Ok(t) => Ok(GameplayCommandTarget::Named(t)),
            Err(e) => Err(e),
        }
    }

    /// Variant tag plus the identifier's UTF-8 bytes.
    pub open spec fn spec_logical_bytes(&self) -> int {
        VARIANT_TAG_BYTES + text_bytes(self.id_view())
    }

    pub fn logical_bytes(&self) -> (r: Option<usize>)
        ensures
            r == checked_size(self.spec_logical_bytes()),
    {
        let id_bytes = match self {
            GameplayCommandTarget::Scene(id) => byte_len(id.as_str()),
            GameplayCommandTarget::Persistent(id) => byte_len(id.as_str()),
            GameplayCommandTarget::Named(id) => byte_len(id.as_str()),
        };
        VARIANT_TAG_BYTES.checked_add(id_bytes)
    }
}

/// UTF-8 byte length of a character sequence, as the `str` holding it reports.
pub open spec fn text_bytes(s: Seq<char>) -> usize {
    vstd::utf8::encode_utf8(s).len() as usize
}

/// `Some(n)` when a logical size fits in `usize`, `None` otherwise.
pub open spec fn checked_size(n: int) -> Option<usize> {
    if 0 <= n <= usize::MAX {
        Some(n as usize)
    } else {
        None
    }
}

/// A payload value. `F64` holds the IEEE-754 bit pattern of a double.
#[derive(Debug, Clone, PartialEq)]
pub enum GameplayCommandValue {
    Bool(bool),
    I64(i64),
    F64(u64),
    String(String),
}

/// Whether an IEEE-754 double bit pattern is finite (its exponent field is not all ones).
pub open spec fn f64_bits_finite(bits: u64) -> bool {
    ((bits >> 52u64) & 0x7ffu64) != 0x7ffu64
}

impl GameplayCommandValue {
    pub open spec fn check(&self) -> Result<(), GameplayCommandPayloadError> {
        match self {
            GameplayCommandValue::F64(bits) => if !f64_bits_finite(*bits) {
                Err(GameplayCommandPayloadError::NonFiniteFloat)
            } else {
                Ok(())
            },
            GameplayCommandValue::String(s) => if text_bytes(s@) > MAX_GAMEPLAY_COMMAND_STRING_BYTES {
                Err(GameplayCommandPayloadError::StringTooLong {
                    length: text_bytes(s@),
                    maximum: MAX_GAMEPLAY_COMMAND_STRING_BYTES,
                })
            } else {
                Ok(())
            },
            _ => Ok(()),
        }
    }

    fn validate(&self) -> (r: Result<(), GameplayCommandPayloadError>)
        ensures
            r == self.check(),
    {
        match self {
            GameplayCommandValue::F64(bits) => {
                if ((*bits >> 52u64) & 0x7ffu64) == 0x7ffu64 {
                    Err(GameplayCommandPayloadError::NonFiniteFloat)
                } else {
                    Ok(())
                }
            },
            GameplayCommandValue::String(s) => {
                let length = byte_len(s.as_str());
                if length > MAX_GAMEPLAY_COMMAND_STRING_BYTES {
                    Err(GameplayCommandPayloadError::StringTooLong { length, maximum: MAX_GAMEPLAY_COMMAND_STRING_BYTES })
                } else {
                    Ok(())
                }
            },
            _ => Ok(()),
        }
    }

    /// Variant tag plus the value's logical width.
    pub open spec fn spec_logical_bytes(&self) -> int {
        VARIANT_TAG_BYTES + match self {
            GameplayCommandValue::Bool(_) => BOOL_BYTES as int,
            GameplayCommandValue::I64(_) => I64_BYTES as int,
            GameplayCommandValue::F64(_) => F64_BYTES as int,
            GameplayCommandValue::String(s) => text_bytes(s@) as int,
        }
    }

    fn logical_bytes(&self) -> (r: Option<usize>)
        ensures
            r == checked_size(self.spec_logical_bytes()),
    {
        let value_bytes = match self {
            GameplayCommandValue::Bool(_) => BOOL_BYTES,
            GameplayCommandValue::I64(_) => I64_BYTES,
            GameplayCommandValue::F64(_) => F64_BYTES,
            GameplayCommandValue::String(s) => byte_len(s.as_str()),
        };
        VARIANT_TAG_BYTES.checked_add(value_bytes)
    }
}

#[derive(Debug, Clone, PartialEq, Eq)]
pub enum GameplayCommandPayloadError {
    EmptyKey,
    ContainsControl,
    KeyTooLong { length: usize, maximum: usize },
    NonFiniteFloat,
    StringTooLong { length: usize, maximum: usize },
    TooManyItems { requested: usize, maximum: usize },
    TooManyBytes { requested: usize, maximum: usize },
    DuplicateKey,
    LogicalSizeOverflow,
}

/// The outcome of validating a payload key.
pub open spec fn payload_key_check(key: &str) -> Result<(), GameplayCommandPayloadError> {
    if key@.len() == 0 {
        Err(GameplayCommandPayloadError::EmptyKey)
    } else if has_control_char(key@) {
        Err(GameplayCommandPayloadError::ContainsControl)
    } else if text_bytes(key@) > MAX_GAMEPLAY_COMMAND_PAYLOAD_KEY_BYTES {
        Err(GameplayCommandPayloadError::KeyTooLong {
            length: text_bytes(key@),
            maximum: MAX_GAMEPLAY_COMMAND_PAYLOAD_KEY_BYTES,
        })
    } else {
        Ok(())
    }
}

fn validate_payload_key(key: &str) -> (r: Result<(), GameplayCommandPayloadError>)
    ensures
        r == payload_key_check(key),
{
    if key.is_empty() {
        return Err(GameplayCommandPayloadError::EmptyKey);
    }
    if contains_control(key) {
        return Err(GameplayCommandPayloadError::ContainsControl);
    }
    let length = byte_len(key);
    if length > MAX_GAMEPLAY_COMMAND_PAYLOAD_KEY_BYTES {
        return Err(GameplayCommandPayloadError::KeyTooLong { length, maximum: MAX_GAMEPLAY_COMMAND_PAYLOAD_KEY_BYTES });
    }
    Ok(())
}

/// Logical bytes of one payload entry: key bytes, a tag, and the value's logical bytes.
pub open spec fn entry_bytes(key: Seq<char>, value: GameplayCommandValue) -> int {
    text_bytes(key) + VARIANT_TAG_BYTES + value.spec_logical_bytes()
}

fn payload_entry_bytes(key: &str, value: &GameplayCommandValue) -> (r: Result<usize, GameplayCommandPayloadError>)
    ensures
        match checked_size(entry_bytes(key@, *value)) {
            Some(n) => r == Ok::<usize, GameplayCommandPayloadError>(n),
            None => r == Err::<usize, GameplayCommandPayloadError>(GameplayCommandPayloadError::LogicalSizeOverflow),
        },
{
    let key_bytes = byte_len(key);
    match key_bytes.checked_add(VARIANT_TAG_BYTES) {
        None => Err(GameplayCommandPayloadError::LogicalSizeOverflow),
        Some(bytes) => match value.logical_bytes() {
            None => Err(GameplayCommandPayloadError::LogicalSizeOverflow),
            Some(v) => match bytes.checked_add(v) {
                None => Err(GameplayCommandPayloadError::LogicalSizeOverflow),
                Some(n) => Ok(n),
            },
        },
    }
}

/// The key text of each entry, in order.
pub open spec fn entry_key(e: (String, GameplayCommandValue)) -> Seq<char> {
    e.0@
}

/// Keys strictly increasing in text order.
pub open spec fn keys_sorted(s: Seq<(String, GameplayCommandValue)>) -> bool {
    forall|i: int, j: int| 0 <= i < j < s.len() ==> text_lt(#[trigger] entry_key(s[i]), #[trigger] entry_key(s[j]))
}

/// Sum of the logical bytes of the entries.
pub open spec fn entries_bytes(s: Seq<(String, GameplayCommandValue)>) -> int
    decreases s.len(),
{
    if s.len() == 0 {
        0
    } else {
        entries_bytes(s.drop_last()) + entry_bytes(s.last().0@, s.last().1)
    }
}

proof fn lemma_entries_bytes_concat(a: Seq<(String, GameplayCommandValue)>, b: Seq<(String, GameplayCommandValue)>)
    ensures
        entries_bytes(a + b) == entries_bytes(a) + entries_bytes(b),
    decreases b.len(),
{
    if b.len() == 0 {
        assert(a + b =~= a);
    } else {
        assert((a + b).drop_last() =~= a + b.drop_last());
        lemma_entries_bytes_concat(a, b.drop_last());
    }
}

proof fn lemma_entries_bytes_nonneg(s: Seq<(String, GameplayCommandValue)>)
    ensures
        entries_bytes(s) >= 0,
    decreases s.len(),
{
    if s.len() > 0 {
        lemma_entries_bytes_nonneg(s.drop_last());
    }
}

proof fn lemma_entries_bytes_single(e: (String, GameplayCommandValue))
    ensures
        entries_bytes(seq![e]) == entry_bytes(e.0@, e.1),
{
    assert(seq![e].drop_last() =~= Seq::<(String, GameplayCommandValue)>::empty());
    assert(entries_bytes(Seq::<(String, GameplayCommandValue)>::empty()) == 0);
    assert(seq![e].last() == e);
}

/// Semantically bounded command payload data: entries ordered by key text.
#[derive(Debug, Clone, PartialEq)]
pub struct GameplayCommandPayload {
    entries: Vec<(String, GameplayCommandValue)>,
    logical_bytes: usize,
}

impl GameplayCommandPayload {
    pub closed spec fn entry_seq(&self) -> Seq<(String, GameplayCommandValue)> {
        self.entries@
    }

    pub closed spec fn spec_logical_bytes(&self) -> usize {
        self.logical_bytes
    }

    pub open spec fn has_key(&self, key: Seq<char>) -> bool {
        exists|i: int| 0 <= i < self.entry_seq().len() && entry_key(#[trigger] self.entry_seq()[i]) == key
    }

    pub closed spec fn wf(&self) -> bool {
        &&& keys_sorted(self.entries@)
        &&& self.logical_bytes == entries_bytes(self.entries@)
        &&& self.entries@.len() <= MAX_GAMEPLAY_COMMAND_PAYLOAD_ITEMS
        &&& self.logical_bytes <= MAX_GAMEPLAY_COMMAND_PAYLOAD_BYTES
    }

    /// A payload keeps its keys in strictly increasing order, its logical size as the sum of
    /// its entries, and both within the hard payload maxima.
    pub proof fn lemma_wf(&self)
        requires
            self.wf(),
        ensures
            keys_sorted(self.entry_seq()),
            self.spec_logical_bytes() == entries_bytes(self.entry_seq()),
            self.entry_seq().len() <= MAX_GAMEPLAY_COMMAND_PAYLOAD_ITEMS,
            self.spec_logical_bytes() <= MAX_GAMEPLAY_COMMAND_PAYLOAD_BYTES,
    {
    }

    pub fn new() -> (r: Self)
        ensures
            r.wf(),
            r.entry_seq() == Seq::<(String, GameplayCommandValue)>::empty(),
            r.spec_logical_bytes() == 0,
    {
        GameplayCommandPayload { entries: Vec::new(), logical_bytes: 0 }
    }

    /// Position of `key`: `(true, i)` when entry `i` has it, otherwise `(false, p)` with `p`
    /// the position that keeps the keys ordered.
    fn find(&self, key: &str) -> (r: (bool, usize))
        requires
            self.wf(),
        ensures
            r.1 <= self.entries@.len(),
            r.0 ==> r.1 < self.entries@.len() && entry_key(self.entries@[r.1 as int]) == key@,
            r.0 <==> self.has_key(key@),
            !r.0 ==> forall|i: int| 0 <= i < r.1 ==> text_lt(#[trigger] entry_key(self.entries@[i]), key@),
            !r.0 ==> forall|i: int| r.1 <= i < self.entries@.len() ==> text_lt(key@, #[trigger] entry_key(self.entries@[i])),
    {
        let mut i: usize = 0;
        while i < self.entries.len()
            invariant
                self.wf(),
                i <= self.entries@.len(),
                forall|k: int| 0 <= k < i ==> text_lt(#[trigger] entry_key(self.entries@[k]), key@),
            decreases self.entries@.len() - i,
        {
            match compare_text(self.entries[i].0.as_str(), key) {
                TextOrder::Equal => {
                    proof {
                        assert(entry_key(self.entry_seq()[i as int]) == key@);
                    }
                    return (true, i);
                },
                TextOrder::Greater => {
                    proof {
                        assert forall|k: int| i <= k < self.entries@.len() implies text_lt(key@, #[trigger] entry_key(self.entries@[k])) by {
                            if k > i {
                                lemma_text_lt_transitive(key@, entry_key(self.entries@[i as int]), entry_key(self.entries@[k]));
                            }
                        }
                        assert forall|k: int| 0 <= k < self.entries@.len() implies entry_key(#[trigger] self.entries@[k]) != key@ by {
                            lemma_text_lt_trichotomy(key@, key@);
                        }
                    }
                    return (false, i);
                },
                TextOrder::Less => {},
            }
            i = i + 1;
        }
        proof {
            assert forall|k: int| 0 <= k < self.entries@.len() implies entry_key(#[trigger] self.entries@[k]) != key@ by {
                lemma_text_lt_trichotomy(key@, key@);
            }
        }
        (false, i)
    }

    /// Inserts or replaces the value for `key`, returning the replaced value.
    /// Every check runs before any change; a rejected insert leaves the payload unchanged.
    pub fn insert(&mut self, key: &str, value: GameplayCommandValue) -> (r: Result<Option<GameplayCommandValue>, GameplayCommandPayloadError>)
        requires
            old(self).wf(),
        ensures
            final(self).wf(),
            match payload_insert_check(old(self).entry_seq(), old(self).spec_logical_bytes(), key, value) {
                Err(e) => r == Err::<Option<GameplayCommandValue>, GameplayCommandPayloadError>(e),
                Ok(()) => r == Ok::<Option<GameplayCommandValue>, GameplayCommandPayloadError>(payload_previous(old(self).entry_seq(), key@)),
            },
            r is Err ==> *final(self) == *old(self),
            r is Ok ==> {
                &&& final(self).spec_logical_bytes() == old(self).spec_logical_bytes() - payload_previous_bytes(old(self).entry_seq(), key@) + entry_bytes(key@, value)
                &&& if old(self).has_key(key@) {
                    exists|i: int| 0 <= i < old(self).entry_seq().len() && entry_key(old(self).entry_seq()[i]) == key@
                        && final(self).entry_seq() == #[trigger] old(self).entry_seq().update(i, (final(self).entry_seq()[i].0, value))
                        && final(self).entry_seq()[i].0@ == key@
                } else {
                    exists|p: int| 0 <= p <= old(self).entry_seq().len()
                        && final(self).entry_seq() == #[trigger] old(self).entry_seq().insert(p, (final(self).entry_seq()[p].0, value))
                        && final(self).entry_seq()[p].0@ == key@
                }
            },
    {
        match validate_payload_key(key) {
            Err(e) => return Err(e),
            Ok(()) => {},
        }
        match value.validate() {
            Err(e) => return Err(e),
            Ok(()) => {},
        }
        let new_entry_bytes = match payload_entry_bytes(key, &value) {
            Err(e) => return Err(e),
            Ok(n) => n,
        };
        let (found, at) = self.find(key);
        proof {
            if found {
                let s = self.entries@;
                assert(s =~= s.take(at as int) + seq![s[at as int]] + s.skip(at as int + 1));
                lemma_entries_bytes_concat(s.take(at as int) + seq![s[at as int]], s.skip(at as int + 1));
                lemma_entries_bytes_concat(s.take(at as int), seq![s[at as int]]);
                lemma_entries_bytes_single(s[at as int]);
                lemma_entries_bytes_nonneg(s.take(at as int));
                lemma_entries_bytes_nonneg(s.skip(at as int + 1));
            }
        }
        let previous_entry_bytes = if found {
            match payload_entry_bytes(self.entries[at].0.as_str(), &self.entries[at].1) {
                Err(e) => return Err(e),
                Ok(n) => n,
            }
        } else {
            0
        };
        proof {
            if found {
                lemma_payload_previous(self.entries@, key@, at as int);
            } else {
                lemma_payload_absent(self.entries@, key@);
            }
        }
        let next_items = if found { self.entries.len() } else { self.entries.len() + 1 };
        if next_items > MAX_GAMEPLAY_COMMAND_PAYLOAD_ITEMS {
            return Err(GameplayCommandPayloadError::TooManyItems { requested: next_items, maximum: MAX_GAMEPLAY_COMMAND_PAYLOAD_ITEMS });
        }
        let next_bytes = match self.logical_bytes.checked_sub(previous_entry_bytes) {
            None => return Err(GameplayCommandPayloadError::LogicalSizeOverflow),
            Some(b) => match b.checked_add(new_entry_bytes) {
                None => return Err(GameplayCommandPayloadError::LogicalSizeOverflow),
                Some(n) => n,
            },
        };
        if next_bytes > MAX_GAMEPLAY_COMMAND_PAYLOAD_BYTES {
            return Err(GameplayCommandPayloadError::TooManyBytes { requested: next_bytes, maximum: MAX_GAMEPLAY_COMMAND_PAYLOAD_BYTES });
        }
        let owned_key = key.to_owned();
        if found {
            let old_entry = self.replace_at(at, owned_key, value, next_bytes);
            proof {
                assert(self.entry_seq() == old(self).entry_seq().update(at as int, (self.entry_seq()[at as int].0, value)));
            }
            Ok(Some(old_entry.1))
        } else {
            self.insert_at(at, owned_key, value, next_bytes);
            proof {
                assert(self.entry_seq() == old(self).entry_seq().insert(at as int, (self.entry_seq()[at as int].0, value)));
            }
            Ok(None)
        }
    }

    fn replace_at(&mut self, at: usize, key: String, value: GameplayCommandValue, next_bytes: usize) -> (r: (String, GameplayCommandValue))
        requires
            old(self).wf(),
            at < old(self).entries@.len(),
            entry_key(old(self).entries@[at as int]) == key@,
            next_bytes == old(self).logical_bytes - entry_bytes(key@, old(self).entries@[at as int].1) + entry_bytes(key@, value),
            next_bytes <= MAX_GAMEPLAY_COMMAND_PAYLOAD_BYTES,
        ensures
            final(self).wf(),
            r == old(self).entries@[at as int],
            final(self).entries@ == old(self).entries@.update(at as int, (key, value)),
            final(self).logical_bytes == next_bytes,
    {
        let ghost before = self.entries@;
        let old_entry = self.entries.remove(at);
        self.entries.insert(at, (key, value));
        self.logical_bytes = next_bytes;
        proof {
            let s = self.entries@;
            assert(s =~= before.update(at as int, (key, value)));
            assert(keys_sorted(s)) by {
                assert forall|i: int, j: int| 0 <= i < j < s.len() implies text_lt(#[trigger] entry_key(s[i]), #[trigger] entry_key(s[j])) by {
                    assert(entry_key(s[i]) == entry_key(before[i]));
                    assert(entry_key(s[j]) == entry_key(before[j]));
                    assert(text_lt(entry_key(before[i]), entry_key(before[j])));
                }
            }
            assert(before =~= before.take(at as int) + seq![before[at as int]] + before.skip(at as int + 1));
            lemma_entries_bytes_concat(before.take(at as int) + seq![before[at as int]], before.skip(at as int + 1));
            lemma_entries_bytes_concat(before.take(at as int), seq![before[at as int]]);
            lemma_entries_bytes_single(before[at as int]);
            assert(s =~= before.take(at as int) + seq![s[at as int]] + before.skip(at as int + 1));
            lemma_entries_bytes_concat(before.take(at as int) + seq![s[at as int]], before.skip(at as int + 1));
            lemma_entries_bytes_concat(before.take(at as int), seq![s[at as int]]);
            lemma_entries_bytes_single(s[at as int]);
        }
        old_entry
    }

    fn insert_at(&mut self, at: usize, key: String, value: GameplayCommandValue, next_bytes: usize)
        requires
            old(self).wf(),
            at <= old(self).entries@.len(),
            old(self).entries@.len() + 1 <= MAX_GAMEPLAY_COMMAND_PAYLOAD_ITEMS,
            forall|i: int| 0 <= i < at ==> text_lt(#[trigger] entry_key(old(self).entries@[i]), key@),
            forall|i: int| at <= i < old(self).entries@.len() ==> text_lt(key@, #[trigger] entry_key(old(self).entries@[i])),
            next_bytes == old(self).logical_bytes + entry_bytes(key@, value),
            next_bytes <= MAX_GAMEPLAY_COMMAND_PAYLOAD_BYTES,
        ensures
            final(self).wf(),
            final(self).entries@ == old(self).entries@.insert(at as int, (key, value)),
            final(self).logical_bytes == next_bytes,
    {
        let ghost before = self.entries@;
        let ghost k = key@;
        self.entries.insert(at, (key, value));
        self.logical_bytes = next_bytes;
        proof {
            let s = self.entries@;
            assert(s =~= before.insert(at as int, s[at as int]));
            assert(keys_sorted(s)) by {
                assert forall|i: int, j: int| 0 <= i < j < s.len() implies text_lt(#[trigger] entry_key(s[i]), #[trigger] entry_key(s[j])) by {
                    if j < at {
                        assert(s[i] == before[i] && s[j] == before[j]);
                    } else if j == at {
                        assert(s[i] == before[i]);
                    } else if i < at {
                        assert(s[i] == before[i] && s[j] == before[j - 1]);
                        lemma_text_lt_transitive(entry_key(before[i]), k, entry_key(before[j - 1]));
                    } else if i == at {
                        assert(s[j] == before[j - 1]);
                    } else {
                        assert(s[i] == before[i - 1] && s[j] == before[j - 1]);
                    }
                }
            }
            assert(s =~= before.take(at as int) + seq![s[at as int]] + before.skip(at as int));
            lemma_entries_bytes_concat(before.take(at as int) + seq![s[at as int]], before.skip(at as int));
            lemma_entries_bytes_concat(before.take(at as int), seq![s[at as int]]);
            lemma_entries_bytes_single(s[at as int]);
            assert(before =~= before.take(at as int) + before.skip(at as int));
            lemma_entries_bytes_concat(before.take(at as int), before.skip(at as int));
        }
    }

    /// The value stored for `key`, if any.
    pub fn get(&self, key: &str) -> (r: Option<&GameplayCommandValue>)
        requires
            self.wf(),
        ensures
            match payload_previous(self.entry_seq(), key@) {
                Some(v) => r is Some && *r->0 == v,
                None => r is None,
            },
    {
        let (found, at) = self.find(key);
        proof {
            if found {
                lemma_payload_previous(self.entries@, key@, at as int);
            } else {
                lemma_payload_absent(self.entries@, key@);
            }
        }
        if found {
            Some(&self.entries[at].1)
        } else {
            None
        }
    }

    pub fn len(&self) -> (r: usize)
        ensures
            r == self.entry_seq().len(),
    {
        self.entries.len()
    }

    pub fn is_empty(&self) -> (r: bool)
        ensures
            r == (self.entry_seq().len() == 0),
    {
        self.entries.len() == 0
    }

    pub fn logical_bytes(&self) -> (r: usize)
        ensures
            r == self.spec_logical_bytes(),
    {
        self.logical_bytes
    }

    /// The entries in key order.
    pub fn iter(&self) -> (r: &[(String, GameplayCommandValue)])
        ensures
            r@ == self.entry_seq(),
    {
        self.entries.as_slice()
    }
}

/// The value of the entry whose key is `key`, if any.
pub open spec fn payload_previous(s: Seq<(String, GameplayCommandValue)>, key: Seq<char>) -> Option<GameplayCommandValue> {
    if exists|i: int| 0 <= i < s.len() && entry_key(#[trigger] s[i]) == key {
        let i = choose|i: int| 0 <= i < s.len() && entry_key(#[trigger] s[i]) == key;
        Some(s[i].1)
    } else {
        None
    }
}

/// Logical bytes of the entry an insert of `key` replaces (0 when none).
pub open spec fn payload_previous_bytes(s: Seq<(String, GameplayCommandValue)>, key: Seq<char>) -> int {
    match payload_previous(s, key) {
        Some(v) => entry_bytes(key, v),
        None => 0,
    }
}

proof fn lemma_payload_previous(s: Seq<(String, GameplayCommandValue)>, key: Seq<char>, at: int)
    requires
        keys_sorted(s),
        0 <= at < s.len(),
        entry_key(s[at]) == key,
    ensures
        payload_previous(s, key) == Some(s[at].1),
        payload_previous_bytes(s, key) == entry_bytes(s[at].0@, s[at].1),
{
    let i = choose|i: int| 0 <= i < s.len() && entry_key(#[trigger] s[i]) == key;
    if i != at {
        lemma_text_lt_trichotomy(key, key);
    }
}

proof fn lemma_payload_absent(s: Seq<(String, GameplayCommandValue)>, key: Seq<char>)
    requires
        forall|i: int| 0 <= i < s.len() ==> entry_key(#[trigger] s[i]) != key,
    ensures
        payload_previous(s, key) is None,
        payload_previous_bytes(s, key) == 0,
{
}

/// The first failing check of an insert of `key`, in the order the checks run.
pub open spec fn payload_insert_check(s: Seq<(String, GameplayCommandValue)>, logical_bytes: usize, key: &str, value: GameplayCommandValue) -> Result<(), GameplayCommandPayloadError> {
    let present = payload_previous(s, key@) is Some;
    let next_items = if present { s.len() } else { s.len() + 1 };
    let next_bytes = logical_bytes - payload_previous_bytes(s, key@) + entry_bytes(key@, value);
    if payload_key_check(key) is Err {
        payload_key_check(key)
    } else if value.check() is Err {
        value.check()
    } else if checked_size(entry_bytes(key@, value)) is None {
        Err(GameplayCommandPayloadError::LogicalSizeOverflow)
    } else if next_items > MAX_GAMEPLAY_COMMAND_PAYLOAD_ITEMS {
        Err(GameplayCommandPayloadError::TooManyItems { requested: next_items as usize, maximum: MAX_GAMEPLAY_COMMAND_PAYLOAD_ITEMS })
    } else if next_bytes > usize::MAX {
        Err(GameplayCommandPayloadError::LogicalSizeOverflow)
    } else if next_bytes > MAX_GAMEPLAY_COMMAND_PAYLOAD_BYTES {
        Err(GameplayCommandPayloadError::TooManyBytes { requested: next_bytes as usize, maximum: MAX_GAMEPLAY_COMMAND_PAYLOAD_BYTES })
    } else {
        Ok(())
    }
}

/// Explicit non-local command producer.
#[derive(Debug, Clone, PartialEq, Eq, Hash)]
pub enum GameplayCommandIngressSource {
    Test { driver: GameplayCommandSourceId },
    Replay { stream: GameplayCommandSourceId },
    Ai { agent: GameplayCommandSourceId },
    External { producer: GameplayCommandSourceId },
}

impl GameplayCommandIngressSource {
    pub open spec fn id_view(&self) -> Seq<char> {
        match self {
            GameplayCommandIngressSource::Test { driver } => driver.view(),
            GameplayCommandIngressSource::Replay { stream } => stream.view(),
            GameplayCommandIngressSource::Ai { agent } => agent.view(),
            GameplayCommandIngressSource::External { producer } => producer.view(),
        }
    }

    /// Rank of the admitted source kind this ingress source becomes.
    pub open spec fn rank(&self) -> u8 {
        match self {
            GameplayCommandIngressSource::Test { .. } => 1,
            GameplayCommandIngressSource::Replay { .. } => 2,
            GameplayCommandIngressSource::Ai { .. } => 3,
            GameplayCommandIngressSource::External { .. } => 4,
        }
    }

    pub fn test(driver: &str) -> (r: Result<Self, GameplayCommandIdError>)
        ensures
            match id_check("command source id", driver) {
                Ok(()) => r is Ok && r->Ok_0 is Test && r->Ok_0.id_view() == driver@,
                Err(e) => r == Err::<Self, GameplayCommandIdError>(e),
            },
    {
        match GameplayCommandSourceId::new(driver) {
            Ok(driver) => Ok(GameplayCommandIngressSource::Test { driver }),
            Err(e) => Err(e),
        }
    }

    pub fn replay(stream: &str) -> (r: Result<Self, GameplayCommandIdError>)
        ensures
            match id_check("command source id", stream) {
                Ok(()) => r is Ok && r->Ok_0 is Replay && r->Ok_0.id_view() == stream@,
                Err(e) => r == Err::<Self, GameplayCommandIdError>(e),
            },
    {
        match GameplayCommandSourceId::new(stream) {
            Ok(stream) => Ok(GameplayCommandIngressSource::Replay { stream }),
            Err(e) => Err(e),
        }
    }

    pub fn ai(agent: &str) -> (r: Result<Self, GameplayCommandIdError>)
        ensures
            match id_check("command source id", agent) {
                Ok(()) => r is Ok && r->Ok_0 is Ai && r->Ok_0.id_view() == agent@,
                Err(e) => r == Err::<Self, GameplayCommandIdError>(e),
            },
    {
        match GameplayCommandSourceId::new(agent) {
            Ok(agent) => Ok(GameplayCommandIngressSource::Ai { agent }),
            Err(e) => Err(e),
        }
    }

    pub fn external(producer: &str) -> (r: Result<Self, GameplayCommandIdError>)
        ensures
            match id_check("command source id", producer) {
                Ok(()) => r is Ok && r->Ok_0 is External && r->Ok_0.id_view() == producer@,
                Err(e) => r == Err::<Self, GameplayCommandIdError>(e),
            },
    {
        match GameplayCommandSourceId::new(producer) {
            Ok(producer) => Ok(GameplayCommandIngressSource::External { producer }),
            Err(e) => Err(e),
        }
    }

    pub fn id(&self) -> (r: &GameplayCommandSourceId)
        ensures
            r.view() == self.id_view(),
    {
        match self {
            GameplayCommandIngressSource::Test { driver } => driver,
            GameplayCommandIngressSource::Replay { stream } => stream,
            GameplayCommandIngressSource::Ai { agent } => agent,
            GameplayCommandIngressSource::External { producer } => producer,
        }
    }

    /// The admitted source with the same kind and identifier.
    pub fn into_admitted(self) -> (r: GameplayCommandSource)
        ensures
            r.rank() == self.rank(),
            r.id_view() == self.id_view(),
    {
        match self {
            GameplayCommandIngressSource::Test { driver } => GameplayCommandSource::Test { driver },
            GameplayCommandIngressSource::Replay { stream } => GameplayCommandSource::Replay { stream },
            GameplayCommandIngressSource::Ai { agent } => GameplayCommandSource::Ai { agent },
            GameplayCommandIngressSource::External { producer } => GameplayCommandSource::External { producer },
        }
    }

    pub fn duplicate(&self) -> (r: Self)
        ensures
            r.rank() == self.rank(),
            r.id_view() == self.id_view(),
    {
        match self {
            GameplayCommandIngressSource::Test { driver } => GameplayCommandIngressSource::Test { driver: driver.duplicate() },
            GameplayCommandIngressSource::Replay { stream } => GameplayCommandIngressSource::Replay { stream: stream.duplicate() },
            GameplayCommandIngressSource::Ai { agent } => GameplayCommandIngressSource::Ai { agent: agent.duplicate() },
            GameplayCommandIngressSource::External { producer } => GameplayCommandIngressSource::External { producer: producer.duplicate() },
        }
    }
}

/// Admitted command source. Sources order by kind rank, then by identifier text.
#[derive(Debug, Clone, PartialEq, Eq, Hash)]
pub enum GameplayCommandSource {
    LocalAction,
    Test { driver: GameplayCommandSourceId },
    Replay { stream: GameplayCommandSourceId },
    Ai { agent: GameplayCommandSourceId },
    External { producer: GameplayCommandSourceId },
}

impl GameplayCommandSource {
    /// Identifier text; empty for the local action source.
    pub open spec fn id_view(&self) -> Seq<char> {
        match self {
            GameplayCommandSource::LocalAction => Seq::empty(),
            GameplayCommandSource::Test { driver } => driver.view(),
            GameplayCommandSource::Replay { stream } => stream.view(),
            GameplayCommandSource::Ai { agent } => agent.view(),
            GameplayCommandSource::External { producer } => producer.view(),
        }
    }

    pub open spec fn rank(&self) -> u8 {
        match self {
            GameplayCommandSource::LocalAction => 0,
            GameplayCommandSource::Test { .. } => 1,
            GameplayCommandSource::Replay { .. } => 2,
            GameplayCommandSource::Ai { .. } => 3,
            GameplayCommandSource::External { .. } => 4,
        }
    }

    pub fn test(driver: &str) -> (r: Result<Self, GameplayCommandIdError>)
        ensures
            match id_check("command source id", driver) {
                Ok(()) => r is Ok && r->Ok_0 is Test && r->Ok_0.id_view() == driver@,
                Err(e) => r == Err::<Self, GameplayCommandIdError>(e),
            },
    {
        match GameplayCommandSourceId::new(driver) {
            Ok(driver) => Ok(GameplayCommandSource::Test { driver }),
            Err(e) => Err(e),
        }
    }

    pub fn replay(stream: &str) -> (r: Result<Self, GameplayCommandIdError>)
        ensures
            match id_check("command source id", stream) {
                Ok(()) => r is Ok && r->Ok_0 is Replay && r->Ok_0.id_view() == stream@,
                Err(e) => r == Err::<Self, GameplayCommandIdError>(e),
            },
    {
        match GameplayCommandSourceId::new(stream) {
            Ok(stream) => Ok(GameplayCommandSource::Replay { stream }),
            Err(e) => Err(e),
        }
    }

    pub fn ai(agent: &str) -> (r: Result<Self, GameplayCommandIdError>)
        ensures
            match id_check("command source id", agent) {
                Ok(()) => r is Ok && r->Ok_0 is Ai && r->Ok_0.id_view() == agent@,
                Err(e) => r == Err::<Self, GameplayCommandIdError>(e),
            },
    {
        match GameplayCommandSourceId::new(agent) {
            Ok(agent) => Ok(GameplayCommandSource::Ai { agent }),
            Err(e) => Err(e),
        }
    }

    pub fn external(producer: &str) -> (r: Result<Self, GameplayCommandIdError>)
        ensures
            match id_check("command source id", producer) {
                Ok(()) => r is Ok && r->Ok_0 is External && r->Ok_0.id_view() == producer@,
                Err(e) => r == Err::<Self, GameplayCommandIdError>(e),
            },
    {
        match GameplayCommandSourceId::new(producer) {
            Ok(producer) => Ok(GameplayCommandSource::External { producer }),
            Err(e) => Err(e),
        }
    }

    pub fn kind_rank(&self) -> (r: u8)
        ensures
            r == self.rank(),
    {
        match self {
            GameplayCommandSource::LocalAction => 0,
            GameplayCommandSource::Test { .. } => 1,
            GameplayCommandSource::Replay { .. } => 2,
            GameplayCommandSource::Ai { .. } => 3,
            GameplayCommandSource::External { .. } => 4,
        }
    }

    pub fn id(&self) -> (r: Option<&GameplayCommandSourceId>)
        ensures
            self is LocalAction <==> r is None,
            r matches Some(id) ==> id.view() == self.id_view(),
    {
        match self {
            GameplayCommandSource::LocalAction => None,
            GameplayCommandSource::Test { driver } => Some(driver),
            GameplayCommandSource::Replay { stream } => Some(stream),
            GameplayCommandSource::Ai { agent } => Some(agent),
            GameplayCommandSource::External { producer } => Some(producer),
        }
    }

    fn id_text(&self) -> (r: &str)
        ensures
            r@ == self.id_view(),
    {
        match self {
            GameplayCommandSource::LocalAction => {
                proof {
                    reveal_strlit("");
                }
                ""
            },
            GameplayCommandSource::Test { driver } => driver.as_str(),
            GameplayCommandSource::Replay { stream } => stream.as_str(),
            GameplayCommandSource::Ai { agent } => agent.as_str(),
            GameplayCommandSource::External { producer } => producer.as_str(),
        }
    }

    /// Variant tag plus the identifier bytes.
    pub open spec fn spec_logical_bytes(&self) -> int {
        VARIANT_TAG_BYTES + text_bytes(self.id_view())
    }

    pub fn logical_bytes(&self) -> (r: Option<usize>)
        ensures
            r == checked_size(self.spec_logical_bytes()),
    {
        let id_bytes = match self.id() {
            None => 0,
            Some(id) => byte_len(id.as_str()),
        };
        proof {
            if self is LocalAction {
                assert(vstd::utf8::encode_utf8(Seq::<char>::empty()) =~= Seq::<u8>::empty()) by {
                    reveal_with_fuel(vstd::utf8::encode_utf8, 1);
                }
            }
        }
        VARIANT_TAG_BYTES.checked_add(id_bytes)
    }

    pub fn duplicate(&self) -> (r: Self)
        ensures
            r.rank() == self.rank(),
            r.id_view() == self.id_view(),
    {
        match self {
            GameplayCommandSource::LocalAction => GameplayCommandSource::LocalAction,
            GameplayCommandSource::Test { driver } => GameplayCommandSource::Test { driver: driver.duplicate() },
            GameplayCommandSource::Replay { stream } => GameplayCommandSource::Replay { stream: stream.duplicate() },
            GameplayCommandSource::Ai { agent } => GameplayCommandSource::Ai { agent: agent.duplicate() },
            GameplayCommandSource::External { producer } => GameplayCommandSource::External { producer: producer.duplicate() },
        }
    }
}

/// An authoritative tick; never zero.
#[derive(Debug, Clone, Copy, PartialEq, Eq, Structural, PartialOrd, Ord, Hash)]
pub struct GameplayCommandTick(u64);

impl GameplayCommandTick {
    pub closed spec fn value(self) -> u64 {
        self.0
    }

    pub fn new(tick: u64) -> (r: Option<Self>)
        ensures
            tick == 0 ==> r is None,
            tick != 0 ==> r is Some && r->0.value() == tick,
    {
        if tick == 0 {
            None
        } else {
            Some(GameplayCommandTick(tick))
        }
    }

    pub fn get(self) -> (r: u64)
        ensures
            r == self.value(),
    {
        self.0
    }
}

/// A per-source command sequence number; never zero.
#[derive(Debug, Clone, Copy, PartialEq, Eq, Structural, PartialOrd, Ord, Hash)]
pub struct GameplayCommandSourceSequence(u64);

impl GameplayCommandSourceSequence {
    pub closed spec fn value(self) -> u64 {
        self.0
    }

    pub fn new(sequence: u64) -> (r: Option<Self>)
        ensures
            sequence == 0 ==> r is None,
            sequence != 0 ==> r is Some && r->0.value() == sequence,
    {
        if sequence == 0 {
            None
        } else {
            Some(GameplayCommandSourceSequence(sequence))
        }
    }

    pub fn get(self) -> (r: u64)
        ensures
            r == self.value(),
    {
        self.0
    }
}

/// A command's type, optional target and payload.
#[derive(Debug, Clone, PartialEq)]
pub struct GameplayCommandDraft {
    command_type: GameplayCommandTypeId,
    target: Option<GameplayCommandTarget>,
    payload: GameplayCommandPayload,
}

impl GameplayCommandDraft {
    pub closed spec fn spec_command_type(&self) -> GameplayCommandTypeId {
        self.command_type
    }

    pub closed spec fn spec_target(&self) -> Option<GameplayCommandTarget> {
        self.target
    }

    pub closed spec fn spec_payload(&self) -> GameplayCommandPayload {
        self.payload
    }

    pub closed spec fn wf(&self) -> bool {
        self.payload.wf()
    }

    pub fn new(command_type: GameplayCommandTypeId) -> (r: Self)
        ensures
            r.wf(),
            r.spec_command_type() == command_type,
            r.spec_target() is None,
            r.spec_payload().entry_seq().len() == 0,
            r.spec_payload().spec_logical_bytes() == 0,
    {
        GameplayCommandDraft { command_type, target: None, payload: GameplayCommandPayload::new() }
    }

    pub fn with_target(self, target: GameplayCommandTarget) -> (r: Self)
        ensures
            r.wf() == self.wf(),
            r.spec_command_type() == self.spec_command_type(),
            r.spec_target() == Some(target),
            r.spec_payload() == self.spec_payload(),
    {
        GameplayCommandDraft { command_type: self.command_type, target: Some(target), payload: self.payload }
    }

    pub fn with_payload(self, payload: GameplayCommandPayload) -> (r: Self)
        ensures
            r.wf() == payload.wf(),
            r.spec_command_type() == self.spec_command_type(),
            r.spec_target() == self.spec_target(),
            r.spec_payload() == payload,
    {
        GameplayCommandDraft { command_type: self.command_type, target: self.target, payload }
    }

    pub fn command_type(&self) -> (r: &GameplayCommandTypeId)
        ensures
            *r == self.spec_command_type(),
    {
        &self.command_type
    }

    pub fn target(&self) -> (r: Option<&GameplayCommandTarget>)
        ensures
            match self.spec_target() {
                Some(t) => r is Some && *r->0 == t,
                None => r is None,
            },
    {
        match &self.target {
            Some(t) => Some(t),
            None => None,
        }
    }

    pub fn payload(&self) -> (r: &GameplayCommandPayload)
        ensures
            *r == self.spec_payload(),
    {
        &self.payload
    }

    /// Type bytes, a tag, the target's logical bytes (0 when absent) and the payload bytes.
    pub open spec fn spec_logical_bytes(&self) -> int {
        text_bytes(self.spec_command_type().view()) + VARIANT_TAG_BYTES
            + match self.spec_target() {
                Some(t) => t.spec_logical_bytes(),
                None => 0,
            }
            + self.spec_payload().spec_logical_bytes()
    }

    pub fn logical_bytes(&self) -> (r: Option<usize>)
        ensures
            r == checked_size(self.spec_logical_bytes()),
    {
        let type_bytes = byte_len(self.command_type.as_str());
        let with_tag = match type_bytes.checked_add(VARIANT_TAG_BYTES) {
            None => return None,
            Some(b) => b,
        };
        let target_bytes = match &self.target {
            None => 0,
            Some(t) => match t.logical_bytes() {
                None => return None,
                Some(b) => b,
            },
        };
        let with_target = match with_tag.checked_add(target_bytes) {
            None => return None,
            Some(b) => b,
        };
        with_target.checked_add(self.payload.logical_bytes())
    }
}

/// The order-relevant content of a command key: tick, source rank, source id text, sequence.
pub struct KeyModel {
    pub tick: u64,
    pub rank: u8,
    pub id: Seq<char>,
    pub sequence: u64,
}

/// Logical bytes of a key with this model: two u64 widths, the source tag and its identifier.
pub open spec fn key_model_bytes(m: KeyModel) -> int {
    U64_BYTES + U64_BYTES + VARIANT_TAG_BYTES + text_bytes(m.id)
}

/// Strict order of command keys: tick, then source rank, then source id text, then sequence.
pub open spec fn key_lt(a: KeyModel, b: KeyModel) -> bool {
    ||| a.tick < b.tick
    ||| (a.tick == b.tick && a.rank < b.rank)
    ||| (a.tick == b.tick && a.rank == b.rank && text_lt(a.id, b.id))
    ||| (a.tick == b.tick && a.rank == b.rank && a.id == b.id && a.sequence < b.sequence)
}

pub proof fn lemma_key_lt_transitive(a: KeyModel, b: KeyModel, c: KeyModel)
    requires
        key_lt(a, b),
        key_lt(b, c),
    ensures
        key_lt(a, c),
{
    if a.tick == b.tick && b.tick == c.tick && a.rank == b.rank && b.rank == c.rank {
        if text_lt(a.id, b.id) && text_lt(b.id, c.id) {
            lemma_text_lt_transitive(a.id, b.id, c.id);
        }
    }
}

pub proof fn lemma_key_lt_trichotomy(a: KeyModel, b: KeyModel)
    ensures
        !(key_lt(a, b) && key_lt(b, a)),
        !key_lt(a, a),
        a != b ==> (key_lt(a, b) || key_lt(b, a)),
{
    lemma_text_lt_trichotomy(a.id, b.id);
    lemma_text_lt_trichotomy(a.id, a.id);
}

/// The identity of a command: tick, admitted source and the source's sequence number.
#[derive(Debug, Clone, PartialEq, Eq, Hash)]
pub struct GameplayCommandKey {
    tick: GameplayCommandTick,
    source: GameplayCommandSource,
    source_sequence: GameplayCommandSourceSequence,
}

impl GameplayCommandKey {
    pub closed spec fn spec_tick(&self) -> GameplayCommandTick {
        self.tick
    }

    pub closed spec fn spec_source(&self) -> GameplayCommandSource {
        self.source
    }

    pub closed spec fn spec_source_sequence(&self) -> GameplayCommandSourceSequence {
        self.source_sequence
    }

    pub open spec fn model(&self) -> KeyModel {
        KeyModel {
            tick: self.spec_tick().value(),
            rank: self.spec_source().rank(),
            id: self.spec_source().id_view(),
            sequence: self.spec_source_sequence().value(),
        }
    }

    pub fn new(tick: GameplayCommandTick, source: GameplayCommandSource, source_sequence: GameplayCommandSourceSequence) -> (r: Self)
        ensures
            r.spec_tick() == tick,
            r.spec_source() == source,
            r.spec_source_sequence() == source_sequence,
    {
        GameplayCommandKey { tick, source, source_sequence }
    }

    pub fn tick(&self) -> (r: GameplayCommandTick)
        ensures
            r == self.spec_tick(),
    {
        self.tick
    }

    pub fn source(&self) -> (r: &GameplayCommandSource)
        ensures
            *r == self.spec_source(),
    {
        &self.source
    }

    pub fn source_sequence(&self) -> (r: GameplayCommandSourceSequence)
        ensures
            r == self.spec_source_sequence(),
    {
        self.source_sequence
    }

    /// Two u64 widths plus the source's logical bytes.
    pub open spec fn spec_logical_bytes(&self) -> int {
        U64_BYTES + U64_BYTES + self.spec_source().spec_logical_bytes()
    }

    pub fn logical_bytes(&self) -> (r: Option<usize>)
        ensures
            r == checked_size(self.spec_logical_bytes()),
    {
        match self.source.logical_bytes() {
            None => None,
            Some(s) => (U64_BYTES + U64_BYTES).checked_add(s),
        }
    }

    pub fn duplicate(&self) -> (r: Self)
        ensures
            r.model() == self.model(),
    {
        GameplayCommandKey { tick: self.tick, source: self.source.duplicate(), source_sequence: self.source_sequence }
    }

    /// Three-way comparison by the key order.
    pub fn compare(&self, other: &Self) -> (r: TextOrder)
        ensures
            r == TextOrder::Less <==> key_lt(self.model(), other.model()),
            r == TextOrder::Greater <==> key_lt(other.model(), self.model()),
            r == TextOrder::Equal <==> self.model() == other.model(),
    {
        proof {
            lemma_key_lt_trichotomy(self.model(), other.model());
        }
        if self.tick.0 < other.tick.0 {
            return TextOrder::Less;
        }
        if other.tick.0 < self.tick.0 {
            return TextOrder::Greater;
        }
        let a = self.source.kind_rank();
        let b = other.source.kind_rank();
        if a < b {
            return TextOrder::Less;
        }
        if b < a {
            return TextOrder::Greater;
        }
        match compare_text(self.source.id_text(), other.source.id_text()) {
            TextOrder::Less => TextOrder::Less,
            TextOrder::Greater => TextOrder::Greater,
            TextOrder::Equal => {
                if self.source_sequence.0 < other.source_sequence.0 {
                    TextOrder::Less
                } else if other.source_sequence.0 < self.source_sequence.0 {
                    TextOrder::Greater
                } else {
                    TextOrder::Equal
                }
            },
        }
    }
}

/// Explicit non-local command ingress for one authoritative tick.
#[derive(Debug, Clone, PartialEq)]
pub struct GameplayCommandSubmission {
    tick: GameplayCommandTick,
    source: GameplayCommandIngressSource,
    source_sequence: GameplayCommandSourceSequence,
    command: GameplayCommandDraft,
}

impl GameplayCommandSubmission {
    pub closed spec fn spec_tick(&self) -> GameplayCommandTick {
        self.tick
    }

    pub closed spec fn spec_source(&self) -> GameplayCommandIngressSource {
        self.source
    }

    pub closed spec fn spec_source_sequence(&self) -> GameplayCommandSourceSequence {
        self.source_sequence
    }

    pub closed spec fn spec_command(&self) -> GameplayCommandDraft {
        self.command
    }

    /// The key this submission is admitted under.
    pub open spec fn key_model(&self) -> KeyModel {
        KeyModel {
            tick: self.spec_tick().value(),
            rank: self.spec_source().rank(),
            id: self.spec_source().id_view(),
            sequence: self.spec_source_sequence().value(),
        }
    }

    pub fn new(
        tick: GameplayCommandTick,
        source: GameplayCommandIngressSource,
        source_sequence: GameplayCommandSourceSequence,
        command: GameplayCommandDraft,
    ) -> (r: Self)
        ensures
            r.spec_tick() == tick,
            r.spec_source() == source,
            r.spec_source_sequence() == source_sequence,
            r.spec_command() == command,
    {
        GameplayCommandSubmission { tick, source, source_sequence, command }
    }

    pub fn key(&self) -> (r: GameplayCommandKey)
        ensures
            r.model() == self.key_model(),
    {
        GameplayCommandKey::new(self.tick, self.source.duplicate().into_admitted(), self.source_sequence)
    }

    pub fn tick(&self) -> (r: GameplayCommandTick)
        ensures
            r == self.spec_tick(),
    {
        self.tick
    }

    pub fn source(&self) -> (r: &GameplayCommandIngressSource)
        ensures
            *r == self.spec_source(),
    {
        &self.source
    }

    pub fn source_sequence(&self) -> (r: GameplayCommandSourceSequence)
        ensures
            r == self.spec_source_sequence(),
    {
        self.source_sequence
    }

    pub fn command(&self) -> (r: &GameplayCommandDraft)
        ensures
            *r == self.spec_command(),
    {
        &self.command
    }

    /// Logical bytes of the admitted key plus those of the command.
    pub open spec fn spec_logical_bytes(&self) -> int {
        U64_BYTES + U64_BYTES + VARIANT_TAG_BYTES + text_bytes(self.spec_source().id_view())
            + self.spec_command().spec_logical_bytes()
    }

    pub fn logical_bytes(&self) -> (r: Option<usize>)
        ensures
            r == checked_size(self.spec_logical_bytes()),
    {
        let key = self.key();
        match key.logical_bytes() {
            None => None,
            Some(k) => match self.command.logical_bytes() {
                None => None,
                Some(c) => k.checked_add(c),
            },
        }
    }

    pub fn into_parts(self) -> (r: (GameplayCommandKey, GameplayCommandDraft))
        ensures
            r.0.model() == self.key_model(),
            r.1 == self.spec_command(),
    {
        (GameplayCommandKey::new(self.tick, self.source.into_admitted(), self.source_sequence), self.command)
    }
}

/// An admitted command: key, command and its logical bytes.
#[derive(Debug, Clone, PartialEq)]
pub struct GameplayCommandEnvelope {
    key: GameplayCommandKey,
    command: GameplayCommandDraft,
    logical_bytes: usize,
}

impl GameplayCommandEnvelope {
    pub closed spec fn spec_key(&self) -> GameplayCommandKey {
        self.key
    }

    pub closed spec fn spec_command(&self) -> GameplayCommandDraft {
        self.command
    }

    pub closed spec fn spec_logical_bytes(&self) -> usize {
        self.logical_bytes
    }

    pub(crate) fn admitted(key: GameplayCommandKey, command: GameplayCommandDraft, logical_bytes: usize) -> (r: Self)
        ensures
            r.spec_key() == key,
            r.spec_command() == command,
            r.spec_logical_bytes() == logical_bytes,
    {
        GameplayCommandEnvelope { key, command, logical_bytes }
    }

    pub fn key(&self) -> (r: &GameplayCommandKey)
        ensures
            *r == self.spec_key(),
    {
        &self.key
    }

    pub fn tick(&self) -> (r: GameplayCommandTick)
        ensures
            r == self.spec_key().spec_tick(),
    {
        self.key.tick()
    }

    pub fn source(&self) -> (r: &GameplayCommandSource)
        ensures
            *r == self.spec_key().spec_source(),
    {
        self.key.source()
    }

    pub fn source_sequence(&self) -> (r: GameplayCommandSourceSequence)
        ensures
            r == self.spec_key().spec_source_sequence(),
    {
        self.key.source_sequence()
    }

    pub fn command(&self) -> (r: &GameplayCommandDraft)
        ensures
            *r == self.spec_command(),
    {
        &self.command
    }

    pub fn command_type(&self) -> (r: &GameplayCommandTypeId)
        ensures
            *r == self.spec_command().spec_command_type(),
    {
        self.command.command_type()
    }

    pub fn target(&self) -> (r: Option<&GameplayCommandTarget>)
        ensures
            match self.spec_command().spec_target() {
                Some(t) => r is Some && *r->0 == t,
                None => r is None,
            },
    {
        self.command.target()
    }

    pub fn payload(&self) -> (r: &GameplayCommandPayload)
        ensures
            *r == self.spec_command().spec_payload(),
    {
        self.command.payload()
    }

    pub fn logical_bytes(&self) -> (r: usize)
        ensures
            r == self.spec_logical_bytes(),
    {
        self.logical_bytes
    }
}

impl GameplayCommandTarget {
    pub fn duplicate(&self) -> (r: Self)
        ensures
            r == *self,
    {
        match self {
            GameplayCommandTarget::Scene(id) => GameplayCommandTarget::Scene(SceneStableId(id.0.clone())),
            GameplayCommandTarget::Persistent(id) => GameplayCommandTarget::Persistent(PersistentRuntimeId(id.0.clone())),
            GameplayCommandTarget::Named(id) => GameplayCommandTarget::Named(GameplayCommandTargetId(id.0.clone())),
        }
    }
}

impl GameplayCommandValue {
    pub fn duplicate(&self) -> (r: Self)
        ensures
            r == *self,
    {
        match self {
            GameplayCommandValue::Bool(b) => GameplayCommandValue::Bool(*b),
            GameplayCommandValue::I64(v) => GameplayCommandValue::I64(*v),
            GameplayCommandValue::F64(bits) => GameplayCommandValue::F64(*bits),
            GameplayCommandValue::String(s) => GameplayCommandValue::String(s.clone()),
        }
    }
}

impl GameplayCommandPayload {
    /// A payload with the same entries in the same order.
    pub fn duplicate(&self) -> (r: Self)
        ensures
            r.entry_seq() == self.entry_seq(),
            r.spec_logical_bytes() == self.spec_logical_bytes(),
            r.wf() == self.wf(),
    {
        let mut entries: Vec<(String, GameplayCommandValue)> = Vec::new();
        let mut i: usize = 0;
        while i < self.entries.len()
            invariant
                i <= self.entries@.len(),
                entries@ == self.entries@.take(i as int),
            decreases self.entries@.len() - i,
        {
            let key = self.entries[i].0.clone();
            let value = self.entries[i].1.duplicate();
            entries.push((key, value));
            proof {
                assert(self.entries@.take(i + 1) =~= self.entries@.take(i as int).push(self.entries@[i as int]));
            }
            i = i + 1;
        }
        proof {
            assert(self.entries@.take(i as int) =~= self.entries@);
        }
        GameplayCommandPayload { entries, logical_bytes: self.logical_bytes }
    }
}

impl GameplayCommandDraft {
    /// Same command type, target and payload entries.
    pub open spec fn same(&self, other: &Self) -> bool {
        &&& self.spec_command_type() == other.spec_command_type()
        &&& self.spec_target() == other.spec_target()
        &&& self.spec_payload().entry_seq() == other.spec_payload().entry_seq()
        &&& self.spec_payload().spec_logical_bytes() == other.spec_payload().spec_logical_bytes()
        &&& self.spec_logical_bytes() == other.spec_logical_bytes()
        &&& self.wf() == other.wf()
    }

    pub fn duplicate(&self) -> (r: Self)
        ensures
            r.same(self),
    {
        let target = match &self.target {
            Some(t) => Some(t.duplicate()),
            None => None,
        };
        GameplayCommandDraft {
            command_type: GameplayCommandTypeId(self.command_type.0.clone()),
            target,
            payload: self.payload.duplicate(),
        }
    }
}

} // verus!
