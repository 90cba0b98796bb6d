//! Bounded authoritative gameplay intent waiting for fixed-tick admission.

use vstd::prelude::*;

use crate::gameplay::command::{
    checked_size, key_lt, key_model_bytes, lemma_key_lt_transitive, lemma_key_lt_trichotomy,
    GameplayCommandDraft, GameplayCommandEnvelope, GameplayCommandKey, GameplayCommandSource,
    GameplayCommandSourceSequence, GameplayCommandSubmission, GameplayCommandTick, KeyModel,
    MAX_GAMEPLAY_COMMAND_PAYLOAD_BYTES, MAX_GAMEPLAY_COMMAND_PAYLOAD_ITEMS,
};
use crate::limit::{ByteLimit, ItemLimit, PositiveU64};
use crate::text::TextOrder;

verus! {

pub const MAX_GAMEPLAY_COMMAND_RETAINED_COMMANDS: usize = 65536;
pub const MAX_GAMEPLAY_COMMAND_RETAINED_BYTES: usize = 67108864;
pub const MAX_GAMEPLAY_COMMAND_BYTES: usize = 524288;
pub const MAX_GAMEPLAY_COMMAND_FUTURE_TICKS: u64 = 1000000;

#[derive(Debug, Clone, Copy, PartialEq, Eq, Structural)]
pub enum GameplayCommandLimitKind {
    RetainedCommands,
    RetainedBytes,
    CommandBytes,
    PayloadItems,
    PayloadBytes,
    FutureTicks,
}

#[derive(Debug, Clone, PartialEq, Eq)]
pub enum GameplayCommandSettingsError {
    LimitTooLarge { kind: GameplayCommandLimitKind, requested: usize, maximum: usize },
    CommandExceedsRetainedBytes,
    PayloadExceedsCommandBytes,
}

/// Limits of one command queue.
#[derive(Debug, Clone, Copy, PartialEq, Eq)]
pub struct GameplayCommandQueueSettings {
    retained_commands: ItemLimit,
    retained_bytes: ByteLimit,
    command_bytes: ByteLimit,
    payload_items: ItemLimit,
    payload_bytes: ByteLimit,
    future_ticks: PositiveU64,
}

/// The first violated constraint of a settings candidate, in the order they are checked.
pub open spec fn settings_check(
    retained_commands: usize,
    retained_bytes: usize,
    command_bytes: usize,
    payload_items: usize,
    payload_bytes: usize,
    future_ticks: u64,
) -> Result<(), GameplayCommandSettingsError> {
    if retained_commands > MAX_GAMEPLAY_COMMAND_RETAINED_COMMANDS {
        Err(GameplayCommandSettingsError::LimitTooLarge { kind: GameplayCommandLimitKind::RetainedCommands, requested: retained_commands, maximum: MAX_GAMEPLAY_COMMAND_RETAINED_COMMANDS })
    } else if retained_bytes > MAX_GAMEPLAY_COMMAND_RETAINED_BYTES {
        Err(GameplayCommandSettingsError::LimitTooLarge { kind: GameplayCommandLimitKind::RetainedBytes, requested: retained_bytes, maximum: MAX_GAMEPLAY_COMMAND_RETAINED_BYTES })
    } else if command_bytes > MAX_GAMEPLAY_COMMAND_BYTES {
        Err(GameplayCommandSettingsError::LimitTooLarge { kind: GameplayCommandLimitKind::CommandBytes, requested: command_bytes, maximum: MAX_GAMEPLAY_COMMAND_BYTES })
    } else if payload_items > MAX_GAMEPLAY_COMMAND_PAYLOAD_ITEMS {
        Err(GameplayCommandSettingsError::LimitTooLarge { kind: GameplayCommandLimitKind::PayloadItems, requested: payload_items, maximum: MAX_GAMEPLAY_COMMAND_PAYLOAD_ITEMS })
    } else if payload_bytes > MAX_GAMEPLAY_COMMAND_PAYLOAD_BYTES {
        Err(GameplayCommandSettingsError::LimitTooLarge { kind: GameplayCommandLimitKind::PayloadBytes, requested: payload_bytes, maximum: MAX_GAMEPLAY_COMMAND_PAYLOAD_BYTES })
    } else if future_ticks > MAX_GAMEPLAY_COMMAND_FUTURE_TICKS {
        Err(GameplayCommandSettingsError::LimitTooLarge { kind: GameplayCommandLimitKind::FutureTicks, requested: future_ticks as usize, maximum: MAX_GAMEPLAY_COMMAND_FUTURE_TICKS as usize })
    } else if command_bytes > retained_bytes {
        Err(GameplayCommandSettingsError::CommandExceedsRetainedBytes)
    } else if payload_bytes > command_bytes {
        Err(GameplayCommandSettingsError::PayloadExceedsCommandBytes)
    } else {
        Ok(())
    }
}

fn validate_maximum(kind: GameplayCommandLimitKind, requested: usize, maximum: usize) -> (r: Result<(), GameplayCommandSettingsError>)
    ensures
        requested > maximum ==> r == Err::<(), GameplayCommandSettingsError>(GameplayCommandSettingsError::LimitTooLarge { kind, requested, maximum }),
        requested <= maximum ==> r is Ok,
{
    if requested > maximum {
        return Err(GameplayCommandSettingsError::LimitTooLarge { kind, requested, maximum });
    }
    Ok(())
}

impl GameplayCommandQueueSettings {
    pub closed spec fn retained_commands_value(self) -> usize {
        self.retained_commands.value()
    }

    pub closed spec fn retained_bytes_value(self) -> usize {
        self.retained_bytes.value()
    }

    pub closed spec fn command_bytes_value(self) -> usize {
        self.command_bytes.value()
    }

    pub closed spec fn payload_items_value(self) -> usize {
        self.payload_items.value()
    }

    pub closed spec fn payload_bytes_value(self) -> usize {
        self.payload_bytes.value()
    }

    pub closed spec fn future_ticks_value(self) -> u64 {
        self.future_ticks.value()
    }

    pub fn new(
        retained_commands: ItemLimit,
        retained_bytes: ByteLimit,
        command_bytes: ByteLimit,
        payload_items: ItemLimit,
        payload_bytes: ByteLimit,
        future_ticks: PositiveU64,
    ) -> (r: Result<Self, GameplayCommandSettingsError>)
        ensures
            match settings_check(retained_commands.value(), retained_bytes.value(), command_bytes.value(), payload_items.value(), payload_bytes.value(), future_ticks.value()) {
                Err(e) => r == Err::<Self, GameplayCommandSettingsError>(e),
                Ok(()) => r is Ok && {
                    let s = r->Ok_0;
                    &&& s.retained_commands_value() == retained_commands.value()
                    &&& s.retained_bytes_value() == retained_bytes.value()
                    &&& s.command_bytes_value() == command_bytes.value()
                    &&& s.payload_items_value() == payload_items.value()
                    &&& s.payload_bytes_value() == payload_bytes.value()
                    &&& s.future_ticks_value() == future_ticks.value()
                },
            },
    {
        let settings = GameplayCommandQueueSettings { retained_commands, retained_bytes, command_bytes, payload_items, payload_bytes, future_ticks };
        match settings.validate() {
            Err(e) => Err(e),
            Ok(()) => Ok(settings),
        }
    }

    fn validate(self) -> (r: Result<(), GameplayCommandSettingsError>)
        ensures
            r == settings_check(self.retained_commands.value(), self.retained_bytes.value(), self.command_bytes.value(), self.payload_items.value(), self.payload_bytes.value(), self.future_ticks.value()),
    {
        match validate_maximum(GameplayCommandLimitKind::RetainedCommands, self.retained_commands.get(), MAX_GAMEPLAY_COMMAND_RETAINED_COMMANDS) {
            Err(e) => return Err(e),
            Ok(()) => {},
        }
        match validate_maximum(GameplayCommandLimitKind::RetainedBytes, self.retained_bytes.get(), MAX_GAMEPLAY_COMMAND_RETAINED_BYTES) {
            Err(e) => return Err(e),
            Ok(()) => {},
        }
        match validate_maximum(GameplayCommandLimitKind::CommandBytes, self.command_bytes.get(), MAX_GAMEPLAY_COMMAND_BYTES) {
            Err(e) => return Err(e),
            Ok(()) => {},
        }
        match validate_maximum(GameplayCommandLimitKind::PayloadItems, self.payload_items.get(), MAX_GAMEPLAY_COMMAND_PAYLOAD_ITEMS) {
            Err(e) => return Err(e),
            Ok(()) => {},
        }
        match validate_maximum(GameplayCommandLimitKind::PayloadBytes, self.payload_bytes.get(), MAX_GAMEPLAY_COMMAND_PAYLOAD_BYTES) {
            Err(e) => return Err(e),
            Ok(()) => {},
        }
        let future = self.future_ticks.get();
        if future > MAX_GAMEPLAY_COMMAND_FUTURE_TICKS {
            return Err(GameplayCommandSettingsError::LimitTooLarge {
                kind: GameplayCommandLimitKind::FutureTicks,
                requested: future as usize,
                maximum: MAX_GAMEPLAY_COMMAND_FUTURE_TICKS as usize,
            });
        }
        if self.command_bytes.get() > self.retained_bytes.get() {
            return Err(GameplayCommandSettingsError::CommandExceedsRetainedBytes);
        }
        if self.payload_bytes.get() > self.command_bytes.get() {
            return Err(GameplayCommandSettingsError::PayloadExceedsCommandBytes);
        }
        Ok(())
    }

    /// Default limits: 4096 commands, 4 MiB retained, 64 KiB per command, 64 payload items,
    /// 32 KiB payload, 600 future ticks.
    pub fn default_settings() -> (r: Self)
        ensures
            r.retained_commands_value() == 4096,
            r.retained_bytes_value() == 4194304,
            r.command_bytes_value() == 65536,
            r.payload_items_value() == 64,
            r.payload_bytes_value() == 32768,
            r.future_ticks_value() == 600,
    {
        let retained_commands = ItemLimit::new(4096).unwrap();
        let retained_bytes = ByteLimit::new(4194304).unwrap();
        let command_bytes = ByteLimit::new(65536).unwrap();
        let payload_items = ItemLimit::new(64).unwrap();
        let payload_bytes = ByteLimit::new(32768).unwrap();
        let future_ticks = PositiveU64::new(600).unwrap();
        GameplayCommandQueueSettings { retained_commands, retained_bytes, command_bytes, payload_items, payload_bytes, future_ticks }
    }

    pub fn retained_commands(self) -> (r: ItemLimit)
        ensures
            r.value() == self.retained_commands_value(),
    {
        self.retained_commands
    }

    pub fn retained_bytes(self) -> (r: ByteLimit)
        ensures
            r.value() == self.retained_bytes_value(),
    {
        self.retained_bytes
    }

    pub fn command_bytes(self) -> (r: ByteLimit)
        ensures
            r.value() == self.command_bytes_value(),
    {
        self.command_bytes
    }

    pub fn payload_items(self) -> (r: ItemLimit)
        ensures
            r.value() == self.payload_items_value(),
    {
        self.payload_items
    }

    pub fn payload_bytes(self) -> (r: ByteLimit)
        ensures
            r.value() == self.payload_bytes_value(),
    {
        self.payload_bytes
    }

    pub fn future_ticks(self) -> (r: PositiveU64)
        ensures
            r.value() == self.future_ticks_value(),
    {
        self.future_ticks
    }
}

impl Default for GameplayCommandQueueSettings {
    fn default() -> (r: Self)
        ensures
            r.retained_commands_value() == 4096,
            r.retained_bytes_value() == 4194304,
            r.command_bytes_value() == 65536,
            r.payload_items_value() == 64,
            r.payload_bytes_value() == 32768,
            r.future_ticks_value() == 600,
    {
        Self::default_settings()
    }
}

#[derive(Debug, Clone, PartialEq, Eq, Structural)]
pub enum GameplayCommandRejection {
    LifecycleFaulted,
    LogicalSizeOverflow,
    PayloadItemLimit { requested: usize, maximum: usize },
    PayloadByteLimit { requested: usize, maximum: usize },
    CommandByteLimit { requested: usize, maximum: usize },
    Late { target: u64, closed_through: u64 },
    TooFarFuture { target: u64, closed_through: u64, maximum_distance: u64 },
    Duplicate,
    RetainedItemLimit { requested: usize, maximum: usize },
    RetainedByteLimit { requested: usize, maximum: usize },
    TickExhausted,
    SourceSequenceExhausted,
}

#[derive(Debug, Clone, Copy, PartialEq, Eq, Structural)]
pub enum GameplayCommandLifecycleError {
    Poisoned,
    ZeroTick,
    UnexpectedTick { expected: u64, actual: u64 },
    BatchAlreadyActive,
    BatchTickMismatch,
    AccountingInvariant,
    TickExhausted,
}

/// Numeric observations of a command queue.
#[derive(Debug, Default, Clone, Copy, PartialEq, Eq)]
pub struct GameplayCommandQueueStats {
    pub accepted: u64,
    pub admitted: u64,
    pub acknowledged: u64,
    pub acknowledged_ticks: u64,
    pub rejected: u64,
    pub rejected_lifecycle: u64,
    pub rejected_invalid: u64,
    pub rejected_late: u64,
    pub rejected_future: u64,
    pub rejected_duplicate: u64,
    pub rejected_item_limit: u64,
    pub rejected_byte_limit: u64,
    pub rejected_exhausted: u64,
    pub lifecycle_faults: u64,
    pub pending_commands: usize,
    pub active_commands: usize,
    pub quarantined_commands: usize,
    pub retained_commands: usize,
    pub pending_bytes: usize,
    pub active_bytes: usize,
    pub quarantined_bytes: usize,
    pub retained_bytes: usize,
    pub closed_through_tick: u64,
    pub acknowledged_through_tick: u64,
    pub furthest_pending_tick: Option<u64>,
}

/// The commands of the current authoritative tick, between admission and acknowledgement.
#[derive(Debug)]
pub struct GameplayCommandBatch {
    active_tick: Option<GameplayCommandTick>,
    commands: Vec<GameplayCommandEnvelope>,
    logical_bytes: usize,
}

/// Sum of the logical bytes of envelopes.
pub open spec fn envelopes_bytes(s: Seq<GameplayCommandEnvelope>) -> int
    decreases s.len(),
{
    if s.len() == 0 {
        0
    } else {
        envelopes_bytes(s.drop_last()) + s.last().spec_logical_bytes()
    }
}

impl GameplayCommandBatch {
    pub closed spec fn spec_active_tick(&self) -> Option<GameplayCommandTick> {
        self.active_tick
    }

    pub closed spec fn command_seq(&self) -> Seq<GameplayCommandEnvelope> {
        self.commands@
    }

    pub closed spec fn spec_logical_bytes(&self) -> usize {
        self.logical_bytes
    }

    /// The byte count equals the sum of the envelopes' bytes; an inactive batch is empty.
    pub closed spec fn wf(&self) -> bool {
        &&& self.logical_bytes == envelopes_bytes(self.commands@)
        &&& self.active_tick is None ==> self.commands@.len() == 0
    }

    pub fn new() -> (r: Self)
        ensures
            r.wf(),
            r.spec_active_tick() is None,
            r.command_seq().len() == 0,
            r.spec_logical_bytes() == 0,
    {
        GameplayCommandBatch { active_tick: None, commands: Vec::new(), logical_bytes: 0 }
    }

    pub fn active_tick(&self) -> (r: Option<GameplayCommandTick>)
        ensures
            r == self.spec_active_tick(),
    {
        self.active_tick
    }

    pub fn commands(&self) -> (r: &[GameplayCommandEnvelope])
        ensures
            r@ == self.command_seq(),
    {
        self.commands.as_slice()
    }

    pub fn len(&self) -> (r: usize)
        ensures
            r == self.command_seq().len(),
    {
        self.commands.len()
    }

    pub fn is_empty(&self) -> (r: bool)
        ensures
            r == (self.command_seq().len() == 0),
    {
        self.commands.len() == 0
    }

    pub fn logical_bytes(&self) -> (r: usize)
        ensures
            r == self.spec_logical_bytes(),
    {
        self.logical_bytes
    }

    fn activate(&mut self, tick: GameplayCommandTick, commands: Vec<GameplayCommandEnvelope>, logical_bytes: usize)
        requires
            logical_bytes == envelopes_bytes(commands@),
        ensures
            final(self).wf(),
            final(self).spec_active_tick() == Some(tick),
            final(self).command_seq() == commands@,
            final(self).spec_logical_bytes() == logical_bytes,
    {
        self.active_tick = Some(tick);
        self.commands = commands;
        self.logical_bytes = logical_bytes;
    }

    fn retire(&mut self)
        ensures
            final(self).wf(),
            final(self).spec_active_tick() is None,
            final(self).command_seq().len() == 0,
            final(self).spec_logical_bytes() == 0,
    {
        self.active_tick = None;
        self.commands.clear();
        self.logical_bytes = 0;
    }

    fn quarantine(&mut self) -> (r: (Vec<GameplayCommandEnvelope>, usize))
        requires
            old(self).wf(),
        ensures
            r.0@ == old(self).command_seq(),
            r.1 == old(self).spec_logical_bytes(),
            r.1 == envelopes_bytes(r.0@),
            final(self).wf(),
            final(self).spec_active_tick() is None,
            final(self).command_seq().len() == 0,
            final(self).spec_logical_bytes() == 0,
    {
        self.active_tick = None;
        let mut commands: Vec<GameplayCommandEnvelope> = Vec::new();
        std::mem::swap(&mut commands, &mut self.commands);
        let logical_bytes = self.logical_bytes;
        self.logical_bytes = 0;
        (commands, logical_bytes)
    }
}

/// A retained command waiting for its tick.
#[derive(Debug)]
pub struct QueuedCommand {
    pub key: GameplayCommandKey,
    pub command: GameplayCommandDraft,
    pub logical_bytes: usize,
}

/// Keys strictly increasing in key order.
pub open spec fn queued_sorted(s: Seq<QueuedCommand>) -> bool {
    forall|i: int, j: int| 0 <= i < j < s.len() ==> key_lt(#[trigger] s[i].key.model(), #[trigger] s[j].key.model())
}

/// Sum of the logical bytes of queued commands.
pub open spec fn queued_bytes(s: Seq<QueuedCommand>) -> int
    decreases s.len(),
{
    if s.len() == 0 {
        0
    } else {
        queued_bytes(s.drop_last()) + s.last().logical_bytes
    }
}

/// Some queued command has key model `m`.
pub open spec fn has_queued_key(s: Seq<QueuedCommand>, m: KeyModel) -> bool {
    exists|i: int| 0 <= i < s.len() && #[trigger] s[i].key.model() == m
}

/// An admitted envelope carries exactly a queued command's key, command and bytes.
pub open spec fn envelope_of(e: GameplayCommandEnvelope, q: QueuedCommand) -> bool {
    &&& e.spec_key() == q.key
    &&& e.spec_command() == q.command
    &&& e.spec_logical_bytes() == q.logical_bytes
}

proof fn lemma_queued_bytes_concat(a: Seq<QueuedCommand>, b: Seq<QueuedCommand>)
    ensures
        queued_bytes(a + b) == queued_bytes(a) + queued_bytes(b),
    decreases b.len(),
{
    if b.len() == 0 {
        assert(a + b =~= a);
    } else {
        assert((a + b).drop_last() =~= a + b.drop_last());
        lemma_queued_bytes_concat(a, b.drop_last());
    }
}

proof fn lemma_queued_bytes_nonneg(s: Seq<QueuedCommand>)
    ensures
        queued_bytes(s) >= 0,
    decreases s.len(),
{
    if s.len() > 0 {
        lemma_queued_bytes_nonneg(s.drop_last());
    }
}

proof fn lemma_envelopes_bytes_concat(a: Seq<GameplayCommandEnvelope>, b: Seq<GameplayCommandEnvelope>)
    ensures
        envelopes_bytes(a + b) == envelopes_bytes(a) + envelopes_bytes(b),
    decreases b.len(),
{
    if b.len() == 0 {
        assert(a + b =~= a);
    } else {
        assert((a + b).drop_last() =~= a + b.drop_last());
        lemma_envelopes_bytes_concat(a, b.drop_last());
    }
}

proof fn lemma_envelopes_bytes_nonneg(s: Seq<GameplayCommandEnvelope>)
    ensures
        envelopes_bytes(s) >= 0,
    decreases s.len(),
{
    if s.len() > 0 {
        lemma_envelopes_bytes_nonneg(s.drop_last());
    }
}

/// Queue counters; all saturate at `u64::MAX`.
#[derive(Debug, Default, Clone, Copy, PartialEq, Eq, Structural)]
pub struct GameplayCommandCounters {
    pub accepted: u64,
    pub admitted: u64,
    pub acknowledged: u64,
    pub acknowledged_ticks: u64,
    pub rejected: u64,
    pub rejected_lifecycle: u64,
    pub rejected_invalid: u64,
    pub rejected_late: u64,
    pub rejected_future: u64,
    pub rejected_duplicate: u64,
    pub rejected_item_limit: u64,
    pub rejected_byte_limit: u64,
    pub rejected_exhausted: u64,
    pub lifecycle_faults: u64,
}

/// `x + n`, saturating at `u64::MAX`.
pub open spec fn sat_add(x: u64, n: int) -> u64 {
    if x + n > u64::MAX {
        u64::MAX
    } else {
        (x + n) as u64
    }
}

/// The counters after one rejection: the total and the rejection's class each grow by one.
pub open spec fn counters_after_rejection(c: GameplayCommandCounters, r: GameplayCommandRejection) -> GameplayCommandCounters {
    let c = GameplayCommandCounters { rejected: sat_add(c.rejected, 1), ..c };
    match r {
        GameplayCommandRejection::LifecycleFaulted => GameplayCommandCounters { rejected_lifecycle: sat_add(c.rejected_lifecycle, 1), ..c },
        GameplayCommandRejection::LogicalSizeOverflow | GameplayCommandRejection::PayloadItemLimit { .. }
        | GameplayCommandRejection::PayloadByteLimit { .. } | GameplayCommandRejection::CommandByteLimit { .. } =>
            GameplayCommandCounters { rejected_invalid: sat_add(c.rejected_invalid, 1), ..c },
        GameplayCommandRejection::Late { .. } => GameplayCommandCounters { rejected_late: sat_add(c.rejected_late, 1), ..c },
        GameplayCommandRejection::TooFarFuture { .. } => GameplayCommandCounters { rejected_future: sat_add(c.rejected_future, 1), ..c },
        GameplayCommandRejection::Duplicate => GameplayCommandCounters { rejected_duplicate: sat_add(c.rejected_duplicate, 1), ..c },
        GameplayCommandRejection::RetainedItemLimit { .. } => GameplayCommandCounters { rejected_item_limit: sat_add(c.rejected_item_limit, 1), ..c },
        GameplayCommandRejection::RetainedByteLimit { .. } => GameplayCommandCounters { rejected_byte_limit: sat_add(c.rejected_byte_limit, 1), ..c },
        GameplayCommandRejection::TickExhausted | GameplayCommandRejection::SourceSequenceExhausted =>
            GameplayCommandCounters { rejected_exhausted: sat_add(c.rejected_exhausted, 1), ..c },
    }
}

/// Bounded authoritative gameplay intent waiting for fixed-tick admission.
///
/// Accepted commands wait in key order until their tick is admitted into a batch; the batch
/// is acknowledged after consumption. A lifecycle fault poisons the queue for good and moves
/// the batch's envelopes into a quarantine.
#[derive(Debug)]
pub struct GameplayCommandQueue {
    settings: GameplayCommandQueueSettings,
    pending: Vec<QueuedCommand>,
    quarantined: Vec<GameplayCommandEnvelope>,
    quarantined_bytes: usize,
    closed_through_tick: u64,
    acknowledged_through_tick: u64,
    pending_commands: usize,
    pending_bytes: usize,
    retained_commands: usize,
    retained_bytes: usize,
    active_commands: usize,
    active_bytes: usize,
    last_local_sequence: u64,
    counters: GameplayCommandCounters,
    last_lifecycle_error: Option<GameplayCommandLifecycleError>,
}

impl GameplayCommandQueue {
    pub closed spec fn spec_settings(&self) -> GameplayCommandQueueSettings {
        self.settings
    }

    pub closed spec fn pending_seq(&self) -> Seq<QueuedCommand> {
        self.pending@
    }

    pub closed spec fn quarantined_seq(&self) -> Seq<GameplayCommandEnvelope> {
        self.quarantined@
    }

    pub closed spec fn spec_quarantined_bytes(&self) -> usize {
        self.quarantined_bytes
    }

    pub closed spec fn closed_through(&self) -> u64 {
        self.closed_through_tick
    }

    pub closed spec fn acknowledged_through(&self) -> u64 {
        self.acknowledged_through_tick
    }

    pub closed spec fn spec_pending_commands(&self) -> usize {
        self.pending_commands
    }

    pub closed spec fn spec_pending_bytes(&self) -> usize {
        self.pending_bytes
    }

    pub closed spec fn spec_retained_commands(&self) -> usize {
        self.retained_commands
    }

    pub closed spec fn spec_retained_bytes(&self) -> usize {
        self.retained_bytes
    }

    pub closed spec fn spec_active_commands(&self) -> usize {
        self.active_commands
    }

    pub closed spec fn spec_active_bytes(&self) -> usize {
        self.active_bytes
    }

    pub closed spec fn spec_last_local_sequence(&self) -> u64 {
        self.last_local_sequence
    }

    pub closed spec fn spec_counters(&self) -> GameplayCommandCounters {
        self.counters
    }

    pub closed spec fn spec_last_lifecycle_error(&self) -> Option<GameplayCommandLifecycleError> {
        self.last_lifecycle_error
    }

    pub open spec fn poisoned(&self) -> bool {
        self.spec_last_lifecycle_error() is Some
    }

    /// Retained accounting: pending, active and quarantined commands share the retained totals.
    pub closed spec fn wf(&self) -> bool {
        &&& queued_sorted(self.pending@)
        &&& forall|i: int| 0 <= i < self.pending@.len() ==> #[trigger] self.pending@[i].key.model().tick > self.closed_through_tick
        &&& self.pending_commands == self.pending@.len()
        &&& self.pending_bytes == queued_bytes(self.pending@)
        &&& self.quarantined_bytes == envelopes_bytes(self.quarantined@)
        &&& self.retained_commands == self.pending_commands + self.active_commands + self.quarantined@.len()
        &&& self.retained_bytes == self.pending_bytes + self.active_bytes + self.quarantined_bytes
        &&& self.acknowledged_through_tick <= self.closed_through_tick
        &&& self.closed_through_tick == self.acknowledged_through_tick ==> self.active_commands == 0 && self.active_bytes == 0
    }

    pub fn new(settings: GameplayCommandQueueSettings) -> (r: Self)
        ensures
            r.wf(),
            r.spec_settings() == settings,
            r.pending_seq().len() == 0,
            r.quarantined_seq().len() == 0,
            r.closed_through() == 0,
            r.acknowledged_through() == 0,
            r.spec_retained_commands() == 0,
            r.spec_retained_bytes() == 0,
            r.spec_active_commands() == 0,
            r.spec_active_bytes() == 0,
            r.spec_last_local_sequence() == 0,
            r.spec_counters() == GameplayCommandCounters::default_spec(),
            !r.poisoned(),
    {
        GameplayCommandQueue {
            settings,
            pending: Vec::new(),
            quarantined: Vec::new(),
            quarantined_bytes: 0,
            closed_through_tick: 0,
            acknowledged_through_tick: 0,
            pending_commands: 0,
            pending_bytes: 0,
            retained_commands: 0,
            retained_bytes: 0,
            active_commands: 0,
            active_bytes: 0,
            last_local_sequence: 0,
            counters: GameplayCommandCounters::zero(),
            last_lifecycle_error: None,
        }
    }

    pub fn settings(&self) -> (r: GameplayCommandQueueSettings)
        ensures
            r == self.spec_settings(),
    {
        self.settings
    }

    /// Moves both tick watermarks to `tick`, on a queue whose pending commands are all for
    /// later ticks and which holds no admitted command awaiting acknowledgement.
    pub fn set_watermarks_for_test(&mut self, tick: u64)
        requires
            old(self).wf(),
            forall|i: int| 0 <= i < old(self).pending_seq().len() ==> #[trigger] old(self).pending_seq()[i].key.model().tick > tick,
            old(self).spec_active_commands() == 0,
            old(self).spec_active_bytes() == 0,
        ensures
            final(self).wf(),
            final(self).closed_through() == tick,
            final(self).acknowledged_through() == tick,
            final(self).spec_settings() == old(self).spec_settings(),
            final(self).pending_seq() == old(self).pending_seq(),
            final(self).quarantined_seq() == old(self).quarantined_seq(),
            final(self).spec_retained_commands() == old(self).spec_retained_commands(),
            final(self).spec_retained_bytes() == old(self).spec_retained_bytes(),
            final(self).spec_last_local_sequence() == old(self).spec_last_local_sequence(),
            final(self).spec_counters() == old(self).spec_counters(),
            final(self).spec_last_lifecycle_error() == old(self).spec_last_lifecycle_error(),
    {
        self.closed_through_tick = tick;
        self.acknowledged_through_tick = tick;
        proof {
            assert forall|i: int| 0 <= i < self.pending@.len() implies #[trigger] self.pending@[i].key.model().tick > self.closed_through_tick by {
                assert(old(self).pending_seq()[i] == self.pending@[i]);
            }
        }
    }

    /// Sets the last local source sequence issued to `sequence`.
    pub fn set_local_sequence_for_test(&mut self, sequence: u64)
        requires
            old(self).wf(),
        ensures
            final(self).wf(),
            final(self).spec_last_local_sequence() == sequence,
            final(self).closed_through() == old(self).closed_through(),
            final(self).acknowledged_through() == old(self).acknowledged_through(),
            final(self).spec_settings() == old(self).spec_settings(),
            final(self).pending_seq() == old(self).pending_seq(),
            final(self).quarantined_seq() == old(self).quarantined_seq(),
            final(self).spec_retained_commands() == old(self).spec_retained_commands(),
            final(self).spec_retained_bytes() == old(self).spec_retained_bytes(),
            final(self).spec_counters() == old(self).spec_counters(),
            final(self).spec_last_lifecycle_error() == old(self).spec_last_lifecycle_error(),
    {
        self.last_local_sequence = sequence;
    }

    /// The first check that rejects a command under `key`, in the order the checks run.
    pub open spec fn submission_check(&self, key: KeyModel, command: &GameplayCommandDraft) -> Result<(), GameplayCommandRejection> {
        let s = self.spec_settings();
        let items = command.spec_payload().entry_seq().len();
        let payload_bytes = command.spec_payload().spec_logical_bytes();
        let total = key_model_bytes(key) + command.spec_logical_bytes();
        let tick = key.tick;
        let closed = self.closed_through();
        if self.poisoned() {
            Err(GameplayCommandRejection::LifecycleFaulted)
        } else if items > s.payload_items_value() {
            Err(GameplayCommandRejection::PayloadItemLimit { requested: items as usize, maximum: s.payload_items_value() })
        } else if payload_bytes > s.payload_bytes_value() {
            Err(GameplayCommandRejection::PayloadByteLimit { requested: payload_bytes, maximum: s.payload_bytes_value() })
        } else if total > usize::MAX {
            Err(GameplayCommandRejection::LogicalSizeOverflow)
        } else if total > s.command_bytes_value() {
            Err(GameplayCommandRejection::CommandByteLimit { requested: total as usize, maximum: s.command_bytes_value() })
        } else if tick <= closed {
            Err(GameplayCommandRejection::Late { target: tick, closed_through: closed })
        } else if tick - closed > s.future_ticks_value() {
            Err(GameplayCommandRejection::TooFarFuture { target: tick, closed_through: closed, maximum_distance: s.future_ticks_value() })
        } else if has_queued_key(self.pending_seq(), key) {
            Err(GameplayCommandRejection::Duplicate)
        } else if self.spec_retained_commands() + 1 > usize::MAX {
            Err(GameplayCommandRejection::RetainedItemLimit { requested: usize::MAX, maximum: s.retained_commands_value() })
        } else if self.spec_retained_commands() + 1 > s.retained_commands_value() {
            Err(GameplayCommandRejection::RetainedItemLimit { requested: (self.spec_retained_commands() + 1) as usize, maximum: s.retained_commands_value() })
        } else if self.spec_retained_bytes() + total > usize::MAX {
            Err(GameplayCommandRejection::RetainedByteLimit { requested: usize::MAX, maximum: s.retained_bytes_value() })
        } else if self.spec_retained_bytes() + total > s.retained_bytes_value() {
            Err(GameplayCommandRejection::RetainedByteLimit { requested: (self.spec_retained_bytes() + total) as usize, maximum: s.retained_bytes_value() })
        } else {
            Ok(())
        }
    }

    /// Everything but the counters is as in `other`.
    pub open spec fn same_except_counters(&self, other: &Self) -> bool {
        &&& self.spec_settings() == other.spec_settings()
        &&& self.pending_seq() == other.pending_seq()
        &&& self.quarantined_seq() == other.quarantined_seq()
        &&& self.spec_quarantined_bytes() == other.spec_quarantined_bytes()
        &&& self.closed_through() == other.closed_through()
        &&& self.acknowledged_through() == other.acknowledged_through()
        &&& self.spec_pending_commands() == other.spec_pending_commands()
        &&& self.spec_pending_bytes() == other.spec_pending_bytes()
        &&& self.spec_retained_commands() == other.spec_retained_commands()
        &&& self.spec_retained_bytes() == other.spec_retained_bytes()
        &&& self.spec_active_commands() == other.spec_active_commands()
        &&& self.spec_active_bytes() == other.spec_active_bytes()
        &&& self.spec_last_local_sequence() == other.spec_last_local_sequence()
        &&& self.spec_last_lifecycle_error() == other.spec_last_lifecycle_error()
    }

    fn reject<T>(&mut self, rejection: GameplayCommandRejection) -> (r: Result<T, GameplayCommandRejection>)
        requires
            old(self).wf(),
        ensures
            final(self).wf(),
            final(self).same_except_counters(old(self)),
            final(self).spec_counters() == counters_after_rejection(old(self).spec_counters(), rejection),
            r matches Err(e) && e == rejection,
    {
        self.counters.rejected = self.counters.rejected.saturating_add(1);
        match rejection {
            GameplayCommandRejection::LifecycleFaulted => {
                self.counters.rejected_lifecycle = self.counters.rejected_lifecycle.saturating_add(1);
            },
            GameplayCommandRejection::LogicalSizeOverflow
            | GameplayCommandRejection::PayloadItemLimit { .. }
            | GameplayCommandRejection::PayloadByteLimit { .. }
            | GameplayCommandRejection::CommandByteLimit { .. } => {
                self.counters.rejected_invalid = self.counters.rejected_invalid.saturating_add(1);
            },
            GameplayCommandRejection::Late { .. } => {
                self.counters.rejected_late = self.counters.rejected_late.saturating_add(1);
            },
            GameplayCommandRejection::TooFarFuture { .. } => {
                self.counters.rejected_future = self.counters.rejected_future.saturating_add(1);
            },
            GameplayCommandRejection::Duplicate => {
                self.counters.rejected_duplicate = self.counters.rejected_duplicate.saturating_add(1);
            },
            GameplayCommandRejection::RetainedItemLimit { .. } => {
                self.counters.rejected_item_limit = self.counters.rejected_item_limit.saturating_add(1);
            },
            GameplayCommandRejection::RetainedByteLimit { .. } => {
                self.counters.rejected_byte_limit = self.counters.rejected_byte_limit.saturating_add(1);
            },
            GameplayCommandRejection::TickExhausted | GameplayCommandRejection::SourceSequenceExhausted => {
                self.counters.rejected_exhausted = self.counters.rejected_exhausted.saturating_add(1);
            },
        }
        Err(rejection)
    }
}

impl GameplayCommandQueue {
    fn find_key(&self, key: &GameplayCommandKey) -> (r: (bool, usize))
        requires
            self.wf(),
        ensures
            r.1 <= self.pending@.len(),
            r.0 <==> has_queued_key(self.pending@, key.model()),
            !r.0 ==> forall|i: int| 0 <= i < r.1 ==> key_lt(#[trigger] self.pending@[i].key.model(), key.model()),
            !r.0 ==> forall|i: int| r.1 <= i < self.pending@.len() ==> key_lt(key.model(), #[trigger] self.pending@[i].key.model()),
    {
        let mut i: usize = 0;
        while i < self.pending.len()
            invariant
                self.wf(),
                i <= self.pending@.len(),
                forall|k: int| 0 <= k < i ==> key_lt(#[trigger] self.pending@[k].key.model(), key.model()),
            decreases self.pending@.len() - i,
        {
            match self.pending[i].key.compare(key) {
                TextOrder::Equal => {
                    proof {
                        assert(self.pending@[i as int].key.model() == key.model());
                    }
                    return (true, i);
                },
                TextOrder::Greater => {
                    proof {
                        assert forall|k: int| i <= k < self.pending@.len() implies key_lt(key.model(), #[trigger] self.pending@[k].key.model()) by {
                            if k > i {
                                lemma_key_lt_transitive(key.model(), self.pending@[i as int].key.model(), self.pending@[k].key.model());
                            }
                        }
                        assert forall|k: int| 0 <= k < self.pending@.len() implies #[trigger] self.pending@[k].key.model() != key.model() by {
                            lemma_key_lt_trichotomy(key.model(), key.model());
                        }
                    }
                    return (false, i);
                },
                TextOrder::Less => {},
            }
            i = i + 1;
        }
        proof {
            assert forall|k: int| 0 <= k < self.pending@.len() implies #[trigger] self.pending@[k].key.model() != key.model() by {
                lemma_key_lt_trichotomy(key.model(), key.model());
            }
        }
        (false, i)
    }

    /// Accepts `command` under `key` or rejects it; a rejection changes only the counters.
    pub fn submit_keyed(&mut self, key: GameplayCommandKey, command: GameplayCommandDraft) -> (r: Result<GameplayCommandKey, GameplayCommandRejection>)
        requires
            old(self).wf(),
        ensures
            final(self).wf(),
            match old(self).submission_check(key.model(), &command) {
                Err(e) => {
                    &&& r == Err::<GameplayCommandKey, GameplayCommandRejection>(e)
                    &&& final(self).same_except_counters(old(self))
                    &&& final(self).spec_counters() == counters_after_rejection(old(self).spec_counters(), e)
                },
                Ok(()) => {
                    &&& r == Ok::<GameplayCommandKey, GameplayCommandRejection>(key)
                    &&& old(self).accepts_into(final(self), key.model(), &command)
                    &&& final(self).spec_last_local_sequence() == old(self).spec_last_local_sequence()
                },
            },
    {
        if self.last_lifecycle_error.is_some() {
            return self.reject(GameplayCommandRejection::LifecycleFaulted);
        }
        let payload_items = command.payload().len();
        if payload_items > self.settings.payload_items().get() {
            return self.reject(GameplayCommandRejection::PayloadItemLimit { requested: payload_items, maximum: self.settings.payload_items().get() });
        }
        let payload_bytes = command.payload().logical_bytes();
        if payload_bytes > self.settings.payload_bytes().get() {
            return self.reject(GameplayCommandRejection::PayloadByteLimit { requested: payload_bytes, maximum: self.settings.payload_bytes().get() });
        }
        let logical_bytes = match key.logical_bytes() {
            None => None,
            Some(k) => match command.logical_bytes() {
                None => None,
                Some(c) => k.checked_add(c),
            },
        };
        let logical_bytes = match logical_bytes {
            None => return self.reject(GameplayCommandRejection::LogicalSizeOverflow),
            Some(b) => b,
        };
        if logical_bytes > self.settings.command_bytes().get() {
            return self.reject(GameplayCommandRejection::CommandByteLimit { requested: logical_bytes, maximum: self.settings.command_bytes().get() });
        }
        let target_tick = key.tick().get();
        if target_tick <= self.closed_through_tick {
            return self.reject(GameplayCommandRejection::Late { target: target_tick, closed_through: self.closed_through_tick });
        }
        let future_distance = target_tick - self.closed_through_tick;
        if future_distance > self.settings.future_ticks().get() {
            return self.reject(GameplayCommandRejection::TooFarFuture {
                target: target_tick,
                closed_through: self.closed_through_tick,
                maximum_distance: self.settings.future_ticks().get(),
            });
        }
        let (found, at) = self.find_key(&key);
        if found {
            return self.reject(GameplayCommandRejection::Duplicate);
        }
        let next_commands = match self.retained_commands.checked_add(1) {
            None => return self.reject(GameplayCommandRejection::RetainedItemLimit { requested: usize::MAX, maximum: self.settings.retained_commands().get() }),
            Some(n) => n,
        };
        if next_commands > self.settings.retained_commands().get() {
            return self.reject(GameplayCommandRejection::RetainedItemLimit { requested: next_commands, maximum: self.settings.retained_commands().get() });
        }
        let next_bytes = match self.retained_bytes.checked_add(logical_bytes) {
            None => return self.reject(GameplayCommandRejection::RetainedByteLimit { requested: usize::MAX, maximum: self.settings.retained_bytes().get() }),
            Some(n) => n,
        };
        if next_bytes > self.settings.retained_bytes().get() {
            return self.reject(GameplayCommandRejection::RetainedByteLimit { requested: next_bytes, maximum: self.settings.retained_bytes().get() });
        }
        proof {
            lemma_queued_bytes_nonneg(self.pending@);
            lemma_envelopes_bytes_nonneg(self.quarantined@);
        }
        let queued = QueuedCommand { key: key.duplicate(), command, logical_bytes };
        self.insert_pending(at, queued);
        self.retained_commands = next_commands;
        self.retained_bytes = next_bytes;
        self.counters.accepted = self.counters.accepted.saturating_add(1);
        proof {
            assert(self.pending_seq() == old(self).pending_seq().insert(at as int, self.pending_seq()[at as int]));
            assert(logical_bytes == key.spec_logical_bytes() + command.spec_logical_bytes());
            assert(old(self).submission_check(key.model(), &command) is Ok);
        }
        Ok(key)
    }

    /// `next` is `self` after accepting `command` under `key`: the command joins the pending
    /// commands in key order and the retained totals grow by one command and its bytes.
    pub open spec fn accepts_into(&self, next: &Self, key: KeyModel, command: &GameplayCommandDraft) -> bool {
        let total = key_model_bytes(key) + command.spec_logical_bytes();
        &&& exists|p: int| 0 <= p <= self.pending_seq().len() && next.pending_seq() == #[trigger] self.pending_seq().insert(p, next.pending_seq()[p])
            && next.pending_seq()[p].key.model() == key
            && next.pending_seq()[p].command == *command
            && next.pending_seq()[p].logical_bytes == total
        &&& next.spec_settings() == self.spec_settings()
        &&& next.quarantined_seq() == self.quarantined_seq()
        &&& next.closed_through() == self.closed_through()
        &&& next.acknowledged_through() == self.acknowledged_through()
        &&& next.spec_retained_commands() == self.spec_retained_commands() + 1
        &&& next.spec_retained_bytes() == self.spec_retained_bytes() + total
        &&& next.spec_active_commands() == self.spec_active_commands()
        &&& next.spec_active_bytes() == self.spec_active_bytes()
        &&& next.spec_last_lifecycle_error() == self.spec_last_lifecycle_error()
        &&& next.spec_counters() == GameplayCommandCounters { accepted: sat_add(self.spec_counters().accepted, 1), ..self.spec_counters() }
    }

    fn insert_pending(&mut self, at: usize, queued: QueuedCommand)
        requires
            old(self).wf(),
            at <= old(self).pending@.len(),
            forall|i: int| 0 <= i < at ==> key_lt(#[trigger] old(self).pending@[i].key.model(), queued.key.model()),
            forall|i: int| at <= i < old(self).pending@.len() ==> key_lt(queued.key.model(), #[trigger] old(self).pending@[i].key.model()),
            queued.key.model().tick > old(self).closed_through_tick,
            old(self).pending_commands + 1 <= old(self).retained_commands + 1 <= usize::MAX,
            old(self).pending_bytes + queued.logical_bytes <= old(self).retained_bytes + queued.logical_bytes <= usize::MAX,
        ensures
            final(self).pending@ == old(self).pending@.insert(at as int, queued),
            final(self).pending_commands == old(self).pending_commands + 1,
            final(self).pending_bytes == old(self).pending_bytes + queued.logical_bytes,
            queued_sorted(final(self).pending@),
            forall|i: int| 0 <= i < final(self).pending@.len() ==> #[trigger] final(self).pending@[i].key.model().tick > final(self).closed_through_tick,
            final(self).pending_bytes == queued_bytes(final(self).pending@),
            final(self).pending_commands == final(self).pending@.len(),
            final(self).settings == old(self).settings,
            final(self).quarantined == old(self).quarantined,
            final(self).quarantined_bytes == old(self).quarantined_bytes,
            final(self).closed_through_tick == old(self).closed_through_tick,
            final(self).acknowledged_through_tick == old(self).acknowledged_through_tick,
            final(self).retained_commands == old(self).retained_commands,
            final(self).retained_bytes == old(self).retained_bytes,
            final(self).active_commands == old(self).active_commands,
            final(self).active_bytes == old(self).active_bytes,
            final(self).last_local_sequence == old(self).last_local_sequence,
            final(self).counters == old(self).counters,
            final(self).last_lifecycle_error == old(self).last_lifecycle_error,
    {
        let ghost before = self.pending@;
        let ghost m = queued.key.model();
        let bytes = queued.logical_bytes;
        self.pending.insert(at, queued);
        self.pending_commands = self.pending_commands + 1;
        self.pending_bytes = self.pending_bytes + bytes;
        proof {
            let s = self.pending@;
            assert forall|i: int, j: int| 0 <= i < j < s.len() implies key_lt(#[trigger] s[i].key.model(), #[trigger] s[j].key.model()) by {
                if j < at {
                    assert(s[i] == before[i] && s[j] == before[j]);
                } else if j == at {
                    assert(s[i] == before[i]);
                } else if i < at {
                    assert(s[i] == before[i] && s[j] == before[j - 1]);
                    lemma_key_lt_transitive(before[i].key.model(), m, before[j - 1].key.model());
                } else if i == at {
                    assert(s[j] == before[j - 1]);
                } else {
                    assert(s[i] == before[i - 1] && s[j] == before[j - 1]);
                }
            }
            assert forall|i: int| 0 <= i < s.len() implies #[trigger] s[i].key.model().tick > self.closed_through_tick by {
                if i < at {
                    assert(s[i] == before[i]);
                } else if i > at {
                    assert(s[i] == before[i - 1]);
                }
            }
            assert(s =~= before.take(at as int) + seq![s[at as int]] + before.skip(at as int));
            lemma_queued_bytes_concat(before.take(at as int) + seq![s[at as int]], before.skip(at as int));
            lemma_queued_bytes_concat(before.take(at as int), seq![s[at as int]]);
            assert(seq![s[at as int]].drop_last() =~= Seq::<QueuedCommand>::empty());
            assert(queued_bytes(Seq::<QueuedCommand>::empty()) == 0);
            assert(before =~= before.take(at as int) + before.skip(at as int));
            lemma_queued_bytes_concat(before.take(at as int), before.skip(at as int));
        }
    }
}

proof fn lemma_queued_bytes_prefix(s: Seq<QueuedCommand>, n: int)
    requires
        0 <= n <= s.len(),
    ensures
        queued_bytes(s) == queued_bytes(s.take(n)) + queued_bytes(s.skip(n)),
        0 <= queued_bytes(s.take(n)) <= queued_bytes(s),
{
    assert(s =~= s.take(n) + s.skip(n));
    lemma_queued_bytes_concat(s.take(n), s.skip(n));
    lemma_queued_bytes_nonneg(s.take(n));
    lemma_queued_bytes_nonneg(s.skip(n));
}

proof fn lemma_envelopes_match_queued(e: Seq<GameplayCommandEnvelope>, q: Seq<QueuedCommand>)
    requires
        e.len() == q.len(),
        forall|i: int| 0 <= i < e.len() ==> envelope_of(#[trigger] e[i], q[i]),
    ensures
        envelopes_bytes(e) == queued_bytes(q),
    decreases e.len(),
{
    if e.len() > 0 {
        lemma_envelopes_match_queued(e.drop_last(), q.drop_last());
        assert(envelope_of(e[e.len() - 1], q[q.len() - 1]));
    }
}

impl GameplayCommandQueue {
    /// The quarantine can absorb `batch` without overflowing any retained total.
    pub open spec fn quarantine_fits(&self, batch: &GameplayCommandBatch) -> bool {
        let commands = self.quarantined_seq().len() + batch.command_seq().len();
        let bytes = self.spec_quarantined_bytes() + batch.spec_logical_bytes();
        &&& bytes <= usize::MAX
        &&& self.spec_pending_commands() + commands <= usize::MAX
        &&& self.spec_pending_bytes() + bytes <= usize::MAX
    }

    /// The error a lifecycle fault reports: `Poisoned` once poisoned, `AccountingInvariant`
    /// when the quarantine overflows, else the fault's own error.
    pub open spec fn fault_error(&self, batch: &GameplayCommandBatch, error: GameplayCommandLifecycleError) -> GameplayCommandLifecycleError {
        if self.poisoned() {
            GameplayCommandLifecycleError::Poisoned
        } else if self.quarantine_fits(batch) {
            error
        } else {
            GameplayCommandLifecycleError::AccountingInvariant
        }
    }

    /// `next` is `self` after a lifecycle fault with `error` on `batch`: the batch's envelopes
    /// join the quarantine (or, on overflow, every owned command is discarded), nothing stays
    /// active, the first error is kept and the fault is counted.
    pub open spec fn faulted_into(&self, next: &Self, batch: &GameplayCommandBatch, error: GameplayCommandLifecycleError) -> bool {
        &&& if self.quarantine_fits(batch) {
            &&& next.pending_seq() == self.pending_seq()
            &&& next.quarantined_seq() == self.quarantined_seq() + batch.command_seq()
            &&& next.spec_quarantined_bytes() == self.spec_quarantined_bytes() + batch.spec_logical_bytes()
            &&& next.spec_retained_commands() == self.spec_pending_commands() + next.quarantined_seq().len()
            &&& next.spec_retained_bytes() == self.spec_pending_bytes() + next.spec_quarantined_bytes()
        } else {
            &&& next.pending_seq().len() == 0
            &&& next.quarantined_seq().len() == 0
            &&& next.spec_quarantined_bytes() == 0
            &&& next.spec_retained_commands() == 0
            &&& next.spec_retained_bytes() == 0
        }
        &&& next.spec_active_commands() == 0
        &&& next.spec_active_bytes() == 0
        &&& next.spec_settings() == self.spec_settings()
        &&& next.closed_through() == self.closed_through()
        &&& next.acknowledged_through() == self.acknowledged_through()
        &&& next.spec_last_local_sequence() == self.spec_last_local_sequence()
        &&& next.spec_last_lifecycle_error() == if self.poisoned() {
            self.spec_last_lifecycle_error()
        } else {
            Some(self.fault_error(batch, error))
        }
        &&& next.spec_counters() == GameplayCommandCounters {
            lifecycle_faults: sat_add(self.spec_counters().lifecycle_faults, 1),
            ..self.spec_counters()
        }
    }

    /// The reason admitting `tick` into `batch` fails, if any, in the order it is checked.
    pub open spec fn admission_check(&self, batch: &GameplayCommandBatch, tick: GameplayCommandTick) -> Option<GameplayCommandLifecycleError> {
        if self.poisoned() {
            Some(GameplayCommandLifecycleError::Poisoned)
        } else if batch.spec_active_tick() is Some || self.closed_through() != self.acknowledged_through() {
            Some(GameplayCommandLifecycleError::BatchAlreadyActive)
        } else if self.acknowledged_through() == u64::MAX {
            Some(GameplayCommandLifecycleError::TickExhausted)
        } else if tick.value() != self.acknowledged_through() + 1 {
            Some(GameplayCommandLifecycleError::UnexpectedTick {
                expected: (self.acknowledged_through() + 1) as u64,
                actual: tick.value(),
            })
        } else {
            None
        }
    }

    /// `next` and `batch` are `self` after admitting `tick`: the batch holds, in key order,
    /// exactly the pending commands of `tick`, which leave the pending commands.
    pub open spec fn admits_into(&self, next: &Self, batch: &GameplayCommandBatch, tick: GameplayCommandTick) -> bool {
        let n = batch.command_seq().len() as int;
        let due = self.pending_seq().take(n);
        &&& n <= self.pending_seq().len()
        &&& forall|i: int| 0 <= i < n ==> (#[trigger] due[i]).key.model().tick == tick.value()
            && envelope_of(batch.command_seq()[i], due[i])
        &&& next.pending_seq() == self.pending_seq().skip(n)
        &&& forall|i: int| 0 <= i < next.pending_seq().len() ==> (#[trigger] next.pending_seq()[i]).key.model().tick > tick.value()
        &&& batch.spec_active_tick() == Some(tick)
        &&& batch.spec_logical_bytes() == queued_bytes(due)
        &&& next.closed_through() == tick.value()
        &&& next.acknowledged_through() == self.acknowledged_through()
        &&& next.spec_active_commands() == n
        &&& next.spec_active_bytes() == batch.spec_logical_bytes()
        &&& next.spec_retained_commands() == self.spec_retained_commands()
        &&& next.spec_retained_bytes() == self.spec_retained_bytes()
        &&& next.quarantined_seq() == self.quarantined_seq()
        &&& next.spec_quarantined_bytes() == self.spec_quarantined_bytes()
        &&& next.spec_settings() == self.spec_settings()
        &&& next.spec_last_local_sequence() == self.spec_last_local_sequence()
        &&& next.spec_last_lifecycle_error() == self.spec_last_lifecycle_error()
        &&& next.spec_counters() == GameplayCommandCounters {
            admitted: sat_add(self.spec_counters().admitted, n),
            ..self.spec_counters()
        }
    }

    /// The reason acknowledging `tick` on `batch` fails, if any, in the order it is checked.
    pub open spec fn acknowledgement_check(&self, batch: &GameplayCommandBatch, tick: GameplayCommandTick) -> Option<GameplayCommandLifecycleError> {
        if self.poisoned() {
            Some(GameplayCommandLifecycleError::Poisoned)
        } else if batch.spec_active_tick() != Some(tick) || self.closed_through() != tick.value() {
            Some(GameplayCommandLifecycleError::BatchTickMismatch)
        } else if batch.command_seq().len() != self.spec_active_commands() || batch.spec_logical_bytes() != self.spec_active_bytes() {
            Some(GameplayCommandLifecycleError::AccountingInvariant)
        } else {
            None
        }
    }

    /// `next` is `self` after acknowledging `tick`: the active commands leave the retained
    /// totals and `tick` becomes the acknowledged watermark.
    pub open spec fn acknowledges_into(&self, next: &Self, tick: GameplayCommandTick) -> bool {
        &&& next.spec_retained_commands() == self.spec_retained_commands() - self.spec_active_commands()
        &&& next.spec_retained_bytes() == self.spec_retained_bytes() - self.spec_active_bytes()
        &&& next.spec_active_commands() == 0
        &&& next.spec_active_bytes() == 0
        &&& next.acknowledged_through() == tick.value()
        &&& next.closed_through() == self.closed_through()
        &&& next.pending_seq() == self.pending_seq()
        &&& next.quarantined_seq() == self.quarantined_seq()
        &&& next.spec_quarantined_bytes() == self.spec_quarantined_bytes()
        &&& next.spec_settings() == self.spec_settings()
        &&& next.spec_last_local_sequence() == self.spec_last_local_sequence()
        &&& next.spec_last_lifecycle_error() == self.spec_last_lifecycle_error()
        &&& next.spec_counters() == GameplayCommandCounters {
            acknowledged: sat_add(self.spec_counters().acknowledged, self.spec_active_commands() as int),
            acknowledged_ticks: sat_add(self.spec_counters().acknowledged_ticks, 1),
            ..self.spec_counters()
        }
    }

    fn lifecycle_fault(&mut self, error: GameplayCommandLifecycleError) -> (r: Result<(), GameplayCommandLifecycleError>)
        ensures
            r == Err::<(), GameplayCommandLifecycleError>(error),
            final(self).counters == (GameplayCommandCounters {
                lifecycle_faults: sat_add(old(self).counters.lifecycle_faults, 1),
                ..old(self).counters
            }),
            final(self).last_lifecycle_error == if old(self).last_lifecycle_error is Some {
                old(self).last_lifecycle_error
            } else {
                Some(error)
            },
            final(self).settings == old(self).settings,
            final(self).pending == old(self).pending,
            final(self).quarantined == old(self).quarantined,
            final(self).quarantined_bytes == old(self).quarantined_bytes,
            final(self).closed_through_tick == old(self).closed_through_tick,
            final(self).acknowledged_through_tick == old(self).acknowledged_through_tick,
            final(self).pending_commands == old(self).pending_commands,
            final(self).pending_bytes == old(self).pending_bytes,
            final(self).retained_commands == old(self).retained_commands,
            final(self).retained_bytes == old(self).retained_bytes,
            final(self).active_commands == old(self).active_commands,
            final(self).active_bytes == old(self).active_bytes,
            final(self).last_local_sequence == old(self).last_local_sequence,
    {
        self.counters.lifecycle_faults = self.counters.lifecycle_faults.saturating_add(1);
        if self.last_lifecycle_error.is_none() {
            self.last_lifecycle_error = Some(error);
        }
        Err(error)
    }

    fn discard_owned_commands_after_accounting_overflow(&mut self)
        ensures
            final(self).pending@.len() == 0,
            final(self).quarantined@.len() == 0,
            final(self).pending_commands == 0,
            final(self).pending_bytes == 0,
            final(self).quarantined_bytes == 0,
            final(self).active_commands == 0,
            final(self).active_bytes == 0,
            final(self).retained_commands == 0,
            final(self).retained_bytes == 0,
            final(self).settings == old(self).settings,
            final(self).closed_through_tick == old(self).closed_through_tick,
            final(self).acknowledged_through_tick == old(self).acknowledged_through_tick,
            final(self).last_local_sequence == old(self).last_local_sequence,
            final(self).counters == old(self).counters,
            final(self).last_lifecycle_error == old(self).last_lifecycle_error,
    {
        self.pending.clear();
        self.quarantined.clear();
        self.pending_commands = 0;
        self.pending_bytes = 0;
        self.quarantined_bytes = 0;
        self.active_commands = 0;
        self.active_bytes = 0;
        self.retained_commands = 0;
        self.retained_bytes = 0;
    }

    fn invalidate_batch(&mut self, batch: &mut GameplayCommandBatch, error: GameplayCommandLifecycleError) -> (r: Result<(), GameplayCommandLifecycleError>)
        requires
            old(self).wf(),
            old(batch).wf(),
        ensures
            final(self).wf(),
            final(batch).wf(),
            final(batch).spec_active_tick() is None,
            final(batch).command_seq().len() == 0,
            final(batch).spec_logical_bytes() == 0,
            r == Err::<(), GameplayCommandLifecycleError>(old(self).fault_error(old(batch), error)),
            old(self).faulted_into(final(self), old(batch), error),
    {
        let ghost before = *self;
        let (mut quarantined, batch_bytes) = batch.quarantine();
        let mut error = error;
        proof {
            lemma_queued_bytes_nonneg(self.pending@);
            lemma_envelopes_bytes_nonneg(self.quarantined@);
            lemma_envelopes_bytes_concat(self.quarantined@, quarantined@);
        }
        match self.quarantined_bytes.checked_add(batch_bytes) {
            Some(next_quarantined_bytes) => {
                self.quarantined.append(&mut quarantined);
                self.quarantined_bytes = next_quarantined_bytes;
                self.active_commands = 0;
                self.active_bytes = 0;
                match (self.pending_commands.checked_add(self.quarantined.len()), self.pending_bytes.checked_add(self.quarantined_bytes)) {
                    (Some(retained_commands), Some(retained_bytes)) => {
                        self.retained_commands = retained_commands;
                        self.retained_bytes = retained_bytes;
                    },
                    _ => {
                        self.discard_owned_commands_after_accounting_overflow();
                        error = GameplayCommandLifecycleError::AccountingInvariant;
                    },
                }
            },
            None => {
                self.discard_owned_commands_after_accounting_overflow();
                error = GameplayCommandLifecycleError::AccountingInvariant;
            },
        }
        let error = if self.last_lifecycle_error.is_some() {
            GameplayCommandLifecycleError::Poisoned
        } else {
            error
        };
        proof {
            assert(envelopes_bytes(Seq::<GameplayCommandEnvelope>::empty()) == 0);
            assert(queued_bytes(Seq::<QueuedCommand>::empty()) == 0);
        }
        self.lifecycle_fault(error)
    }

    /// Moves the pending commands of `tick` into `batch`, or faults the queue.
    pub fn admit_tick(&mut self, tick: GameplayCommandTick, batch: &mut GameplayCommandBatch) -> (r: Result<(), GameplayCommandLifecycleError>)
        requires
            old(self).wf(),
            old(batch).wf(),
        ensures
            final(self).wf(),
            final(batch).wf(),
            match old(self).admission_check(old(batch), tick) {
                Some(e) => {
                    &&& r == Err::<(), GameplayCommandLifecycleError>(old(self).fault_error(old(batch), e))
                    &&& old(self).faulted_into(final(self), old(batch), e)
                    &&& final(batch).spec_active_tick() is None
                    &&& final(batch).command_seq().len() == 0
                },
                None => {
                    &&& r is Ok
                    &&& old(self).admits_into(final(self), final(batch), tick)
                },
            },
    {
        if self.last_lifecycle_error.is_some() {
            return self.invalidate_batch(batch, GameplayCommandLifecycleError::Poisoned);
        }
        if batch.active_tick.is_some() || self.closed_through_tick != self.acknowledged_through_tick {
            return self.invalidate_batch(batch, GameplayCommandLifecycleError::BatchAlreadyActive);
        }
        let expected = match self.acknowledged_through_tick.checked_add(1) {
            None => return self.invalidate_batch(batch, GameplayCommandLifecycleError::TickExhausted),
            Some(e) => e,
        };
        if tick.get() != expected {
            return self.invalidate_batch(batch, GameplayCommandLifecycleError::UnexpectedTick { expected, actual: tick.get() });
        }
        let (active_commands, active_bytes) = self.due_prefix(tick);
        proof {
            lemma_queued_bytes_prefix(self.pending@, active_commands as int);
        }
        let next_pending_commands = match self.pending_commands.checked_sub(active_commands) {
            None => return self.invalidate_batch(batch, GameplayCommandLifecycleError::AccountingInvariant),
            Some(n) => n,
        };
        let next_pending_bytes = match self.pending_bytes.checked_sub(active_bytes) {
            None => return self.invalidate_batch(batch, GameplayCommandLifecycleError::AccountingInvariant),
            Some(n) => n,
        };
        if active_commands > self.retained_commands || active_bytes > self.retained_bytes {
            return self.invalidate_batch(batch, GameplayCommandLifecycleError::AccountingInvariant);
        }
        let ghost before = self.pending@;
        let commands = self.take_due(active_commands);
        proof {
            lemma_queued_bytes_prefix(before, active_commands as int);
            lemma_envelopes_match_queued(commands@, before.take(active_commands as int));
        }
        self.pending_commands = next_pending_commands;
        self.pending_bytes = next_pending_bytes;
        self.closed_through_tick = tick.get();
        self.active_commands = active_commands;
        self.active_bytes = active_bytes;
        self.counters.admitted = self.counters.admitted.saturating_add(active_commands as u64);
        batch.activate(tick, commands, active_bytes);
        proof {
            assert forall|i: int| 0 <= i < self.pending@.len() implies #[trigger] self.pending@[i].key.model().tick > self.closed_through_tick by {
                assert(self.pending@[i] == before[i + active_commands]);
            }
        }
        Ok(())
    }

    /// The number and bytes of the leading pending commands of `tick`.
    fn due_prefix(&self, tick: GameplayCommandTick) -> (r: (usize, usize))
        requires
            self.wf(),
            tick.value() == self.closed_through_tick + 1,
        ensures
            r.0 <= self.pending@.len(),
            r.1 == queued_bytes(self.pending@.take(r.0 as int)),
            forall|i: int| 0 <= i < r.0 ==> #[trigger] self.pending@[i].key.model().tick == tick.value(),
            forall|i: int| r.0 <= i < self.pending@.len() ==> #[trigger] self.pending@[i].key.model().tick > tick.value(),
    {
        let mut n: usize = 0;
        let mut bytes: usize = 0;
        while n < self.pending.len() && self.pending[n].key.tick().get() == tick.get()
            invariant
                self.wf(),
                tick.value() == self.closed_through_tick + 1,
                n <= self.pending@.len(),
                bytes == queued_bytes(self.pending@.take(n as int)),
                forall|i: int| 0 <= i < n ==> #[trigger] self.pending@[i].key.model().tick == tick.value(),
            decreases self.pending@.len() - n,
        {
            proof {
                lemma_queued_bytes_prefix(self.pending@, n + 1);
                assert(self.pending@.take(n + 1).drop_last() =~= self.pending@.take(n as int));
            }
            bytes = bytes + self.pending[n].logical_bytes;
            n = n + 1;
        }
        proof {
            assert forall|i: int| n <= i < self.pending@.len() implies #[trigger] self.pending@[i].key.model().tick > tick.value() by {
                if i > n {
                    assert(key_lt(self.pending@[n as int].key.model(), self.pending@[i].key.model()));
                }
            }
        }
        (n, bytes)
    }

    /// Removes the first `n` pending commands and returns them as admitted envelopes.
    fn take_due(&mut self, n: usize) -> (r: Vec<GameplayCommandEnvelope>)
        requires
            n <= old(self).pending@.len(),
        ensures
            final(self).pending@ == old(self).pending@.skip(n as int),
            r@.len() == n,
            forall|i: int| 0 <= i < n ==> envelope_of(#[trigger] r@[i], old(self).pending@[i]),
            final(self).settings == old(self).settings,
            final(self).quarantined == old(self).quarantined,
            final(self).quarantined_bytes == old(self).quarantined_bytes,
            final(self).closed_through_tick == old(self).closed_through_tick,
            final(self).acknowledged_through_tick == old(self).acknowledged_through_tick,
            final(self).pending_commands == old(self).pending_commands,
            final(self).pending_bytes == old(self).pending_bytes,
            final(self).retained_commands == old(self).retained_commands,
            final(self).retained_bytes == old(self).retained_bytes,
            final(self).active_commands == old(self).active_commands,
            final(self).active_bytes == old(self).active_bytes,
            final(self).last_local_sequence == old(self).last_local_sequence,
            final(self).counters == old(self).counters,
            final(self).last_lifecycle_error == old(self).last_lifecycle_error,
    {
        let mut due = self.pending.split_off(n);
        std::mem::swap(&mut due, &mut self.pending);
        let ghost due_seq = due@;
        let mut commands: Vec<GameplayCommandEnvelope> = Vec::new();
        for queued in it: due.into_iter()
            invariant
                it.seq() == due_seq,
                due_seq == old(self).pending@.take(n as int),
                commands@.len() == it.index(),
                forall|i: int| 0 <= i < commands@.len() ==> envelope_of(#[trigger] commands@[i], due_seq[i]),
        {
            commands.push(GameplayCommandEnvelope::admitted(queued.key, queued.command, queued.logical_bytes));
        }
        commands
    }
}

impl GameplayCommandQueue {
    /// Retires `batch` after its tick was consumed, or faults the queue.
    pub fn acknowledge_tick(&mut self, tick: GameplayCommandTick, batch: &mut GameplayCommandBatch) -> (r: Result<(), GameplayCommandLifecycleError>)
        requires
            old(self).wf(),
            old(batch).wf(),
        ensures
            final(self).wf(),
            final(batch).wf(),
            final(batch).spec_active_tick() is None,
            final(batch).command_seq().len() == 0,
            match old(self).acknowledgement_check(old(batch), tick) {
                Some(e) => {
                    &&& r == Err::<(), GameplayCommandLifecycleError>(old(self).fault_error(old(batch), e))
                    &&& old(self).faulted_into(final(self), old(batch), e)
                },
                None => {
                    &&& r is Ok
                    &&& old(self).acknowledges_into(final(self), tick)
                },
            },
    {
        if self.last_lifecycle_error.is_some() {
            return self.invalidate_batch(batch, GameplayCommandLifecycleError::Poisoned);
        }
        let matches = match batch.active_tick {
            Some(active) => active == tick,
            None => false,
        };
        if !matches || self.closed_through_tick != tick.get() {
            return self.invalidate_batch(batch, GameplayCommandLifecycleError::BatchTickMismatch);
        }
        if batch.len() != self.active_commands || batch.logical_bytes() != self.active_bytes {
            return self.invalidate_batch(batch, GameplayCommandLifecycleError::AccountingInvariant);
        }
        let next_commands = match self.retained_commands.checked_sub(self.active_commands) {
            None => return self.invalidate_batch(batch, GameplayCommandLifecycleError::AccountingInvariant),
            Some(n) => n,
        };
        proof {
            lemma_queued_bytes_nonneg(self.pending@);
            lemma_envelopes_bytes_nonneg(self.quarantined@);
        }
        let next_bytes = match self.retained_bytes.checked_sub(self.active_bytes) {
            None => return self.invalidate_batch(batch, GameplayCommandLifecycleError::AccountingInvariant),
            Some(n) => n,
        };
        let acknowledged = self.active_commands;
        self.retained_commands = next_commands;
        self.retained_bytes = next_bytes;
        self.active_commands = 0;
        self.active_bytes = 0;
        self.acknowledged_through_tick = tick.get();
        self.counters.acknowledged = self.counters.acknowledged.saturating_add(acknowledged as u64);
        self.counters.acknowledged_ticks = self.counters.acknowledged_ticks.saturating_add(1);
        batch.retire();
        Ok(())
    }

    /// `admit_tick` for a raw fixed-tick number; zero faults with `ZeroTick`.
    pub fn admit_fixed_tick(&mut self, tick: u64, batch: &mut GameplayCommandBatch) -> (r: Result<(), GameplayCommandLifecycleError>)
        requires
            old(self).wf(),
            old(batch).wf(),
        ensures
            final(self).wf(),
            final(batch).wf(),
            tick == 0 ==> {
                &&& r == Err::<(), GameplayCommandLifecycleError>(old(self).fault_error(old(batch), GameplayCommandLifecycleError::ZeroTick))
                &&& old(self).faulted_into(final(self), old(batch), GameplayCommandLifecycleError::ZeroTick)
            },
            tick != 0 ==> exists|t: GameplayCommandTick| t.value() == tick && match old(self).admission_check(old(batch), t) {
                Some(e) => {
                    &&& r == Err::<(), GameplayCommandLifecycleError>(old(self).fault_error(old(batch), e))
                    &&& old(self).faulted_into(final(self), old(batch), e)
                },
                None => {
                    &&& r is Ok
                    &&& old(self).admits_into(final(self), final(batch), t)
                },
            },
    {
        match GameplayCommandTick::new(tick) {
            None => self.invalidate_batch(batch, GameplayCommandLifecycleError::ZeroTick),
            Some(t) => self.admit_tick(t, batch),
        }
    }

    /// `acknowledge_tick` for a raw fixed-tick number; zero faults with `ZeroTick`.
    pub fn acknowledge_fixed_tick(&mut self, tick: u64, batch: &mut GameplayCommandBatch) -> (r: Result<(), GameplayCommandLifecycleError>)
        requires
            old(self).wf(),
            old(batch).wf(),
        ensures
            final(self).wf(),
            final(batch).wf(),
            tick == 0 ==> {
                &&& r == Err::<(), GameplayCommandLifecycleError>(old(self).fault_error(old(batch), GameplayCommandLifecycleError::ZeroTick))
                &&& old(self).faulted_into(final(self), old(batch), GameplayCommandLifecycleError::ZeroTick)
            },
            tick != 0 ==> exists|t: GameplayCommandTick| t.value() == tick && match old(self).acknowledgement_check(old(batch), t) {
                Some(e) => {
                    &&& r == Err::<(), GameplayCommandLifecycleError>(old(self).fault_error(old(batch), e))
                    &&& old(self).faulted_into(final(self), old(batch), e)
                },
                None => {
                    &&& r is Ok
                    &&& old(self).acknowledges_into(final(self), t)
                },
            },
    {
        match GameplayCommandTick::new(tick) {
            None => self.invalidate_batch(batch, GameplayCommandLifecycleError::ZeroTick),
            Some(t) => self.acknowledge_tick(t, batch),
        }
    }
}

/// The key of the next local action command: the tick after the closed watermark, the local
/// action source and the sequence after the last local one.
pub open spec fn local_key_model(closed_through: u64, last_local_sequence: u64) -> KeyModel {
    KeyModel {
        tick: (closed_through + 1) as u64,
        rank: 0,
        id: Seq::empty(),
        sequence: (last_local_sequence + 1) as u64,
    }
}

impl GameplayCommandQueue {
    /// `next` is `self` after rejecting with `e`: only the counters change.
    pub open spec fn rejects_into(&self, next: &Self, e: GameplayCommandRejection) -> bool {
        &&& next.same_except_counters(self)
        &&& next.spec_counters() == counters_after_rejection(self.spec_counters(), e)
    }

    /// Accepts an explicit submission for its tick, or rejects it leaving all but the counters.
    pub fn submit(&mut self, submission: GameplayCommandSubmission) -> (r: Result<GameplayCommandKey, GameplayCommandRejection>)
        requires
            old(self).wf(),
        ensures
            final(self).wf(),
            match old(self).submission_check(submission.key_model(), &submission.spec_command()) {
                Err(e) => {
                    &&& r == Err::<GameplayCommandKey, GameplayCommandRejection>(e)
                    &&& old(self).rejects_into(final(self), e)
                },
                Ok(()) => {
                    &&& r matches Ok(key) && key.model() == submission.key_model()
                    &&& old(self).accepts_into(final(self), submission.key_model(), &submission.spec_command())
                    &&& final(self).spec_last_local_sequence() == old(self).spec_last_local_sequence()
                },
            },
    {
        let (key, command) = submission.into_parts();
        self.submit_keyed(key, command)
    }

    /// `next` and `r` are the outcome of submitting `command` as the next local action command.
    pub open spec fn local_submission_outcome(&self, next: &Self, command: &GameplayCommandDraft, r: Result<GameplayCommandKey, GameplayCommandRejection>) -> bool {
        &&& self.poisoned() ==> {
            &&& r == Err::<GameplayCommandKey, GameplayCommandRejection>(GameplayCommandRejection::LifecycleFaulted)
            &&& self.rejects_into(next, GameplayCommandRejection::LifecycleFaulted)
        }
        &&& !self.poisoned() && self.closed_through() == u64::MAX ==> {
            &&& r == Err::<GameplayCommandKey, GameplayCommandRejection>(GameplayCommandRejection::TickExhausted)
            &&& self.rejects_into(next, GameplayCommandRejection::TickExhausted)
        }
        &&& !self.poisoned() && self.closed_through() < u64::MAX && self.spec_last_local_sequence() == u64::MAX ==> {
            &&& r == Err::<GameplayCommandKey, GameplayCommandRejection>(GameplayCommandRejection::SourceSequenceExhausted)
            &&& self.rejects_into(next, GameplayCommandRejection::SourceSequenceExhausted)
        }
        &&& !self.poisoned() && self.closed_through() < u64::MAX && self.spec_last_local_sequence() < u64::MAX ==> {
            let m = local_key_model(self.closed_through(), self.spec_last_local_sequence());
            match self.submission_check(m, command) {
                Err(e) => {
                    &&& r == Err::<GameplayCommandKey, GameplayCommandRejection>(e)
                    &&& self.rejects_into(next, e)
                },
                Ok(()) => {
                    &&& r matches Ok(key) && key.model() == m
                    &&& self.accepts_into(next, m, command)
                    &&& next.spec_last_local_sequence() == m.sequence
                },
            }
        }
    }

    /// Accepts a local action command for the next open tick under the next local sequence.
    pub fn submit_local_for_next_tick(&mut self, command: GameplayCommandDraft) -> (r: Result<GameplayCommandKey, GameplayCommandRejection>)
        requires
            old(self).wf(),
        ensures
            final(self).wf(),
            old(self).local_submission_outcome(final(self), &command, r),
    {
        if self.last_lifecycle_error.is_some() {
            return self.reject(GameplayCommandRejection::LifecycleFaulted);
        }
        let tick = match self.closed_through_tick.checked_add(1) {
            None => return self.reject(GameplayCommandRejection::TickExhausted),
            Some(t) => match GameplayCommandTick::new(t) {
                None => return self.reject(GameplayCommandRejection::TickExhausted),
                Some(t) => t,
            },
        };
        let sequence = match self.last_local_sequence.checked_add(1) {
            None => return self.reject(GameplayCommandRejection::SourceSequenceExhausted),
            Some(s) => match GameplayCommandSourceSequence::new(s) {
                None => return self.reject(GameplayCommandRejection::SourceSequenceExhausted),
                Some(s) => s,
            },
        };
        let key = GameplayCommandKey::new(tick, GameplayCommandSource::LocalAction, sequence);
        proof {
            assert(key.model() == local_key_model(self.closed_through_tick, self.last_local_sequence));
        }
        let key = match self.submit_keyed(key, command) {
            Err(e) => return Err(e),
            Ok(key) => key,
        };
        let ghost accepted = *self;
        self.last_local_sequence = sequence.get();
        proof {
            assert(self.pending_seq() == accepted.pending_seq());
        }
        Ok(key)
    }

    /// The numeric observations of this queue.
    pub open spec fn stats_view(&self) -> GameplayCommandQueueStats {
        let c = self.spec_counters();
        GameplayCommandQueueStats {
            accepted: c.accepted,
            admitted: c.admitted,
            acknowledged: c.acknowledged,
            acknowledged_ticks: c.acknowledged_ticks,
            rejected: c.rejected,
            rejected_lifecycle: c.rejected_lifecycle,
            rejected_invalid: c.rejected_invalid,
            rejected_late: c.rejected_late,
            rejected_future: c.rejected_future,
            rejected_duplicate: c.rejected_duplicate,
            rejected_item_limit: c.rejected_item_limit,
            rejected_byte_limit: c.rejected_byte_limit,
            rejected_exhausted: c.rejected_exhausted,
            lifecycle_faults: c.lifecycle_faults,
            pending_commands: self.spec_pending_commands(),
            active_commands: self.spec_active_commands(),
            quarantined_commands: self.quarantined_seq().len() as usize,
            retained_commands: self.spec_retained_commands(),
            pending_bytes: self.spec_pending_bytes(),
            active_bytes: self.spec_active_bytes(),
            quarantined_bytes: self.spec_quarantined_bytes(),
            retained_bytes: self.spec_retained_bytes(),
            closed_through_tick: self.closed_through(),
            acknowledged_through_tick: self.acknowledged_through(),
            furthest_pending_tick: if self.pending_seq().len() == 0 {
                None
            } else {
                Some(self.pending_seq().last().key.model().tick)
            },
        }
    }

    pub fn stats(&self) -> (r: GameplayCommandQueueStats)
        ensures
            r == self.stats_view(),
    {
        let c = self.counters;
        let furthest_pending_tick = if self.pending.len() == 0 {
            None
        } else {
            Some(self.pending[self.pending.len() - 1].key.tick().get())
        };
        GameplayCommandQueueStats {
            accepted: c.accepted,
            admitted: c.admitted,
            acknowledged: c.acknowledged,
            acknowledged_ticks: c.acknowledged_ticks,
            rejected: c.rejected,
            rejected_lifecycle: c.rejected_lifecycle,
            rejected_invalid: c.rejected_invalid,
            rejected_late: c.rejected_late,
            rejected_future: c.rejected_future,
            rejected_duplicate: c.rejected_duplicate,
            rejected_item_limit: c.rejected_item_limit,
            rejected_byte_limit: c.rejected_byte_limit,
            rejected_exhausted: c.rejected_exhausted,
            lifecycle_faults: c.lifecycle_faults,
            pending_commands: self.pending_commands,
            active_commands: self.active_commands,
            quarantined_commands: self.quarantined.len(),
            retained_commands: self.retained_commands,
            pending_bytes: self.pending_bytes,
            active_bytes: self.active_bytes,
            quarantined_bytes: self.quarantined_bytes,
            retained_bytes: self.retained_bytes,
            closed_through_tick: self.closed_through_tick,
            acknowledged_through_tick: self.acknowledged_through_tick,
            furthest_pending_tick,
        }
    }

    pub fn last_lifecycle_error(&self) -> (r: Option<&GameplayCommandLifecycleError>)
        ensures
            match self.spec_last_lifecycle_error() {
                Some(e) => r matches Some(x) && *x == e,
                None => r is None,
            },
    {
        match &self.last_lifecycle_error {
            Some(e) => Some(e),
            None => None,
        }
    }

    pub fn quarantined_commands(&self) -> (r: &[GameplayCommandEnvelope])
        ensures
            r@ == self.quarantined_seq(),
    {
        self.quarantined.as_slice()
    }

    /// No fault, nothing retained, and every closed tick acknowledged.
    pub fn is_idle(&self) -> (r: bool)
        ensures
            r == (!self.poisoned() && self.spec_retained_commands() == 0 && self.closed_through() == self.acknowledged_through()),
    {
        self.last_lifecycle_error.is_none() && self.retained_commands == 0 && self.closed_through_tick == self.acknowledged_through_tick
    }
}

impl Default for GameplayCommandQueue {
    fn default() -> (r: Self)
        ensures
            r.wf(),
            r.spec_settings().retained_commands_value() == 4096,
            r.spec_settings().retained_bytes_value() == 4194304,
            r.spec_settings().command_bytes_value() == 65536,
            r.spec_settings().payload_items_value() == 64,
            r.spec_settings().payload_bytes_value() == 32768,
            r.spec_settings().future_ticks_value() == 600,
            r.spec_active_commands() == 0,
            r.spec_active_bytes() == 0,
            r.spec_last_local_sequence() == 0,
            r.pending_seq().len() == 0,
            r.quarantined_seq().len() == 0,
            r.closed_through() == 0,
            r.acknowledged_through() == 0,
            r.spec_retained_commands() == 0,
            r.spec_retained_bytes() == 0,
            r.spec_counters() == GameplayCommandCounters::default_spec(),
            !r.poisoned(),
    {
        GameplayCommandQueue::new(GameplayCommandQueueSettings::default_settings())
    }
}

/// A batch admitted from a well-formed queue lists its commands in strictly increasing key
/// order: tick, source rank, source identifier, then source sequence.
pub proof fn lemma_admitted_batch_in_key_order(
    before: GameplayCommandQueue,
    after: GameplayCommandQueue,
    batch: GameplayCommandBatch,
    tick: GameplayCommandTick,
)
    requires
        before.wf(),
        before.admits_into(&after, &batch, tick),
    ensures
        forall|i: int, j: int| 0 <= i < j < batch.command_seq().len() ==>
            key_lt(#[trigger] batch.command_seq()[i].spec_key().model(), #[trigger] batch.command_seq()[j].spec_key().model()),
{
    let n = batch.command_seq().len() as int;
    let due = before.pending_seq().take(n);
    assert forall|i: int, j: int| 0 <= i < j < batch.command_seq().len() implies
        key_lt(#[trigger] batch.command_seq()[i].spec_key().model(), #[trigger] batch.command_seq()[j].spec_key().model()) by {
        assert(due[i] == before.pending_seq()[i]);
        assert(due[j] == before.pending_seq()[j]);
        assert(envelope_of(batch.command_seq()[i], due[i]));
        assert(envelope_of(batch.command_seq()[j], due[j]));
    }
}

/// Admitting a tick and then acknowledging it releases exactly the batch's commands and
/// bytes from the retained totals and leaves every closed tick acknowledged.
pub proof fn lemma_admit_then_acknowledge_releases_batch(
    start: GameplayCommandQueue,
    admitted: GameplayCommandQueue,
    done: GameplayCommandQueue,
    batch: GameplayCommandBatch,
    tick: GameplayCommandTick,
)
    requires
        start.wf(),
        start.admits_into(&admitted, &batch, tick),
        admitted.acknowledges_into(&done, tick),
    ensures
        done.spec_retained_commands() == start.spec_retained_commands() - batch.command_seq().len(),
        done.spec_retained_bytes() == start.spec_retained_bytes() - batch.spec_logical_bytes(),
        done.closed_through() == done.acknowledged_through(),
        done.acknowledged_through() == tick.value(),
        done.pending_seq() == admitted.pending_seq(),
{
}

/// Two key-sorted sequences of queued commands that hold the same commands are equal.
proof fn lemma_sorted_queue_unique(a: Seq<QueuedCommand>, b: Seq<QueuedCommand>)
    requires
        queued_sorted(a),
        queued_sorted(b),
        a.to_set() == b.to_set(),
    ensures
        a == b,
    decreases a.len(),
{
    if a.len() == 0 {
        if b.len() > 0 {
            assert(b.to_set().contains(b[0]));
            assert(a.to_set().contains(b[0]));
        }
        assert(a =~= b);
    } else {
        assert(a.to_set().contains(a[0]));
        assert(b.to_set().contains(a[0]));
        let k = choose|k: int| 0 <= k < b.len() && b[k] == a[0];
        assert(b.to_set().contains(b[0]));
        assert(a.to_set().contains(b[0]));
        let m = choose|m: int| 0 <= m < a.len() && a[m] == b[0];
        if k > 0 {
            assert(key_lt(b[0].key.model(), b[k].key.model()));
            if m > 0 {
                assert(key_lt(a[0].key.model(), a[m].key.model()));
                lemma_key_lt_trichotomy(a[0].key.model(), b[0].key.model());
            } else {
                lemma_key_lt_trichotomy(b[0].key.model(), b[0].key.model());
            }
        }
        assert(a[0] == b[0]);
        let ra = a.drop_first();
        let rb = b.drop_first();
        assert forall|x: QueuedCommand| ra.to_set().contains(x) <==> rb.to_set().contains(x) by {
            if ra.to_set().contains(x) {
                let i = choose|i: int| 0 <= i < ra.len() && ra[i] == x;
                assert(a[i + 1] == x);
                assert(key_lt(a[0].key.model(), x.key.model()));
                lemma_key_lt_trichotomy(a[0].key.model(), a[0].key.model());
                assert(x != a[0]);
                assert(a.to_set().contains(x));
                assert(b.to_set().contains(x));
                let j = choose|j: int| 0 <= j < b.len() && b[j] == x;
                assert(j != 0);
                assert(rb[j - 1] == x);
            }
            if rb.to_set().contains(x) {
                let i = choose|i: int| 0 <= i < rb.len() && rb[i] == x;
                assert(b[i + 1] == x);
                assert(key_lt(b[0].key.model(), x.key.model()));
                lemma_key_lt_trichotomy(b[0].key.model(), b[0].key.model());
                assert(x != b[0]);
                assert(b.to_set().contains(x));
                assert(a.to_set().contains(x));
                let j = choose|j: int| 0 <= j < a.len() && a[j] == x;
                assert(j != 0);
                assert(ra[j - 1] == x);
            }
        }
        assert(ra.to_set() =~= rb.to_set());
        assert(queued_sorted(ra));
        assert(queued_sorted(rb));
        lemma_sorted_queue_unique(ra, rb);
        assert(a =~= seq![a[0]] + ra);
        assert(b =~= seq![b[0]] + rb);
    }
}

/// The order commands arrived in does not change admission: two well-formed queues that hold
/// the same pending commands admit a tick as the same commands, in the same order, and keep
/// the same commands pending.
pub proof fn lemma_admission_independent_of_arrival_order(
    first: GameplayCommandQueue,
    first_next: GameplayCommandQueue,
    first_batch: GameplayCommandBatch,
    second: GameplayCommandQueue,
    second_next: GameplayCommandQueue,
    second_batch: GameplayCommandBatch,
    tick: GameplayCommandTick,
)
    requires
        first.wf(),
        second.wf(),
        first.pending_seq().to_set() == second.pending_seq().to_set(),
        first.admits_into(&first_next, &first_batch, tick),
        second.admits_into(&second_next, &second_batch, tick),
    ensures
        first_batch.command_seq().len() == second_batch.command_seq().len(),
        forall|i: int| 0 <= i < first_batch.command_seq().len() ==> {
            &&& (#[trigger] first_batch.command_seq()[i]).spec_key() == second_batch.command_seq()[i].spec_key()
            &&& first_batch.command_seq()[i].spec_command() == second_batch.command_seq()[i].spec_command()
            &&& first_batch.command_seq()[i].spec_logical_bytes() == second_batch.command_seq()[i].spec_logical_bytes()
        },
        first_next.pending_seq() == second_next.pending_seq(),
{
    lemma_sorted_queue_unique(first.pending_seq(), second.pending_seq());
    let p = first.pending_seq();
    let n1 = first_batch.command_seq().len() as int;
    let n2 = second_batch.command_seq().len() as int;
    if n1 < n2 {
        assert(p.take(n2)[n1] == p[n1]);
        assert(first_next.pending_seq()[0] == p[n1]);
    }
    if n2 < n1 {
        assert(p.take(n1)[n2] == p[n2]);
        assert(second_next.pending_seq()[0] == p[n2]);
    }
    assert(n1 == n2);
    assert forall|i: int| 0 <= i < first_batch.command_seq().len() implies {
        &&& (#[trigger] first_batch.command_seq()[i]).spec_key() == second_batch.command_seq()[i].spec_key()
        &&& first_batch.command_seq()[i].spec_command() == second_batch.command_seq()[i].spec_command()
        &&& first_batch.command_seq()[i].spec_logical_bytes() == second_batch.command_seq()[i].spec_logical_bytes()
    } by {
        assert(p.take(n1)[i] == p[i]);
        assert(envelope_of(first_batch.command_seq()[i], p.take(n1)[i]));
        assert(envelope_of(second_batch.command_seq()[i], p.take(n2)[i]));
    }
}

/// A lifecycle fault leaves the queue poisoned, whatever the error.
pub proof fn lemma_fault_poisons(
    before: GameplayCommandQueue,
    after: GameplayCommandQueue,
    batch: GameplayCommandBatch,
    error: GameplayCommandLifecycleError,
)
    requires
        before.faulted_into(&after, &batch, error),
    ensures
        after.poisoned(),
        before.poisoned() ==> after.spec_last_lifecycle_error() == before.spec_last_lifecycle_error(),
{
}

/// A poisoned queue rejects every submission with `LifecycleFaulted` and refuses every
/// admission with `Poisoned`.
pub proof fn lemma_poisoned_queue_refuses(
    queue: GameplayCommandQueue,
    batch: GameplayCommandBatch,
    key: KeyModel,
    command: GameplayCommandDraft,
    tick: GameplayCommandTick,
)
    requires
        queue.poisoned(),
    ensures
        queue.submission_check(key, &command) == Err::<(), GameplayCommandRejection>(GameplayCommandRejection::LifecycleFaulted),
        queue.admission_check(&batch, tick) == Some(GameplayCommandLifecycleError::Poisoned),
        queue.acknowledgement_check(&batch, tick) == Some(GameplayCommandLifecycleError::Poisoned),
        queue.fault_error(&batch, GameplayCommandLifecycleError::Poisoned) == GameplayCommandLifecycleError::Poisoned,
{
}

impl GameplayCommandCounters {
    pub open spec fn default_spec() -> Self {
        GameplayCommandCounters {
            accepted: 0,
            admitted: 0,
            acknowledged: 0,
            acknowledged_ticks: 0,
            rejected: 0,
            rejected_lifecycle: 0,
            rejected_invalid: 0,
            rejected_late: 0,
            rejected_future: 0,
            rejected_duplicate: 0,
            rejected_item_limit: 0,
            rejected_byte_limit: 0,
            rejected_exhausted: 0,
            lifecycle_faults: 0,
        }
    }

    fn zero() -> (r: Self)
        ensures
            r == Self::default_spec(),
    {
        GameplayCommandCounters {
            accepted: 0,
            admitted: 0,
            acknowledged: 0,
            acknowledged_ticks: 0,
            rejected: 0,
            rejected_lifecycle: 0,
            rejected_invalid: 0,
            rejected_late: 0,
            rejected_future: 0,
            rejected_duplicate: 0,
            rejected_item_limit: 0,
            rejected_byte_limit: 0,
            rejected_exhausted: 0,
            lifecycle_faults: 0,
        }
    }
}

} // verus!
