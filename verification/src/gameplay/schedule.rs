//! The fixed-update phases of gameplay commands and the plugin that installs them.

use vstd::prelude::*;

use crate::gameplay::queue::{GameplayCommandBatch, GameplayCommandQueueSettings};

verus! {

/// The phases of one fixed tick, in the order they run.
#[derive(Debug, Clone, Copy, PartialEq, Eq, Structural, PartialOrd, Ord, Hash)]
pub enum GameplayCommandSet {
    /// Lower local action outcomes into commands for the next open tick.
    MapLocalActions,
    /// Close and admit the current tick.
    Admit,
    /// Read the admitted batch of the current tick.
    Consume,
    /// Capture the batch for replay or debugging after consumption.
    Capture,
    /// Retire the batch and release its retained budget.
    Acknowledge,
}

/// Installs a gameplay command queue with its settings.
#[derive(Debug, Clone, Copy)]
pub struct GameplayCommandPlugin {
    pub settings: GameplayCommandQueueSettings,
}

impl GameplayCommandPlugin {
    pub fn new(settings: GameplayCommandQueueSettings) -> (r: Self)
        ensures
            r.settings == settings,
    {
        GameplayCommandPlugin { settings }
    }

    pub fn settings(&self) -> (r: GameplayCommandQueueSettings)
        ensures
            r == self.settings,
    {
        self.settings
    }
}

impl Default for GameplayCommandPlugin {
    fn default() -> (r: Self)
        ensures
            r.settings.retained_commands_value() == 4096,
            r.settings.retained_bytes_value() == 4194304,
            r.settings.command_bytes_value() == 65536,
            r.settings.payload_items_value() == 64,
            r.settings.payload_bytes_value() == 32768,
            r.settings.future_ticks_value() == 600,
    {
        GameplayCommandPlugin::new(GameplayCommandQueueSettings::default_settings())
    }
}


/// Whether the batch belongs to the running fixed tick, so that its consumers may read it: a
/// batch left active by a faulted tick is hidden from later ticks.
pub fn gameplay_command_batch_is_current(fixed_tick: u64, batch: &GameplayCommandBatch) -> (r: bool)
    ensures
        r == (batch.spec_active_tick() matches Some(t) && t.value() == fixed_tick),
{
    match batch.active_tick() {
        Some(t) => t.get() == fixed_tick,
        None => false,
    }
}

} // verus!
