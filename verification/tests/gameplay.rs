use nara::gameplay::action::{
    map_action_outcomes_to_commands, ActionCommandBinding, ActionCommandMap, ActionCommandMapError,
    MAX_ACTION_COMMAND_BINDINGS,
};
use nara::gameplay::command::{
    GameplayCommandDraft, GameplayCommandEnvelope, GameplayCommandIngressSource, GameplayCommandPayload,
    GameplayCommandPayloadError, GameplayCommandSource, GameplayCommandSourceSequence, GameplayCommandSubmission,
    GameplayCommandTarget, GameplayCommandTick, GameplayCommandTypeId, GameplayCommandValue,
    MAX_GAMEPLAY_COMMAND_ID_BYTES, MAX_GAMEPLAY_COMMAND_PAYLOAD_BYTES, MAX_GAMEPLAY_COMMAND_PAYLOAD_ITEMS,
    MAX_GAMEPLAY_COMMAND_STRING_BYTES,
};
use nara::gameplay::queue::{
    GameplayCommandBatch, GameplayCommandLifecycleError, GameplayCommandLimitKind, GameplayCommandQueue,
    GameplayCommandQueueSettings, GameplayCommandRejection, GameplayCommandSettingsError,
    MAX_GAMEPLAY_COMMAND_BYTES, MAX_GAMEPLAY_COMMAND_FUTURE_TICKS, MAX_GAMEPLAY_COMMAND_RETAINED_BYTES,
    MAX_GAMEPLAY_COMMAND_RETAINED_COMMANDS,
};
use nara::input::{
    resolve_action_outcomes, ActionBinding, ActionContext, ActionId, ActionMap, ActionPhase, ButtonInput, KeyCode,
    MouseButton,
};
use nara::limit::{ByteLimit, ItemLimit, PositiveU64};

fn command(command_type: &str) -> GameplayCommandDraft {
    GameplayCommandDraft::new(GameplayCommandTypeId::new(command_type).unwrap())
}

fn tick(value: u64) -> GameplayCommandTick {
    GameplayCommandTick::new(value).unwrap()
}

fn sequence(value: u64) -> GameplayCommandSourceSequence {
    GameplayCommandSourceSequence::new(value).unwrap()
}

fn submission(
    tick_value: u64,
    source: GameplayCommandIngressSource,
    sequence_value: u64,
    command_type: &str,
) -> GameplayCommandSubmission {
    GameplayCommandSubmission::new(tick(tick_value), source, sequence(sequence_value), command(command_type))
}

fn settings(
    retained_commands: usize,
    retained_bytes: usize,
    command_bytes: usize,
    payload_items: usize,
    payload_bytes: usize,
    future_ticks: u64,
) -> GameplayCommandQueueSettings {
    GameplayCommandQueueSettings::new(
        ItemLimit::new(retained_commands).unwrap(),
        ByteLimit::new(retained_bytes).unwrap(),
        ByteLimit::new(command_bytes).unwrap(),
        ItemLimit::new(payload_items).unwrap(),
        ByteLimit::new(payload_bytes).unwrap(),
        PositiveU64::new(future_ticks).unwrap(),
    )
    .unwrap()
}

/// One variable-rate frame: the recorded input edges become action outcomes, every matching
/// binding submits its command for the next tick, and the frame's edges are cleared.
struct Frames {
    actions: ActionMap,
    commands: ActionCommandMap,
    keyboard: ButtonInput<KeyCode>,
    mouse: ButtonInput<MouseButton>,
    queue: GameplayCommandQueue,
    batch: GameplayCommandBatch,
    next_tick: u64,
    consumed: Vec<(u64, Vec<GameplayCommandEnvelope>)>,
}

impl Frames {
    fn new() -> Self {
        Frames {
            actions: ActionMap::default(),
            commands: ActionCommandMap::default(),
            keyboard: ButtonInput::default(),
            mouse: ButtonInput::default(),
            queue: GameplayCommandQueue::default(),
            batch: GameplayCommandBatch::new(),
            next_tick: 1,
            consumed: Vec::new(),
        }
    }

    fn frame(&mut self, fixed_ticks: u64) {
        let outcomes = resolve_action_outcomes(&self.actions, &self.keyboard, &self.mouse);
        for result in map_action_outcomes_to_commands(&self.commands, &outcomes, &mut self.queue) {
            result.unwrap();
        }
        self.keyboard.clear_transitions();
        self.mouse.clear_transitions();
        for _ in 0..fixed_ticks {
            let current = tick(self.next_tick);
            self.queue.admit_tick(current, &mut self.batch).unwrap();
            self.consumed.push((self.next_tick, self.batch.commands().to_vec()));
            self.queue.acknowledge_tick(current, &mut self.batch).unwrap();
            self.next_tick += 1;
        }
    }
}

#[test]
fn local_action_survives_zero_tick_frame_and_is_consumed_once_across_three_ticks() {
    let mut frames = Frames::new();
    let action = ActionId::new("jump").unwrap();
    frames.actions.bind(ActionBinding::key(action.clone(), KeyCode::Space));
    frames
        .commands
        .bind(ActionCommandBinding::new(action, ActionPhase::Started, GameplayCommandTypeId::new("player.jump").unwrap()))
        .unwrap();
    frames.keyboard.press(KeyCode::Space).unwrap();

    frames.frame(0);
    assert_eq!(frames.queue.stats().pending_commands, 1);
    frames.frame(3);

    let observed = &frames.consumed;
    assert_eq!(observed.len(), 3);
    assert_eq!(observed[0].0, 1);
    assert_eq!(observed[0].1.len(), 1);
    assert_eq!(observed[0].1[0].command_type().as_str(), "player.jump");
    assert_eq!(observed[0].1[0].source(), &GameplayCommandSource::LocalAction);
    assert!(observed[1].1.is_empty());
    assert!(observed[2].1.is_empty());
    assert!(frames.queue.is_idle());
    assert_eq!(frames.batch.active_tick(), None);
}

#[test]
fn multiple_zero_tick_frames_preserve_one_local_source_sequence() {
    let mut frames = Frames::new();
    let action = ActionId::new("interact").unwrap();
    frames.actions.bind(ActionBinding::key(action.clone(), KeyCode::Enter));
    frames
        .commands
        .bind(ActionCommandBinding::new(
            action.clone(),
            ActionPhase::Started,
            GameplayCommandTypeId::new("interact.started").unwrap(),
        ))
        .unwrap();
    frames
        .commands
        .bind(ActionCommandBinding::new(
            action,
            ActionPhase::Released,
            GameplayCommandTypeId::new("interact.released").unwrap(),
        ))
        .unwrap();

    frames.keyboard.press(KeyCode::Enter).unwrap();
    frames.frame(0);
    frames.keyboard.release(KeyCode::Enter).unwrap();
    frames.frame(0);
    frames.keyboard.press(KeyCode::Enter).unwrap();
    frames.frame(0);
    frames.frame(1);

    let commands = &frames.consumed[0].1;
    assert_eq!(commands.len(), 3);
    assert_eq!(commands.iter().map(|command| command.source_sequence().get()).collect::<Vec<_>>(), [1, 2, 3]);
    assert_eq!(
        commands.iter().map(|command| command.command_type().as_str()).collect::<Vec<_>>(),
        ["interact.started", "interact.released", "interact.started"]
    );
}

#[test]
fn action_bridge_preserves_target_payload_and_context() {
    let mut frames = Frames::new();
    let context = ActionContext::new("menu").unwrap();
    let action = ActionId::new("select").unwrap();
    let mut payload = GameplayCommandPayload::new();
    payload.insert("slot", GameplayCommandValue::I64(2)).unwrap();
    let target = GameplayCommandTarget::named("player").unwrap();
    frames.actions.bind(ActionBinding::key(action.clone(), KeyCode::Enter).with_context(context.clone()));
    frames
        .commands
        .bind(
            ActionCommandBinding::new(action.clone(), ActionPhase::Started, GameplayCommandTypeId::new("ui.select").unwrap())
                .with_context(context)
                .with_target(target.clone())
                .with_payload(payload.clone()),
        )
        .unwrap();
    frames
        .commands
        .bind(ActionCommandBinding::new(
            action,
            ActionPhase::Started,
            GameplayCommandTypeId::new("gameplay.should_not_match").unwrap(),
        ))
        .unwrap();
    frames.keyboard.press(KeyCode::Enter).unwrap();

    frames.frame(1);

    let commands = &frames.consumed[0].1;
    assert_eq!(commands.len(), 1);
    let envelope = &commands[0];
    assert_eq!(envelope.command_type().as_str(), "ui.select");
    assert_eq!(envelope.target(), Some(&target));
    assert_eq!(envelope.payload(), &payload);
}

#[test]
fn action_bridge_filters_by_phase() {
    let mut frames = Frames::new();
    let action = ActionId::new("cancel").unwrap();
    frames.actions.bind(ActionBinding::key(action.clone(), KeyCode::Escape));
    frames
        .commands
        .bind(ActionCommandBinding::new(
            action,
            ActionPhase::Released,
            GameplayCommandTypeId::new("cancel.released").unwrap(),
        ))
        .unwrap();
    frames.keyboard.press(KeyCode::Escape).unwrap();
    frames.frame(1);
    frames.keyboard.release(KeyCode::Escape).unwrap();
    frames.frame(1);

    let observed = &frames.consumed;
    assert!(observed[0].1.is_empty());
    assert_eq!(observed[1].1.len(), 1);
    assert_eq!(observed[1].1[0].command_type().as_str(), "cancel.released");
}

#[test]
fn action_command_map_rejects_the_first_binding_past_its_hard_limit() {
    let binding = ActionCommandBinding::new(
        ActionId::new("bounded").unwrap(),
        ActionPhase::Started,
        GameplayCommandTypeId::new("bounded.command").unwrap(),
    );
    let mut command_map = ActionCommandMap::default();
    for _ in 0..MAX_ACTION_COMMAND_BINDINGS {
        command_map.bind(binding.clone()).unwrap();
    }
    let before = command_map.bindings().len();

    assert_eq!(
        command_map.bind(binding),
        Err(ActionCommandMapError::BindingLimit {
            requested: MAX_ACTION_COMMAND_BINDINGS + 1,
            maximum: MAX_ACTION_COMMAND_BINDINGS,
        })
    );
    assert_eq!(command_map.bindings().len(), before);
}

#[test]
fn admitted_order_is_independent_of_arrival_order() {
    let mut external_payload = GameplayCommandPayload::new();
    external_payload.insert("axis", GameplayCommandValue::I64(2)).unwrap();
    let submissions = [
        GameplayCommandSubmission::new(
            tick(1),
            GameplayCommandIngressSource::external("server-b").unwrap(),
            sequence(2),
            command("external.b")
                .with_target(GameplayCommandTarget::named("player-b").unwrap())
                .with_payload(external_payload),
        ),
        submission(1, GameplayCommandIngressSource::test("driver").unwrap(), 2, "test.second"),
        submission(1, GameplayCommandIngressSource::ai("agent-a").unwrap(), 1, "ai"),
        submission(1, GameplayCommandIngressSource::external("server-a").unwrap(), 1, "external.a"),
        submission(1, GameplayCommandIngressSource::replay("stream-a").unwrap(), 1, "replay"),
        submission(1, GameplayCommandIngressSource::test("driver").unwrap(), 1, "test.first"),
    ];
    let mut forward = GameplayCommandQueue::default();
    let mut reverse = GameplayCommandQueue::default();
    forward.submit_local_for_next_tick(command("local")).unwrap();
    for item in &submissions {
        forward.submit(item.clone()).unwrap();
    }
    for item in submissions.iter().rev() {
        reverse.submit(item.clone()).unwrap();
    }
    reverse.submit_local_for_next_tick(command("local")).unwrap();
    let mut forward_batch = GameplayCommandBatch::new();
    let mut reverse_batch = GameplayCommandBatch::new();
    forward.admit_tick(tick(1), &mut forward_batch).unwrap();
    reverse.admit_tick(tick(1), &mut reverse_batch).unwrap();

    assert_eq!(forward_batch.commands(), reverse_batch.commands());

    let forward_keys = forward_batch.commands().iter().map(|envelope| envelope.key().clone()).collect::<Vec<_>>();
    let reverse_keys = reverse_batch.commands().iter().map(|envelope| envelope.key().clone()).collect::<Vec<_>>();
    assert_eq!(forward_keys, reverse_keys);
    assert_eq!(
        forward_keys.iter().map(|key| (key.source().clone(), key.source_sequence().get())).collect::<Vec<_>>(),
        [
            (GameplayCommandSource::LocalAction, 1),
            (GameplayCommandSource::test("driver").unwrap(), 1),
            (GameplayCommandSource::test("driver").unwrap(), 2),
            (GameplayCommandSource::replay("stream-a").unwrap(), 1),
            (GameplayCommandSource::ai("agent-a").unwrap(), 1),
            (GameplayCommandSource::external("server-a").unwrap(), 1),
            (GameplayCommandSource::external("server-b").unwrap(), 2),
        ]
    );
}

#[test]
fn duplicate_key_is_rejected_without_replacing_the_first_command() {
    let mut queue = GameplayCommandQueue::default();
    let source = GameplayCommandIngressSource::external("server").unwrap();
    queue.submit(submission(1, source.clone(), 1, "first")).unwrap();
    let before = queue.stats();

    assert_eq!(queue.submit(submission(1, source, 1, "replacement")), Err(GameplayCommandRejection::Duplicate));
    let after = queue.stats();
    assert_eq!(after.retained_commands, before.retained_commands);
    assert_eq!(after.retained_bytes, before.retained_bytes);

    let mut batch = GameplayCommandBatch::new();
    queue.admit_tick(tick(1), &mut batch).unwrap();
    assert_eq!(batch.commands()[0].command_type().as_str(), "first");
}

#[test]
fn source_sequence_may_be_reused_on_a_different_tick() {
    let mut queue = GameplayCommandQueue::default();
    let source = GameplayCommandIngressSource::replay("stream").unwrap();
    queue.submit(submission(1, source.clone(), 7, "tick.one")).unwrap();
    queue.submit(submission(2, source, 7, "tick.two")).unwrap();

    let mut batch = GameplayCommandBatch::new();
    queue.admit_tick(tick(1), &mut batch).unwrap();
    assert_eq!(batch.commands()[0].source_sequence().get(), 7);
    queue.acknowledge_tick(tick(1), &mut batch).unwrap();
    queue.admit_tick(tick(2), &mut batch).unwrap();
    assert_eq!(batch.commands()[0].source_sequence().get(), 7);
    assert_eq!(batch.commands()[0].command_type().as_str(), "tick.two");
}

#[test]
fn late_and_future_window_rejections_use_closed_tick_watermark() {
    let mut queue = GameplayCommandQueue::new(settings(8, 4_096, 1_024, 8, 512, 2));
    let mut batch = GameplayCommandBatch::new();
    queue.admit_tick(tick(1), &mut batch).unwrap();
    let before_late = queue.stats();

    assert!(matches!(
        queue.submit(submission(1, GameplayCommandIngressSource::test("late").unwrap(), 1, "late")),
        Err(GameplayCommandRejection::Late { .. })
    ));
    let after_late = queue.stats();
    assert_eq!(after_late.pending_commands, before_late.pending_commands);
    assert_eq!(after_late.active_commands, before_late.active_commands);
    assert_eq!(after_late.retained_commands, before_late.retained_commands);
    assert_eq!(after_late.pending_bytes, before_late.pending_bytes);
    assert_eq!(after_late.active_bytes, before_late.active_bytes);
    assert_eq!(after_late.retained_bytes, before_late.retained_bytes);
    assert_eq!(after_late.closed_through_tick, before_late.closed_through_tick);
    assert_eq!(after_late.acknowledged_through_tick, before_late.acknowledged_through_tick);
    assert_eq!(after_late.furthest_pending_tick, None);
    assert!(queue
        .submit(submission(3, GameplayCommandIngressSource::test("boundary").unwrap(), 1, "boundary"))
        .is_ok());
    let before_future = queue.stats();
    assert!(matches!(
        queue.submit(submission(4, GameplayCommandIngressSource::test("future").unwrap(), 1, "future")),
        Err(GameplayCommandRejection::TooFarFuture { .. })
    ));
    let after_future = queue.stats();
    assert_eq!(after_future.pending_commands, before_future.pending_commands);
    assert_eq!(after_future.active_commands, before_future.active_commands);
    assert_eq!(after_future.retained_commands, before_future.retained_commands);
    assert_eq!(after_future.pending_bytes, before_future.pending_bytes);
    assert_eq!(after_future.active_bytes, before_future.active_bytes);
    assert_eq!(after_future.retained_bytes, before_future.retained_bytes);
    assert_eq!(after_future.closed_through_tick, before_future.closed_through_tick);
    assert_eq!(after_future.acknowledged_through_tick, before_future.acknowledged_through_tick);
    assert_eq!(after_future.furthest_pending_tick, Some(3));
}

#[test]
fn active_and_pending_commands_share_the_retained_item_budget() {
    let mut queue = GameplayCommandQueue::new(settings(2, 4_096, 1_024, 8, 512, 4));
    queue.submit(submission(1, GameplayCommandIngressSource::test("tick-one").unwrap(), 1, "one")).unwrap();
    queue.submit(submission(2, GameplayCommandIngressSource::test("tick-two").unwrap(), 1, "two")).unwrap();
    let mut batch = GameplayCommandBatch::new();
    queue.admit_tick(tick(1), &mut batch).unwrap();

    assert_eq!(queue.stats().active_commands, 1);
    assert_eq!(queue.stats().pending_commands, 1);
    assert!(matches!(
        queue.submit(submission(2, GameplayCommandIngressSource::test("another").unwrap(), 1, "full")),
        Err(GameplayCommandRejection::RetainedItemLimit { .. })
    ));

    queue.acknowledge_tick(tick(1), &mut batch).unwrap();
    assert!(queue
        .submit(submission(2, GameplayCommandIngressSource::test("another").unwrap(), 1, "after-ack"))
        .is_ok());
}

#[test]
fn active_and_pending_commands_share_the_retained_byte_budget() {
    let first = submission(1, GameplayCommandIngressSource::test("one").unwrap(), 1, "one");
    let second = submission(2, GameplayCommandIngressSource::test("two").unwrap(), 1, "two");
    let replacement = submission(2, GameplayCommandIngressSource::test("new").unwrap(), 1, "new");
    let command_bytes = first.logical_bytes().unwrap();
    assert_eq!(second.logical_bytes(), Some(command_bytes));
    assert_eq!(replacement.logical_bytes(), Some(command_bytes));
    let mut queue = GameplayCommandQueue::new(settings(3, command_bytes * 2, command_bytes, 1, 1, 4));
    queue.submit(first).unwrap();
    queue.submit(second).unwrap();
    let mut batch = GameplayCommandBatch::new();
    queue.admit_tick(tick(1), &mut batch).unwrap();

    assert_eq!(queue.stats().active_bytes, command_bytes);
    assert_eq!(queue.stats().pending_bytes, command_bytes);
    assert!(matches!(queue.submit(replacement.clone()), Err(GameplayCommandRejection::RetainedByteLimit { .. })));

    queue.acknowledge_tick(tick(1), &mut batch).unwrap();
    queue.submit(replacement).unwrap();
}

#[test]
fn acknowledging_one_tick_retains_future_commands() {
    let mut queue = GameplayCommandQueue::default();
    queue.submit(submission(1, GameplayCommandIngressSource::test("driver").unwrap(), 1, "one")).unwrap();
    queue.submit(submission(2, GameplayCommandIngressSource::test("driver").unwrap(), 1, "two")).unwrap();
    let mut batch = GameplayCommandBatch::new();
    queue.admit_tick(tick(1), &mut batch).unwrap();
    queue.acknowledge_tick(tick(1), &mut batch).unwrap();
    assert_eq!(queue.stats().pending_commands, 1);

    queue.admit_tick(tick(2), &mut batch).unwrap();
    assert_eq!(batch.commands().len(), 1);
    assert_eq!(batch.commands()[0].command_type().as_str(), "two");
}

#[test]
fn payload_nonfinite_and_replacement_overflow_are_atomic() {
    let mut payload = GameplayCommandPayload::new();
    payload.insert("value", GameplayCommandValue::I64(7)).unwrap();
    let before = payload.clone();
    for (key, value) in [("nan", f64::NAN), ("positive_infinity", f64::INFINITY), ("negative_infinity", f64::NEG_INFINITY)] {
        assert_eq!(
            payload.insert(key, GameplayCommandValue::F64(value.to_bits())),
            Err(GameplayCommandPayloadError::NonFiniteFloat)
        );
        assert_eq!(payload, before);
    }

    let oversized = "x".repeat(MAX_GAMEPLAY_COMMAND_STRING_BYTES + 1);
    assert!(matches!(
        payload.insert("value", GameplayCommandValue::String(oversized)),
        Err(GameplayCommandPayloadError::StringTooLong { .. })
    ));
    assert_eq!(payload, before);
}

#[test]
fn configured_payload_limits_accept_the_boundary_and_reject_without_retention() {
    let mut one_field = GameplayCommandPayload::new();
    one_field.insert("a", GameplayCommandValue::String("x".to_owned())).unwrap();
    let payload_bytes = one_field.logical_bytes();
    let accepted = GameplayCommandSubmission::new(
        tick(1),
        GameplayCommandIngressSource::test("driver").unwrap(),
        sequence(1),
        command("payload").with_payload(one_field.clone()),
    );
    let mut exact = GameplayCommandQueue::new(settings(2, 4_096, 1_024, 1, payload_bytes, 2));
    exact.submit(accepted).unwrap();

    let mut two_fields = one_field;
    two_fields.insert("b", GameplayCommandValue::Bool(true)).unwrap();
    let oversized = GameplayCommandSubmission::new(
        tick(1),
        GameplayCommandIngressSource::test("other").unwrap(),
        sequence(1),
        command("payload").with_payload(two_fields.clone()),
    );
    let mut item_limited = GameplayCommandQueue::new(settings(2, 4_096, 1_024, 1, two_fields.logical_bytes(), 2));
    assert!(matches!(item_limited.submit(oversized.clone()), Err(GameplayCommandRejection::PayloadItemLimit { .. })));
    assert_eq!(item_limited.stats().retained_commands, 0);

    let mut byte_limited = GameplayCommandQueue::new(settings(2, 4_096, 1_024, 4, payload_bytes, 2));
    assert!(matches!(byte_limited.submit(oversized), Err(GameplayCommandRejection::PayloadByteLimit { .. })));
    assert_eq!(byte_limited.stats().retained_bytes, 0);
}

#[test]
fn per_command_byte_limit_rejects_before_queue_retention() {
    let candidate = submission(1, GameplayCommandIngressSource::test("driver").unwrap(), 1, "oversized");
    let logical_bytes = candidate.logical_bytes().unwrap();
    let mut queue = GameplayCommandQueue::new(settings(1, logical_bytes, logical_bytes - 1, 1, 1, 2));

    assert_eq!(
        queue.submit(candidate),
        Err(GameplayCommandRejection::CommandByteLimit { requested: logical_bytes, maximum: logical_bytes - 1 })
    );
    let stats = queue.stats();
    assert_eq!(stats.pending_commands, 0);
    assert_eq!(stats.active_commands, 0);
    assert_eq!(stats.retained_commands, 0);
    assert_eq!(stats.retained_bytes, 0);
    assert_eq!(stats.rejected_invalid, 1);
}

#[test]
fn queue_settings_reject_every_hard_ceiling_and_cross_limit_invariant() {
    let defaults = GameplayCommandQueueSettings::default();
    let cases = [
        (
            GameplayCommandQueueSettings::new(
                ItemLimit::new(MAX_GAMEPLAY_COMMAND_RETAINED_COMMANDS + 1).unwrap(),
                defaults.retained_bytes(),
                defaults.command_bytes(),
                defaults.payload_items(),
                defaults.payload_bytes(),
                defaults.future_ticks(),
            ),
            GameplayCommandLimitKind::RetainedCommands,
            MAX_GAMEPLAY_COMMAND_RETAINED_COMMANDS,
        ),
        (
            GameplayCommandQueueSettings::new(
                defaults.retained_commands(),
                ByteLimit::new(MAX_GAMEPLAY_COMMAND_RETAINED_BYTES + 1).unwrap(),
                defaults.command_bytes(),
                defaults.payload_items(),
                defaults.payload_bytes(),
                defaults.future_ticks(),
            ),
            GameplayCommandLimitKind::RetainedBytes,
            MAX_GAMEPLAY_COMMAND_RETAINED_BYTES,
        ),
        (
            GameplayCommandQueueSettings::new(
                defaults.retained_commands(),
                defaults.retained_bytes(),
                ByteLimit::new(MAX_GAMEPLAY_COMMAND_BYTES + 1).unwrap(),
                defaults.payload_items(),
                defaults.payload_bytes(),
                defaults.future_ticks(),
            ),
            GameplayCommandLimitKind::CommandBytes,
            MAX_GAMEPLAY_COMMAND_BYTES,
        ),
        (
            GameplayCommandQueueSettings::new(
                defaults.retained_commands(),
                defaults.retained_bytes(),
                defaults.command_bytes(),
                ItemLimit::new(MAX_GAMEPLAY_COMMAND_PAYLOAD_ITEMS + 1).unwrap(),
                defaults.payload_bytes(),
                defaults.future_ticks(),
            ),
            GameplayCommandLimitKind::PayloadItems,
            MAX_GAMEPLAY_COMMAND_PAYLOAD_ITEMS,
        ),
        (
            GameplayCommandQueueSettings::new(
                defaults.retained_commands(),
                defaults.retained_bytes(),
                defaults.command_bytes(),
                defaults.payload_items(),
                ByteLimit::new(MAX_GAMEPLAY_COMMAND_PAYLOAD_BYTES + 1).unwrap(),
                defaults.future_ticks(),
            ),
            GameplayCommandLimitKind::PayloadBytes,
            MAX_GAMEPLAY_COMMAND_PAYLOAD_BYTES,
        ),
        (
            GameplayCommandQueueSettings::new(
                defaults.retained_commands(),
                defaults.retained_bytes(),
                defaults.command_bytes(),
                defaults.payload_items(),
                defaults.payload_bytes(),
                PositiveU64::new(MAX_GAMEPLAY_COMMAND_FUTURE_TICKS + 1).unwrap(),
            ),
            GameplayCommandLimitKind::FutureTicks,
            usize::try_from(MAX_GAMEPLAY_COMMAND_FUTURE_TICKS).unwrap(),
        ),
    ];

    for (result, kind, maximum) in cases {
        assert!(matches!(
            result,
            Err(GameplayCommandSettingsError::LimitTooLarge {
                kind: actual_kind,
                maximum: actual_maximum,
                ..
            }) if actual_kind == kind && actual_maximum == maximum
        ));
    }

    assert_eq!(
        GameplayCommandQueueSettings::new(
            ItemLimit::new(1).unwrap(),
            ByteLimit::new(10).unwrap(),
            ByteLimit::new(11).unwrap(),
            ItemLimit::new(1).unwrap(),
            ByteLimit::new(1).unwrap(),
            PositiveU64::new(1).unwrap(),
        ),
        Err(GameplayCommandSettingsError::CommandExceedsRetainedBytes)
    );
    assert_eq!(
        GameplayCommandQueueSettings::new(
            ItemLimit::new(1).unwrap(),
            ByteLimit::new(100).unwrap(),
            ByteLimit::new(10).unwrap(),
            ItemLimit::new(1).unwrap(),
            ByteLimit::new(11).unwrap(),
            PositiveU64::new(1).unwrap(),
        ),
        Err(GameplayCommandSettingsError::PayloadExceedsCommandBytes)
    );
}

#[test]
fn queue_byte_limit_accepts_exact_boundary_and_rejects_one_more() {
    let first = submission(1, GameplayCommandIngressSource::test("driver").unwrap(), 1, "first");
    let exact_bytes = first.logical_bytes().unwrap();
    let mut queue = GameplayCommandQueue::new(settings(2, exact_bytes, exact_bytes, 1, 1, 2));
    queue.submit(first).unwrap();
    let before = queue.stats();

    assert!(matches!(
        queue.submit(submission(2, GameplayCommandIngressSource::test("driver").unwrap(), 1, "x")),
        Err(GameplayCommandRejection::RetainedByteLimit { .. })
    ));
    let after = queue.stats();
    assert_eq!(after.retained_commands, before.retained_commands);
    assert_eq!(after.retained_bytes, before.retained_bytes);
}

#[test]
fn tick_and_local_sequence_overflow_are_typed_rejections() {
    let mut queue = GameplayCommandQueue::default();
    queue.set_watermarks_for_test(u64::MAX);
    assert_eq!(queue.submit_local_for_next_tick(command("overflow")), Err(GameplayCommandRejection::TickExhausted));

    let mut queue = GameplayCommandQueue::default();
    queue.set_local_sequence_for_test(u64::MAX);
    assert_eq!(
        queue.submit_local_for_next_tick(command("overflow")),
        Err(GameplayCommandRejection::SourceSequenceExhausted)
    );
}

#[test]
fn lifecycle_faults_fail_closed_and_hide_an_ambiguous_batch() {
    let mut queue = GameplayCommandQueue::default();
    queue.submit(submission(1, GameplayCommandIngressSource::test("driver").unwrap(), 1, "one")).unwrap();
    let mut batch = GameplayCommandBatch::new();
    let before = queue.stats();

    assert_eq!(
        queue.admit_fixed_tick(2, &mut batch),
        Err(GameplayCommandLifecycleError::UnexpectedTick { expected: 1, actual: 2 })
    );
    assert_eq!(queue.stats().retained_commands, before.retained_commands);
    assert_eq!(queue.stats().closed_through_tick, 0);
    assert_eq!(batch.active_tick(), None);
    assert_eq!(
        queue.submit(submission(1, GameplayCommandIngressSource::test("another").unwrap(), 1, "blocked")),
        Err(GameplayCommandRejection::LifecycleFaulted)
    );
    assert_eq!(queue.stats().rejected_lifecycle, 1);
    assert_eq!(queue.stats().rejected_invalid, 0);
    assert_eq!(queue.admit_fixed_tick(1, &mut batch), Err(GameplayCommandLifecycleError::Poisoned));
    assert_eq!(
        queue.last_lifecycle_error(),
        Some(&GameplayCommandLifecycleError::UnexpectedTick { expected: 1, actual: 2 })
    );

    let mut active_queue = GameplayCommandQueue::default();
    active_queue.submit(submission(1, GameplayCommandIngressSource::test("driver").unwrap(), 1, "one")).unwrap();
    let mut active_batch = GameplayCommandBatch::new();
    active_queue.admit_fixed_tick(1, &mut active_batch).unwrap();
    let active = active_queue.stats();
    assert_eq!(active_batch.len(), 1);
    assert_eq!(active_queue.admit_fixed_tick(2, &mut active_batch), Err(GameplayCommandLifecycleError::BatchAlreadyActive));
    assert_eq!(active_queue.stats().retained_commands, active.retained_commands);
    assert_eq!(active_queue.stats().active_commands, 0);
    assert_eq!(active_queue.stats().quarantined_commands, active.active_commands);
    assert_eq!(active_queue.quarantined_commands().len(), 1);
    assert_eq!(active_queue.quarantined_commands()[0].command_type().as_str(), "one");
    assert_eq!(active_batch.active_tick(), None);
    assert!(active_batch.commands().is_empty());
    assert_eq!(active_queue.acknowledge_fixed_tick(2, &mut active_batch), Err(GameplayCommandLifecycleError::Poisoned));
    assert_eq!(active_batch.active_tick(), None);
    assert!(active_batch.commands().is_empty());
    assert_eq!(active_queue.stats().acknowledged_through_tick, 0);
    assert_eq!(active_queue.last_lifecycle_error(), Some(&GameplayCommandLifecycleError::BatchAlreadyActive));
}

#[test]
fn zero_and_invalid_identity_values_are_rejected_before_retention() {
    assert_eq!(GameplayCommandTick::new(0), None);
    assert_eq!(GameplayCommandSourceSequence::new(0), None);
    assert!(GameplayCommandSource::external("").is_err());
    assert!(GameplayCommandTarget::named("bad\nname").is_err());
    assert!(GameplayCommandTypeId::new(&"x".repeat(MAX_GAMEPLAY_COMMAND_ID_BYTES + 1)).is_err());
}

#[test]
fn persistent_target_ids_keep_the_canonical_uuid_text() {
    let id = nara::gameplay::command::PersistentRuntimeId::parse_str("{A1B2C3D4-E5F6-47A8-90AB-1234567890CD}").unwrap();
    assert_eq!(id.as_str(), "a1b2c3d4-e5f6-47a8-90ab-1234567890cd");
    let simple = nara::gameplay::command::PersistentRuntimeId::parse_str("a1b2c3d4e5f647a890ab1234567890cd").unwrap();
    assert_eq!(simple, id);
    assert!(nara::gameplay::command::PersistentRuntimeId::parse_str("a1b2c3d4").is_err());
}

/// The fixed-update phases of one tick: admit, then consume and capture while the batch is the
/// current tick's, then acknowledge. Returns the admission and acknowledgement outcomes.
fn fixed_schedule(
    queue: &mut GameplayCommandQueue,
    batch: &mut GameplayCommandBatch,
    tick: u64,
    lifecycle: &mut Vec<(String, Option<u64>, usize)>,
) -> (Result<(), GameplayCommandLifecycleError>, Result<(), GameplayCommandLifecycleError>) {
    let admitted = queue.admit_fixed_tick(tick, batch);
    if nara::gameplay::schedule::gameplay_command_batch_is_current(tick, batch) {
        lifecycle.push(("consume".to_owned(), batch.active_tick().map(|t| t.get()), batch.len()));
        lifecycle.push(("capture".to_owned(), batch.active_tick().map(|t| t.get()), batch.len()));
    }
    let acknowledged = queue.acknowledge_fixed_tick(tick, batch);
    lifecycle.push(("after_ack".to_owned(), batch.active_tick().map(|t| t.get()), batch.len()));
    (admitted, acknowledged)
}

#[test]
fn fixed_schedule_hides_a_stale_active_batch_from_consumers() {
    let mut queue = GameplayCommandQueue::default();
    let mut stale_batch = GameplayCommandBatch::new();
    queue.submit(submission(1, GameplayCommandIngressSource::test("driver").unwrap(), 1, "stale")).unwrap();
    queue.admit_tick(tick(1), &mut stale_batch).unwrap();
    assert_eq!(stale_batch.len(), 1);

    let mut lifecycle = Vec::new();
    let (admitted, _) = fixed_schedule(&mut queue, &mut stale_batch, 1, &mut lifecycle);

    assert_eq!(admitted, Err(GameplayCommandLifecycleError::BatchAlreadyActive));
    assert!(lifecycle.iter().all(|(phase, _, _)| phase == "after_ack"));
    assert_eq!(stale_batch.active_tick(), None);
    let stats = queue.stats();
    assert_eq!(stats.active_commands, 0);
    assert_eq!(stats.quarantined_commands, 1);
    assert_eq!(stats.retained_commands, 1);
    assert_eq!(stats.lifecycle_faults, 2);
    assert_eq!(queue.quarantined_commands()[0].command_type().as_str(), "stale");
    assert_eq!(queue.last_lifecycle_error(), Some(&GameplayCommandLifecycleError::BatchAlreadyActive));
}

#[test]
fn capture_runs_before_engine_acknowledgement() {
    let mut queue = GameplayCommandQueue::default();
    let mut batch = GameplayCommandBatch::new();
    queue.submit(submission(1, GameplayCommandIngressSource::test("driver").unwrap(), 1, "once")).unwrap();

    let mut lifecycle = Vec::new();
    let (admitted, acknowledged) = fixed_schedule(&mut queue, &mut batch, 1, &mut lifecycle);
    admitted.unwrap();
    acknowledged.unwrap();

    assert_eq!(
        lifecycle,
        [("consume".to_owned(), Some(1), 1), ("capture".to_owned(), Some(1), 1), ("after_ack".to_owned(), None, 0)]
    );
}

#[test]
fn engine_owned_local_intent_loss_reaches_the_runtime_fault_reporter() {
    let mut frames = Frames::new();
    let action = ActionId::new("interact").unwrap();
    frames.actions.bind(ActionBinding::key(action.clone(), KeyCode::Enter));
    frames
        .commands
        .bind(ActionCommandBinding::new(action, ActionPhase::Started, GameplayCommandTypeId::new("interact.started").unwrap()))
        .unwrap();
    frames.queue.set_local_sequence_for_test(u64::MAX);
    frames.keyboard.press(KeyCode::Enter).unwrap();

    let outcomes = resolve_action_outcomes(&frames.actions, &frames.keyboard, &frames.mouse);
    let results = map_action_outcomes_to_commands(&frames.commands, &outcomes, &mut frames.queue);

    assert_eq!(results, vec![Err(GameplayCommandRejection::SourceSequenceExhausted)]);
    assert_eq!(frames.queue.stats().pending_commands, 0);
}
