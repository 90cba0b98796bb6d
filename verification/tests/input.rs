use nara::input::{
    resolve_action_outcomes, ActionBinding, ActionContext, ActionId, ActionIdError, ActionMap, ActionOutcome,
    ActionPhase, ButtonInput, ButtonInputError, ButtonTransitionPhase, InputBinding, KeyCode, MouseButton,
    MAX_BUTTON_TRANSITIONS_PER_FRAME,
};

#[test]
fn tracks_button_transitions() {
    let mut input: ButtonInput<KeyCode> = ButtonInput::default();

    input.press(KeyCode::Space).unwrap();
    assert!(input.pressed(KeyCode::Space));
    assert!(input.just_pressed(KeyCode::Space));

    input.clear_transitions();
    assert!(!input.just_pressed(KeyCode::Space));

    input.release(KeyCode::Space).unwrap();
    assert!(input.just_released(KeyCode::Space));
    assert!(!input.pressed(KeyCode::Space));
}

#[test]
fn release_all_emits_release_edges_and_clears_retained_buttons() {
    let mut input: ButtonInput<KeyCode> = ButtonInput::default();
    input.press(KeyCode::Space).unwrap();
    input.press(KeyCode::Enter).unwrap();
    input.clear_transitions();

    let released = input.release_all().unwrap();

    assert_eq!(released, [KeyCode::Space, KeyCode::Enter]);
    assert!(!input.pressed(KeyCode::Space));
    assert!(!input.pressed(KeyCode::Enter));
    assert!(input.just_released(KeyCode::Space));
    assert!(input.just_released(KeyCode::Enter));
}

#[test]
fn same_frame_press_and_release_preserve_both_ordered_edges() {
    let mut input: ButtonInput<KeyCode> = ButtonInput::default();

    input.press(KeyCode::Space).unwrap();
    input.release(KeyCode::Space).unwrap();

    assert!(!input.pressed(KeyCode::Space));
    assert!(input.just_pressed(KeyCode::Space));
    assert!(input.just_released(KeyCode::Space));
    assert_eq!(
        input
            .transitions()
            .iter()
            .copied()
            .map(|transition| (transition.sequence(), transition.phase()))
            .collect::<Vec<_>>(),
        vec![(1, ButtonTransitionPhase::Pressed), (2, ButtonTransitionPhase::Released)]
    );
}

#[test]
fn transition_limit_rejects_the_first_extra_edge_atomically() {
    let mut input: ButtonInput<KeyCode> = ButtonInput::default();
    for _ in 0..(MAX_BUTTON_TRANSITIONS_PER_FRAME / 2) {
        input.press(KeyCode::Space).unwrap();
        input.release(KeyCode::Space).unwrap();
    }
    let before = input.transitions().to_vec();

    assert_eq!(
        input.press(KeyCode::Enter),
        Err(ButtonInputError::TransitionLimitExceeded { limit: MAX_BUTTON_TRANSITIONS_PER_FRAME })
    );
    assert!(!input.pressed(KeyCode::Enter));
    assert_eq!(input.transitions(), before);
}

#[test]
fn release_all_is_atomic_when_the_remaining_transition_budget_is_too_small() {
    let mut input: ButtonInput<KeyCode> = ButtonInput::default();
    input.press(KeyCode::Space).unwrap();
    input.press(KeyCode::Enter).unwrap();
    for _ in 0..126 {
        input.press(KeyCode::ArrowUp).unwrap();
        input.release(KeyCode::ArrowUp).unwrap();
    }
    input.press(KeyCode::ArrowLeft).unwrap();
    assert_eq!(input.transitions().len(), MAX_BUTTON_TRANSITIONS_PER_FRAME - 1);
    let before = input.transitions().to_vec();

    assert_eq!(
        input.release_all(),
        Err(ButtonInputError::TransitionLimitExceeded { limit: MAX_BUTTON_TRANSITIONS_PER_FRAME })
    );
    assert!(input.pressed(KeyCode::Space));
    assert!(input.pressed(KeyCode::Enter));
    assert!(input.pressed(KeyCode::ArrowLeft));
    assert_eq!(input.transitions(), before);
}

#[test]
fn transition_sequence_exhaustion_rejects_state_change_atomically() {
    let mut input: ButtonInput<KeyCode> = ButtonInput::with_transition_sequence(u64::MAX);

    assert_eq!(input.press(KeyCode::Space), Err(ButtonInputError::TransitionSequenceExhausted));
    assert!(!input.pressed(KeyCode::Space));
    assert!(input.transitions().is_empty());
}

#[test]
fn release_all_is_atomic_when_transition_sequence_is_exhausted() {
    let mut input: ButtonInput<KeyCode> = ButtonInput::with_transition_sequence(u64::MAX - 3);
    input.press(KeyCode::Space).unwrap();
    input.press(KeyCode::Enter).unwrap();
    input.clear_transitions();
    assert_eq!(input.transition_sequence(), u64::MAX - 1);
    let before_pressed = input.pressed_buttons();
    let before_transitions = input.transitions().to_vec();
    let before_sequence = input.transition_sequence();

    assert_eq!(input.release_all(), Err(ButtonInputError::TransitionSequenceExhausted));
    assert_eq!(input.pressed_buttons(), before_pressed);
    assert_eq!(input.transitions(), before_transitions);
    assert_eq!(input.transition_sequence(), before_sequence);
}

#[test]
fn action_ids_reject_empty_and_control_characters() {
    assert_eq!(ActionId::new(""), Err(ActionIdError::Empty));
    assert_eq!(ActionId::new("bad\nid"), Err(ActionIdError::ContainsControl));
}

/// The input state of an application between frames; each frame resolves the recorded edges
/// into the outcomes it observes, then clears the edges.
struct InputFrames {
    actions: ActionMap,
    keyboard: ButtonInput<KeyCode>,
    mouse: ButtonInput<MouseButton>,
}

impl InputFrames {
    fn new() -> Self {
        InputFrames { actions: ActionMap::default(), keyboard: ButtonInput::default(), mouse: ButtonInput::default() }
    }

    fn frame(&mut self) -> Vec<ActionOutcome> {
        let outcomes = resolve_action_outcomes(&self.actions, &self.keyboard, &self.mouse);
        self.keyboard.clear_transitions();
        self.mouse.clear_transitions();
        outcomes.as_slice().to_vec()
    }
}

#[test]
fn key_press_binding_produces_frame_transient_action_outcome() {
    let mut app = InputFrames::new();
    app.actions.bind_key(ActionId::new("jump").unwrap(), KeyCode::Space);
    app.keyboard.press(KeyCode::Space).unwrap();

    let observed = app.frame();
    assert_eq!(observed.len(), 1);
    assert_eq!(observed[0].action.as_str(), "jump");
    assert_eq!(observed[0].binding, InputBinding::Key(KeyCode::Space));
    assert_eq!(observed[0].phase, ActionPhase::Started);
    assert!(observed[0].value.digital);
    assert!(app.frame().is_empty());
}

#[test]
fn key_release_binding_produces_release_outcome() {
    let mut app = InputFrames::new();
    app.actions.bind_key(ActionId::new("jump").unwrap(), KeyCode::Space);
    app.keyboard.press(KeyCode::Space).unwrap();
    app.frame();
    app.keyboard.release(KeyCode::Space).unwrap();

    let observed = app.frame();
    assert_eq!(observed.len(), 1);
    assert_eq!(observed[0].phase, ActionPhase::Released);
    assert!(!observed[0].value.digital);
}

#[test]
fn mouse_press_binding_produces_frame_transient_action_outcome() {
    let mut app = InputFrames::new();
    app.actions.bind_mouse(ActionId::new("select").unwrap(), MouseButton::Left);
    app.mouse.press(MouseButton::Left).unwrap();

    let observed = app.frame();
    assert_eq!(observed.len(), 1);
    assert_eq!(observed[0].action.as_str(), "select");
    assert_eq!(observed[0].binding, InputBinding::Mouse(MouseButton::Left));
    assert_eq!(observed[0].phase, ActionPhase::Started);
    assert!(observed[0].value.digital);
    assert!(app.frame().is_empty());
}

#[test]
fn mouse_release_binding_produces_release_outcome() {
    let mut app = InputFrames::new();
    app.actions.bind_mouse(ActionId::new("select").unwrap(), MouseButton::Left);
    app.mouse.press(MouseButton::Left).unwrap();
    app.frame();
    app.mouse.release(MouseButton::Left).unwrap();

    let observed = app.frame();
    assert_eq!(observed.len(), 1);
    assert_eq!(observed[0].binding, InputBinding::Mouse(MouseButton::Left));
    assert_eq!(observed[0].phase, ActionPhase::Released);
    assert!(!observed[0].value.digital);
}

#[test]
fn disabled_action_contexts_do_not_emit_outcomes() {
    let mut app = InputFrames::new();
    let menu = ActionContext::new("menu").unwrap();
    app.actions.bind(ActionBinding::key(ActionId::new("confirm").unwrap(), KeyCode::Enter).with_context(menu.clone()));
    app.actions.disable_context(menu);
    app.keyboard.press(KeyCode::Enter).unwrap();

    assert!(app.frame().is_empty());
}

#[test]
fn multiple_input_edges_emit_in_transition_order() {
    let mut app = InputFrames::new();
    let action = ActionId::new("move-up").unwrap();
    app.actions.bind_key(action.clone(), KeyCode::Character('w'));
    app.actions.bind_key(action, KeyCode::ArrowUp);
    app.keyboard.press(KeyCode::ArrowUp).unwrap();
    app.keyboard.press(KeyCode::Character('w')).unwrap();

    let observed = app.frame();
    assert_eq!(
        observed.iter().map(|outcome| outcome.binding).collect::<Vec<_>>(),
        vec![InputBinding::Key(KeyCode::ArrowUp), InputBinding::Key(KeyCode::Character('w'))]
    );
}

#[test]
fn bindings_for_one_input_edge_emit_in_registration_order() {
    let mut app = InputFrames::new();
    app.actions.bind_key(ActionId::new("first").unwrap(), KeyCode::Space);
    app.actions.bind_key(ActionId::new("second").unwrap(), KeyCode::Space);
    app.keyboard.press(KeyCode::Space).unwrap();

    assert_eq!(
        app.frame().iter().map(|outcome| outcome.action.as_str().to_owned()).collect::<Vec<_>>(),
        ["first", "second"]
    );
}

#[test]
fn same_frame_quick_click_emits_started_then_released() {
    let mut app = InputFrames::new();
    app.actions.bind_key(ActionId::new("confirm").unwrap(), KeyCode::Enter);
    app.keyboard.press(KeyCode::Enter).unwrap();
    app.keyboard.release(KeyCode::Enter).unwrap();

    let observed = app.frame();
    assert_eq!(observed.iter().map(|outcome| outcome.phase).collect::<Vec<_>>(), [ActionPhase::Started, ActionPhase::Released]);
    assert!(!app.keyboard.pressed(KeyCode::Enter));
}

#[test]
fn edge_sequences_count_every_recorded_edge_across_frames() {
    let mut input: ButtonInput<KeyCode> = ButtonInput::default();
    input.press(KeyCode::Space).unwrap();
    input.press(KeyCode::Enter).unwrap();
    let first: Vec<u64> = input.transitions().iter().map(|t| t.sequence()).collect();
    assert_eq!(first, vec![1, 2]);
    input.clear_transitions();
    input.release(KeyCode::Space).unwrap();
    input.release_all().unwrap();
    let second: Vec<u64> = input.transitions().iter().map(|t| t.sequence()).collect();
    assert_eq!(second, vec![3, 4]);
}
