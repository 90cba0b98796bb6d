//! Input state primitives and semantic action outcomes.

use vstd::prelude::*;

use crate::text::{contains_control, has_control_char};

verus! {

/// Maximum retained button edges for one input domain before frame cleanup.
pub const MAX_BUTTON_TRANSITIONS_PER_FRAME: usize = 256;

/// The phase in which input edges are resolved into action outcomes.
#[derive(Debug, Clone, Copy, PartialEq, Eq, Structural, PartialOrd, Ord, Hash)]
pub enum InputSet {
    ResolveActions,
}

/// Installs button input, the action map and action resolution.
#[derive(Debug, Default, Clone, Copy, PartialEq, Eq, Structural)]
pub struct InputPlugin;

#[derive(Debug, Clone, Copy, PartialEq, Eq, Structural, PartialOrd, Ord, Hash)]
pub enum KeyCode {
    Escape,
    Space,
    Enter,
    ArrowUp,
    ArrowDown,
    ArrowLeft,
    ArrowRight,
    Character(char),
}

#[derive(Debug, Clone, Copy, PartialEq, Eq, Structural, PartialOrd, Ord, Hash)]
pub enum MouseButton {
    Left,
    Right,
    Middle,
    Other(u16),
}

/// A physical button identity with a total order given by an injective numeric code.
///
/// The code order is the declaration order of the button type (variants first, then payload).
pub trait ButtonCode: Copy + Sized {
    spec fn code(self) -> u64;

    fn order_code(&self) -> (r: u64)
        ensures
            r == self.code(),
    ;

    proof fn lemma_code_injective(a: Self, b: Self)
        ensures
            a.code() == b.code() ==> a == b,
    ;
}

impl ButtonCode for KeyCode {
    open spec fn code(self) -> u64 {
        match self {
            KeyCode::Escape => 0,
            KeyCode::Space => 1,
            KeyCode::Enter => 2,
            KeyCode::ArrowUp => 3,
            KeyCode::ArrowDown => 4,
            KeyCode::ArrowLeft => 5,
            KeyCode::ArrowRight => 6,
            KeyCode::Character(c) => (7 + (c as u32)) as u64,
        }
    }

    fn order_code(&self) -> (r: u64) {
        match self {
            KeyCode::Escape => 0,
            KeyCode::Space => 1,
            KeyCode::Enter => 2,
            KeyCode::ArrowUp => 3,
            KeyCode::ArrowDown => 4,
            KeyCode::ArrowLeft => 5,
            KeyCode::ArrowRight => 6,
            KeyCode::Character(c) => 7 + (*c as u32) as u64,
        }
    }

    proof fn lemma_code_injective(a: Self, b: Self) {
        if let (KeyCode::Character(x), KeyCode::Character(y)) = (a, b) {
            if a.code() == b.code() {
                assert((x as u32) == (y as u32));
                assert(x == y);
            }
        }
    }
}

impl ButtonCode for MouseButton {
    open spec fn code(self) -> u64 {
        match self {
            MouseButton::Left => 0,
            MouseButton::Right => 1,
            MouseButton::Middle => 2,
            MouseButton::Other(n) => (3 + n) as u64,
        }
    }

    fn order_code(&self) -> (r: u64) {
        match self {
            MouseButton::Left => 0,
            MouseButton::Right => 1,
            MouseButton::Middle => 2,
            MouseButton::Other(n) => 3 + *n as u64,
        }
    }

    proof fn lemma_code_injective(a: Self, b: Self) {
    }
}

/// Physical edge recorded for a retained button state.
#[derive(Debug, Clone, Copy, PartialEq, Eq)]
pub enum ButtonTransitionPhase {
    Pressed,
    Released,
}

/// One ordered physical button edge.
#[derive(Debug, Clone, Copy, PartialEq, Eq)]
pub struct ButtonTransition<T> {
    pub sequence: u64,
    pub button: T,
    pub phase: ButtonTransitionPhase,
}

impl<T: Copy> ButtonTransition<T> {
    pub fn sequence(self) -> (r: u64)
        ensures
            r == self.sequence,
    {
        self.sequence
    }

    pub fn button(self) -> (r: T)
        ensures
            r == self.button,
    {
        self.button
    }

    pub fn phase(self) -> (r: ButtonTransitionPhase)
        ensures
            r == self.phase,
    {
        self.phase
    }
}

/// Rejection from bounded button-state mutation.
#[derive(Debug, Clone, Copy, PartialEq, Eq)]
pub enum ButtonInputError {
    TransitionLimitExceeded { limit: usize },
    TransitionSequenceExhausted,
}

/// Retained button state plus its bounded, ordered edges since frame cleanup.
///
/// Pressed buttons are kept strictly ordered by their button code.
#[derive(Debug, Clone)]
pub struct ButtonInput<T> {
    pressed: Vec<T>,
    transitions: Vec<ButtonTransition<T>>,
    transition_sequence: u64,
}

/// `s` is strictly increasing by button code.
pub open spec fn strictly_sorted_by_code<T: ButtonCode>(s: Seq<T>) -> bool {
    forall|i: int, j: int| 0 <= i < j < s.len() ==> s[i].code() < s[j].code()
}

/// The transitions that `release_all` appends for `released`, numbered after `sequence`.
pub open spec fn release_edges<T>(released: Seq<T>, sequence: u64) -> Seq<ButtonTransition<T>> {
    Seq::new(
        released.len(),
        |i: int|
            ButtonTransition {
                sequence: (sequence + i + 1) as u64,
                button: released[i],
                phase: ButtonTransitionPhase::Released,
            },
    )
}

impl<T: ButtonCode> ButtonInput<T> {
    /// The retained pressed buttons, in code order.
    pub closed spec fn pressed_seq(&self) -> Seq<T> {
        self.pressed@
    }

    /// The edges recorded since the last frame cleanup.
    pub closed spec fn transition_seq(&self) -> Seq<ButtonTransition<T>> {
        self.transitions@
    }

    /// The sequence number of the last recorded edge (0 before any edge).
    pub closed spec fn last_sequence(&self) -> u64 {
        self.transition_sequence
    }

    pub open spec fn is_pressed(&self, button: T) -> bool {
        self.pressed_seq().contains(button)
    }

    pub closed spec fn wf(&self) -> bool {
        &&& strictly_sorted_by_code(self.pressed@)
        &&& self.transitions@.len() <= MAX_BUTTON_TRANSITIONS_PER_FRAME
        &&& self.transitions@.len() <= self.transition_sequence
        &&& forall|k: int| 0 <= k < self.transitions@.len() ==>
            (#[trigger] self.transitions@[k]).sequence == self.transition_sequence - (self.transitions@.len() - 1 - k)
    }

    /// Empty state: nothing pressed, no edges, sequence 0.
    pub fn new() -> (r: Self)
        ensures
            r.wf(),
            r.pressed_seq() == Seq::<T>::empty(),
            r.transition_seq() == Seq::<ButtonTransition<T>>::empty(),
            r.last_sequence() == 0,
    {
        ButtonInput { pressed: Vec::new(), transitions: Vec::new(), transition_sequence: 0 }
    }

    /// Empty state that resumes numbering edges after `sequence`.
    pub fn with_transition_sequence(sequence: u64) -> (r: Self)
        ensures
            r.wf(),
            r.pressed_seq() == Seq::<T>::empty(),
            r.transition_seq() == Seq::<ButtonTransition<T>>::empty(),
            r.last_sequence() == sequence,
    {
        ButtonInput { pressed: Vec::new(), transitions: Vec::new(), transition_sequence: sequence }
    }

    /// Held buttons are listed once each, in button order, and a frame records at most
    /// `MAX_BUTTON_TRANSITIONS_PER_FRAME` edges.
    pub proof fn lemma_wf_pressed_sorted(&self)
        requires
            self.wf(),
        ensures
            strictly_sorted_by_code(self.pressed_seq()),
            self.transition_seq().len() <= MAX_BUTTON_TRANSITIONS_PER_FRAME,
    {
    }

    /// A frame's edges are at most `MAX_BUTTON_TRANSITIONS_PER_FRAME`, numbered from 1 upward by
    /// one, the last carrying `last_sequence`. As a fresh input starts at sequence 0, each
    /// recorded edge raises `last_sequence` by one and clearing the frame's edges keeps it, the
    /// k-th edge ever recorded carries sequence k: numbers are never reused across frames.
    pub proof fn lemma_edge_sequences(&self)
        requires
            self.wf(),
        ensures
            self.transition_seq().len() <= MAX_BUTTON_TRANSITIONS_PER_FRAME,
            self.transition_seq().len() <= self.last_sequence(),
            forall|k: int| 0 <= k < self.transition_seq().len() ==>
                (#[trigger] self.transition_seq()[k]).sequence == self.last_sequence() - (self.transition_seq().len() - 1 - k),
            forall|k: int| 0 <= k < self.transition_seq().len() ==> (#[trigger] self.transition_seq()[k]).sequence >= 1,
            forall|k: int| 0 < k < self.transition_seq().len() ==>
                (#[trigger] self.transition_seq()[k]).sequence == self.transition_seq()[k - 1].sequence + 1,
    {
        assert forall|k: int| 0 < k < self.transition_seq().len() implies
            (#[trigger] self.transition_seq()[k]).sequence == self.transition_seq()[k - 1].sequence + 1 by {
            assert(self.transitions@[k - 1].sequence == self.transition_sequence - (self.transitions@.len() - 1 - (k - 1)));
        }
    }

    /// Position of `button` in the pressed list, if pressed; otherwise the insertion point.
    fn locate(&self, button: T) -> (r: (bool, usize))
        requires
            self.wf(),
        ensures
            r.1 <= self.pressed@.len(),
            r.0 <==> self.pressed@.contains(button),
            r.0 ==> r.1 < self.pressed@.len() && self.pressed@[r.1 as int] == button,
            !r.0 ==> (forall|i: int| 0 <= i < r.1 ==> #[trigger] self.pressed@[i].code() < button.code()),
            !r.0 ==> (forall|i: int| r.1 <= i < self.pressed@.len() ==> button.code() < #[trigger] self.pressed@[i].code()),
    {
        let code = button.order_code();
        let mut i: usize = 0;
        while i < self.pressed.len()
            invariant
                self.wf(),
                code == button.code(),
                i <= self.pressed@.len(),
                forall|k: int| 0 <= k < i ==> #[trigger] self.pressed@[k].code() < button.code(),
            decreases self.pressed@.len() - i,
        {
            let c = self.pressed[i].order_code();
            if c == code {
                proof {
                    T::lemma_code_injective(self.pressed@[i as int], button);
                }
                return (true, i);
            }
            if code < c {
                proof {
                    assert forall|k: int| 0 <= k < self.pressed@.len() implies self.pressed@[k] != button by {
                        if k >= i {
                            if k > i {
                                assert(self.pressed@[i as int].code() < self.pressed@[k].code());
                            }
                        }
                    }
                }
                return (false, i);
            }
            i = i + 1;
        }
        proof {
            assert forall|k: int| 0 <= k < self.pressed@.len() implies self.pressed@[k] != button by {
                assert(self.pressed@[k].code() < button.code());
            }
        }
        (false, i)
    }

    fn preflight_transition_count(&self, count: usize) -> (r: Result<(), ButtonInputError>)
        requires
            self.wf(),
        ensures
            r == transition_budget(self.transitions@.len(), self.transition_sequence, count),
    {
        if self.transitions.len() > MAX_BUTTON_TRANSITIONS_PER_FRAME - count.min(MAX_BUTTON_TRANSITIONS_PER_FRAME) || count > MAX_BUTTON_TRANSITIONS_PER_FRAME {
            return Err(ButtonInputError::TransitionLimitExceeded { limit: MAX_BUTTON_TRANSITIONS_PER_FRAME });
        }
        if self.transition_sequence > u64::MAX - count as u64 {
            return Err(ButtonInputError::TransitionSequenceExhausted);
        }
        Ok(())
    }

    /// Records a press edge unless the button is already held.
    pub fn press(&mut self, button: T) -> (r: Result<bool, ButtonInputError>)
        requires
            old(self).wf(),
        ensures
            final(self).wf(),
            old(self).is_pressed(button) ==> r == Ok::<bool, ButtonInputError>(false) && *final(self) == *old(self),
            !old(self).is_pressed(button) ==> match transition_budget(old(self).transition_seq().len(), old(self).last_sequence(), 1) {
                Err(e) => r == Err::<bool, ButtonInputError>(e) && *final(self) == *old(self),
                Ok(()) => {
                    &&& r == Ok::<bool, ButtonInputError>(true)
                    &&& final(self).pressed_seq().to_set() == old(self).pressed_seq().to_set().insert(button)
                    &&& final(self).pressed_seq().len() == old(self).pressed_seq().len() + 1
                    &&& final(self).last_sequence() == old(self).last_sequence() + 1
                    &&& final(self).transition_seq() == old(self).transition_seq().push(ButtonTransition {
                        sequence: (old(self).last_sequence() + 1) as u64,
                        button,
                        phase: ButtonTransitionPhase::Pressed,
                    })
                },
            },
    {
        let (found, at) = self.locate(button);
        if found {
            return Ok(false);
        }
        match self.preflight_transition_count(1) {
            Err(e) => return Err(e),
            Ok(()) => {},
        }
        self.push_transition_preflighted(button, ButtonTransitionPhase::Pressed);
        let ghost before = self.pressed@;
        self.pressed.insert(at, button);
        proof {
            assert(self.pressed@ =~= before.take(at as int).push(button) + before.skip(at as int));
            assert forall|i: int, j: int| 0 <= i < j < self.pressed@.len() implies self.pressed@[i].code() < self.pressed@[j].code() by {
                if j < at {
                } else if j == at {
                } else if i < at {
                    assert(self.pressed@[j] == before[j - 1]);
                } else if i == at {
                    assert(self.pressed@[j] == before[j - 1]);
                } else {
                    assert(self.pressed@[j] == before[j - 1]);
                    assert(self.pressed@[i] == before[i - 1]);
                }
            }
            assert(self.pressed@.to_set() =~= before.to_set().insert(button)) by {
                assert forall|x: T| self.pressed@.to_set().contains(x) <==> before.to_set().insert(button).contains(x) by {
                    if self.pressed@.contains(x) {
                        let k = choose|k: int| 0 <= k < self.pressed@.len() && self.pressed@[k] == x;
                        if k < at { assert(before[k] == x); } else if k > at { assert(before[k - 1] == x); }
                    }
                    if before.contains(x) {
                        let k = choose|k: int| 0 <= k < before.len() && before[k] == x;
                        if k < at { assert(self.pressed@[k] == x); } else { assert(self.pressed@[k + 1] == x); }
                    }
                    if x == button {
                        assert(self.pressed@[at as int] == button);
                    }
                }
            }
        }
        Ok(true)
    }

    /// Records a release edge unless the button is not held.
    pub fn release(&mut self, button: T) -> (r: Result<bool, ButtonInputError>)
        requires
            old(self).wf(),
        ensures
            final(self).wf(),
            !old(self).is_pressed(button) ==> r == Ok::<bool, ButtonInputError>(false) && *final(self) == *old(self),
            old(self).is_pressed(button) ==> match transition_budget(old(self).transition_seq().len(), old(self).last_sequence(), 1) {
                Err(e) => r == Err::<bool, ButtonInputError>(e) && *final(self) == *old(self),
                Ok(()) => {
                    &&& r == Ok::<bool, ButtonInputError>(true)
                    &&& final(self).pressed_seq().to_set() == old(self).pressed_seq().to_set().remove(button)
                    &&& final(self).pressed_seq().len() + 1 == old(self).pressed_seq().len()
                    &&& final(self).last_sequence() == old(self).last_sequence() + 1
                    &&& final(self).transition_seq() == old(self).transition_seq().push(ButtonTransition {
                        sequence: (old(self).last_sequence() + 1) as u64,
                        button,
                        phase: ButtonTransitionPhase::Released,
                    })
                },
            },
    {
        let (found, at) = self.locate(button);
        if !found {
            return Ok(false);
        }
        match self.preflight_transition_count(1) {
            Err(e) => return Err(e),
            Ok(()) => {},
        }
        self.push_transition_preflighted(button, ButtonTransitionPhase::Released);
        let ghost before = self.pressed@;
        self.pressed.remove(at);
        proof {
            assert(self.pressed@ =~= before.take(at as int) + before.skip(at as int + 1));
            assert forall|i: int, j: int| 0 <= i < j < self.pressed@.len() implies self.pressed@[i].code() < self.pressed@[j].code() by {
                if i >= at {
                    assert(self.pressed@[i] == before[i + 1]);
                }
                if j >= at {
                    assert(self.pressed@[j] == before[j + 1]);
                }
            }
            assert(self.pressed@.to_set() =~= before.to_set().remove(button)) by {
                assert forall|x: T| self.pressed@.to_set().contains(x) <==> before.to_set().remove(button).contains(x) by {
                    if self.pressed@.contains(x) {
                        let k = choose|k: int| 0 <= k < self.pressed@.len() && self.pressed@[k] == x;
                        if k < at {
                            assert(before[k] == x);
                            assert(before[k].code() < before[at as int].code());
                        } else {
                            assert(before[k + 1] == x);
                            assert(before[at as int].code() < before[k + 1].code());
                        }
                    }
                    if before.contains(x) && x != button {
                        let k = choose|k: int| 0 <= k < before.len() && before[k] == x;
                        if k < at { assert(self.pressed@[k] == x); } else { assert(k != at); assert(self.pressed@[k - 1] == x); }
                    }
                }
            }
        }
        Ok(true)
    }

    /// Releases every held button, in code order, as one all-or-nothing batch of edges.
    pub fn release_all(&mut self) -> (r: Result<Vec<T>, ButtonInputError>)
        requires
            old(self).wf(),
        ensures
            final(self).wf(),
            match transition_budget(old(self).transition_seq().len(), old(self).last_sequence(), old(self).pressed_seq().len() as usize) {
                Err(e) => r == Err::<Vec<T>, ButtonInputError>(e) && *final(self) == *old(self),
                Ok(()) => r is Ok && {
                    let released = r->Ok_0@;
                    &&& released == old(self).pressed_seq()
                    &&& final(self).pressed_seq() == Seq::<T>::empty()
                    &&& final(self).last_sequence() == old(self).last_sequence() + released.len()
                    &&& final(self).transition_seq() == old(self).transition_seq() + release_edges(released, old(self).last_sequence())
                },
            },
    {
        let count = self.pressed.len();
        match self.preflight_transition_count(count) {
            Err(e) => return Err(e),
            Ok(()) => {},
        }
        let released = copy_buttons(&self.pressed);
        let ghost start = self.transition_sequence;
        let ghost before = self.transitions@;
        let mut i: usize = 0;
        while i < released.len()
            invariant
                i <= released@.len(),
                released@ == old(self).pressed@,
                released@.len() == count,
                start == old(self).transition_sequence,
                before == old(self).transitions@,
                count <= MAX_BUTTON_TRANSITIONS_PER_FRAME,
                before.len() + count <= MAX_BUTTON_TRANSITIONS_PER_FRAME,
                start + count <= u64::MAX,
                self.transition_sequence == start + i,
                self.transitions@ == before + release_edges(released@.take(i as int), start),
            decreases released@.len() - i,
        {
            let b = released[i];
            self.transition_sequence = self.transition_sequence + 1;
            self.transitions.push(ButtonTransition { sequence: self.transition_sequence, button: b, phase: ButtonTransitionPhase::Released });
            proof {
                assert(release_edges(released@.take(i + 1), start) =~= release_edges(released@.take(i as int), start).push(ButtonTransition { sequence: (start + i + 1) as u64, button: b, phase: ButtonTransitionPhase::Released }));
            }
            i = i + 1;
        }
        proof {
            assert(released@.take(i as int) =~= released@);
        }
        self.pressed = Vec::new();
        Ok(released)
    }

    /// Whether `button` is currently held.
    pub fn pressed(&self, button: T) -> (r: bool)
        requires
            self.wf(),
        ensures
            r == self.is_pressed(button),
    {
        let (found, _) = self.locate(button);
        found
    }

    /// Whether a press edge for `button` was recorded since the last cleanup.
    pub fn just_pressed(&self, button: T) -> (r: bool)
        ensures
            r == exists|i: int| 0 <= i < self.transition_seq().len() && #[trigger] self.transition_seq()[i] == (ButtonTransition { sequence: self.transition_seq()[i].sequence, button, phase: ButtonTransitionPhase::Pressed }),
    {
        self.has_edge(button, ButtonTransitionPhase::Pressed)
    }

    /// Whether a release edge for `button` was recorded since the last cleanup.
    pub fn just_released(&self, button: T) -> (r: bool)
        ensures
            r == exists|i: int| 0 <= i < self.transition_seq().len() && #[trigger] self.transition_seq()[i] == (ButtonTransition { sequence: self.transition_seq()[i].sequence, button, phase: ButtonTransitionPhase::Released }),
    {
        self.has_edge(button, ButtonTransitionPhase::Released)
    }

    fn has_edge(&self, button: T, phase: ButtonTransitionPhase) -> (r: bool)
        ensures
            r == exists|i: int| 0 <= i < self.transition_seq().len() && #[trigger] self.transition_seq()[i] == (ButtonTransition { sequence: self.transition_seq()[i].sequence, button, phase }),
    {
        let code = button.order_code();
        let mut i: usize = 0;
        while i < self.transitions.len()
            invariant
                code == button.code(),
                i <= self.transitions@.len(),
                forall|k: int| 0 <= k < i ==> #[trigger] self.transitions@[k] != (ButtonTransition { sequence: self.transitions@[k].sequence, button, phase }),
            decreases self.transitions@.len() - i,
        {
            let t = self.transitions[i];
            let same_phase = match (t.phase, phase) {
                (ButtonTransitionPhase::Pressed, ButtonTransitionPhase::Pressed) => true,
                (ButtonTransitionPhase::Released, ButtonTransitionPhase::Released) => true,
                _ => false,
            };
            if same_phase && t.button.order_code() == code {
                proof {
                    T::lemma_code_injective(t.button, button);
                    assert(self.transitions@[i as int] == t);
                }
                return true;
            }
            proof {
                if t == (ButtonTransition { sequence: t.sequence, button, phase }) {
                    assert(t.button == button);
                }
            }
            i = i + 1;
        }
        false
    }

    /// Drops the recorded edges; held buttons and the sequence counter are kept.
    pub fn clear_transitions(&mut self)
        requires
            old(self).wf(),
        ensures
            final(self).wf(),
            final(self).pressed_seq() == old(self).pressed_seq(),
            final(self).last_sequence() == old(self).last_sequence(),
            final(self).transition_seq() == Seq::<ButtonTransition<T>>::empty(),
    {
        self.transitions.clear();
    }

    pub fn has_transitions(&self) -> (r: bool)
        ensures
            r == (self.transition_seq().len() > 0),
    {
        self.transitions.len() > 0
    }

    /// Buttons of the recorded press edges, in edge order.
    pub fn just_pressed_buttons(&self) -> (r: Vec<T>)
        ensures
            r@ == phase_buttons(self.transition_seq(), ButtonTransitionPhase::Pressed),
    {
        self.edge_buttons(ButtonTransitionPhase::Pressed)
    }

    /// Buttons of the recorded release edges, in edge order.
    pub fn just_released_buttons(&self) -> (r: Vec<T>)
        ensures
            r@ == phase_buttons(self.transition_seq(), ButtonTransitionPhase::Released),
    {
        self.edge_buttons(ButtonTransitionPhase::Released)
    }

    fn edge_buttons(&self, phase: ButtonTransitionPhase) -> (r: Vec<T>)
        ensures
            r@ == phase_buttons(self.transition_seq(), phase),
    {
        let mut out: Vec<T> = Vec::new();
        let mut i: usize = 0;
        while i < self.transitions.len()
            invariant
                i <= self.transitions@.len(),
                out@ == phase_buttons(self.transitions@.take(i as int), phase),
            decreases self.transitions@.len() - i,
        {
            let t = self.transitions[i];
            proof {
                assert(self.transitions@.take(i + 1).drop_last() =~= self.transitions@.take(i as int));
            }
            let keep = match (t.phase, phase) {
                (ButtonTransitionPhase::Pressed, ButtonTransitionPhase::Pressed) => true,
                (ButtonTransitionPhase::Released, ButtonTransitionPhase::Released) => true,
                _ => false,
            };
            if keep {
                out.push(t.button);
            }
            i = i + 1;
        }
        proof {
            assert(self.transitions@.take(i as int) =~= self.transitions@);
        }
        out
    }

    /// The held buttons, in code order.
    pub fn pressed_buttons(&self) -> (r: Vec<T>)
        ensures
            r@ == self.pressed_seq(),
    {
        copy_buttons(&self.pressed)
    }

    /// The edges recorded since the last cleanup, in order.
    pub fn transitions(&self) -> (r: &[ButtonTransition<T>])
        ensures
            r@ == self.transition_seq(),
    {
        self.transitions.as_slice()
    }

    /// The sequence number of the last recorded edge.
    pub fn transition_sequence(&self) -> (r: u64)
        ensures
            r == self.last_sequence(),
    {
        self.transition_sequence
    }

    fn push_transition_preflighted(&mut self, button: T, phase: ButtonTransitionPhase)
        requires
            old(self).transitions@.len() + 1 <= MAX_BUTTON_TRANSITIONS_PER_FRAME,
            old(self).transition_sequence < u64::MAX,
        ensures
            final(self).pressed == old(self).pressed,
            final(self).transition_sequence == old(self).transition_sequence + 1,
            final(self).transitions@ == old(self).transitions@.push(ButtonTransition { sequence: final(self).transition_sequence, button, phase }),
    {
        self.transition_sequence = self.transition_sequence + 1;
        self.transitions.push(ButtonTransition { sequence: self.transition_sequence, button, phase });
    }

    /// Applies one driver input: a press, a release, or a release of every held button.
    /// Press and release return an empty list; `ReleaseAll` returns the released buttons.
    pub fn apply_driver_input(&mut self, input: ButtonDriverInput<T>) -> (r: Result<Vec<T>, ButtonInputError>)
        requires
            old(self).wf(),
        ensures
            final(self).wf(),
            match input {
                ButtonDriverInput::Press(b) => !old(self).is_pressed(b) ==> match transition_budget(old(self).transition_seq().len(), old(self).last_sequence(), 1) {
                    Err(e) => r == Err::<Vec<T>, ButtonInputError>(e),
                    Ok(()) => r is Ok && r->Ok_0@.len() == 0 && final(self).is_pressed(b),
                },
                ButtonDriverInput::Release(b) => old(self).is_pressed(b) ==> match transition_budget(old(self).transition_seq().len(), old(self).last_sequence(), 1) {
                    Err(e) => r == Err::<Vec<T>, ButtonInputError>(e),
                    Ok(()) => r is Ok && r->Ok_0@.len() == 0 && !final(self).is_pressed(b),
                },
                ButtonDriverInput::ReleaseAll => match transition_budget(old(self).transition_seq().len(), old(self).last_sequence(), old(self).pressed_seq().len() as usize) {
                    Err(e) => r == Err::<Vec<T>, ButtonInputError>(e),
                    Ok(()) => r is Ok && r->Ok_0@ == old(self).pressed_seq() && final(self).pressed_seq().len() == 0,
                },
            },
            match input {
                ButtonDriverInput::Press(b) => old(self).is_pressed(b) ==> r is Ok && r->Ok_0@.len() == 0 && *final(self) == *old(self),
                ButtonDriverInput::Release(b) => !old(self).is_pressed(b) ==> r is Ok && r->Ok_0@.len() == 0 && *final(self) == *old(self),
                ButtonDriverInput::ReleaseAll => true,
            },
    {
        match input {
            ButtonDriverInput::Press(b) => {
                match self.press(b) {
                    Ok(_) => {
                        proof {
                            assert(self.pressed_seq().to_set().contains(b) ==> self.is_pressed(b));
                        }
                        Ok(Vec::new())
                    },
                    Err(e) => Err(e),
                }
            },
            ButtonDriverInput::Release(b) => {
                match self.release(b) {
                    Ok(_) => {
                        proof {
                            assert(self.is_pressed(b) ==> self.pressed_seq().to_set().contains(b));
                        }
                        Ok(Vec::new())
                    },
                    Err(e) => Err(e),
                }
            },
            ButtonDriverInput::ReleaseAll => self.release_all(),
        }
    }
}

fn copy_buttons<T: Copy>(v: &Vec<T>) -> (r: Vec<T>)
    ensures
        r@ == v@,
{
    let mut out: Vec<T> = Vec::new();
    let mut i: usize = 0;
    while i < v.len()
        invariant
            i <= v@.len(),
            out@ == v@.take(i as int),
        decreases v@.len() - i,
    {
        out.push(v[i]);
        proof {
            assert(v@.take(i + 1) =~= v@.take(i as int).push(v@[i as int]));
        }
        i = i + 1;
    }
    proof {
        assert(v@.take(i as int) =~= v@);
    }
    out
}

/// The budget check that precedes recording `count` new edges.
pub open spec fn transition_budget(recorded: nat, sequence: u64, count: usize) -> Result<(), ButtonInputError> {
    if recorded + count > MAX_BUTTON_TRANSITIONS_PER_FRAME {
        Err(ButtonInputError::TransitionLimitExceeded { limit: MAX_BUTTON_TRANSITIONS_PER_FRAME })
    } else if sequence + count > u64::MAX {
        Err(ButtonInputError::TransitionSequenceExhausted)
    } else {
        Ok(())
    }
}

/// Buttons of the edges with `phase`, in edge order.
pub open spec fn phase_buttons<T>(edges: Seq<ButtonTransition<T>>, phase: ButtonTransitionPhase) -> Seq<T>
    decreases edges.len(),
{
    if edges.len() == 0 {
        Seq::empty()
    } else {
        let rest = phase_buttons(edges.drop_last(), phase);
        if edges.last().phase == phase {
            rest.push(edges.last().button)
        } else {
            rest
        }
    }
}

/// The buttons of the edges with a phase are exactly the subsequence of edges with that phase,
/// each taken by its button and kept in edge order; so every button listed comes from an edge
/// of that phase, and every such edge gives one.
pub proof fn lemma_phase_buttons_are_phase_edges<T>(edges: Seq<ButtonTransition<T>>, phase: ButtonTransitionPhase)
    ensures
        phase_buttons(edges, phase)
            == edges.filter(|e: ButtonTransition<T>| e.phase == phase).map_values(|e: ButtonTransition<T>| e.button),
        forall|k: int| 0 <= k < phase_buttons(edges, phase).len() ==> exists|i: int|
            0 <= i < edges.len() && #[trigger] edges[i].phase == phase && edges[i].button == #[trigger] phase_buttons(edges, phase)[k],
    decreases edges.len(),
{
    let pred = |e: ButtonTransition<T>| e.phase == phase;
    let f = |e: ButtonTransition<T>| e.button;
    reveal(Seq::filter);
    if edges.len() > 0 {
        lemma_phase_buttons_are_phase_edges(edges.drop_last(), phase);
        let rest = edges.drop_last().filter(pred);
        assert(edges.filter(pred) == if pred(edges.last()) { rest.push(edges.last()) } else { rest });
        if pred(edges.last()) {
            assert(rest.push(edges.last()).map_values(f) =~= rest.map_values(f).push(edges.last().button));
        }
    }
    let out = phase_buttons(edges, phase);
    let kept = edges.filter(pred);
    assert forall|k: int| 0 <= k < out.len() implies exists|i: int|
        0 <= i < edges.len() && #[trigger] edges[i].phase == phase && edges[i].button == #[trigger] out[k] by {
        edges.lemma_filter_pred(pred, k);
        assert(kept.contains(kept[k]));
        edges.lemma_filter_contains_rev(pred, kept[k]);
        assert(out[k] == kept[k].button);
        let i = choose|i: int| 0 <= i < edges.len() && edges[i] == kept[k];
        assert(edges[i].phase == phase && edges[i].button == out[k]);
    }
}

impl<T: ButtonCode> Default for ButtonInput<T> {
    fn default() -> (r: Self)
        ensures
            r.wf(),
            r.pressed_seq() == Seq::<T>::empty(),
            r.transition_seq() == Seq::<ButtonTransition<T>>::empty(),
            r.last_sequence() == 0,
    {
        Self::new()
    }
}

/// One driver-side input event for a button domain.
#[derive(Debug, Clone, Copy, PartialEq, Eq)]
pub enum ButtonDriverInput<T> {
    Press(T),
    Release(T),
    ReleaseAll,
}

/// Identifier of a semantic action: non-empty and free of control characters.
#[derive(Debug, Clone, PartialEq, Eq, PartialOrd, Ord, Hash)]
pub struct ActionId(String);

#[derive(Debug, Clone, Copy, PartialEq, Eq)]
pub enum ActionIdError {
    Empty,
    ContainsControl,
}

/// The outcome of validating an action or context identifier.
pub open spec fn identifier_check(id: Seq<char>) -> Result<(), ActionIdError> {
    if id.len() == 0 {
        Err(ActionIdError::Empty)
    } else if has_control_char(id) {
        Err(ActionIdError::ContainsControl)
    } else {
        Ok(())
    }
}

fn validate_identifier(id: &str) -> (r: Result<(), ActionIdError>)
    ensures
        r == identifier_check(id@),
{
    if id.is_empty() {
        return Err(ActionIdError::Empty);
    }
    if contains_control(id) {
        return Err(ActionIdError::ContainsControl);
    }
    Ok(())
}

impl ActionId {
    pub closed spec fn view(&self) -> Seq<char> {
        self.0@
    }

    pub fn new(id: &str) -> (r: Result<ActionId, ActionIdError>)
        ensures
            match identifier_check(id@) {
                Ok(()) => r is Ok && r->Ok_0.view() == id@,
                Err(e) => r == Err::<ActionId, ActionIdError>(e),
            },
    {
        match validate_identifier(id) {
            Err(e) => Err(e),
            Ok(()) => Ok(ActionId(id.to_owned())),
        }
    }

    pub fn as_str(&self) -> (r: &str)
        ensures
            r@ == self.view(),
    {
        self.0.as_str()
    }

    pub fn same(&self, other: &ActionId) -> (r: bool)
        ensures
            r == (self.view() == other.view()),
    {
        self.0 == other.0
    }

    pub fn duplicate(&self) -> (r: ActionId)
        ensures
            r.view() == self.view(),
    {
        ActionId(self.0.clone())
    }
}

/// Context in which action bindings are active; the default context is `gameplay`.
#[derive(Debug, Clone, PartialEq, Eq, PartialOrd, Ord, Hash)]
pub struct ActionContext(String);

impl ActionContext {
    pub closed spec fn view(&self) -> Seq<char> {
        self.0@
    }

    pub fn gameplay() -> (r: ActionContext)
        ensures
            r.view() == "gameplay"@,
    {
        ActionContext("gameplay".to_owned())
    }

    pub fn new(id: &str) -> (r: Result<ActionContext, ActionIdError>)
        ensures
            match identifier_check(id@) {
                Ok(()) => r is Ok && r->Ok_0.view() == id@,
                Err(e) => r == Err::<ActionContext, ActionIdError>(e),
            },
    {
        match validate_identifier(id) {
            Err(e) => Err(e),
            Ok(()) => Ok(ActionContext(id.to_owned())),
        }
    }

    pub fn as_str(&self) -> (r: &str)
        ensures
            r@ == self.view(),
    {
        self.0.as_str()
    }

    pub fn same(&self, other: &ActionContext) -> (r: bool)
        ensures
            r == (self.view() == other.view()),
    {
        self.0 == other.0
    }

    pub fn duplicate(&self) -> (r: ActionContext)
        ensures
            r.view() == self.view(),
    {
        ActionContext(self.0.clone())
    }
}

impl Default for ActionContext {
    fn default() -> (r: Self)
        ensures
            r.view() == "gameplay"@,
    {
        Self::gameplay()
    }
}

#[derive(Debug, Clone, Copy, PartialEq, Eq, Structural, PartialOrd, Ord, Hash)]
pub enum InputBinding {
    Key(KeyCode),
    Mouse(MouseButton),
}

/// One physical input bound to an action in a context.
#[derive(Debug, Clone, PartialEq, Eq)]
pub struct ActionBinding {
    pub action: ActionId,
    pub input: InputBinding,
    pub context: ActionContext,
}

impl ActionBinding {
    pub fn key(action: ActionId, key: KeyCode) -> (r: ActionBinding)
        ensures
            r.action == action,
            r.input == InputBinding::Key(key),
            r.context.view() == "gameplay"@,
    {
        ActionBinding { action, input: InputBinding::Key(key), context: ActionContext::gameplay() }
    }

    pub fn mouse(action: ActionId, button: MouseButton) -> (r: ActionBinding)
        ensures
            r.action == action,
            r.input == InputBinding::Mouse(button),
            r.context.view() == "gameplay"@,
    {
        ActionBinding { action, input: InputBinding::Mouse(button), context: ActionContext::gameplay() }
    }

    pub fn with_context(self, context: ActionContext) -> (r: ActionBinding)
        ensures
            r.action == self.action,
            r.input == self.input,
            r.context == context,
    {
        ActionBinding { action: self.action, input: self.input, context }
    }

    fn duplicate(&self) -> (r: ActionBinding)
        ensures
            r.action.view() == self.action.view(),
            r.context.view() == self.context.view(),
            r.input == self.input,
    {
        ActionBinding { action: self.action.duplicate(), input: self.input, context: self.context.duplicate() }
    }
}

/// Action bindings in registration order plus the set of disabled contexts.
#[derive(Debug, Clone)]
pub struct ActionMap {
    bindings: Vec<ActionBinding>,
    disabled_contexts: Vec<ActionContext>,
}

impl ActionMap {
    pub closed spec fn binding_seq(&self) -> Seq<ActionBinding> {
        self.bindings@
    }

    pub closed spec fn disabled(&self) -> Set<Seq<char>> {
        Set::new(|c: Seq<char>| contains_context(self.disabled_contexts@, c))
    }

    pub fn new() -> (r: ActionMap)
        ensures
            r.binding_seq() == Seq::<ActionBinding>::empty(),
            r.disabled() == Set::<Seq<char>>::empty(),
    {
        let r = ActionMap { bindings: Vec::new(), disabled_contexts: Vec::new() };
        proof {
            assert(r.disabled() =~= Set::<Seq<char>>::empty());
        }
        r
    }

    /// Appends a binding; bindings for one input fire in registration order.
    pub fn bind(&mut self, binding: ActionBinding)
        ensures
            final(self).binding_seq() == old(self).binding_seq().push(binding),
            final(self).disabled() == old(self).disabled(),
    {
        self.bindings.push(binding);
    }

    pub fn bind_key(&mut self, action: ActionId, key: KeyCode)
        ensures
            final(self).binding_seq().len() == old(self).binding_seq().len() + 1,
            final(self).binding_seq().drop_last() == old(self).binding_seq(),
            final(self).binding_seq().last().action == action,
            final(self).binding_seq().last().input == InputBinding::Key(key),
            final(self).binding_seq().last().context.view() == "gameplay"@,
            final(self).disabled() == old(self).disabled(),
    {
        self.bind(ActionBinding::key(action, key));
        proof {
            assert(self.binding_seq().drop_last() =~= old(self).binding_seq());
        }
    }

    pub fn bind_mouse(&mut self, action: ActionId, button: MouseButton)
        ensures
            final(self).binding_seq().len() == old(self).binding_seq().len() + 1,
            final(self).binding_seq().drop_last() == old(self).binding_seq(),
            final(self).binding_seq().last().action == action,
            final(self).binding_seq().last().input == InputBinding::Mouse(button),
            final(self).binding_seq().last().context.view() == "gameplay"@,
            final(self).disabled() == old(self).disabled(),
    {
        self.bind(ActionBinding::mouse(action, button));
        proof {
            assert(self.binding_seq().drop_last() =~= old(self).binding_seq());
        }
    }

    pub fn disable_context(&mut self, context: ActionContext)
        ensures
            final(self).binding_seq() == old(self).binding_seq(),
            final(self).disabled() == old(self).disabled().insert(context.view()),
    {
        let ghost c = context;
        self.disabled_contexts.push(context);
        proof {
            lemma_contains_context_push(old(self).disabled_contexts@, c);
            assert(self.disabled() =~= old(self).disabled().insert(c.view()));
        }
    }

    pub fn enable_context(&mut self, context: &ActionContext)
        ensures
            final(self).binding_seq() == old(self).binding_seq(),
            final(self).disabled() == old(self).disabled().remove(context.view()),
    {
        let mut kept: Vec<ActionContext> = Vec::new();
        let mut i: usize = 0;
        while i < self.disabled_contexts.len()
            invariant
                i <= self.disabled_contexts@.len(),
                self.disabled_contexts == old(self).disabled_contexts,
                self.bindings == old(self).bindings,
                forall|x: Seq<char>| #[trigger] contains_context(kept@, x)
                    <==> (x != context.view() && contains_context(self.disabled_contexts@.take(i as int), x)),
            decreases self.disabled_contexts@.len() - i,
        {
            let c = &self.disabled_contexts[i];
            let ghost prev = kept@;
            let ghost upto = self.disabled_contexts@.take(i as int);
            let ghost next = self.disabled_contexts@.take(i + 1);
            proof {
                assert(next =~= upto.push(*c));
                lemma_contains_context_push(upto, *c);
            }
            if !c.same(context) {
                let d = c.duplicate();
                kept.push(d);
                proof {
                    lemma_contains_context_push(prev, d);
                }
            }
            i = i + 1;
        }
        proof {
            assert(self.disabled_contexts@.take(i as int) =~= self.disabled_contexts@);
        }
        self.disabled_contexts = kept;
        proof {
            assert(self.disabled() =~= old(self).disabled().remove(context.view()));
        }
    }

    pub fn is_context_enabled(&self, context: &ActionContext) -> (r: bool)
        ensures
            r == !self.disabled().contains(context.view()),
    {
        let mut i: usize = 0;
        while i < self.disabled_contexts.len()
            invariant
                i <= self.disabled_contexts@.len(),
                forall|k: int| 0 <= k < i ==> #[trigger] self.disabled_contexts@[k].view() != context.view(),
            decreases self.disabled_contexts@.len() - i,
        {
            if self.disabled_contexts[i].same(context) {
                proof {
                    assert(self.disabled_contexts@[i as int].view() == context.view());
                    assert(self.disabled().contains(context.view()));
                }
                return false;
            }
            i = i + 1;
        }
        proof {
            if self.disabled().contains(context.view()) {
                let k = choose|k: int| 0 <= k < self.disabled_contexts@.len() && self.disabled_contexts@[k].view() == context.view();
                assert(self.disabled_contexts@[k].view() != context.view());
            }
        }
        true
    }

    pub fn bindings(&self) -> (r: &[ActionBinding])
        ensures
            r@ == self.binding_seq(),
    {
        self.bindings.as_slice()
    }

    /// Indices of the bindings for `input`, in registration order.
    pub fn binding_indices_for_input(&self, input: InputBinding) -> (r: Vec<usize>)
        ensures
            r@ == indices_for_input(self.binding_seq(), input, self.binding_seq().len() as int),
    {
        let mut out: Vec<usize> = Vec::new();
        let mut i: usize = 0;
        while i < self.bindings.len()
            invariant
                i <= self.bindings@.len(),
                out@ == indices_for_input(self.bindings@, input, i as int),
            decreases self.bindings@.len() - i,
        {
            if self.bindings[i].input == input {
                out.push(i);
            }
            i = i + 1;
        }
        out
    }

    pub fn binding_at(&self, index: usize) -> (r: Option<&ActionBinding>)
        ensures
            index < self.binding_seq().len() ==> r == Some(&self.binding_seq()[index as int]),
            index >= self.binding_seq().len() ==> r is None,
    {
        if index < self.bindings.len() {
            Some(&self.bindings[index])
        } else {
            None
        }
    }
}

impl Default for ActionMap {
    fn default() -> (r: Self)
        ensures
            r.binding_seq() == Seq::<ActionBinding>::empty(),
            r.disabled() == Set::<Seq<char>>::empty(),
    {
        Self::new()
    }
}

/// Some context in `v` has the name `x`.
pub open spec fn contains_context(v: Seq<ActionContext>, x: Seq<char>) -> bool {
    exists|i: int| 0 <= i < v.len() && v[i].view() == x
}

proof fn lemma_contains_context_push(v: Seq<ActionContext>, c: ActionContext)
    ensures
        forall|x: Seq<char>| #[trigger] contains_context(v.push(c), x) <==> (contains_context(v, x) || x == c.view()),
{
    assert forall|x: Seq<char>| #[trigger] contains_context(v.push(c), x) <==> (contains_context(v, x) || x == c.view()) by {
        if contains_context(v, x) {
            let i = choose|i: int| 0 <= i < v.len() && v[i].view() == x;
            assert(v.push(c)[i] == v[i]);
        }
        if x == c.view() {
            assert(v.push(c)[v.len() as int] == c);
        }
        if contains_context(v.push(c), x) {
            let i = choose|i: int| 0 <= i < v.push(c).len() && v.push(c)[i].view() == x;
            if i < v.len() {
                assert(v[i] == v.push(c)[i]);
            }
        }
    }
}

/// Indices `< end` of the bindings whose input is `input`, ascending.
pub open spec fn indices_for_input(bindings: Seq<ActionBinding>, input: InputBinding, end: int) -> Seq<usize>
    decreases end,
{
    if end <= 0 {
        Seq::empty()
    } else {
        let rest = indices_for_input(bindings, input, end - 1);
        if bindings[end - 1].input == input {
            rest.push((end - 1) as usize)
        } else {
            rest
        }
    }
}

#[derive(Debug, Clone, Copy, PartialEq, Eq, Structural, PartialOrd, Ord, Hash)]
pub enum ActionPhase {
    Started,
    Released,
}

#[derive(Debug, Clone, Copy, PartialEq, Eq, Structural)]
pub struct ActionValue {
    pub digital: bool,
}

impl ActionValue {
    pub fn pressed() -> (r: ActionValue)
        ensures
            r.digital,
    {
        ActionValue { digital: true }
    }

    pub fn released() -> (r: ActionValue)
        ensures
            !r.digital,
    {
        ActionValue { digital: false }
    }
}

#[derive(Debug, Clone, PartialEq)]
pub struct ActionOutcome {
    pub action: ActionId,
    pub context: ActionContext,
    pub binding: InputBinding,
    pub phase: ActionPhase,
    pub value: ActionValue,
}

/// The observable content of an outcome.
pub struct OutcomeView {
    pub action: Seq<char>,
    pub context: Seq<char>,
    pub binding: InputBinding,
    pub phase: ActionPhase,
    pub digital: bool,
}

impl ActionOutcome {
    pub open spec fn view(&self) -> OutcomeView {
        OutcomeView {
            action: self.action.view(),
            context: self.context.view(),
            binding: self.binding,
            phase: self.phase,
            digital: self.value.digital,
        }
    }
}

/// Frame-transient semantic input outcomes, in resolution order.
#[derive(Debug, Clone, PartialEq)]
pub struct ActionOutcomes {
    outcomes: Vec<ActionOutcome>,
}

impl ActionOutcomes {
    pub closed spec fn seq(&self) -> Seq<ActionOutcome> {
        self.outcomes@
    }

    pub open spec fn views(&self) -> Seq<OutcomeView> {
        self.seq().map_values(|o: ActionOutcome| o.view())
    }

    pub fn new() -> (r: ActionOutcomes)
        ensures
            r.seq() == Seq::<ActionOutcome>::empty(),
    {
        ActionOutcomes { outcomes: Vec::new() }
    }

    pub fn push(&mut self, outcome: ActionOutcome)
        ensures
            final(self).seq() == old(self).seq().push(outcome),
    {
        self.outcomes.push(outcome);
    }

    pub fn clear(&mut self)
        ensures
            final(self).seq() == Seq::<ActionOutcome>::empty(),
    {
        self.outcomes.clear();
    }

    pub fn as_slice(&self) -> (r: &[ActionOutcome])
        ensures
            r@ == self.seq(),
    {
        self.outcomes.as_slice()
    }

    pub fn is_empty(&self) -> (r: bool)
        ensures
            r == (self.seq().len() == 0),
    {
        self.outcomes.len() == 0
    }
}

impl Default for ActionOutcomes {
    fn default() -> (r: Self)
        ensures
            r.seq() == Seq::<ActionOutcome>::empty(),
    {
        Self::new()
    }
}

/// The action phase and digital value that an edge produces.
pub open spec fn edge_phase(phase: ButtonTransitionPhase) -> ActionPhase {
    match phase {
        ButtonTransitionPhase::Pressed => ActionPhase::Started,
        ButtonTransitionPhase::Released => ActionPhase::Released,
    }
}

/// Outcomes of one edge on `input`: every binding for that input whose context is enabled,
/// in registration order (bindings `< end`).
pub open spec fn edge_outcomes(bindings: Seq<ActionBinding>, disabled: Set<Seq<char>>, input: InputBinding, phase: ButtonTransitionPhase, end: int) -> Seq<OutcomeView>
    decreases end,
{
    if end <= 0 {
        Seq::empty()
    } else {
        let rest = edge_outcomes(bindings, disabled, input, phase, end - 1);
        let b = bindings[end - 1];
        if b.input == input && !disabled.contains(b.context.view()) {
            rest.push(OutcomeView {
                action: b.action.view(),
                context: b.context.view(),
                binding: input,
                phase: edge_phase(phase),
                digital: phase == ButtonTransitionPhase::Pressed,
            })
        } else {
            rest
        }
    }
}

/// Outcomes of a sequence of (input, phase) edges, edge by edge.
pub open spec fn edges_outcomes(bindings: Seq<ActionBinding>, disabled: Set<Seq<char>>, edges: Seq<(InputBinding, ButtonTransitionPhase)>) -> Seq<OutcomeView>
    decreases edges.len(),
{
    if edges.len() == 0 {
        Seq::empty()
    } else {
        edges_outcomes(bindings, disabled, edges.drop_last())
            + edge_outcomes(bindings, disabled, edges.last().0, edges.last().1, bindings.len() as int)
    }
}

pub open spec fn key_edges(t: Seq<ButtonTransition<KeyCode>>) -> Seq<(InputBinding, ButtonTransitionPhase)> {
    t.map_values(|e: ButtonTransition<KeyCode>| (InputBinding::Key(e.button), e.phase))
}

pub open spec fn mouse_edges(t: Seq<ButtonTransition<MouseButton>>) -> Seq<(InputBinding, ButtonTransitionPhase)> {
    t.map_values(|e: ButtonTransition<MouseButton>| (InputBinding::Mouse(e.button), e.phase))
}

fn push_edge_outcomes(map: &ActionMap, input: InputBinding, phase: ButtonTransitionPhase, outcomes: &mut ActionOutcomes)
    ensures
        final(outcomes).views() == old(outcomes).views() + edge_outcomes(map.binding_seq(), map.disabled(), input, phase, map.binding_seq().len() as int),
{
    let (action_phase, value) = match phase {
        ButtonTransitionPhase::Pressed => (ActionPhase::Started, ActionValue::pressed()),
        ButtonTransitionPhase::Released => (ActionPhase::Released, ActionValue::released()),
    };
    let ghost start = outcomes.views();
    let mut i: usize = 0;
    while i < map.bindings.len()
        invariant
            i <= map.bindings@.len(),
            action_phase == edge_phase(phase),
            value.digital == (phase == ButtonTransitionPhase::Pressed),
            outcomes.views() == start + edge_outcomes(map.binding_seq(), map.disabled(), input, phase, i as int),
        decreases map.bindings@.len() - i,
    {
        let binding = &map.bindings[i];
        if binding.input == input && map.is_context_enabled(&binding.context) {
            let ghost before = outcomes.seq();
            outcomes.push(ActionOutcome {
                action: binding.action.duplicate(),
                context: binding.context.duplicate(),
                binding: input,
                phase: action_phase,
                value,
            });
            proof {
                assert(outcomes.views() =~= before.map_values(|o: ActionOutcome| o.view()).push(outcomes.seq().last().view()));
            }
        }
        i = i + 1;
    }
}

/// Resolves the recorded edges into action outcomes: the keyboard timeline in edge order,
/// then the mouse timeline in edge order; each edge yields one outcome per enabled binding
/// for that input, in registration order.
pub fn resolve_action_outcomes(
    map: &ActionMap,
    keyboard: &ButtonInput<KeyCode>,
    mouse: &ButtonInput<MouseButton>,
) -> (r: ActionOutcomes)
    ensures
        r.views() == edges_outcomes(map.binding_seq(), map.disabled(), key_edges(keyboard.transition_seq()) + mouse_edges(mouse.transition_seq())),
{
    let mut outcomes = ActionOutcomes::new();
    let keys = keyboard.transitions();
    let ghost all = key_edges(keyboard.transition_seq()) + mouse_edges(mouse.transition_seq());
    let mut i: usize = 0;
    while i < keys.len()
        invariant
            i <= keys@.len(),
            keys@ == keyboard.transition_seq(),
            outcomes.views() == edges_outcomes(map.binding_seq(), map.disabled(), key_edges(keys@).take(i as int)),
        decreases keys@.len() - i,
    {
        let t = keys[i];
        push_edge_outcomes(map, InputBinding::Key(t.button), t.phase, &mut outcomes);
        proof {
            assert(key_edges(keys@).take(i + 1).drop_last() =~= key_edges(keys@).take(i as int));
        }
        i = i + 1;
    }
    let buttons = mouse.transitions();
    let mut j: usize = 0;
    proof {
        assert(key_edges(keys@).take(i as int) =~= key_edges(keys@));
        assert(all.take(keys@.len() as int) =~= key_edges(keys@));
    }
    while j < buttons.len()
        invariant
            j <= buttons@.len(),
            keys@ == keyboard.transition_seq(),
            buttons@ == mouse.transition_seq(),
            all == key_edges(keyboard.transition_seq()) + mouse_edges(mouse.transition_seq()),
            outcomes.views() == edges_outcomes(map.binding_seq(), map.disabled(), all.take(keys@.len() + j)),
        decreases buttons@.len() - j,
    {
        let t = buttons[j];
        push_edge_outcomes(map, InputBinding::Mouse(t.button), t.phase, &mut outcomes);
        proof {
            assert(all.take(keys@.len() + j + 1).drop_last() =~= all.take(keys@.len() + j));
            assert(all.take(keys@.len() + j + 1).last() == (InputBinding::Mouse(t.button), t.phase));
        }
        j = j + 1;
    }
    proof {
        assert(all.take(keys@.len() + j) =~= all);
    }
    outcomes
}

} // verus!
