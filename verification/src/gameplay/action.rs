//! Bounded authoring data that lowers semantic action outcomes into local gameplay commands.

use vstd::prelude::*;

use crate::gameplay::command::{
    GameplayCommandDraft, GameplayCommandPayload, GameplayCommandTarget, GameplayCommandTypeId,
};
use crate::gameplay::queue::GameplayCommandQueue;
use crate::gameplay::command::GameplayCommandKey;
use crate::gameplay::queue::GameplayCommandRejection;
use crate::input::{ActionContext, ActionId, ActionOutcome, ActionOutcomes, ActionPhase};

verus! {

pub const MAX_ACTION_COMMAND_BINDINGS: usize = 4096;

#[derive(Debug, Clone, PartialEq, Eq, Structural)]
pub enum ActionCommandMapError {
    BindingLimit { requested: usize, maximum: usize },
}

/// One action, context and phase lowered into one command draft.
#[derive(Debug, Clone, PartialEq)]
pub struct ActionCommandBinding {
    action: ActionId,
    context: ActionContext,
    phase: ActionPhase,
    command: GameplayCommandDraft,
}

impl ActionCommandBinding {
    pub closed spec fn spec_action(&self) -> ActionId {
        self.action
    }

    pub closed spec fn spec_context(&self) -> ActionContext {
        self.context
    }

    pub closed spec fn spec_phase(&self) -> ActionPhase {
        self.phase
    }

    pub closed spec fn spec_command(&self) -> GameplayCommandDraft {
        self.command
    }

    /// A binding in the gameplay context whose command has `command_type` and nothing else.
    pub fn new(action: ActionId, phase: ActionPhase, command_type: GameplayCommandTypeId) -> (r: Self)
        ensures
            r.spec_action() == action,
            r.spec_context().view() == "gameplay"@,
            r.spec_phase() == phase,
            r.spec_command().wf(),
            r.spec_command().spec_command_type() == command_type,
            r.spec_command().spec_target() is None,
            r.spec_command().spec_payload().entry_seq().len() == 0,
    {
        ActionCommandBinding {
            action,
            context: ActionContext::gameplay(),
            phase,
            command: GameplayCommandDraft::new(command_type),
        }
    }

    pub fn with_context(self, context: ActionContext) -> (r: Self)
        ensures
            r.spec_action() == self.spec_action(),
            r.spec_context() == context,
            r.spec_phase() == self.spec_phase(),
            r.spec_command() == self.spec_command(),
    {
        ActionCommandBinding { context, ..self }
    }

    pub fn with_command(self, command: GameplayCommandDraft) -> (r: Self)
        ensures
            r.spec_action() == self.spec_action(),
            r.spec_context() == self.spec_context(),
            r.spec_phase() == self.spec_phase(),
            r.spec_command() == command,
    {
        ActionCommandBinding { command, ..self }
    }

    pub fn with_target(self, target: GameplayCommandTarget) -> (r: Self)
        ensures
            r.spec_action() == self.spec_action(),
            r.spec_context() == self.spec_context(),
            r.spec_phase() == self.spec_phase(),
            r.spec_command().spec_command_type() == self.spec_command().spec_command_type(),
            r.spec_command().spec_target() == Some(target),
            r.spec_command().spec_payload() == self.spec_command().spec_payload(),
            r.spec_command().wf() == self.spec_command().wf(),
    {
        let ActionCommandBinding { action, context, phase, command } = self;
        ActionCommandBinding { action, context, phase, command: command.with_target(target) }
    }

    pub fn with_payload(self, payload: GameplayCommandPayload) -> (r: Self)
        ensures
            r.spec_action() == self.spec_action(),
            r.spec_context() == self.spec_context(),
            r.spec_phase() == self.spec_phase(),
            r.spec_command().spec_command_type() == self.spec_command().spec_command_type(),
            r.spec_command().spec_target() == self.spec_command().spec_target(),
            r.spec_command().spec_payload() == payload,
            r.spec_command().wf() == payload.wf(),
    {
        let ActionCommandBinding { action, context, phase, command } = self;
        ActionCommandBinding { action, context, phase, command: command.with_payload(payload) }
    }

    pub fn action(&self) -> (r: &ActionId)
        ensures
            *r == self.spec_action(),
    {
        &self.action
    }

    pub fn context(&self) -> (r: &ActionContext)
        ensures
            *r == self.spec_context(),
    {
        &self.context
    }

    pub fn phase(&self) -> (r: ActionPhase)
        ensures
            r == self.spec_phase(),
    {
        self.phase
    }

    pub fn command(&self) -> (r: &GameplayCommandDraft)
        ensures
            *r == self.spec_command(),
    {
        &self.command
    }
}

/// The binding is for this action, context and phase.
pub open spec fn binding_matches(b: ActionCommandBinding, action: Seq<char>, context: Seq<char>, phase: ActionPhase) -> bool {
    &&& b.spec_action().view() == action
    &&& b.spec_context().view() == context
    &&& b.spec_phase() == phase
}

/// The bindings for this action, context and phase, in binding order.
pub open spec fn matching(bindings: Seq<ActionCommandBinding>, action: Seq<char>, context: Seq<char>, phase: ActionPhase) -> Seq<ActionCommandBinding> {
    bindings.filter(|b: ActionCommandBinding| binding_matches(b, action, context, phase))
}

/// The bindings found for an action, context and phase are bindings of the map that have that
/// action, that context and that phase, and every binding of the map that has all three is found.
pub proof fn lemma_matching_bindings_are_exact(
    bindings: Seq<ActionCommandBinding>,
    action: Seq<char>,
    context: Seq<char>,
    phase: ActionPhase,
)
    ensures
        forall|k: int| 0 <= k < matching(bindings, action, context, phase).len() ==> {
            let b = #[trigger] matching(bindings, action, context, phase)[k];
            &&& b.spec_action().view() == action
            &&& b.spec_context().view() == context
            &&& b.spec_phase() == phase
            &&& bindings.contains(b)
        },
        forall|i: int| 0 <= i < bindings.len()
            && (#[trigger] bindings[i]).spec_action().view() == action
            && bindings[i].spec_context().view() == context
            && bindings[i].spec_phase() == phase
            ==> matching(bindings, action, context, phase).contains(bindings[i]),
{
    let pred = |b: ActionCommandBinding| binding_matches(b, action, context, phase);
    let found = matching(bindings, action, context, phase);
    assert forall|k: int| 0 <= k < found.len() implies {
        let b = #[trigger] found[k];
        &&& b.spec_action().view() == action
        &&& b.spec_context().view() == context
        &&& b.spec_phase() == phase
        &&& bindings.contains(b)
    } by {
        bindings.lemma_filter_pred(pred, k);
        assert(found.contains(found[k]));
        bindings.lemma_filter_contains_rev(pred, found[k]);
    }
    assert forall|i: int| 0 <= i < bindings.len()
        && (#[trigger] bindings[i]).spec_action().view() == action
        && bindings[i].spec_context().view() == context
        && bindings[i].spec_phase() == phase
        implies found.contains(bindings[i]) by {
        bindings.lemma_filter_contains(pred, i);
    }
}

/// The commands that outcomes lower into: for each outcome in order, the commands of its
/// matching bindings in binding order.
pub open spec fn outcome_commands(bindings: Seq<ActionCommandBinding>, outcomes: Seq<ActionOutcome>) -> Seq<GameplayCommandDraft>
    decreases outcomes.len(),
{
    if outcomes.len() == 0 {
        Seq::empty()
    } else {
        let o = outcomes.last();
        outcome_commands(bindings, outcomes.drop_last())
            + matching(bindings, o.action.view(), o.context.view(), o.phase).map_values(|b: ActionCommandBinding| b.spec_command())
    }
}

/// The binding was made for the outcome: it has the outcome's action, context and phase.
pub open spec fn binding_for_outcome(b: ActionCommandBinding, o: ActionOutcome) -> bool {
    &&& b.spec_action().view() == o.action.view()
    &&& b.spec_context().view() == o.context.view()
    &&& b.spec_phase() == o.phase
}

/// The command is that of a binding of the map made for one of the outcomes.
pub open spec fn made_for_some_outcome(
    bindings: Seq<ActionCommandBinding>,
    outcomes: Seq<ActionOutcome>,
    command: GameplayCommandDraft,
) -> bool {
    exists|j: int, b: ActionCommandBinding|
        0 <= j < outcomes.len() && bindings.contains(b) && #[trigger] binding_for_outcome(b, outcomes[j])
            && b.spec_command() == command
}

/// Every command that outcomes lower into is the command of a binding of the map made for one of
/// those outcomes: same action, same context and same phase.
pub proof fn lemma_outcome_commands_come_from_their_actions(
    bindings: Seq<ActionCommandBinding>,
    outcomes: Seq<ActionOutcome>,
)
    ensures
        forall|k: int| 0 <= k < outcome_commands(bindings, outcomes).len()
            ==> made_for_some_outcome(bindings, outcomes, #[trigger] outcome_commands(bindings, outcomes)[k]),
    decreases outcomes.len(),
{
    if outcomes.len() > 0 {
        let front = outcomes.drop_last();
        let o = outcomes.last();
        let found = matching(bindings, o.action.view(), o.context.view(), o.phase);
        let before = outcome_commands(bindings, front);
        let cmds = outcome_commands(bindings, outcomes);
        lemma_outcome_commands_come_from_their_actions(bindings, front);
        lemma_matching_bindings_are_exact(bindings, o.action.view(), o.context.view(), o.phase);
        assert forall|k: int| 0 <= k < cmds.len() implies made_for_some_outcome(bindings, outcomes, #[trigger] cmds[k]) by {
            if k < before.len() {
                assert(cmds[k] == before[k]);
                assert(made_for_some_outcome(bindings, front, before[k]));
                let (j, b) = choose|j: int, b: ActionCommandBinding|
                    0 <= j < front.len() && bindings.contains(b) && #[trigger] binding_for_outcome(b, front[j])
                        && b.spec_command() == before[k];
                assert(outcomes[j] == front[j]);
                assert(binding_for_outcome(b, outcomes[j]));
            } else {
                let m = k - before.len();
                let b = found[m];
                assert(cmds[k] == b.spec_command());
                assert(outcomes[outcomes.len() - 1] == o);
                assert(binding_for_outcome(b, outcomes[outcomes.len() - 1]));
            }
        }
    }
}

/// Bounded action-to-command authoring data: at most `MAX_ACTION_COMMAND_BINDINGS` bindings,
/// kept in binding order.
#[derive(Debug, Clone)]
pub struct ActionCommandMap {
    bindings: Vec<ActionCommandBinding>,
}

impl ActionCommandMap {
    pub closed spec fn binding_seq(&self) -> Seq<ActionCommandBinding> {
        self.bindings@
    }

    pub fn new() -> (r: Self)
        ensures
            r.binding_seq().len() == 0,
    {
        ActionCommandMap { bindings: Vec::new() }
    }

    /// Appends `binding`, or refuses it when the map is full.
    pub fn bind(&mut self, binding: ActionCommandBinding) -> (r: Result<(), ActionCommandMapError>)
        ensures
            old(self).binding_seq().len() + 1 > usize::MAX ==> {
                &&& r == Err::<(), ActionCommandMapError>(ActionCommandMapError::BindingLimit { requested: usize::MAX, maximum: MAX_ACTION_COMMAND_BINDINGS })
                &&& final(self).binding_seq() == old(self).binding_seq()
            },
            old(self).binding_seq().len() + 1 <= usize::MAX && old(self).binding_seq().len() + 1 > MAX_ACTION_COMMAND_BINDINGS ==> {
                &&& r == Err::<(), ActionCommandMapError>(ActionCommandMapError::BindingLimit {
                    requested: (old(self).binding_seq().len() + 1) as usize,
                    maximum: MAX_ACTION_COMMAND_BINDINGS,
                })
                &&& final(self).binding_seq() == old(self).binding_seq()
            },
            old(self).binding_seq().len() + 1 <= MAX_ACTION_COMMAND_BINDINGS ==> {
                &&& r is Ok
                &&& final(self).binding_seq() == old(self).binding_seq().push(binding)
            },
    {
        let requested = match self.bindings.len().checked_add(1) {
            None => return Err(ActionCommandMapError::BindingLimit { requested: usize::MAX, maximum: MAX_ACTION_COMMAND_BINDINGS }),
            Some(n) => n,
        };
        if requested > MAX_ACTION_COMMAND_BINDINGS {
            return Err(ActionCommandMapError::BindingLimit { requested, maximum: MAX_ACTION_COMMAND_BINDINGS });
        }
        self.bindings.push(binding);
        Ok(())
    }

    /// `bind` of a plain binding in the gameplay context.
    pub fn bind_action(&mut self, action: ActionId, phase: ActionPhase, command_type: GameplayCommandTypeId) -> (r: Result<(), ActionCommandMapError>)
        ensures
            old(self).binding_seq().len() + 1 > MAX_ACTION_COMMAND_BINDINGS ==> {
                &&& r is Err
                &&& final(self).binding_seq() == old(self).binding_seq()
            },
            old(self).binding_seq().len() + 1 <= MAX_ACTION_COMMAND_BINDINGS ==> {
                &&& r is Ok
                &&& final(self).binding_seq().len() == old(self).binding_seq().len() + 1
                &&& final(self).binding_seq().take(old(self).binding_seq().len() as int) == old(self).binding_seq()
                &&& {
                    let b = final(self).binding_seq().last();
                    &&& b.spec_action() == action
                    &&& b.spec_context().view() == "gameplay"@
                    &&& b.spec_phase() == phase
                    &&& b.spec_command().spec_command_type() == command_type
                    &&& b.spec_command().spec_target() is None
                    &&& b.spec_command().spec_payload().entry_seq().len() == 0
                }
            },
    {
        let r = self.bind(ActionCommandBinding::new(action, phase, command_type));
        proof {
            if r is Ok {
                assert(self.binding_seq().take(old(self).binding_seq().len() as int) =~= old(self).binding_seq());
            }
        }
        r
    }

    pub fn bindings(&self) -> (r: &[ActionCommandBinding])
        ensures
            r@ == self.binding_seq(),
    {
        self.bindings.as_slice()
    }

    /// The bindings for this action, context and phase, in binding order.
    pub fn matching_bindings(&self, action: &ActionId, context: &ActionContext, phase: ActionPhase) -> (r: Vec<&ActionCommandBinding>)
        ensures
            r@.map_values(|b: &ActionCommandBinding| *b) == matching(self.binding_seq(), action.view(), context.view(), phase),
    {
        let ghost pred = |b: ActionCommandBinding| binding_matches(b, action.view(), context.view(), phase);
        let mut found: Vec<&ActionCommandBinding> = Vec::new();
        let mut i: usize = 0;
        while i < self.bindings.len()
            invariant
                i <= self.bindings@.len(),
                pred == (|b: ActionCommandBinding| binding_matches(b, action.view(), context.view(), phase)),
                found@.map_values(|b: &ActionCommandBinding| *b) == self.bindings@.take(i as int).filter(pred),
            decreases self.bindings@.len() - i,
        {
            let b = &self.bindings[i];
            let hit = b.action.same(action) && b.context.same(context) && b.phase == phase;
            proof {
                assert(self.bindings@.take(i + 1).drop_last() =~= self.bindings@.take(i as int));
                assert(self.bindings@.take(i + 1).last() == self.bindings@[i as int]);
                reveal_with_fuel(Seq::filter, 1);
            }
            let ghost old_found = found@;
            if hit {
                found.push(b);
            }
            proof {
                assert(pred(self.bindings@[i as int]) == hit);
                if hit {
                    assert(found@.map_values(|b: &ActionCommandBinding| *b) =~= old_found.map_values(|b: &ActionCommandBinding| *b).push(self.bindings@[i as int]));
                } else {
                    assert(found@ == old_found);
                }
            }
            i = i + 1;
        }
        proof {
            assert(self.bindings@.take(i as int) =~= self.bindings@);
        }
        found
    }
}

impl ActionCommandMap {
    /// A map of `bindings`, in order, refusing the first binding past the limit.
    pub fn from_bindings(bindings: Vec<ActionCommandBinding>) -> (r: Result<Self, ActionCommandMapError>)
        ensures
            bindings@.len() > MAX_ACTION_COMMAND_BINDINGS ==> r == Err::<Self, ActionCommandMapError>(
                ActionCommandMapError::BindingLimit { requested: (MAX_ACTION_COMMAND_BINDINGS + 1) as usize, maximum: MAX_ACTION_COMMAND_BINDINGS },
            ),
            bindings@.len() <= MAX_ACTION_COMMAND_BINDINGS ==> (r matches Ok(map) && map.binding_seq() == bindings@),
    {
        let mut map = ActionCommandMap::new();
        let ghost all = bindings@;
        for binding in it: bindings.into_iter()
            invariant
                it.seq() == all,
                map.binding_seq() == all.take(it.index() as int),
                map.binding_seq().len() == it.index(),
                it.index() <= MAX_ACTION_COMMAND_BINDINGS,
        {
            match map.bind(binding) {
                Err(e) => return Err(e),
                Ok(()) => {},
            }
            proof {
                assert(all.take(it.index() + 1) =~= all.take(it.index() as int).push(binding));
            }
        }
        proof {
            assert(all.take(all.len() as int) =~= all);
        }
        Ok(map)
    }
}

impl Default for ActionCommandMap {
    fn default() -> (r: Self)
        ensures
            r.binding_seq().len() == 0,
    {
        ActionCommandMap::new()
    }
}

/// `states` run from `first` to `last`, each step submitting `drafts[k]`, a copy of
/// `expected[k]`, as the next local action command with result `results[k]`.
pub open spec fn submission_chain(
    states: Seq<GameplayCommandQueue>,
    drafts: Seq<GameplayCommandDraft>,
    first: GameplayCommandQueue,
    last: GameplayCommandQueue,
    expected: Seq<GameplayCommandDraft>,
    results: Seq<Result<GameplayCommandKey, GameplayCommandRejection>>,
) -> bool {
    &&& states.len() == results.len() + 1
    &&& drafts.len() == results.len()
    &&& expected.len() == results.len()
    &&& states[0] == first
    &&& states.last() == last
    &&& forall|k: int| 0 <= k < results.len() ==> {
        &&& (#[trigger] drafts[k]).same(&expected[k])
        &&& states[k].local_submission_outcome(&states[k + 1], &drafts[k], results[k])
    }
}

/// Submits, in order, the command of every binding that matches an outcome, each as the next
/// local action command; returns each submission's result in the same order.
pub fn map_action_outcomes_to_commands(
    command_map: &ActionCommandMap,
    outcomes: &ActionOutcomes,
    queue: &mut GameplayCommandQueue,
) -> (r: Vec<Result<GameplayCommandKey, GameplayCommandRejection>>)
    requires
        old(queue).wf(),
    ensures
        final(queue).wf(),
        r@.len() == outcome_commands(command_map.binding_seq(), outcomes.seq()).len(),
        exists|states: Seq<GameplayCommandQueue>, drafts: Seq<GameplayCommandDraft>|
            #[trigger] submission_chain(states, drafts, *old(queue), *final(queue), outcome_commands(command_map.binding_seq(), outcomes.seq()), r@),
{
    let ghost bindings = command_map.binding_seq();
    let ghost all = outcomes.seq();
    let ghost mut states: Seq<GameplayCommandQueue> = seq![*queue];
    let ghost mut drafts: Seq<GameplayCommandDraft> = Seq::empty();
    let list = outcomes.as_slice();
    let mut results: Vec<Result<GameplayCommandKey, GameplayCommandRejection>> = Vec::new();
    let mut i: usize = 0;
    while i < list.len()
        invariant
            list@ == all,
            bindings == command_map.binding_seq(),
            i <= all.len(),
            queue.wf(),
            results@.len() == outcome_commands(bindings, all.take(i as int)).len(),
            states.len() == results@.len() + 1,
            drafts.len() == results@.len(),
            states[0] == *old(queue),
            states.last() == *queue,
            forall|k: int| 0 <= k < results@.len() ==> {
                &&& (#[trigger] drafts[k]).same(&outcome_commands(bindings, all.take(i as int))[k])
                &&& states[k].local_submission_outcome(&states[k + 1], &drafts[k], results@[k])
            },
        decreases all.len() - i,
    {
        let outcome = &list[i];
        let matched = command_map.matching_bindings(&outcome.action, &outcome.context, outcome.phase);
        let ghost before = outcome_commands(bindings, all.take(i as int));
        let ghost these = matching(bindings, outcome.action.view(), outcome.context.view(), outcome.phase)
            .map_values(|b: ActionCommandBinding| b.spec_command());
        proof {
            assert(all.take(i + 1).drop_last() =~= all.take(i as int));
            assert(all.take(i + 1).last() == all[i as int]);
            assert(outcome_commands(bindings, all.take(i + 1)) == before + these);
        }
        let mut j: usize = 0;
        while j < matched.len()
            invariant
                list@ == all,
                bindings == command_map.binding_seq(),
                i < all.len(),
                j <= matched@.len(),
                matched@.map_values(|b: &ActionCommandBinding| *b) == matching(bindings, all[i as int].action.view(), all[i as int].context.view(), all[i as int].phase),
                these == matching(bindings, all[i as int].action.view(), all[i as int].context.view(), all[i as int].phase).map_values(|b: ActionCommandBinding| b.spec_command()),
                before == outcome_commands(bindings, all.take(i as int)),
                queue.wf(),
                results@.len() == before.len() + j,
                states.len() == results@.len() + 1,
                drafts.len() == results@.len(),
                states[0] == *old(queue),
                states.last() == *queue,
                forall|k: int| 0 <= k < results@.len() ==> {
                    &&& (#[trigger] drafts[k]).same(&(before + these)[k])
                    &&& states[k].local_submission_outcome(&states[k + 1], &drafts[k], results@[k])
                },
            decreases matched@.len() - j,
        {
            let draft = matched[j].command().duplicate();
            proof {
                assert(matched@.map_values(|b: &ActionCommandBinding| *b)[j as int] == *matched@[j as int]);
                assert((before + these)[before.len() + j] == these[j as int]);
            }
            let ghost submitted = draft;
            let result = queue.submit_local_for_next_tick(draft);
            proof {
                states = states.push(*queue);
                drafts = drafts.push(submitted);
            }
            results.push(result);
            j = j + 1;
        }
        i = i + 1;
    }
    proof {
        assert(all.take(i as int) =~= all);
        assert(submission_chain(states, drafts, *old(queue), *queue, outcome_commands(bindings, all), results@));
    }
    results
}

} // verus!
