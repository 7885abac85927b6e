//! The runtime-dispatched machine: a validated definition, its transition
//! graph, the current leaf and the storage slots, driven one event at a time.
use vstd::prelude::*;
use vstd::string::*;
use crate::definition::{MachineDefinition, EventDefinition, names, index_of, lemma_index_of, position};
use crate::errors::DynamicError;
use crate::naming::{push_char, to_snake_case, snake_case_of};
use crate::validation::{ValidationError, ValidationErrorKind, valid_definition};
use crate::graph::{TransitionGraph, TransitionEdge, graph_of};
use crate::protocol::{
    Hooks, Step, Reply, AroundStage, AroundOutcome, TransitionContext, plan, plan_of, step_fails,
    step_error, step_verdict, first_failure, first_failure_from,
};

verus! {

/// `d` is a value that `D::default()` can return.
pub open spec fn is_default<D: Default>(d: D) -> bool {
    call_ensures(D::default, (), d)
}

/// The names of a machine's events.
pub open spec fn event_names(m: MachineDefinition) -> Seq<Seq<char>> {
    m.events@.map_values(|e: EventDefinition| e.name@)
}

/// Whether occupying `leaf` keeps the slot of `owner` alive: `owner` is the
/// leaf itself or a superstate holding it.
pub open spec fn occupies(m: MachineDefinition, leaf: Seq<char>, owner: Seq<char>) -> bool {
    m.expansion(owner).contains(leaf)
}

/// The slot of `owner` after a move from `from` to `to`: a superstate that
/// stays occupied keeps its value, a state that is entered (a leaf entered
/// again included) gets a default value, every other slot is empty.
pub open spec fn slot_after<D: Default>(
    m: MachineDefinition,
    owner: Seq<char>,
    from: Seq<char>,
    to: Seq<char>,
    before: Option<D>,
    after: Option<D>,
) -> bool {
    if occupies(m, to, owner) {
        if m.is_superstate_name(owner) && occupies(m, from, owner) {
            after == before
        } else {
            after matches Some(d) && is_default(d)
        }
    } else {
        after is None
    }
}

/// A machine instance driven by event names at runtime.
pub struct DynamicMachine<D> {
    pub definition: MachineDefinition,
    pub graph: TransitionGraph,
    /// Position of the current leaf in `definition.states`.
    pub current: usize,
    /// One slot per entry of `definition.storage`.
    pub storage: Vec<Option<D>>,
}

impl<D: Default> DynamicMachine<D> {
    pub open spec fn wf(&self) -> bool {
        &&& valid_definition(self.definition)
        &&& graph_of(self.definition, self.graph)
        &&& self.current < self.definition.states@.len()
        &&& self.storage@.len() == self.definition.storage@.len()
    }

    pub open spec fn current_name(&self) -> Seq<char> {
        self.definition.leaf_names()[self.current as int]
    }

    /// The edge that event `event` takes from the current leaf, if any.
    pub open spec fn edge_on(&self, event: Seq<char>) -> Option<TransitionEdge> {
        let ei = index_of(event_names(self.definition), event);
        if ei < 0 {
            None
        } else {
            self.graph.edges@[ei]@[self.current as int]
        }
    }
}

proof fn lemma_failure_at(plan: Seq<Step>, replies: Seq<Reply>, k: int, i: int)
    requires
        0 <= k <= i < plan.len(),
        replies.len() == plan.len(),
        forall|j: int| k <= j < i ==> !step_fails(plan[j], replies[j]),
        step_fails(plan[i], replies[i]),
    ensures
        first_failure_from(plan, replies, k) == i,
    decreases i - k,
{
    if k < i {
        lemma_failure_at(plan, replies, k + 1, i);
    }
}

proof fn lemma_no_failure(plan: Seq<Step>, replies: Seq<Reply>, k: int)
    requires
        0 <= k <= plan.len(),
        replies.len() == plan.len(),
        forall|j: int| k <= j < plan.len() ==> !step_fails(plan[j], replies[j]),
    ensures
        first_failure_from(plan, replies, k) == -1,
    decreases plan.len() - k,
{
    if k < plan.len() {
        lemma_no_failure(plan, replies, k + 1);
    }
}

fn event_index(m: &MachineDefinition, name: &String) -> (r: Option<usize>)
    ensures
        match r {
            Some(i) => i < m.events@.len() && index_of(event_names(*m), name@) == i,
            None => index_of(event_names(*m), name@) == -1,
        },
{
    let ghost ns = event_names(*m);
    let mut i: usize = 0;
    while i < m.events.len()
        invariant
            i <= m.events@.len(),
            ns == event_names(*m),
            forall|j: int| 0 <= j < i ==> ns[j] != name@,
        decreases m.events@.len() - i,
    {
        if m.events[i].name == *name {
            proof {
                lemma_index_of(ns, name@, i as int);
            }
            return Some(i);
        }
        i = i + 1;
    }
    proof {
        lemma_index_of(ns, name@, i as int);
    }
    None
}

/// What `DynamicMachine::handle` did: it asked each step of the plan in turn
/// and got `replies`; on success nothing stopped it, the machine is in the
/// edge's target and every slot follows `slot_after`; on failure the first
/// stopping step gave the error and the machine is exactly as it was.
pub open spec fn handled<D: Default>(
    before: DynamicMachine<D>,
    after: DynamicMachine<D>,
    edge: TransitionEdge,
    replies: Seq<Reply>,
    r: Result<(), DynamicError>,
) -> bool {
    let plan = plan_of(edge, before.definition.action);
    &&& replies.len() == plan.len()
    &&& match r {
        Ok(()) => {
            &&& first_failure(plan, replies) == -1
            &&& after.definition == before.definition
            &&& after.graph == before.graph
            &&& after.current == edge.target_index
            &&& after.storage@.len() == before.storage@.len()
            &&& forall|k: int|
                0 <= k < before.storage@.len() ==> slot_after(
                    before.definition,
                    before.definition.storage@[k]@,
                    before.current_name(),
                    edge.target@,
                    before.storage@[k],
                    #[trigger] after.storage@[k],
                )
        },
        Err(err) => {
            let f = first_failure(plan, replies);
            &&& 0 <= f < plan.len()
            &&& step_error(plan[f], replies[f], edge.event, err)
            &&& after == before
        },
    }
}

impl<D: Default> DynamicMachine<D> {
    /// Validates the definition, builds its graph and starts in the initial
    /// state with every storage slot empty.
    pub fn new(definition: MachineDefinition) -> (r: Result<Self, ValidationError>)
        ensures
            r is Ok <==> valid_definition(definition),
            match r {
                Ok(m) => m.wf() && m.definition == definition && m.current_name()
                    == definition.initial@ && forall|k: int|
                    0 <= k < m.storage@.len() ==> #[trigger] m.storage@[k] is None,
                Err(e) => crate::validation::first_problem(definition) == Some(e.kind),
            },
    {
        match definition.validate() {
            Err(e) => Err(e),
            Ok(()) => {
                // a valid definition always yields a graph and a declared
                // initial leaf, so neither of the next two refusals happens
                let graph = match definition.build_transition_graph() {
                    Ok(g) => g,
                    Err(_) => {
                        return Err(
                            ValidationError {
                                kind: ValidationErrorKind::InvalidInitialState,
                                suggestion: None,
                            },
                        );
                    },
                };
                let current = match position(&definition.states, &definition.initial) {
                    Some(i) => i,
                    None => {
                        return Err(
                            ValidationError {
                                kind: ValidationErrorKind::InvalidInitialState,
                                suggestion: None,
                            },
                        );
                    },
                };
                let mut storage: Vec<Option<D>> = Vec::new();
                let mut k: usize = 0;
                while k < definition.storage.len()
                    invariant
                        k <= definition.storage@.len(),
                        storage@.len() == k,
                        forall|j: int| 0 <= j < k ==> #[trigger] storage@[j] is None,
                    decreases definition.storage@.len() - k,
                {
                    storage.push(None);
                    k = k + 1;
                }
                proof {
                    lemma_index_of(definition.leaf_names(), definition.initial@, current as int);
                }
                Ok(DynamicMachine { definition, graph, current, storage })
            },
        }
    }
    fn occupies_exec(&self, leaf: &String, owner: &String) -> (r: bool)
        ensures
            r == occupies(self.definition, leaf@, owner@),
    {
        let leaves = self.definition.expand_state(owner);
        let mut j: usize = 0;
        while j < leaves.len()
            invariant
                j <= leaves@.len(),
                names(leaves@) == self.definition.expansion(owner@),
                forall|m: int| 0 <= m < j ==> names(leaves@)[m] != leaf@,
            decreases leaves@.len() - j,
        {
            if leaves[j] == *leaf {
                assert(names(leaves@)[j as int] == leaf@);
                return true;
            }
            j = j + 1;
        }
        false
    }

    /// Handles one event: finds the edge it takes from the current leaf and
    /// runs its steps through `hooks`, stopping at the first step that fails.
    /// Only when every step passes does the machine move to the edge's target
    /// and update its storage; a failed attempt leaves it exactly as it was.
    /// An around callback that aborts at the AfterSuccess stage is rolled
    /// back in the same way as a rejecting action hook.
    pub fn handle<P, H: Hooks<P>>(&mut self, event: &String, payload: &P, hooks: &mut H) -> (r:
        Result<(), DynamicError>)
        requires
            old(self).wf(),
        ensures
            final(self).wf(),
            match old(self).edge_on(event@) {
                None => r == Err::<(), DynamicError>(
                    DynamicError::InvalidTransition {
                        from: old(self).definition.states@[old(self).current as int],
                        event: *event,
                    },
                ) && *final(self) == *old(self),
                Some(edge) => exists|replies: Seq<Reply>|
                    handled(*old(self), *final(self), edge, replies, r),
            },
    {
        let ei = match event_index(&self.definition, event) {
            None => {
                return Err(
                    DynamicError::InvalidTransition {
                        from: self.definition.states[self.current].clone(),
                        event: event.clone(),
                    },
                );
            },
            Some(i) => i,
        };
        assert(self.graph.edges@[ei as int]@.len() == self.definition.states@.len());
        let edge = match &self.graph.edges[ei][self.current] {
            None => {
                return Err(
                    DynamicError::InvalidTransition {
                        from: self.definition.states[self.current].clone(),
                        event: event.clone(),
                    },
                );
            },
            Some(e) => e,
        };
        let steps = plan(edge, &self.definition.action);
        let ctx = TransitionContext::new(
            self.definition.states[self.current].clone(),
            edge.target.clone(),
            edge.event.clone(),
        );
        let ghost mut replies: Seq<Reply> = Seq::empty();
        let mut i: usize = 0;
        while i < steps.len()
            invariant
                *self == *old(self),
                self.wf(),
                ei < self.definition.events@.len(),
                index_of(event_names(self.definition), event@) == ei,
                self.graph.edges@[ei as int]@[self.current as int] == Some(*edge),
                steps@ == plan_of(*edge, self.definition.action),
                i <= steps@.len(),
                replies.len() == i,
                forall|j: int| 0 <= j < i ==> !step_fails(steps@[j], #[trigger] replies[j]),
            decreases steps@.len() - i,
        {
            let reply = match &steps[i] {
                Step::AroundBefore(w) => match hooks.around(w, AroundStage::Before, &ctx) {
                    AroundOutcome::Proceed => Reply::Proceed,
                    AroundOutcome::Abort(e) => Reply::Abort(e),
                },
                Step::Guard(g) => Reply::Answer(hooks.guard(g, payload)),
                Step::Unless(g) => Reply::Answer(hooks.guard(g, payload)),
                Step::Before(c) => {
                    hooks.callback(c, payload);
                    Reply::Done
                },
                Step::Commit => Reply::Done,
                Step::Action(a) => Reply::Answer(hooks.action(a, payload)),
                Step::After(c) => {
                    hooks.callback(c, payload);
                    Reply::Done
                },
                Step::AroundAfter(w) => match hooks.around(w, AroundStage::AfterSuccess, &ctx) {
                    AroundOutcome::Proceed => Reply::Proceed,
                    AroundOutcome::Abort(e) => Reply::Abort(e),
                },
            };
            match step_verdict(&steps[i], &reply, &edge.event) {
                Some(err) => {
                    proof {
                        let full = replies.push(reply) + Seq::new(
                            (steps@.len() - i - 1) as nat,
                            |j: int| Reply::Done,
                        );
                        assert forall|j: int| 0 <= j < i implies !step_fails(
                            steps@[j],
                            full[j],
                        ) by {
                            assert(full[j] == replies[j]);
                        }
                        assert(full[i as int] == reply);
                        lemma_failure_at(steps@, full, 0, i as int);
                        assert(handled(*old(self), *self, *edge, full, Err(err)));
                    }
                    return Err(err);
                },
                None => {},
            }
            proof {
                replies = replies.push(reply);
            }
            i = i + 1;
        }
        proof {
            lemma_no_failure(steps@, replies, 0);
        }
        let target = edge.target_index;
        let from_name = self.definition.states[self.current].clone();
        let to_name = edge.target.clone();
        let ghost old_storage = self.storage@;
        let mut k: usize = 0;
        while k < self.storage.len()
            invariant
                self.definition == old(self).definition,
                self.graph == old(self).graph,
                self.current == old(self).current,
                self.storage@.len() == old_storage.len(),
                old_storage == old(self).storage@,
                old_storage.len() == self.definition.storage@.len(),
                from_name@ == old(self).current_name(),
                to_name@ == edge.target@,
                k <= self.storage@.len(),
                forall|j: int|
                    k <= j < old_storage.len() ==> #[trigger] self.storage@[j] == old_storage[j],
                forall|j: int|
                    0 <= j < k ==> slot_after(
                        self.definition,
                        self.definition.storage@[j]@,
                        from_name@,
                        to_name@,
                        old_storage[j],
                        #[trigger] self.storage@[j],
                    ),
            decreases old_storage.len() - k,
        {
            let owner = &self.definition.storage[k];
            let entering = self.occupies_exec(&to_name, owner);
            if entering {
                let keep = self.definition.is_superstate(owner) && self.occupies_exec(&from_name, owner);
                if !keep {
                    self.storage[k] = Some(D::default());
                }
            } else {
                self.storage[k] = None;
            }
            k = k + 1;
        }
        self.current = target;
        proof {
            assert(handled(*old(self), *self, *edge, replies, Ok(())));
        }
        Ok(())
    }
}

/// The operation name a storage setter reports: `set_<owner in snake_case>_data`.
pub open spec fn set_operation_name(owner: Seq<char>) -> Seq<char> {
    seq!['s', 'e', 't', '_'] + snake_case_of(owner) + seq!['_', 'd', 'a', 't', 'a']
}

fn set_operation(owner: &String) -> (r: String)
    ensures
        r@ == set_operation_name(owner@),
{
    let mut r = String::new();
    push_char(&mut r, 's');
    push_char(&mut r, 'e');
    push_char(&mut r, 't');
    push_char(&mut r, '_');
    let snake = to_snake_case(owner.as_str());
    r.append(snake.as_str());
    push_char(&mut r, '_');
    push_char(&mut r, 'd');
    push_char(&mut r, 'a');
    push_char(&mut r, 't');
    push_char(&mut r, 'a');
    assert(r@ =~= set_operation_name(owner@));
    r
}

impl<D: Default> DynamicMachine<D> {
    /// Position of the storage slot that `owner` owns, or -1.
    pub open spec fn slot_index(&self, owner: Seq<char>) -> int {
        index_of(names(self.definition.storage@), owner)
    }

    /// The name of the current leaf.
    pub fn current_state(&self) -> (r: &String)
        requires
            self.wf(),
        ensures
            *r == self.definition.states@[self.current as int],
    {
        &self.definition.states[self.current]
    }

    /// Whether the machine currently occupies the leaf `state`.
    pub fn is_in(&self, state: &String) -> (r: bool)
        requires
            self.wf(),
        ensures
            r == (self.current_name() == state@),
    {
        self.definition.states[self.current] == *state
    }

    /// The value in the storage slot of `owner`, if that slot is filled.
    pub fn data(&self, owner: &String) -> (r: Option<&D>)
        requires
            self.wf(),
        ensures
            match r {
                Some(d) => self.slot_index(owner@) >= 0 && self.storage@[self.slot_index(owner@)]
                    == Some(*d),
                None => self.slot_index(owner@) < 0 || self.storage@[self.slot_index(
                    owner@,
                )] is None,
            },
    {
        match position(&self.definition.storage, owner) {
            Some(k) => match &self.storage[k] {
                Some(d) => Some(d),
                None => None,
            },
            None => None,
        }
    }

    /// Replaces the value in the storage slot of `owner`; refused with
    /// `WrongState` unless `owner` has a slot and the current leaf is `owner`
    /// or lies inside it.
    pub fn set_data(&mut self, owner: &String, value: D) -> (r: Result<(), DynamicError>)
        requires
            old(self).wf(),
        ensures
            final(self).wf(),
            ({
                let k = old(self).slot_index(owner@);
                if k >= 0 && occupies(old(self).definition, old(self).current_name(), owner@) {
                    &&& r is Ok
                    &&& final(self).definition == old(self).definition
                    &&& final(self).graph == old(self).graph
                    &&& final(self).current == old(self).current
                    &&& final(self).storage@ == old(self).storage@.update(k, Some(value))
                } else {
                    &&& *final(self) == *old(self)
                    &&& r matches Err(DynamicError::WrongState { expected, actual, operation })
                    &&& expected == *owner
                    &&& actual == old(self).definition.states@[old(self).current as int]
                    &&& operation@ == set_operation_name(owner@)
                }
            }),
    {
        let here = self.occupies_exec(&self.definition.states[self.current], owner);
        match position(&self.definition.storage, owner) {
            Some(k) => {
                if here {
                    self.storage[k] = Some(value);
                    return Ok(());
                }
            },
            None => {},
        }
        Err(
            DynamicError::WrongState {
                expected: owner.clone(),
                actual: self.definition.states[self.current].clone(),
                operation: set_operation(owner),
            },
        )
    }
}

/// Law (storage lifecycle): after a move, the slot of a state that the
/// target occupies and the source did not is filled with a default value,
/// and the slot of a state that the target does not occupy is empty; a leaf
/// entered again starts over from a default value.
pub proof fn lemma_storage_lifecycle<D: Default>(
    m: MachineDefinition,
    owner: Seq<char>,
    from: Seq<char>,
    to: Seq<char>,
    before: Option<D>,
    after: Option<D>,
)
    requires
        slot_after(m, owner, from, to, before, after),
    ensures
        occupies(m, to, owner) && !occupies(m, from, owner) ==> (after matches Some(d) && is_default(d)),
        !m.is_superstate_name(owner) && occupies(m, to, owner) ==> (after matches Some(d)
            && is_default(d)),
        !occupies(m, to, owner) ==> after is None,
{
}

/// Law (storage is visible while occupied): once `set_data` has filled the
/// slot of `owner`, `data` on the resulting machine hands back that value.
pub proof fn lemma_storage_visible<D: Default>(
    a: DynamicMachine<D>,
    b: DynamicMachine<D>,
    owner: Seq<char>,
    value: D,
)
    requires
        a.wf(),
        a.slot_index(owner) >= 0,
        b.definition == a.definition,
        b.storage@ == a.storage@.update(a.slot_index(owner), Some(value)),
    ensures
        b.slot_index(owner) >= 0,
        b.storage@[b.slot_index(owner)] == Some(value),
{
    let k = a.slot_index(owner);
    assert(k < a.storage@.len()) by {
        let ns = names(a.definition.storage@);
        assert(crate::definition::first_match(ns, owner, choose|i: int| crate::definition::first_match(ns, owner, i)));
    }
}

/// Law (superstate storage): moving between two leaves of the same
/// superstate leaves its slot as it was, entering it from outside fills the
/// slot with a default value, and leaving it empties the slot.
pub proof fn lemma_superstate_storage<D: Default>(
    m: MachineDefinition,
    owner: Seq<char>,
    from: Seq<char>,
    to: Seq<char>,
    before: Option<D>,
    after: Option<D>,
)
    requires
        m.is_superstate_name(owner),
        slot_after(m, owner, from, to, before, after),
    ensures
        occupies(m, from, owner) && occupies(m, to, owner) ==> after == before,
        !occupies(m, from, owner) && occupies(m, to, owner) ==> (after matches Some(d) && is_default(d)),
        !occupies(m, to, owner) ==> after is None,
{
}

/// Law (no loss on failure, rollback): when a guard, an unless guard, an
/// around callback or the action hook stops a transition, the machine that
/// `handle` leaves behind is the one it started from, state and storage
/// alike, so a failed attempt is the same as no attempt.
pub proof fn lemma_failed_attempt_changes_nothing<D: Default>(
    before: DynamicMachine<D>,
    after: DynamicMachine<D>,
    edge: TransitionEdge,
    replies: Seq<Reply>,
    err: DynamicError,
)
    requires
        handled(before, after, edge, replies, Err(err)),
    ensures
        after.current == before.current,
        after.storage@ == before.storage@,
        after == before,
{
}

/// Values that name a machine's state.
pub trait MachineState {}

impl MachineState for usize {}

/// A state type that lies inside the superstate `Super`, so that a
/// transition declared on `Super` applies to it.
pub trait SubstateOf<Super> {}

/// A machine instance that reports its current state.
pub trait Machine {
    type State;

    fn state(&self) -> Self::State;
}

impl<D: Default> Machine for DynamicMachine<D> {
    /// The position of the current leaf in the definition's states.
    type State = usize;

    fn state(&self) -> usize {
        self.current
    }
}

} // verus!