//! The transition protocol: the ordered steps a transition runs through, the
//! hooks that answer them, and which answer stops the transition with which
//! error.
use vstd::prelude::*;
use crate::errors::{
    TransitionError, TransitionErrorKind, GuardError, DynamicError, converts_guard_error,
};
use crate::graph::TransitionEdge;

verus! {

/// The two calls an around callback receives: before anything else runs,
/// and after the transition has succeeded.
#[derive(Debug, Clone, Copy, PartialEq, Eq, Structural)]
pub enum AroundStage {
    Before,
    AfterSuccess,
}

/// An around callback's answer.
#[derive(Debug, Clone)]
pub enum AroundOutcome {
    Proceed,
    Abort(TransitionError),
}

/// What an around callback is told about the transition it wraps.
#[derive(Debug, Clone, PartialEq, Eq)]
pub struct TransitionContext {
    pub from: String,
    pub to: String,
    pub event: String,
}

impl TransitionContext {
    pub fn new(from: String, to: String, event: String) -> (r: Self)
        ensures
            r.from == from,
            r.to == to,
            r.event == event,
    {
        TransitionContext { from, to, event }
    }
}

/// The guards and callbacks of a machine, implemented by its user and called
/// by name with the event's payload.
pub trait Hooks<P> {
    /// A guard or an unless guard.
    fn guard(&mut self, name: &String, payload: &P) -> bool;

    /// A before or after callback.
    fn callback(&mut self, name: &String, payload: &P);

    /// An around callback at one of its two stages.
    fn around(&mut self, name: &String, stage: AroundStage, transition: &TransitionContext) -> AroundOutcome;

    /// The machine-wide action hook; `false` rolls the transition back.
    fn action(&mut self, name: &String, payload: &P) -> bool;
}

/// One step of a transition.
#[derive(Debug, Clone, PartialEq, Eq)]
pub enum Step {
    AroundBefore(String),
    Guard(String),
    Unless(String),
    Before(String),
    /// The state change itself.
    Commit,
    Action(String),
    After(String),
    AroundAfter(String),
}

/// The answer a step got: an around callback's outcome, a guard's or the
/// action hook's verdict, or nothing for a plain callback and the commit.
#[derive(Debug, Clone)]
pub enum Reply {
    Proceed,
    Abort(TransitionError),
    Answer(bool),
    Done,
}

#[derive(Debug, Clone, Copy, PartialEq, Eq, Structural)]
pub enum StepKind {
    AroundBefore,
    Guard,
    Unless,
    Before,
    After,
    AroundAfter,
}

pub open spec fn make_step(kind: StepKind, n: String) -> Step {
    match kind {
        StepKind::AroundBefore => Step::AroundBefore(n),
        StepKind::Guard => Step::Guard(n),
        StepKind::Unless => Step::Unless(n),
        StepKind::Before => Step::Before(n),
        StepKind::After => Step::After(n),
        StepKind::AroundAfter => Step::AroundAfter(n),
    }
}

pub open spec fn steps(kind: StepKind, v: Seq<String>) -> Seq<Step> {
    v.map_values(|n: String| make_step(kind, n))
}

/// The steps of a transition along `edge`, in the order they run: around
/// callbacks (Before stage) in declaration order, guards, unless guards,
/// before callbacks, the state change, the action hook if the machine has
/// one, after callbacks, and the around callbacks again (AfterSuccess stage)
/// in reverse order.
pub open spec fn plan_of(edge: TransitionEdge, action: Option<String>) -> Seq<Step> {
    steps(StepKind::AroundBefore, edge.around@) + steps(StepKind::Guard, edge.guards@) + steps(
        StepKind::Unless,
        edge.unless@,
    ) + steps(StepKind::Before, edge.before@) + seq![Step::Commit] + (match action {
        Some(a) => seq![Step::Action(a)],
        None => Seq::empty(),
    }) + steps(StepKind::After, edge.after@) + steps(StepKind::AroundAfter, edge.around@.reverse())
}

/// Whether `reply` stops the transition at `step`: an around callback that
/// aborts, a guard that answers false, an unless guard that answers true, or
/// an action hook that answers false.
pub open spec fn step_fails(step: Step, reply: Reply) -> bool {
    match step {
        Step::AroundBefore(_) => reply is Abort,
        Step::AroundAfter(_) => reply is Abort,
        Step::Guard(_) => reply == Reply::Answer(false),
        Step::Unless(_) => reply == Reply::Answer(true),
        Step::Action(_) => reply == Reply::Answer(false),
        _ => false,
    }
}

/// The name an around callback's abort is reported under: the guard or
/// action its error names, else the callback's own.
pub open spec fn abort_name(kind: TransitionErrorKind, callback: String) -> String {
    match kind {
        TransitionErrorKind::GuardFailed { guard } => guard,
        TransitionErrorKind::ActionFailed { action } => action,
        TransitionErrorKind::InvalidTransition => callback,
    }
}

/// Whether `err` is the error reported when `reply` stops event `event` at `step`.
pub open spec fn step_error(step: Step, reply: Reply, event: String, err: DynamicError) -> bool {
    match step {
        Step::Guard(g) => err == (DynamicError::GuardFailed { guard: g, event }),
        Step::Unless(g) => err == (DynamicError::GuardFailed { guard: g, event }),
        Step::Action(a) => err == (DynamicError::ActionFailed { action: a, event }),
        Step::AroundBefore(w) | Step::AroundAfter(w) => match reply {
            Reply::Abort(te) => converts_guard_error(
                GuardError { guard: abort_name(te.kind, w), event, kind: te.kind },
                err,
            ),
            _ => false,
        },
        _ => false,
    }
}

/// The first step from `i` on that its reply stops, or -1.
pub open spec fn first_failure_from(plan: Seq<Step>, replies: Seq<Reply>, i: int) -> int
    decreases plan.len() - i,
{
    if i < 0 || i >= plan.len() {
        -1
    } else if step_fails(plan[i], replies[i]) {
        i
    } else {
        first_failure_from(plan, replies, i + 1)
    }
}

pub open spec fn first_failure(plan: Seq<Step>, replies: Seq<Reply>) -> int {
    first_failure_from(plan, replies, 0)
}

fn append_steps(r: &mut Vec<Step>, v: &Vec<String>, kind: StepKind)
    ensures
        final(r)@ == old(r)@ + steps(kind, v@),
{
    let ghost start = r@;
    let mut i: usize = 0;
    while i < v.len()
        invariant
            i <= v@.len(),
            r@ == start + steps(kind, v@.subrange(0, i as int)),
        decreases v@.len() - i,
    {
        let n = v[i].clone();
        let s = match kind {
            StepKind::AroundBefore => Step::AroundBefore(n),
            StepKind::Guard => Step::Guard(n),
            StepKind::Unless => Step::Unless(n),
            StepKind::Before => Step::Before(n),
            StepKind::After => Step::After(n),
            StepKind::AroundAfter => Step::AroundAfter(n),
        };
        r.push(s);
        assert(steps(kind, v@.subrange(0, i + 1)) =~= steps(kind, v@.subrange(0, i as int)).push(
            make_step(kind, v@[i as int]),
        ));
        i = i + 1;
    }
    assert(v@.subrange(0, v@.len() as int) == v@);
}

fn append_steps_reversed(r: &mut Vec<Step>, v: &Vec<String>, kind: StepKind)
    ensures
        final(r)@ == old(r)@ + steps(kind, v@.reverse()),
{
    let ghost start = r@;
    let mut i: usize = v.len();
    while i > 0
        invariant
            i <= v@.len(),
            r@ == start + steps(kind, v@.subrange(i as int, v@.len() as int).reverse()),
        decreases i,
    {
        i = i - 1;
        let n = v[i].clone();
        let s = match kind {
            StepKind::AroundBefore => Step::AroundBefore(n),
            StepKind::Guard => Step::Guard(n),
            StepKind::Unless => Step::Unless(n),
            StepKind::Before => Step::Before(n),
            StepKind::After => Step::After(n),
            StepKind::AroundAfter => Step::AroundAfter(n),
        };
        r.push(s);
        assert(v@.subrange(i as int, v@.len() as int).reverse() =~= v@.subrange(
            i + 1,
            v@.len() as int,
        ).reverse().push(v@[i as int]));
        assert(steps(kind, v@.subrange(i as int, v@.len() as int).reverse()) =~= steps(
            kind,
            v@.subrange(i + 1, v@.len() as int).reverse(),
        ).push(make_step(kind, v@[i as int])));
    }
    assert(v@.subrange(0, v@.len() as int) == v@);
}

/// The steps of a transition along `edge`, with the machine's action hook.
pub fn plan(edge: &TransitionEdge, action: &Option<String>) -> (r: Vec<Step>)
    ensures
        r@ == plan_of(*edge, *action),
{
    let mut r: Vec<Step> = Vec::new();
    append_steps(&mut r, &edge.around, StepKind::AroundBefore);
    append_steps(&mut r, &edge.guards, StepKind::Guard);
    append_steps(&mut r, &edge.unless, StepKind::Unless);
    append_steps(&mut r, &edge.before, StepKind::Before);
    r.push(Step::Commit);
    match action {
        Some(a) => {
            r.push(Step::Action(a.clone()));
        },
        None => {},
    }
    append_steps(&mut r, &edge.after, StepKind::After);
    append_steps_reversed(&mut r, &edge.around, StepKind::AroundAfter);
    assert(r@ =~= plan_of(*edge, *action));
    r
}

/// Whether `reply` stops the transition at `step`, and with which error.
pub fn step_verdict(step: &Step, reply: &Reply, event: &String) -> (r: Option<DynamicError>)
    ensures
        r is Some <==> step_fails(*step, *reply),
        r matches Some(err) ==> step_error(*step, *reply, *event, err),
{
    match step {
        Step::Guard(g) => match reply {
            Reply::Answer(false) => Some(DynamicError::GuardFailed { guard: g.clone(), event: event.clone() }),
            _ => None,
        },
        Step::Unless(g) => match reply {
            Reply::Answer(true) => Some(DynamicError::GuardFailed { guard: g.clone(), event: event.clone() }),
            _ => None,
        },
        Step::Action(a) => match reply {
            Reply::Answer(false) => Some(DynamicError::ActionFailed { action: a.clone(), event: event.clone() }),
            _ => None,
        },
        Step::AroundBefore(w) | Step::AroundAfter(w) => match reply {
            Reply::Abort(te) => {
                let name = match &te.kind {
                    TransitionErrorKind::GuardFailed { guard } => guard.clone(),
                    TransitionErrorKind::ActionFailed { action } => action.clone(),
                    TransitionErrorKind::InvalidTransition => w.clone(),
                };
                let kind = match &te.kind {
                    TransitionErrorKind::GuardFailed { guard } => TransitionErrorKind::GuardFailed { guard: guard.clone() },
                    TransitionErrorKind::ActionFailed { action } => TransitionErrorKind::ActionFailed { action: action.clone() },
                    TransitionErrorKind::InvalidTransition => TransitionErrorKind::InvalidTransition,
                };
                Some(DynamicError::from_guard_error(GuardError::with_kind(name, event.clone(), kind)))
            },
            _ => None,
        },
        _ => None,
    }
}

/// The first failure from `k` on is a step whose reply stops it with every
/// step between passing; -1 means every step from `k` on passes.
pub proof fn lemma_first_failure(plan: Seq<Step>, replies: Seq<Reply>, k: int)
    requires
        0 <= k <= plan.len(),
        replies.len() == plan.len(),
    ensures
        first_failure_from(plan, replies, k) == -1 ==> forall|j: int|
            k <= j < plan.len() ==> !step_fails(plan[j], replies[j]),
        first_failure_from(plan, replies, k) != -1 ==> {
            let f = first_failure_from(plan, replies, k);
            &&& k <= f < plan.len()
            &&& step_fails(plan[f], replies[f])
            &&& forall|j: int| k <= j < f ==> !step_fails(plan[j], replies[j])
        },
    decreases plan.len() - k,
{
    if k < plan.len() && !step_fails(plan[k], replies[k]) {
        lemma_first_failure(plan, replies, k + 1);
    }
}

/// Law (guards are ANDed): where every step but the guards passes and each
/// guard answered, the transition goes through exactly when every guard
/// answered true, and a failure is reported at the first guard, in plan
/// order (event-level guards before transition-level ones), that answered false.
pub proof fn lemma_guards_all_pass(edge: TransitionEdge, action: Option<String>, replies: Seq<Reply>)
    requires
        replies.len() == plan_of(edge, action).len(),
        forall|i: int|
            0 <= i < replies.len() && !(plan_of(edge, action)[i] is Guard) ==> !step_fails(
                plan_of(edge, action)[i],
                replies[i],
            ),
        forall|i: int|
            0 <= i < replies.len() && plan_of(edge, action)[i] is Guard ==> replies[i] is Answer,
    ensures
        ({
            let plan = plan_of(edge, action);
            let f = first_failure(plan, replies);
            &&& (f == -1) <==> forall|i: int|
                0 <= i < plan.len() && plan[i] is Guard ==> replies[i] == Reply::Answer(true)
            &&& f != -1 ==> {
                &&& plan[f] is Guard
                &&& replies[f] == Reply::Answer(false)
                &&& forall|j: int|
                    0 <= j < f && plan[j] is Guard ==> replies[j] == Reply::Answer(true)
            }
        }),
{
    let plan = plan_of(edge, action);
    lemma_first_failure(plan, replies, 0);
    let f = first_failure(plan, replies);
    if f == -1 {
        assert forall|i: int|
            0 <= i < plan.len() && plan[i] is Guard implies replies[i] == Reply::Answer(true) by {
            assert(!step_fails(plan[i], replies[i]));
        }
    } else {
        assert(plan[f] is Guard);
        assert forall|j: int|
            0 <= j < f && plan[j] is Guard implies replies[j] == Reply::Answer(true) by {
            assert(!step_fails(plan[j], replies[j]));
        }
    }
}

/// Law (unless guards are inverted): an unless guard that answers true
/// always stops the transition, at that step or earlier; when every step
/// before it passed, the failure is reported as a failed guard named after it.
pub proof fn lemma_unless_blocks(
    edge: TransitionEdge,
    action: Option<String>,
    replies: Seq<Reply>,
    i: int,
    event: String,
    err: DynamicError,
)
    requires
        replies.len() == plan_of(edge, action).len(),
        0 <= i < replies.len(),
        plan_of(edge, action)[i] is Unless,
        replies[i] == Reply::Answer(true),
    ensures
        ({
            let plan = plan_of(edge, action);
            let f = first_failure(plan, replies);
            &&& 0 <= f <= i
            &&& (forall|j: int| 0 <= j < i ==> !step_fails(plan[j], replies[j])) ==> {
                &&& f == i
                &&& plan[i] matches Step::Unless(u) && (step_error(plan[f], replies[f], event, err)
                    <==> err == (DynamicError::GuardFailed { guard: u, event }))
            }
        }),
{
    let plan = plan_of(edge, action);
    lemma_first_failure(plan, replies, 0);
    assert(step_fails(plan[i], replies[i]));
}

/// Law (callback order): with one around callback, one guard, one before and
/// one after callback, no unless guard and no action hook, the steps are the
/// around callback (Before stage), the guard, the before callback, the state
/// change, the after callback and the around callback (AfterSuccess stage).
pub proof fn lemma_callback_order(edge: TransitionEdge, w: String, g: String, b: String, a: String)
    requires
        edge.around@ == seq![w],
        edge.guards@ == seq![g],
        edge.unless@.len() == 0,
        edge.before@ == seq![b],
        edge.after@ == seq![a],
    ensures
        plan_of(edge, None) == seq![
            Step::AroundBefore(w),
            Step::Guard(g),
            Step::Before(b),
            Step::Commit,
            Step::After(a),
            Step::AroundAfter(w),
        ],
{
    assert(edge.around@.reverse() =~= seq![w]);
    assert(steps(StepKind::AroundBefore, edge.around@) =~= seq![Step::AroundBefore(w)]);
    assert(steps(StepKind::Guard, edge.guards@) =~= seq![Step::Guard(g)]);
    assert(steps(StepKind::Unless, edge.unless@) =~= Seq::<Step>::empty());
    assert(steps(StepKind::Before, edge.before@) =~= seq![Step::Before(b)]);
    assert(steps(StepKind::After, edge.after@) =~= seq![Step::After(a)]);
    assert(steps(StepKind::AroundAfter, edge.around@.reverse()) =~= seq![Step::AroundAfter(w)]);
    assert(plan_of(edge, None) =~= seq![
        Step::AroundBefore(w),
        Step::Guard(g),
        Step::Before(b),
        Step::Commit,
        Step::After(a),
        Step::AroundAfter(w),
    ]);
}

} // verus!