//! Validation of a machine definition, run once before its transition graph
//! is built. It stops at the first violated check.
use vstd::prelude::*;
use vstd::string::*;
use crate::definition::{MachineDefinition, TransitionDefinition};
use crate::naming::{is_snake_case, snake_case_spelling, snake_case_of, to_snake_case};

verus! {

/// Which check failed, and where: positions index `states`, `events`, an
/// event's `transitions` and a transition's `sources`.
#[derive(Debug, Clone, Copy, PartialEq, Eq, Structural)]
pub enum ValidationErrorKind {
    /// The initial state is a superstate or no declared leaf.
    InvalidInitialState,
    /// The state at this position repeats an earlier one.
    DuplicateState { state: usize },
    /// The event's name is not snake_case.
    NamingConventionViolation { event: usize },
    EventWithoutTransition { event: usize },
    TransitionMissingSource { event: usize, transition: usize },
    TransitionMissingTarget { event: usize, transition: usize },
    /// The target is a superstate without a child to enter.
    UnresolvedSuperstateTarget { event: usize, transition: usize },
    /// The target (`source` is `None`) or the source at that position names
    /// no declared leaf, or a superstate that holds none.
    UnknownSourceOrTarget { event: usize, transition: usize, source: Option<usize> },
}

/// A validation failure; a naming violation carries the snake_case spelling
/// to use instead.
#[derive(Debug, Clone, PartialEq, Eq)]
pub struct ValidationError {
    pub kind: ValidationErrorKind,
    pub suggestion: Option<String>,
}

/// The first position from `j` on whose name already occurs before it, or -1.
pub open spec fn first_duplicate_from(s: Seq<Seq<char>>, j: int) -> int
    decreases s.len() - j,
{
    if j < 0 || j >= s.len() {
        -1
    } else if s.subrange(0, j).contains(s[j]) {
        j
    } else {
        first_duplicate_from(s, j + 1)
    }
}

/// The first source from `k` on that stands for no leaf, or -1.
pub open spec fn unknown_source_from(
    m: MachineDefinition,
    t: TransitionDefinition,
    k: int,
) -> int
    decreases t.sources@.len() - k,
{
    if k < 0 || k >= t.sources@.len() {
        -1
    } else if m.expansion(t.sources@[k]@).len() == 0 {
        k
    } else {
        unknown_source_from(m, t, k + 1)
    }
}

pub open spec fn transition_problem(m: MachineDefinition, ei: int, ti: int) -> Option<
    ValidationErrorKind,
> {
    let t = m.events@[ei].transitions@[ti];
    let (event, transition) = (ei as usize, ti as usize);
    if t.sources@.len() == 0 {
        Some(ValidationErrorKind::TransitionMissingSource { event, transition })
    } else if t.target@.len() == 0 {
        Some(ValidationErrorKind::TransitionMissingTarget { event, transition })
    } else if m.resolved_target(t.target@) is None {
        Some(ValidationErrorKind::UnresolvedSuperstateTarget { event, transition })
    } else if !m.leaf_names().contains(m.resolved_target(t.target@).unwrap()) {
        Some(ValidationErrorKind::UnknownSourceOrTarget { event, transition, source: None })
    } else if unknown_source_from(m, t, 0) >= 0 {
        Some(
            ValidationErrorKind::UnknownSourceOrTarget {
                event,
                transition,
                source: Some(unknown_source_from(m, t, 0) as usize),
            },
        )
    } else {
        None
    }
}

pub open spec fn transitions_problem_from(m: MachineDefinition, ei: int, ti: int) -> Option<
    ValidationErrorKind,
>
    decreases m.events@[ei].transitions@.len() - ti,
{
    if ti < 0 || ti >= m.events@[ei].transitions@.len() {
        None
    } else if transition_problem(m, ei, ti) is Some {
        transition_problem(m, ei, ti)
    } else {
        transitions_problem_from(m, ei, ti + 1)
    }
}

pub open spec fn event_problem(m: MachineDefinition, ei: int) -> Option<ValidationErrorKind> {
    let e = m.events@[ei];
    if !snake_case_spelling(e.name@) {
        Some(ValidationErrorKind::NamingConventionViolation { event: ei as usize })
    } else if e.transitions@.len() == 0 {
        Some(ValidationErrorKind::EventWithoutTransition { event: ei as usize })
    } else {
        transitions_problem_from(m, ei, 0)
    }
}

pub open spec fn events_problem_from(m: MachineDefinition, ei: int) -> Option<
    ValidationErrorKind,
>
    decreases m.events@.len() - ei,
{
    if ei < 0 || ei >= m.events@.len() {
        None
    } else if event_problem(m, ei) is Some {
        event_problem(m, ei)
    } else {
        events_problem_from(m, ei + 1)
    }
}

/// The first check that `m` violates, in the order the validator runs them:
/// the initial state, duplicate states, then each event in turn.
pub open spec fn first_problem(m: MachineDefinition) -> Option<ValidationErrorKind> {
    if m.is_superstate_name(m.initial@) || !m.leaf_names().contains(m.initial@) {
        Some(ValidationErrorKind::InvalidInitialState)
    } else if first_duplicate_from(m.leaf_names(), 0) >= 0 {
        Some(
            ValidationErrorKind::DuplicateState {
                state: first_duplicate_from(m.leaf_names(), 0) as usize,
            },
        )
    } else {
        events_problem_from(m, 0)
    }
}

/// A definition that passes validation.
pub open spec fn valid_definition(m: MachineDefinition) -> bool {
    first_problem(m) is None
}

proof fn lemma_transitions_problem_not_naming(m: MachineDefinition, ei: int, ti: int)
    ensures
        !(transitions_problem_from(m, ei, ti) matches Some(
            ValidationErrorKind::NamingConventionViolation { .. },
        )),
    decreases m.events@[ei].transitions@.len() - ti,
{
    if 0 <= ti < m.events@[ei].transitions@.len() {
        lemma_transitions_problem_not_naming(m, ei, ti + 1);
    }
}

fn kind_only(kind: ValidationErrorKind) -> (r: ValidationError)
    ensures
        r.kind == kind,
        r.suggestion is None,
{
    ValidationError { kind, suggestion: None }
}

impl MachineDefinition {
    fn first_duplicate(&self) -> (r: Option<usize>)
        ensures
            match r {
                Some(j) => first_duplicate_from(self.leaf_names(), 0) == j,
                None => first_duplicate_from(self.leaf_names(), 0) == -1,
            },
    {
        let ghost s = self.leaf_names();
        let mut j: usize = 0;
        while j < self.states.len()
            invariant
                s == self.leaf_names(),
                j <= s.len(),
                first_duplicate_from(s, 0) == first_duplicate_from(s, j as int),
            decreases s.len() - j,
        {
            let mut i: usize = 0;
            let mut seen = false;
            while i < j && !seen
                invariant
                    s == self.leaf_names(),
                    i <= j < s.len(),
                    seen ==> s.subrange(0, j as int).contains(s[j as int]),
                    !seen ==> forall|k: int| 0 <= k < i ==> s[k] != s[j as int],
                decreases j - i,
            {
                if self.states[i] == self.states[j] {
                    assert(s.subrange(0, j as int)[i as int] == s[j as int]);
                    seen = true;
                }
                i = i + 1;
            }
            if seen {
                return Some(j);
            }
            assert(!s.subrange(0, j as int).contains(s[j as int]));
            j = j + 1;
        }
        None
    }

    fn unknown_source(&self, t: &TransitionDefinition) -> (r: Option<usize>)
        ensures
            match r {
                Some(k) => unknown_source_from(*self, *t, 0) == k,
                None => unknown_source_from(*self, *t, 0) == -1,
            },
    {
        let mut k: usize = 0;
        while k < t.sources.len()
            invariant
                k <= t.sources@.len(),
                unknown_source_from(*self, *t, 0) == unknown_source_from(*self, *t, k as int),
            decreases t.sources@.len() - k,
        {
            let leaves = self.expand_state(&t.sources[k]);
            if leaves.len() == 0 {
                return Some(k);
            }
            k = k + 1;
        }
        None
    }

    fn check_transition(&self, ei: usize, ti: usize) -> (r: Option<ValidationErrorKind>)
        requires
            ei < self.events@.len(),
            ti < self.events@[ei as int].transitions@.len(),
        ensures
            r == transition_problem(*self, ei as int, ti as int),
    {
        let t = &self.events[ei].transitions[ti];
        if t.sources.len() == 0 {
            return Some(ValidationErrorKind::TransitionMissingSource { event: ei, transition: ti });
        }
        if t.target.as_str().unicode_len() == 0 {
            return Some(ValidationErrorKind::TransitionMissingTarget { event: ei, transition: ti });
        }
        match self.resolve_target(&t.target) {
            None => Some(ValidationErrorKind::UnresolvedSuperstateTarget { event: ei, transition: ti }),
            Some(leaf) => {
                if !self.is_leaf(&leaf) {
                    return Some(ValidationErrorKind::UnknownSourceOrTarget { event: ei, transition: ti, source: None });
                }
                match self.unknown_source(t) {
                    Some(k) => Some(ValidationErrorKind::UnknownSourceOrTarget { event: ei, transition: ti, source: Some(k) }),
                    None => None,
                }
            },
        }
    }

    fn check_event(&self, ei: usize) -> (r: Option<ValidationErrorKind>)
        requires
            ei < self.events@.len(),
        ensures
            r == event_problem(*self, ei as int),
    {
        let e = &self.events[ei];
        if !is_snake_case(e.name.as_str()) {
            return Some(ValidationErrorKind::NamingConventionViolation { event: ei });
        }
        if e.transitions.len() == 0 {
            return Some(ValidationErrorKind::EventWithoutTransition { event: ei });
        }
        let mut ti: usize = 0;
        while ti < e.transitions.len()
            invariant
                ei < self.events@.len(),
                e == self.events@[ei as int],
                ti <= e.transitions@.len(),
                event_problem(*self, ei as int) == transitions_problem_from(*self, ei as int, ti as int),
            decreases e.transitions@.len() - ti,
        {
            let p = self.check_transition(ei, ti);
            if p.is_some() {
                return p;
            }
            ti = ti + 1;
        }
        None
    }

    /// Checks the definition, stopping at the first violation: the initial
    /// state must be a declared leaf, leaf names must be unique, and each
    /// event must be snake_case and have transitions whose sources and
    /// target resolve to declared leaves.
    pub fn validate(&self) -> (r: Result<(), ValidationError>)
        ensures
            match r {
                Ok(()) => first_problem(*self) is None,
                Err(e) => first_problem(*self) == Some(e.kind) && match e.kind {
                    ValidationErrorKind::NamingConventionViolation { event } => e.suggestion
                        matches Some(sug) && sug@ == snake_case_of(self.events@[event as int].name@),
                    _ => e.suggestion is None,
                },
            },
    {
        if self.is_superstate(&self.initial) || !self.is_leaf(&self.initial) {
            return Err(kind_only(ValidationErrorKind::InvalidInitialState));
        }
        if let Some(j) = self.first_duplicate() {
            return Err(kind_only(ValidationErrorKind::DuplicateState { state: j }));
        }
        let mut ei: usize = 0;
        while ei < self.events.len()
            invariant
                ei <= self.events@.len(),
                first_problem(*self) == events_problem_from(*self, ei as int),
            decreases self.events@.len() - ei,
        {
            if !is_snake_case(self.events[ei].name.as_str()) {
                let sug = to_snake_case(self.events[ei].name.as_str());
                return Err(
                    ValidationError {
                        kind: ValidationErrorKind::NamingConventionViolation { event: ei },
                        suggestion: Some(sug),
                    },
                );
            }
            proof {
                lemma_transitions_problem_not_naming(*self, ei as int, 0);
            }
            match self.check_event(ei) {
                Some(kind) => {
                    return Err(kind_only(kind));
                },
                None => {},
            }
            ei = ei + 1;
        }
        Ok(())
    }
}

} // verus!