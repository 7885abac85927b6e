//! Error values raised while a machine instance handles events.
use vstd::prelude::*;

verus! {

/// Why a transition attempt was refused.
#[derive(Debug, Clone, PartialEq, Eq)]
pub enum TransitionErrorKind {
    InvalidTransition,
    GuardFailed { guard: String },
    ActionFailed { action: String },
}

/// A refused transition: the state it was attempted from, the event and the reason.
#[derive(Debug, Clone, PartialEq, Eq)]
pub struct TransitionError {
    pub from: String,
    pub event: String,
    pub kind: TransitionErrorKind,
}

impl TransitionError {
    pub fn invalid_transition(from: String, event: String) -> (r: Self)
        ensures
            r.from == from,
            r.event == event,
            r.kind == TransitionErrorKind::InvalidTransition,
    {
        TransitionError { from, event, kind: TransitionErrorKind::InvalidTransition }
    }

    pub fn guard_failed(from: String, event: String, guard: String) -> (r: Self)
        ensures
            r.from == from,
            r.event == event,
            r.kind == (TransitionErrorKind::GuardFailed { guard }),
    {
        TransitionError { from, event, kind: TransitionErrorKind::GuardFailed { guard } }
    }
}

/// The error handed back together with the untouched instance when a guard,
/// an unless guard, an around callback or the action hook stops a transition.
#[derive(Debug, Clone, PartialEq, Eq)]
pub struct GuardError {
    pub guard: String,
    pub event: String,
    pub kind: TransitionErrorKind,
}

impl GuardError {
    pub fn new(guard: String, event: String) -> (r: Self)
        ensures
            r.guard == guard,
            r.event == event,
            r.kind == (TransitionErrorKind::GuardFailed { guard }),
    {
        let g = guard.clone();
        GuardError { guard, event, kind: TransitionErrorKind::GuardFailed { guard: g } }
    }

    pub fn with_kind(guard: String, event: String, kind: TransitionErrorKind) -> (r: Self)
        ensures
            r.guard == guard,
            r.event == event,
            r.kind == kind,
    {
        GuardError { guard, event, kind }
    }
}

/// Errors of the runtime-dispatched machine.
#[derive(Debug, Clone, PartialEq, Eq)]
pub enum DynamicError {
    /// No edge leaves the current state on this event.
    InvalidTransition { from: String, event: String },
    /// A guard or unless guard stopped the transition.
    GuardFailed { guard: String, event: String },
    /// The action hook rejected the transition, which was rolled back.
    ActionFailed { action: String, event: String },
    /// A storage operation was asked of a state that is not occupied.
    WrongState { expected: String, actual: String, operation: String },
}

/// Whether `r` is what `DynamicError::from_guard_error` makes of `err`: the guard
/// or action name and the event carry over, an invalid transition keeps only
/// its event and an empty source state.
pub open spec fn converts_guard_error(err: GuardError, r: DynamicError) -> bool {
    match err.kind {
        TransitionErrorKind::GuardFailed { guard } => r == (DynamicError::GuardFailed {
            guard,
            event: err.event,
        }),
        TransitionErrorKind::ActionFailed { action } => r == (DynamicError::ActionFailed {
            action,
            event: err.event,
        }),
        TransitionErrorKind::InvalidTransition => match r {
            DynamicError::InvalidTransition { from, event } => from@ == Seq::<char>::empty()
                && event == err.event,
            _ => false,
        },
    }
}

impl DynamicError {
    pub fn invalid_transition(from: String, event: String) -> (r: Self)
        ensures
            r == (DynamicError::InvalidTransition { from, event }),
    {
        DynamicError::InvalidTransition { from, event }
    }

    pub fn guard_failed(guard: String, event: String) -> (r: Self)
        ensures
            r == (DynamicError::GuardFailed { guard, event }),
    {
        DynamicError::GuardFailed { guard, event }
    }

    pub fn action_failed(action: String, event: String) -> (r: Self)
        ensures
            r == (DynamicError::ActionFailed { action, event }),
    {
        DynamicError::ActionFailed { action, event }
    }

    pub fn wrong_state(expected: String, actual: String, operation: String) -> (r: Self)
        ensures
            r == (DynamicError::WrongState { expected, actual, operation }),
    {
        DynamicError::WrongState { expected, actual, operation }
    }

    /// Converts the error of a stopped transition; the guard or action name
    /// and the event carry over, an invalid transition loses its source state.
    pub fn from_guard_error(err: GuardError) -> (r: Self)
        ensures
            converts_guard_error(err, r),
    {
        match err.kind {
            TransitionErrorKind::GuardFailed { guard } => DynamicError::GuardFailed {
                guard,
                event: err.event,
            },
            TransitionErrorKind::ActionFailed { action } => DynamicError::ActionFailed {
                action,
                event: err.event,
            },
            TransitionErrorKind::InvalidTransition => DynamicError::InvalidTransition {
                from: String::new(),
                event: err.event,
            },
        }
    }
}

} // verus!
