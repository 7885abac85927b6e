//! Hierarchical state machines described as plain data: a definition model,
//! its validation, the hierarchy resolver, the flattened transition graph and
//! an interpreter that runs the guarded transition protocol at runtime.

pub mod errors;
pub mod naming;
pub mod definition;
pub mod hierarchy;
pub mod validation;
pub mod graph;
pub mod protocol;
pub mod machine;

pub use errors::{DynamicError, GuardError, TransitionError, TransitionErrorKind};
pub use definition::{EventDefinition, MachineDefinition, SuperstateDefinition, TransitionDefinition};
pub use machine::{DynamicMachine, Machine, MachineState, SubstateOf};
pub use protocol::{AroundOutcome, AroundStage, Hooks, TransitionContext};
