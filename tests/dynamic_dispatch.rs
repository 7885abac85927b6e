#![allow(unused_imports, dead_code)]
use state_machines::definition::{EventDefinition, MachineDefinition, SuperstateDefinition, TransitionDefinition};
use state_machines::errors::{DynamicError, TransitionError, TransitionErrorKind};
use state_machines::machine::DynamicMachine;
use state_machines::protocol::{AroundOutcome, AroundStage, Hooks, TransitionContext};

use state_machines::naming::to_snake_case;

fn names(v: &[&str]) -> Vec<String> {
    v.iter().map(|s| s.to_string()).collect()
}

fn transition(from: &[&str], to: &str) -> TransitionDefinition {
    TransitionDefinition {
        sources: names(from),
        target: to.to_string(),
        guards: vec![],
        unless: vec![],
        before: vec![],
        after: vec![],
        around: vec![],
    }
}

fn event(name: &str, transitions: Vec<TransitionDefinition>) -> EventDefinition {
    EventDefinition {
        name: name.to_string(),
        guards: vec![],
        unless: vec![],
        before: vec![],
        after: vec![],
        around: vec![],
        payload: None,
        transitions,
    }
}

fn machine(name: &str, initial: &str, states: &[&str], events: Vec<EventDefinition>) -> MachineDefinition {
    MachineDefinition {
        name: name.to_string(),
        states: names(states),
        initial: initial.to_string(),
        async_mode: false,
        superstates: vec![],
        events,
        storage: vec![],
        action: None,
    }
}

/// Hooks whose answers are set by the test; every call is logged.
struct Script {
    answers: Vec<(String, bool)>,
    action_ok: bool,
    before_abort: Option<TransitionError>,
    after_abort: Option<TransitionError>,
    log: Vec<String>,
}

impl Script {
    fn new() -> Self {
        Script { answers: vec![], action_ok: true, before_abort: None, after_abort: None, log: vec![] }
    }

    fn set(&mut self, name: &str, value: bool) {
        self.answers.push((name.to_string(), value));
    }

    fn count(&self, entry: &str) -> usize {
        self.log.iter().filter(|l| l.as_str() == entry).count()
    }
}

impl<P> Hooks<P> for Script {
    fn guard(&mut self, name: &String, _payload: &P) -> bool {
        self.log.push(format!("guard {}", name));
        self.answers.iter().rev().find(|(n, _)| n == name).map(|(_, v)| *v).unwrap_or(true)
    }

    fn callback(&mut self, name: &String, _payload: &P) {
        self.log.push(format!("callback {}", name));
    }

    fn around(&mut self, name: &String, stage: AroundStage, _t: &TransitionContext) -> AroundOutcome {
        self.log.push(format!("around {} {:?}", name, stage));
        let abort = match stage {
            AroundStage::Before => self.before_abort.clone(),
            AroundStage::AfterSuccess => self.after_abort.clone(),
        };
        match abort {
            Some(e) => AroundOutcome::Abort(e),
            None => AroundOutcome::Proceed,
        }
    }

    fn action(&mut self, name: &String, _payload: &P) -> bool {
        self.log.push(format!("action {}", name));
        self.action_ok
    }
}

fn start<D: Default>(def: MachineDefinition) -> DynamicMachine<D> {
    match DynamicMachine::new(def) {
        Ok(m) => m,
        Err(e) => panic!("definition should be valid: {:?}", e),
    }
}

fn fire<D: Default>(m: &mut DynamicMachine<D>, ev: &str, hooks: &mut Script) -> Result<(), DynamicError> {
    m.handle(&ev.to_string(), &(), hooks)
}

fn traffic_light() -> MachineDefinition {
    machine(
        "TrafficLight",
        "Red",
        &["Red", "Yellow", "Green"],
        vec![event(
            "next",
            vec![
                transition(&["Red"], "Green"),
                transition(&["Green"], "Yellow"),
                transition(&["Yellow"], "Red"),
            ],
        )],
    )
}

#[test]
fn test_dynamic_dispatch_basic() {
    let mut light: DynamicMachine<()> = start(traffic_light());
    let mut hooks = Script::new();
    assert_eq!(light.current_state(), "Red");
    fire(&mut light, "next", &mut hooks).unwrap();
    assert_eq!(light.current_state(), "Green");
    fire(&mut light, "next", &mut hooks).unwrap();
    assert_eq!(light.current_state(), "Yellow");
    fire(&mut light, "next", &mut hooks).unwrap();
    assert_eq!(light.current_state(), "Red");
}

#[test]
fn dynamic_dispatch_rejects_event_without_edge() {
    let mut def = traffic_light();
    def.events.push(event("flash", vec![transition(&["Yellow"], "Red")]));
    let mut light: DynamicMachine<()> = start(def);
    let mut hooks = Script::new();
    fire(&mut light, "next", &mut hooks).unwrap();
    fire(&mut light, "next", &mut hooks).unwrap();
    fire(&mut light, "next", &mut hooks).unwrap();
    assert_eq!(light.current_state(), "Red");
    let result = fire(&mut light, "flash", &mut hooks);
    assert_eq!(
        result,
        Err(DynamicError::InvalidTransition { from: "Red".to_string(), event: "flash".to_string() })
    );
    assert_eq!(light.current_state(), "Red");
    let result = fire(&mut light, "unknown", &mut hooks);
    assert_eq!(
        result,
        Err(DynamicError::InvalidTransition { from: "Red".to_string(), event: "unknown".to_string() })
    );
}

#[test]
fn test_typestate_to_dynamic_conversion() {
    let mut light: DynamicMachine<()> = start(traffic_light());
    let mut hooks = Script::new();
    assert_eq!(light.current_state(), "Red");
    fire(&mut light, "next", &mut hooks).unwrap();
    assert_eq!(light.current_state(), "Green");
}

#[test]
fn test_dynamic_to_typestate_conversion() {
    let mut light: DynamicMachine<()> = start(traffic_light());
    let mut hooks = Script::new();
    fire(&mut light, "next", &mut hooks).unwrap();
    assert_eq!(light.current_state(), "Green");
    assert!(light.is_in(&"Green".to_string()));
    assert!(!light.is_in(&"Red".to_string()));
    fire(&mut light, "next", &mut hooks).unwrap();
}

#[test]
fn test_event_enum() {
    assert_eq!(to_snake_case("Next"), "next");
}

#[test]
fn test_guard_failure() {
    let mut proceed = event("proceed", vec![transition(&["Start"], "End")]);
    proceed.guards = names(&["is_allowed"]);
    let mut m: DynamicMachine<()> = start(machine("Guarded", "Start", &["Start", "End"], vec![proceed]));
    let mut hooks = Script::new();
    hooks.set("is_allowed", false);
    let result = fire(&mut m, "proceed", &mut hooks);
    assert!(result.is_err());
    match result.unwrap_err() {
        DynamicError::GuardFailed { guard, event } => {
            assert_eq!(guard, "is_allowed");
            assert_eq!(event, "proceed");
        }
        _ => panic!("Expected GuardFailed error"),
    }
    assert_eq!(m.current_state(), "Start");
    hooks.set("is_allowed", true);
    fire(&mut m, "proceed", &mut hooks).unwrap();
    assert_eq!(m.current_state(), "End");
}

#[derive(Debug, Clone, Default, PartialEq)]
struct CounterData {
    count: u32,
}

fn counter() -> MachineDefinition {
    let mut def = machine(
        "Counter",
        "Stopped",
        &["Stopped", "Running"],
        vec![
            event("start", vec![transition(&["Stopped"], "Running")]),
            event("stop", vec![transition(&["Running"], "Stopped")]),
        ],
    );
    def.storage = names(&["Running"]);
    def
}

#[test]
fn test_dynamic_state_data_accessors() {
    let running = "Running".to_string();
    let mut counter: DynamicMachine<CounterData> = start(counter());
    let mut hooks = Script::new();
    assert!(counter.data(&running).is_none());

    fire(&mut counter, "start", &mut hooks).unwrap();
    assert_eq!(counter.current_state(), "Running");
    counter.set_data(&running, CounterData { count: 42 }).unwrap();
    assert_eq!(counter.data(&running).unwrap().count, 42);

    let mut data = counter.data(&running).unwrap().clone();
    data.count += 1;
    counter.set_data(&running, data).unwrap();
    assert_eq!(counter.data(&running).unwrap().count, 43);

    counter.set_data(&running, CounterData { count: 100 }).unwrap();
    assert_eq!(counter.data(&running).unwrap().count, 100);

    fire(&mut counter, "stop", &mut hooks).unwrap();
    assert_eq!(counter.current_state(), "Stopped");
    assert!(counter.data(&running).is_none());

    let result = counter.set_data(&running, CounterData { count: 99 });
    assert!(result.is_err());
    match result.unwrap_err() {
        DynamicError::WrongState { expected, actual, operation } => {
            assert_eq!(expected, "Running");
            assert_eq!(actual, "Stopped");
            assert_eq!(operation, "set_running_data");
        }
        _ => panic!("Expected WrongState error"),
    }
    assert!(counter.data(&running).is_none());
}

#[test]
fn test_dynamic_state_data_with_typestate_conversion() {
    let running = "Running".to_string();
    let mut counter: DynamicMachine<CounterData> = start(counter());
    let mut hooks = Script::new();
    fire(&mut counter, "start", &mut hooks).unwrap();
    counter.set_data(&running, CounterData { count: 50 }).unwrap();
    assert!(counter.is_in(&running));
    assert_eq!(counter.data(&running).unwrap().count, 50);
    assert_eq!(counter.current_state(), "Running");
    counter.set_data(&running, CounterData { count: 75 }).unwrap();
    assert_eq!(counter.data(&running).unwrap().count, 75);
}
