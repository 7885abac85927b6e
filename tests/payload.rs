#![allow(unused_imports, dead_code)]
use state_machines::definition::{EventDefinition, MachineDefinition, SuperstateDefinition, TransitionDefinition};
use state_machines::errors::{DynamicError, TransitionError, TransitionErrorKind};
use state_machines::machine::DynamicMachine;
use state_machines::protocol::{AroundOutcome, AroundStage, Hooks, TransitionContext};


fn names(v: &[&str]) -> Vec<String> {
    v.iter().map(|s| s.to_string()).collect()
}

fn transition(from: &[&str], to: &str) -> TransitionDefinition {
    TransitionDefinition {
        sources: names(from),
        target: to.to_string(),
        guards: vec![],
        unless: vec![],
        before: vec![],
        after: vec![],
        around: vec![],
    }
}

fn event(name: &str, transitions: Vec<TransitionDefinition>) -> EventDefinition {
    EventDefinition {
        name: name.to_string(),
        guards: vec![],
        unless: vec![],
        before: vec![],
        after: vec![],
        around: vec![],
        payload: None,
        transitions,
    }
}

fn machine(name: &str, initial: &str, states: &[&str], events: Vec<EventDefinition>) -> MachineDefinition {
    MachineDefinition {
        name: name.to_string(),
        states: names(states),
        initial: initial.to_string(),
        async_mode: false,
        superstates: vec![],
        events,
        storage: vec![],
        action: None,
    }
}

fn start<D: Default>(def: MachineDefinition) -> DynamicMachine<D> {
    match DynamicMachine::new(def) {
        Ok(m) => m,
        Err(e) => panic!("definition should be valid: {:?}", e),
    }
}



#[derive(Clone)]
struct BurnRequest {
    power: u8,
}

/// Thruster hooks: the guard reads the payload, the callbacks record it.
struct Thruster {
    fuel_available: bool,
    guard_inspected_power: u8,
    before_called_with: u8,
    after_called_with: u8,
}

impl Hooks<BurnRequest> for Thruster {
    fn guard(&mut self, name: &String, request: &BurnRequest) -> bool {
        assert_eq!(name, "fuel_ready");
        self.guard_inspected_power = request.power;
        self.fuel_available && request.power <= 5
    }

    fn callback(&mut self, name: &String, request: &BurnRequest) {
        match name.as_str() {
            "record_before" => self.before_called_with = request.power,
            "record_after" => self.after_called_with = request.power,
            _ => {}
        }
    }

    fn around(&mut self, _name: &String, _stage: AroundStage, _t: &TransitionContext) -> AroundOutcome {
        AroundOutcome::Proceed
    }

    fn action(&mut self, _name: &String, _request: &BurnRequest) -> bool {
        true
    }
}

#[test]
fn sync_payload_event_runs_guards_and_callbacks() {
    let mut fire_event = event("fire", vec![transition(&["Idle"], "Firing")]);
    fire_event.payload = Some("BurnRequest".to_string());
    fire_event.guards = names(&["fuel_ready"]);
    fire_event.before = names(&["record_before"]);
    fire_event.after = names(&["record_after"]);
    let def = machine(
        "ThrusterController",
        "Idle",
        &["Idle", "Firing", "Cooling"],
        vec![fire_event, event("cooldown", vec![transition(&["Firing"], "Cooling")])],
    );
    let mut c: DynamicMachine<()> = start(def);
    let mut hooks = Thruster { fuel_available: false, guard_inspected_power: 0, before_called_with: 0, after_called_with: 0 };
    let fire = "fire".to_string();
    let err = c.handle(&fire, &BurnRequest { power: 6 }, &mut hooks).expect_err("guard should prevent overpowered burn");
    assert_eq!(
        err,
        DynamicError::GuardFailed { guard: "fuel_ready".to_string(), event: "fire".to_string() }
    );
    assert_eq!(c.current_state(), "Idle");
    assert_eq!(hooks.guard_inspected_power, 6);
    assert_eq!(hooks.before_called_with, 0);
    assert_eq!(hooks.after_called_with, 0);

    hooks.fuel_available = true;
    let err = c.handle(&fire, &BurnRequest { power: 6 }, &mut hooks).unwrap_err();
    assert_eq!(
        err,
        DynamicError::GuardFailed { guard: "fuel_ready".to_string(), event: "fire".to_string() }
    );
    c.handle(&fire, &BurnRequest { power: 3 }, &mut hooks).expect("payload guard should now pass");
    assert_eq!(c.current_state(), "Firing");
    assert_eq!(hooks.before_called_with, 3);
    assert_eq!(hooks.after_called_with, 3);
}
