#![allow(unused_imports, dead_code)]
use state_machines::definition::{EventDefinition, MachineDefinition, TransitionDefinition};
use state_machines::errors::DynamicError;
use state_machines::machine::DynamicMachine;
use state_machines::protocol::{AroundOutcome, AroundStage, Hooks, TransitionContext};

fn names(v: &[&str]) -> Vec<String> {
    v.iter().map(|s| s.to_string()).collect()
}

fn transition(from: &[&str], to: &str) -> TransitionDefinition {
    TransitionDefinition {
        sources: names(from),
        target: to.to_string(),
        guards: vec![],
        unless: vec![],
        before: vec![],
        after: vec![],
        around: vec![],
    }
}

fn event(name: &str, transitions: Vec<TransitionDefinition>) -> EventDefinition {
    EventDefinition {
        name: name.to_string(),
        guards: vec![],
        unless: vec![],
        before: vec![],
        after: vec![],
        around: vec![],
        payload: None,
        transitions,
    }
}

fn machine(name: &str, initial: &str, states: &[&str], events: Vec<EventDefinition>) -> MachineDefinition {
    MachineDefinition {
        name: name.to_string(),
        states: names(states),
        initial: initial.to_string(),
        async_mode: false,
        superstates: vec![],
        events,
        storage: vec![],
        action: None,
    }
}

fn start<D: Default>(def: MachineDefinition) -> DynamicMachine<D> {
    match DynamicMachine::new(def) {
        Ok(m) => m,
        Err(e) => panic!("definition should be valid: {:?}", e),
    }
}



/// Sensor readings that the guards read.
struct Sensors {
    altitude_km: u32,
    fuel_level: u8,
    temperature_c: i16,
    log: Vec<String>,
}

impl Sensors {
    fn new() -> Self {
        Sensors { altitude_km: 0, fuel_level: 100, temperature_c: 20, log: vec![] }
    }

    fn with_altitude(mut self, altitude: u32) -> Self {
        self.altitude_km = altitude;
        self
    }

    fn with_fuel(mut self, fuel: u8) -> Self {
        self.fuel_level = fuel;
        self
    }
}

impl Hooks<()> for Sensors {
    fn guard(&mut self, name: &String, _payload: &()) -> bool {
        self.log.push(name.clone());
        match name.as_str() {
            "has_fuel" => self.fuel_level >= 50,
            "safe_temperature" => self.temperature_c >= -50 && self.temperature_c <= 100,
            "sufficient_altitude" => self.altitude_km >= 400,
            _ => true,
        }
    }

    fn callback(&mut self, _name: &String, _payload: &()) {}

    fn around(&mut self, _name: &String, _stage: AroundStage, _t: &TransitionContext) -> AroundOutcome {
        AroundOutcome::Proceed
    }

    fn action(&mut self, _name: &String, _payload: &()) -> bool {
        true
    }
}

fn spacecraft() -> DynamicMachine<()> {
    let mut launch = event("launch", vec![transition(&["Grounded"], "Flying")]);
    launch.guards = names(&["has_fuel", "safe_temperature"]);
    let mut orbit = event("reach_orbit", vec![transition(&["Flying"], "Orbiting")]);
    orbit.guards = names(&["sufficient_altitude"]);
    let land = event("land", vec![transition(&["Flying", "Orbiting"], "Grounded")]);
    start(machine("Spacecraft", "Grounded", &["Grounded", "Flying", "Orbiting"], vec![launch, orbit, land]))
}

fn go(m: &mut DynamicMachine<()>, ev: &str, sensors: &mut Sensors) -> Result<(), DynamicError> {
    m.handle(&ev.to_string(), &(), sensors)
}

fn guard_of(result: Result<(), DynamicError>) -> String {
    match result {
        Err(DynamicError::GuardFailed { guard, .. }) => guard,
        other => panic!("Expected GuardFailed error, got {:?}", other),
    }
}

#[test]
fn test_concrete_context_guards() {
    let mut sensors = Sensors::new().with_fuel(75);
    let mut craft = spacecraft();
    assert!(go(&mut craft, "launch", &mut sensors).is_ok(), "Launch should succeed with 75% fuel");

    let mut sensors = Sensors::new().with_fuel(30);
    let mut craft = spacecraft();
    let result = go(&mut craft, "launch", &mut sensors);
    assert!(result.is_err(), "Launch should fail with 30% fuel");
    assert_eq!(guard_of(result), "has_fuel");
}

#[test]
fn test_concrete_context_altitude_guard() {
    let mut sensors = Sensors::new().with_fuel(100);
    let mut craft = spacecraft();
    go(&mut craft, "launch", &mut sensors).unwrap();
    let result = go(&mut craft, "reach_orbit", &mut sensors);
    assert!(result.is_err(), "Orbit should fail at 0km altitude");
    assert_eq!(guard_of(result), "sufficient_altitude");

    let mut sensors = Sensors::new().with_fuel(100).with_altitude(500);
    let mut craft = spacecraft();
    go(&mut craft, "launch", &mut sensors).unwrap();
    assert!(go(&mut craft, "reach_orbit", &mut sensors).is_ok(), "Orbit should succeed at 500km altitude");
}

#[test]
fn test_concrete_context_temperature_guard() {
    let mut sensors = Sensors::new().with_fuel(100);
    sensors.temperature_c = -60;
    let mut craft = spacecraft();
    let result = go(&mut craft, "launch", &mut sensors);
    assert!(result.is_err(), "Launch should fail at -60°C");
    assert_eq!(guard_of(result), "safe_temperature");

    let mut sensors = Sensors::new().with_fuel(100);
    sensors.temperature_c = 110;
    let mut craft = spacecraft();
    let result = go(&mut craft, "launch", &mut sensors);
    assert!(result.is_err(), "Launch should fail at 110°C");
    assert_eq!(guard_of(result), "safe_temperature");

    let mut sensors = Sensors::new().with_fuel(100);
    sensors.temperature_c = 25;
    let mut craft = spacecraft();
    assert!(go(&mut craft, "launch", &mut sensors).is_ok(), "Launch should succeed at 25°C");
}

#[test]
fn test_concrete_context_type_signature() {
    let craft: DynamicMachine<()> = spacecraft();
    assert_eq!(craft.definition.name, "Spacecraft");
    assert_eq!(craft.current_state(), "Grounded");
}

#[test]
fn test_concrete_context_dynamic_dispatch() {
    let mut sensors = Sensors::new().with_fuel(80).with_altitude(450);
    let mut craft = spacecraft();
    assert_eq!(craft.current_state(), "Grounded");
    assert!(go(&mut craft, "launch", &mut sensors).is_ok(), "Launch should succeed with 80% fuel");
    assert_eq!(craft.current_state(), "Flying");
    assert!(go(&mut craft, "reach_orbit", &mut sensors).is_ok(), "Should reach orbit at 450km");
    assert_eq!(craft.current_state(), "Orbiting");
    assert!(go(&mut craft, "land", &mut sensors).is_ok(), "Should land from orbit");
    assert_eq!(craft.current_state(), "Grounded");
}

#[test]
fn test_concrete_context_dynamic_guard_failure() {
    let mut sensors = Sensors::new().with_fuel(30);
    let mut craft = spacecraft();
    let result = go(&mut craft, "launch", &mut sensors);
    assert!(result.is_err(), "Launch should fail with 30% fuel");
    match result {
        Err(DynamicError::GuardFailed { guard, event }) => {
            assert_eq!(guard, "has_fuel");
            assert_eq!(event, "launch");
        }
        _ => panic!("Expected GuardFailed error"),
    }
    assert_eq!(craft.current_state(), "Grounded");
}

#[test]
fn test_concrete_context_dynamic_conversion() {
    let mut sensors = Sensors::new().with_fuel(100);
    let mut craft = spacecraft();
    go(&mut craft, "launch", &mut sensors).unwrap();
    assert_eq!(craft.current_state(), "Flying");
    assert!(go(&mut craft, "land", &mut sensors).is_ok());
    assert_eq!(craft.current_state(), "Grounded");
    assert!(craft.is_in(&"Grounded".to_string()), "Should extract Grounded state");
}
