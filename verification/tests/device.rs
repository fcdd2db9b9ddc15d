use firmware_runtime::device::{
    ActuatorKind, AnyActuator, AnySensor, CapabilityClass, ClassPredicate, Device, DeviceRegistry,
    Exactly, HardwareFault, ReadError, SensorKind, WriteError,
};
use firmware_runtime::value::{ScaledValue, Unit};

const TEMP: CapabilityClass = CapabilityClass::Sensor(SensorKind::Temp);
const HUM: CapabilityClass = CapabilityClass::Sensor(SensorKind::Hum);
const SWITCH: CapabilityClass = CapabilityClass::Actuator(ActuatorKind::Switch);
const SERVO: CapabilityClass = CapabilityClass::Actuator(ActuatorKind::Servo);

fn board() -> DeviceRegistry {
    let mut registry = DeviceRegistry::new();
    assert_eq!(registry.register(Some(String::from("LED(red)")), SWITCH), 0);
    assert_eq!(registry.register(Some(String::from("hts221")), HUM), 1);
    assert_eq!(registry.register(None, TEMP), 2);
    assert_eq!(registry.register(Some(String::from("servo")), SERVO), 3);
    assert_eq!(registry.register(Some(String::from("lps331ap")), TEMP), 4);
    registry
}

fn ids(devices: &[Device<'_>]) -> Vec<usize> {
    let mut out = Vec::new();
    for d in devices {
        out.push(d.id());
    }
    out
}

fn drain(registry: &DeviceRegistry) -> Vec<usize> {
    let mut all = registry.all();
    let mut out = Vec::new();
    loop {
        match all.next() {
            Some(d) => out.push(d.id()),
            None => return out,
        }
    }
}

/// A predicate of the caller's own: sensors whose kind is not `Temp`.
struct OtherSensors;

impl ClassPredicate for OtherSensors {
    fn admits(&self, class: CapabilityClass) -> bool {
        match class {
            CapabilityClass::Sensor(kind) => kind != SensorKind::Temp,
            CapabilityClass::Actuator(_) => false,
        }
    }

    fn test(&self, class: CapabilityClass) -> bool {
        self.admits(class)
    }
}

#[test]
fn empty_registry_enumerates_nothing() {
    let registry = DeviceRegistry::new();
    assert_eq!(registry.len(), 0);
    assert!(registry.all().next().is_none());
    assert!(registry.get(0).is_none());
    assert!(registry.first_matching(AnySensor).is_none());
    assert!(registry.all_matching(AnySensor).is_empty());
}

#[test]
fn enumeration_is_in_registration_order() {
    let registry = board();
    assert_eq!(registry.len(), 5);
    assert_eq!(drain(&registry), vec![0, 1, 2, 3, 4]);
}

#[test]
fn enumeration_twice_yields_same_identities() {
    let registry = board();
    let first = drain(&registry);
    let second = drain(&registry);
    assert_eq!(first, second);
}

#[test]
fn enumeration_stays_exhausted() {
    let registry = board();
    let mut all = registry.all();
    for _ in 0..5 {
        assert!(all.next().is_some());
    }
    assert!(all.next().is_none());
    assert!(all.next().is_none());
}

#[test]
fn device_reports_id_name_and_class() {
    let registry = board();
    let led = registry.get(0).unwrap();
    assert_eq!(led.id(), 0);
    assert_eq!(led.name(), Some("LED(red)"));
    assert_eq!(led.class(), SWITCH);
    let unnamed = registry.get(2).unwrap();
    assert_eq!(unnamed.id(), 2);
    assert_eq!(unnamed.name(), None);
    assert_eq!(unnamed.class(), TEMP);
    assert!(registry.get(5).is_none());
}

#[test]
fn filter_keeps_matching_devices_in_order() {
    let registry = board();
    assert_eq!(ids(&registry.all_matching(AnySensor)), vec![1, 2, 4]);
    assert_eq!(ids(&registry.all_matching(AnyActuator)), vec![0, 3]);
    assert_eq!(ids(&registry.all_matching(Exactly(TEMP))), vec![2, 4]);
    assert_eq!(ids(&registry.all_matching(Exactly(SERVO))), vec![3]);
    assert!(registry.all_matching(Exactly(CapabilityClass::Sensor(SensorKind::Co2))).is_empty());
}

#[test]
fn filter_is_subset_of_all() {
    let registry = board();
    let all = drain(&registry);
    let mut expected = Vec::new();
    for id in all {
        if AnySensor.test(registry.get(id).unwrap().class()) {
            expected.push(id);
        }
    }
    assert_eq!(ids(&registry.all_matching(AnySensor)), expected);
}

#[test]
fn filter_is_lazy_and_resumes_where_it_stopped() {
    let registry = board();
    let mut all = registry.all();
    assert_eq!(all.next().unwrap().id(), 0);
    assert_eq!(all.next().unwrap().id(), 1);
    let mut temps = all.filter(Exactly(TEMP));
    assert_eq!(temps.next().unwrap().id(), 2);
    assert_eq!(temps.next().unwrap().id(), 4);
    assert!(temps.next().is_none());
    assert!(temps.next().is_none());
}

#[test]
fn filter_takes_a_predicate_of_the_callers() {
    let registry = board();
    assert_eq!(ids(&registry.all_matching(OtherSensors)), vec![1]);
    assert_eq!(registry.first_matching(OtherSensors).unwrap().name(), Some("hts221"));
}

#[test]
fn first_matching_is_first_in_order() {
    let registry = board();
    assert_eq!(registry.first_matching(Exactly(TEMP)).unwrap().id(), 2);
    assert_eq!(registry.first_matching(AnySensor).unwrap().id(), 1);
    assert_eq!(registry.first_matching(AnyActuator).unwrap().id(), 0);
    assert_eq!(registry.first_of_class(TEMP).unwrap().id(), 2);
    assert_eq!(registry.first_of_class(SERVO).unwrap().id(), 3);
    assert!(registry.first_of_class(CapabilityClass::Sensor(SensorKind::Other)).is_none());
}

#[test]
fn class_roles() {
    assert!(TEMP.is_sensor());
    assert!(!TEMP.is_actuator());
    assert!(SWITCH.is_actuator());
    assert!(!SWITCH.is_sensor());
    assert!(CapabilityClass::Sensor(SensorKind::Other).is_sensor());
    assert!(CapabilityClass::Actuator(ActuatorKind::Other).is_actuator());
}

#[test]
fn read_of_sensor_hands_on_reading_or_fault() {
    let registry = board();
    let sensor = registry.get(2).unwrap();
    let reading = ScaledValue::single(2500, -2, Unit::TempC);
    assert_eq!(sensor.read_with(Ok(reading)), Ok(reading));
    assert_eq!(
        sensor.read_with(Err(HardwareFault { code: -5 })),
        Err(ReadError::Hardware(HardwareFault { code: -5 }))
    );
}

#[test]
fn read_of_actuator_is_refused() {
    let registry = board();
    let led = registry.get(0).unwrap();
    let reading = ScaledValue::single(1, 0, Unit::Bool);
    assert_eq!(led.read_with(Ok(reading)), Err(ReadError::NotReadable));
    assert_eq!(led.read_with(Err(HardwareFault { code: -5 })), Err(ReadError::NotReadable));
}

#[test]
fn write_of_actuator_hands_on_success_or_fault() {
    let registry = board();
    let led = registry.get(0).unwrap();
    assert_eq!(led.write_with(Ok(())), Ok(()));
    assert_eq!(
        led.write_with(Err(HardwareFault { code: -22 })),
        Err(WriteError::Hardware(HardwareFault { code: -22 }))
    );
}

#[test]
fn write_of_sensor_is_refused() {
    let registry = board();
    let sensor = registry.get(1).unwrap();
    assert_eq!(sensor.write_with(Ok(())), Err(WriteError::NotWritable));
    assert_eq!(sensor.write_with(Err(HardwareFault { code: -22 })), Err(WriteError::NotWritable));
}
