use doorman::bluetooth::device::BluetoothDevice;
use doorman::interfaces::services::{Registry as RegistryTrait, RegistryKnownType};
use doorman::registry::{Registry, RegistryError};
use doorman::simple::device::SimpleDevice;

fn dev(s: &str) -> SimpleDevice {
    SimpleDevice(s.to_string())
}

fn listed(reg: &Registry<SimpleDevice, SimpleDevice>) -> Vec<String> {
    let mut names: Vec<String> = reg.list().into_iter().map(|d| d.0.clone()).collect();
    names.sort();
    names
}

#[test]
fn register_then_check_returns_the_device() {
    let mut reg: Registry<SimpleDevice, SimpleDevice> = Registry::new();
    reg.register_device_with(dev("door-key"), dev("door-key")).unwrap();
    assert_eq!(reg.check(&dev("door-key")), Some(&dev("door-key")));
}

#[test]
fn unregister_then_check_returns_nothing() {
    let mut reg: Registry<SimpleDevice, SimpleDevice> = Registry::new();
    reg.register_device_with(dev("door-key"), dev("door-key")).unwrap();
    reg.unregister_device(&dev("door-key")).unwrap();
    assert_eq!(reg.check(&dev("door-key")), None);
}

#[test]
fn reregister_retains_only_the_most_recent_device() {
    let mut reg: Registry<String, u64> = Registry::new();
    reg.register_device_with("badge".to_string(), 1).unwrap();
    reg.register_device_with("badge".to_string(), 2).unwrap();
    assert_eq!(reg.check(&"badge".to_string()), Some(&2));
    assert_eq!(reg.list(), vec![&2u64]);
}

#[test]
fn unregister_absent_fails_with_not_found_and_changes_nothing() {
    let mut reg: Registry<SimpleDevice, SimpleDevice> = Registry::new();
    reg.register_device_with(dev("kept"), dev("kept")).unwrap();
    let before = listed(&reg);
    let r = reg.unregister_device(&dev("absent"));
    assert_eq!(r, Err(RegistryError::NotFoundError));
    assert_eq!(listed(&reg), before);
    assert_eq!(reg.check(&dev("kept")), Some(&dev("kept")));
}

#[test]
fn unregister_on_empty_registry_fails_with_not_found() {
    let mut reg: Registry<String, u64> = Registry::new();
    assert_eq!(reg.unregister_device(&"nobody".to_string()), Err(RegistryError::NotFoundError));
}

#[test]
fn check_is_idempotent_between_mutations() {
    let mut reg: Registry<SimpleDevice, SimpleDevice> = Registry::new();
    reg.register_device_with(dev("a"), dev("a")).unwrap();
    let first = reg.check(&dev("a")).cloned();
    let second = reg.check(&dev("a")).cloned();
    assert_eq!(first, second);
    let miss_first = reg.check(&dev("b")).cloned();
    let miss_second = reg.check(&dev("b")).cloned();
    assert_eq!(miss_first, miss_second);
}

#[test]
fn list_is_idempotent_between_mutations() {
    let mut reg: Registry<SimpleDevice, SimpleDevice> = Registry::new();
    reg.register_device_with(dev("a"), dev("a")).unwrap();
    reg.register_device_with(dev("b"), dev("b")).unwrap();
    assert_eq!(listed(&reg), listed(&reg));
    assert_eq!(listed(&reg), vec!["a".to_string(), "b".to_string()]);
}

#[test]
fn new_registry_is_empty() {
    let reg: Registry<String, u64> = Registry::new();
    assert_eq!(reg.list().len(), 0);
    assert_eq!(reg.check(&"anyone".to_string()), None);
}

#[test]
fn register_device_derives_the_identity() {
    let mut reg: Registry<SimpleDevice, SimpleDevice> = Registry::new();
    reg.register_device(dev("self-named")).unwrap();
    assert_eq!(reg.check(&dev("self-named")), Some(&dev("self-named")));
}

#[test]
fn from_list_registers_each_entry_in_order() {
    let mut reg: Registry<SimpleDevice, SimpleDevice> = Registry::new();
    reg.from_list(vec![dev("a"), dev("b"), dev("a")]).unwrap();
    assert_eq!(listed(&reg), vec!["a".to_string(), "b".to_string()]);
    assert_eq!(reg.check(&dev("a")), Some(&dev("a")));
    assert_eq!(reg.check(&dev("b")), Some(&dev("b")));
}

#[test]
fn from_map_registers_each_pair() {
    let mut reg: Registry<String, u64> = Registry::new();
    reg.from_map(vec![("left".to_string(), 1), ("right".to_string(), 2)]).unwrap();
    assert_eq!(reg.check(&"left".to_string()), Some(&1));
    assert_eq!(reg.check(&"right".to_string()), Some(&2));
    assert_eq!(reg.list().len(), 2);
}

#[test]
fn import_list_works_through_the_known_type_trait() {
    let mut reg: Registry<SimpleDevice, SimpleDevice> = Registry::new();
    reg.import_list(vec![dev("x"), dev("y")]).unwrap();
    assert_eq!(listed(&reg), vec!["x".to_string(), "y".to_string()]);
}

#[test]
fn bluetooth_devices_register_under_their_addresses() {
    let mut reg: Registry<String, BluetoothDevice> = Registry::new();
    let fob = BluetoothDevice::new("fob".to_string(), "00:11:22:33".to_string(), 70);
    let phone = BluetoothDevice::new("phone".to_string(), "44:55:66:77".to_string(), 60);
    reg.from_list(vec![fob.clone(), phone.clone()]).unwrap();
    assert_eq!(reg.check(&"00:11:22:33".to_string()), Some(&fob));
    assert_eq!(reg.check(&"44:55:66:77".to_string()), Some(&phone));
    assert_eq!(reg.check(&"88:99:aa:bb".to_string()), None);
}

#[test]
fn parse_error_carries_its_message() {
    let e = RegistryError::Parse("bad entry".to_string());
    assert_eq!(e, RegistryError::Parse("bad entry".to_string()));
    assert_ne!(e, RegistryError::NotFoundError);
}
