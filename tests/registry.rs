use std::collections::HashMap;

use hanode::registry::{Machine, MachineManager};

#[test]
fn test_machines() {
    let mut m = MachineManager::new("./config_machines.json".to_string());
    let mut labels = HashMap::new();
    labels.insert("name".to_string(), "test".to_string());
    m.add_machine(Machine::new("target".to_string(), labels));
    assert_eq!(m.size(), 1);
    let got = m.get_machine(&"target".to_string());
    assert_eq!(got.is_some(), true);
    m.remove_machine(&"target1".to_string());
    assert_eq!(m.size(), 1);
    m.remove_machine(&"target".to_string());
    assert_eq!(m.size(), 0);
}

fn machine(target: &str, name: &str) -> Machine {
    let mut labels = HashMap::new();
    labels.insert("name".to_string(), name.to_string());
    Machine::new(target.to_string(), labels)
}

#[test]
fn add_same_target_replaces() {
    let mut m = MachineManager::new("m.json".to_string());
    m.add_machine(machine("a", "1"));
    m.add_machine(machine("b", "2"));
    m.add_machine(machine("a", "3"));
    assert_eq!(m.size(), 2);
    let got = m.get_machine(&"a".to_string()).unwrap();
    assert_eq!(got.labels().get("name").unwrap(), "3");
    let v = m.to_vec();
    assert_eq!(v.iter().map(|x| x.target().clone()).collect::<Vec<_>>(), vec!["a", "b"]);
    let pairs = m.get_matches();
    assert_eq!(pairs.len(), 2);
    assert_eq!(pairs[1].0, "b");
    assert_eq!(pairs[1].1.labels().get("name").unwrap(), "2");
    assert_eq!(m.cfg_path(), "m.json");
}

#[test]
fn with_machines_keeps_last_of_each_target() {
    let mut m = MachineManager::with_machines(
        "x.json".to_string(),
        vec![machine("a", "1"), machine("b", "2"), machine("a", "3")],
    );
    assert_eq!(m.size(), 2);
    assert_eq!(m.get_machine(&"a".to_string()).unwrap().labels().get("name").unwrap(), "3");
    assert!(m.get_machine(&"c".to_string()).is_none());
    let empty = MachineManager::with_machines("y.json".to_string(), vec![]);
    assert_eq!(empty.size(), 0);
}

#[test]
fn clone_keeps_machine() {
    let a = machine("t", "n");
    let b = a.clone();
    assert_eq!(b.target(), "t");
    assert_eq!(b.labels(), a.labels());
}
