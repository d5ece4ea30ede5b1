use aether::cluster::{AlarmManager, AlarmType};

#[test]
fn test_activate_and_get() {
    let mut mgr = AlarmManager::new();
    assert!(mgr.activate(1, AlarmType::NoSpace));
    assert!(!mgr.activate(1, AlarmType::NoSpace)); // duplicate

    let alarms = mgr.get_all();
    assert_eq!(alarms.len(), 1);
    assert_eq!(alarms[0].0, 1);
    assert_eq!(alarms[0].1, AlarmType::NoSpace);
}

#[test]
fn test_activate_ignores_none() {
    let mut mgr = AlarmManager::new();
    assert!(!mgr.activate(1, AlarmType::NoAlarm));
    assert!(mgr.get_all().is_empty());
}

#[test]
fn test_acknowledge_specific_member() {
    let mut mgr = AlarmManager::new();
    mgr.activate(1, AlarmType::NoSpace);
    mgr.activate(2, AlarmType::NoSpace);

    mgr.acknowledge(1, AlarmType::NoSpace);
    assert!(!mgr.has_alarm(1, AlarmType::NoSpace));
    assert!(mgr.has_alarm(2, AlarmType::NoSpace));
}

#[test]
fn test_acknowledge_all_members() {
    let mut mgr = AlarmManager::new();
    mgr.activate(1, AlarmType::NoSpace);
    mgr.activate(2, AlarmType::NoSpace);
    mgr.activate(3, AlarmType::Corrupt);

    mgr.acknowledge(0, AlarmType::NoSpace);
    assert!(mgr.get_all().len() == 1);
    assert!(mgr.has_alarm(3, AlarmType::Corrupt));
}

#[test]
fn test_acknowledge_ignores_none() {
    let mut mgr = AlarmManager::new();
    mgr.activate(1, AlarmType::NoSpace);
    mgr.acknowledge(1, AlarmType::NoAlarm);
    assert!(mgr.has_alarm(1, AlarmType::NoSpace));
}

#[test]
fn test_multiple_alarm_types() {
    let mut mgr = AlarmManager::new();
    mgr.activate(1, AlarmType::NoSpace);
    mgr.activate(1, AlarmType::Corrupt);

    assert_eq!(mgr.get_all().len(), 2);
    assert!(mgr.has_alarm(1, AlarmType::NoSpace));
    assert!(mgr.has_alarm(1, AlarmType::Corrupt));
}

#[test]
fn test_alarm_type_proto_roundtrip() {
    for val in [0i32, 1, 2] {
        let alarm = AlarmType::from_proto(val).unwrap();
        assert_eq!(alarm.to_proto(), val);
    }
    assert!(AlarmType::from_proto(99).is_none());
}

#[test]
fn no_alarm_is_not_recorded() {
    let mut mgr = AlarmManager::new();
    assert!(!mgr.activate(1, AlarmType::NoAlarm));
    mgr.activate(2, AlarmType::Corrupt);
    assert!(!mgr.has_alarm(1, AlarmType::NoAlarm));
    assert_eq!(mgr.get_all(), vec![(2, AlarmType::Corrupt)]);
}
