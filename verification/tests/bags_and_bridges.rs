use perspective_view::bridge::CallbackBridge;
use perspective_view::bridge::OneShot;
use perspective_view::config::ConfigObject;
use perspective_view::config::ConfigValue;
use perspective_view::host::HostValue;

#[test]
fn empty_bag_has_no_entries() {
    let bag = ConfigObject::new();
    assert!(bag.entries.is_empty());
    assert!(bag.get(&"formatted".to_string()).is_none());
}

#[test]
fn set_then_get_returns_the_value() {
    let mut bag = ConfigObject::new();
    bag.set("formatted".to_string(), ConfigValue::Boolean(true));
    assert_eq!(bag.get(&"formatted".to_string()), Some(&ConfigValue::Boolean(true)));
    assert!(bag.get(&"other".to_string()).is_none());
}

#[test]
fn later_write_overwrites_earlier_one() {
    let mut bag = ConfigObject::new();
    bag.set("limit".to_string(), ConfigValue::Number(10));
    bag.set("limit".to_string(), ConfigValue::Number(25));
    assert_eq!(bag.get(&"limit".to_string()), Some(&ConfigValue::Number(25)));
}

#[test]
fn pairs_are_applied_in_argument_order() {
    let bag = ConfigObject::from_pairs(vec![
        ("a".to_string(), ConfigValue::Number(1)),
        ("b".to_string(), ConfigValue::Text("x".to_string())),
        ("a".to_string(), ConfigValue::Number(2)),
    ]);
    assert_eq!(bag.entries.len(), 3);
    assert_eq!(bag.get(&"a".to_string()), Some(&ConfigValue::Number(2)));
    assert_eq!(bag.get(&"b".to_string()), Some(&ConfigValue::Text("x".to_string())));
}

#[test]
fn bridge_runs_bound_logic_once_per_invocation_in_order() {
    let mut bridge = CallbackBridge::new();
    let first = bridge.invoke(HostValue::Number(1));
    let second = bridge.invoke(HostValue::Text("update".to_string()));
    assert_eq!(first, 0);
    assert_eq!(second, 1);
    bridge.invoke_all(vec![HostValue::Null, HostValue::Number(7)]);
    assert_eq!(
        bridge.runs,
        vec![
            HostValue::Number(1),
            HostValue::Text("update".to_string()),
            HostValue::Null,
            HostValue::Number(7),
        ]
    );
}

#[test]
fn one_shot_fires_only_once() {
    let mut wrapper = OneShot::new();
    assert!(wrapper.arm());
    assert!(!wrapper.arm());
    assert!(!wrapper.arm());
}
