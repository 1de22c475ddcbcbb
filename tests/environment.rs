use networkd_broker::environment::{Environments, ScriptEnvironment};
use networkd_broker::link::{LinkDetails, LinkEvent};
use networkd_broker::string_map::StringMap;

fn details(state: &str) -> LinkDetails {
    LinkDetails {
        administrative_state: "configured".to_string(),
        operational_state: state.to_string(),
        carrier_state: "carrier".to_string(),
        address_state: "routable".to_string(),
        ipv4_address_state: "routable".to_string(),
        ipv6_address_state: "off".to_string(),
    }
}

#[test]
fn create_script_env() {
    let mut envs = Environments::new();
    envs.add(ScriptEnvironment::DeviceIface, "wlp3s0".to_string())
        .add(ScriptEnvironment::BrokerAction, "routable".to_string());

    let pack = envs.pack();
    assert_eq!(pack.len(), 2);
    assert_eq!(pack.get("NWD_DEVICE_IFACE"), Some(&"wlp3s0".to_string()));
    assert_eq!(pack.get("NWD_BROKER_ACTION"), Some(&"routable".to_string()));
}

#[test]
fn pack_from_event_sets_three_variables() {
    let event = LinkEvent {
        iface: "wlan0".to_string(),
        state: "routable".to_string(),
        path: "/org/freedesktop/network1/link/_33".to_string(),
        link_details: details("routable"),
        link_details_json: "{\"OperationalState\":\"routable\"}".to_string(),
    };
    let mut envs = Environments::new();
    assert!(envs.pack_from(&event).is_ok());
    let pack = envs.pack();
    assert_eq!(pack.len(), 3);
    assert_eq!(pack.get("NWD_DEVICE_IFACE"), Some(&"wlan0".to_string()));
    assert_eq!(pack.get("NWD_BROKER_ACTION"), Some(&"routable".to_string()));
    assert_eq!(
        pack.get("NWD_JSON"),
        Some(&"{\"OperationalState\":\"routable\"}".to_string())
    );
}

#[test]
fn adding_a_variable_again_replaces_its_value() {
    let mut envs = Environments::new();
    envs.add(ScriptEnvironment::BrokerAction, "carrier".to_string())
        .add(ScriptEnvironment::BrokerAction, "routable".to_string());
    let pack = envs.pack();
    assert_eq!(pack.len(), 1);
    assert_eq!(pack.get("NWD_BROKER_ACTION"), Some(&"routable".to_string()));
    assert_eq!(pack.get("NWD_DEVICE_IFACE"), None);
}

#[test]
fn string_map_keeps_first_insertion_order() {
    let mut m = StringMap::new();
    m.insert("b".to_string(), "1".to_string());
    m.insert("a".to_string(), "2".to_string());
    m.insert("b".to_string(), "3".to_string());
    let entries = m.entries();
    assert_eq!(entries.len(), 2);
    assert_eq!(entries[0], ("b".to_string(), "3".to_string()));
    assert_eq!(entries[1], ("a".to_string(), "2".to_string()));
}

#[test]
fn script_environment_names() {
    assert_eq!(ScriptEnvironment::DeviceIface.name(), "NWD_DEVICE_IFACE");
    assert_eq!(ScriptEnvironment::BrokerAction.name(), "NWD_BROKER_ACTION");
    assert_eq!(ScriptEnvironment::Json.name(), "NWD_JSON");
    assert_eq!(
        ScriptEnvironment::from_name("NWD_JSON"),
        Some(ScriptEnvironment::Json)
    );
    assert_eq!(
        ScriptEnvironment::from_name("NWD_DEVICE_IFACE"),
        Some(ScriptEnvironment::DeviceIface)
    );
    assert_eq!(ScriptEnvironment::from_name("NWD_OTHER"), None);
}
