use networkd_broker::error::ErrorKind;
use networkd_broker::link::{
    LinkDetails, LinkEntry, LinkEvent, MessageKind, Notification, PROPERTIES_INTERFACE,
};

fn details(state: &str) -> LinkDetails {
    LinkDetails {
        administrative_state: "configured".to_string(),
        operational_state: state.to_string(),
        carrier_state: "carrier".to_string(),
        address_state: "routable".to_string(),
        ipv4_address_state: "routable".to_string(),
        ipv6_address_state: "off".to_string(),
    }
}

fn links() -> Vec<LinkEntry> {
    vec![
        LinkEntry {
            index: 1,
            name: "lo".to_string(),
            path: "/org/freedesktop/network1/link/_31".to_string(),
        },
        LinkEntry {
            index: 3,
            name: "wlan0".to_string(),
            path: "/org/freedesktop/network1/link/_33".to_string(),
        },
    ]
}

fn signal(interface: Option<&str>, path: Option<&str>) -> Notification {
    Notification {
        kind: MessageKind::Signal,
        interface: interface.map(|s| s.to_string()),
        path: path.map(|s| s.to_string()),
    }
}

#[test]
fn notification_checks_in_order() {
    let n = Notification {
        kind: MessageKind::MethodCall,
        interface: None,
        path: None,
    };
    assert_eq!(
        LinkEvent::notification_path(&n).unwrap_err().kind,
        ErrorKind::NotSignal
    );
    let n = signal(Some("org.freedesktop.network1.Link"), Some("/x"));
    let e = LinkEvent::notification_path(&n).unwrap_err();
    assert_eq!(e.kind, ErrorKind::WrongInterface);
    assert_eq!(e.detail, "org.freedesktop.network1.Link");
    let n = signal(None, Some("/x"));
    assert_eq!(
        LinkEvent::notification_path(&n).unwrap_err().kind,
        ErrorKind::WrongInterface
    );
    let n = signal(Some(PROPERTIES_INTERFACE), None);
    assert_eq!(
        LinkEvent::notification_path(&n).unwrap_err().kind,
        ErrorKind::MissingPath
    );
    let n = signal(
        Some("org.freedesktop.DBus.Properties"),
        Some("/org/freedesktop/network1/link/_33"),
    );
    assert_eq!(
        LinkEvent::notification_path(&n).unwrap(),
        "/org/freedesktop/network1/link/_33"
    );
}

#[test]
fn link_is_found_by_path() {
    let links = links();
    let link =
        LinkEvent::link_from_path(&"/org/freedesktop/network1/link/_33".to_string(), &links)
            .unwrap();
    assert_eq!(link.index, 3);
    assert_eq!(link.name, "wlan0");
    let e = LinkEvent::link_from_path(&"/org/freedesktop/network1/link/_39".to_string(), &links)
        .unwrap_err();
    assert_eq!(e.kind, ErrorKind::UnknownLink);
}

#[test]
fn event_from_description() {
    let links = links();
    let raw = "{\"OperationalState\":\"routable\"}".to_string();
    let ev = LinkEvent::new(&links[1], "/p".to_string(), Some(details("routable")), raw.clone())
        .unwrap();
    assert_eq!(ev.iface, "wlan0");
    assert_eq!(ev.state, "routable");
    assert_eq!(ev.path, "/p");
    assert_eq!(ev.link_details.carrier_state, "carrier");
    assert_eq!(ev.link_details_json, raw);
}

#[test]
fn unreadable_description_is_refused() {
    let links = links();
    let e = LinkEvent::new(&links[1], "/p".to_string(), None, "garbage".to_string())
        .err()
        .unwrap();
    assert_eq!(e.kind, ErrorKind::AttributeParseFailed);
    let e = LinkEvent::new(&links[1], "/p".to_string(), Some(details("")), "{}".to_string())
        .err()
        .unwrap();
    assert_eq!(e.kind, ErrorKind::AttributeParseFailed);
}

#[test]
fn event_text() {
    let links = links();
    let ev = LinkEvent::new(&links[0], "/p".to_string(), Some(details("carrier")), "{}".to_string())
        .unwrap();
    assert_eq!(ev.to_text(), "lo --> carrier");
}
