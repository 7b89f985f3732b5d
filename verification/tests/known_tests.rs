use snm::known::KnownNetworks;
use snm::types::{
    ConnectionInfo, ConnectionSetting, ConnectionStatus, KnownNetwork, DEFAULT_THRESHOLD,
};

fn known(auto: bool, password: Option<&str>, threshold: Option<i32>) -> KnownNetwork {
    KnownNetwork { auto, password: password.map(|p| p.to_string()), threshold }
}

#[test]
fn status_codes() {
    assert_eq!(ConnectionStatus::Initializing.code(), 0);
    assert_eq!(ConnectionStatus::Connecting.code(), 1);
    assert_eq!(ConnectionStatus::Authenticating.code(), 2);
    assert_eq!(ConnectionStatus::GettingIP.code(), 3);
    assert_eq!(ConnectionStatus::AuthFail.code(), 4);
    assert_eq!(ConnectionStatus::Aborted.code(), 5);
    assert_eq!(ConnectionStatus::ConnectFail.code(), 6);
}

#[test]
fn state_predicates() {
    let states = [
        (ConnectionInfo::NotConnected, false, false, false),
        (ConnectionInfo::Ethernet("192.0.2.1".to_string()), true, true, false),
        (ConnectionInfo::Wifi("a".to_string(), 50, true, "192.0.2.2".to_string()), false, true, false),
        (ConnectionInfo::ConnectingEth, true, true, true),
        (ConnectionInfo::ConnectingWifi("a".to_string()), false, true, true),
    ];
    for (state, wired, active, connecting) in states.iter() {
        assert_eq!(state.wired(), *wired);
        assert_eq!(state.active(), *active);
        assert_eq!(state.connecting(), *connecting);
        assert_eq!(&state.clone(), state);
    }
}

#[test]
fn state_wire_forms() {
    let e = String::new();
    assert_eq!(ConnectionInfo::NotConnected.to_dbus_tuple(), (0, e.clone(), false, 0, e.clone()));
    assert_eq!(
        ConnectionInfo::Ethernet("192.0.2.10".to_string()).to_dbus_tuple(),
        (1, "Ethernet connection".to_string(), false, 100, "192.0.2.10".to_string())
    );
    assert_eq!(
        ConnectionInfo::Wifi("corp".to_string(), 80, true, "192.0.2.11".to_string()).to_dbus_tuple(),
        (2, "corp".to_string(), true, 80, "192.0.2.11".to_string())
    );
    assert_eq!(
        ConnectionInfo::ConnectingEth.to_dbus_tuple(),
        (3, "Ethernet connection".to_string(), false, 100, e.clone())
    );
    assert_eq!(
        ConnectionInfo::ConnectingWifi("corp".to_string()).to_dbus_tuple(),
        (4, "corp".to_string(), false, 0, e.clone())
    );
}

#[test]
fn only_a_secured_setting_needs_auth() {
    assert!(!ConnectionSetting::Ethernet.need_auth());
    assert!(ConnectionSetting::Wifi {
        essid: "a".to_string(),
        password: "p".to_string(),
        threshold: None
    }
    .need_auth());
    assert!(!ConnectionSetting::OpenWifi { essid: "a".to_string(), threshold: Some(-70) }.need_auth());
}

#[test]
fn setting_from_request() {
    assert_eq!(ConnectionSetting::from_request(1, "ignored", true), Ok(ConnectionSetting::Ethernet));
    assert_eq!(
        ConnectionSetting::from_request(2, "corp", true),
        Ok(ConnectionSetting::Wifi {
            essid: "corp".to_string(),
            password: String::new(),
            threshold: None
        })
    );
    assert_eq!(
        ConnectionSetting::from_request(2, "guest", false),
        Ok(ConnectionSetting::OpenWifi { essid: "guest".to_string(), threshold: None })
    );
    assert_eq!(ConnectionSetting::from_request(0, "x", false), Err(()));
    assert_eq!(ConnectionSetting::from_request(3, "x", false), Err(()));
}

#[test]
fn known_network_new() {
    assert_eq!(KnownNetwork::new(true, true, true, "pw", -70), known(true, Some("pw"), Some(-70)));
    assert_eq!(KnownNetwork::new(false, false, false, "pw", -70), known(false, None, None));
    assert_eq!(KnownNetwork::new(true, false, true, "pw", -70), known(true, None, Some(-70)));
    assert_eq!(KnownNetwork::new(false, true, false, "", 0), known(false, Some(""), None));
    assert_eq!(KnownNetwork::default(), known(false, None, None));
    assert_eq!(KnownNetwork::default_threshold(), None);
    assert_eq!(KnownNetwork::make_threshold(true, 5), Some(5));
    assert_eq!(KnownNetwork::make_threshold(false, 5), None);
    assert_eq!(KnownNetwork::make_password(true, "x".to_string()), Some("x".to_string()));
    assert_eq!(KnownNetwork::make_password(false, "x".to_string()), None);
}

#[test]
fn known_network_to_setting() {
    assert_eq!(
        known(true, Some("pw"), Some(-70)).to_setting("corp"),
        ConnectionSetting::Wifi {
            essid: "corp".to_string(),
            password: "pw".to_string(),
            threshold: Some(-70)
        }
    );
    assert_eq!(
        known(true, None, None).to_setting("guest"),
        ConnectionSetting::OpenWifi { essid: "guest".to_string(), threshold: None }
    );
}

#[test]
fn known_network_wire_forms() {
    assert_eq!(DEFAULT_THRESHOLD, -65);
    assert_eq!(
        known(true, Some("pw"), Some(-70)).to_dbus_tuple(),
        ("pw".to_string(), -70, true, true, true)
    );
    assert_eq!(known(false, None, None).to_dbus_tuple(), (String::new(), -65, false, false, false));
    assert_eq!(KnownNetwork::default_dbus_tuple(), (String::new(), -65, false, false, false));
}

#[test]
fn store_insert_get_remove() {
    let mut store = KnownNetworks::new();
    assert_eq!(store.len(), 0);
    assert_eq!(store.get("a"), None);
    store.insert("a", known(true, None, None));
    store.insert("b", known(true, Some("pw"), None));
    assert_eq!(store.len(), 2);
    assert_eq!(store.get("a"), Some(known(true, None, None)));
    assert_eq!(store.get("b"), Some(known(true, Some("pw"), None)));
    store.insert("a", known(false, Some("x"), Some(-80)));
    assert_eq!(store.len(), 2);
    assert_eq!(store.get("a"), Some(known(false, Some("x"), Some(-80))));
    assert!(store.remove("a"));
    assert!(!store.remove("a"));
    assert_eq!(store.get("a"), None);
    assert_eq!(store.get("b"), Some(known(true, Some("pw"), None)));
    assert_eq!(store.len(), 1);
}

#[test]
fn store_set_props_erases_a_blank_record() {
    let mut store = KnownNetworks::new();
    store.set_props("a", known(true, None, None));
    store.set_props("b", known(false, Some("pw"), None));
    assert_eq!(store.len(), 2);
    store.set_props("a", known(false, None, Some(-70)));
    assert_eq!(store.get("a"), None);
    store.set_props("c", known(false, None, None));
    assert_eq!(store.get("c"), None);
    store.set_props("b", known(true, Some("new"), Some(-60)));
    assert_eq!(store.get("b"), Some(known(true, Some("new"), Some(-60))));
    assert_eq!(store.len(), 1);
}

#[test]
fn store_entries_round_trip() {
    let store = KnownNetworks::from_entries(&vec![
        ("a".to_string(), known(true, None, None)),
        ("b".to_string(), known(true, Some("pw"), None)),
        ("a".to_string(), known(false, Some("later"), None)),
    ]);
    assert_eq!(store.len(), 2);
    assert_eq!(store.get("a"), Some(known(false, Some("later"), None)));
    let again = KnownNetworks::from_entries(&store.entries());
    assert_eq!(again.entries(), store.entries());
    assert_eq!(store.clone().entries(), store.entries());
}
