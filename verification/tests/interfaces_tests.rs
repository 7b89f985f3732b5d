use snm::interfaces::{Interface, Interfaces, LinkReport};
use snm::types::{ConnectionInfo, ConnectionSetting};

fn report(name: &str, carrier: Option<&str>, operstate: Option<&str>) -> LinkReport {
    LinkReport {
        name: name.to_string(),
        carrier: carrier.map(|c| c.to_string()),
        operstate: operstate.map(|c| c.to_string()),
    }
}

fn show<T: std::fmt::Debug>(t: &T) -> String {
    format!("{:?}", t)
}

fn name_of(i: Option<Interface>) -> Option<String> {
    i.map(|i| i.name().to_string())
}

#[test]
fn new_interface_has_seen_nothing() {
    let i = Interface::new("eth0");
    assert_eq!(i.name(), "eth0");
    assert!(i.valid());
    assert!(!i.is_plugged_in());
    assert!(!i.is_up());
}

#[test]
fn interface_without_a_name_is_not_valid() {
    let i = Interface::from_report(&report("", Some("1\n"), Some("up\n")));
    assert!(!i.valid());
    assert!(!i.is_plugged_in());
    assert!(!i.is_up());
    assert!(i.up().is_none());
    assert!(i.down().is_none());
    assert!(i.scan().is_none());
    assert_eq!(i.dhcp("eth0: leased 192.0.2.10 for 60 seconds\n"), Err(()));
}

#[test]
fn link_state_is_read_from_the_reports() {
    let i = Interface::from_report(&report("eth0", Some("1\n"), Some("up\n")));
    assert!(i.is_plugged_in() && i.is_up());
    let i = Interface::from_report(&report("eth0", Some("0\n"), Some("down\n")));
    assert!(!i.is_plugged_in() && !i.is_up());
    let i = Interface::from_report(&report("eth0", Some("1"), Some("up")));
    assert!(!i.is_plugged_in() && !i.is_up());
    let i = Interface::from_report(&report("eth0", None, None));
    assert!(!i.is_plugged_in() && !i.is_up());
    let i = Interface::from_report(&report("eth0", Some("1\n"), None));
    assert!(i.is_plugged_in() && !i.is_up());
}

#[test]
fn interface_effects() {
    let i = Interface::new("wlan0");
    assert_eq!(show(&i.up()), "Some(LinkUp(\"wlan0\"))");
    assert_eq!(show(&i.down()), "Some(LinkDown(\"wlan0\"))");
    assert_eq!(show(&i.scan()), "Some(Scan(\"wlan0\"))");
    assert_eq!(show(&i.disconnect()), "Teardown(\"wlan0\")");
}

#[test]
fn dhcp_reads_the_leased_address() {
    let i = Interface::new("eth0");
    assert_eq!(
        i.dhcp("eth0: leased 192.0.2.10 for 3600 seconds\n"),
        Ok("192.0.2.10".to_string())
    );
    assert_eq!(i.dhcp("eth0: timed out\n"), Err(()));
}

#[test]
fn eth_info_from_an_address() {
    let i = Interface::new("eth0");
    assert_eq!(
        i.eth_info(Some("192.0.2.10".to_string())),
        ConnectionInfo::Ethernet("192.0.2.10".to_string())
    );
    assert_eq!(i.eth_info(None), ConnectionInfo::NotConnected);
}

#[test]
fn wlan_info_from_a_link_report() {
    let i = Interface::new("wlan0");
    let link = "Connected to 00:11:22:33:44:55 (on wlan0)\n\tSSID: corp\n\tfreq: 2412\n\tsignal: -49 dBm\n\ttx bitrate: 72.2 MBit/s\n";
    assert_eq!(
        i.wlan_info(link, Some("192.0.2.11".to_string())),
        ConnectionInfo::Wifi("corp".to_string(), 100, true, "192.0.2.11".to_string())
    );
    let link = "Connected to 00:11:22:33:44:55 (on wlan0)\n\tSSID: caf\\xc3\\xa9\n\tsignal: -49.00 dBm\n";
    assert_eq!(
        i.wlan_info(link, Some("192.0.2.11".to_string())),
        ConnectionInfo::Wifi("café".to_string(), 80, true, "192.0.2.11".to_string())
    );
    assert_eq!(i.wlan_info(link, None), ConnectionInfo::NotConnected);
    let raw = "Connected to 00:11:22:33:44:55 (on wlan0)\n\tSSID: café\n\tsignal: -49.00 dBm\n";
    assert_eq!(
        i.wlan_info(raw, Some("192.0.2.11".to_string())),
        ConnectionInfo::Wifi("café".to_string(), 80, true, "192.0.2.11".to_string())
    );
    assert_eq!(
        i.wlan_info("Not connected.\n", Some("192.0.2.11".to_string())),
        ConnectionInfo::NotConnected
    );
}

#[test]
fn link_info_from_fields() {
    let ip = Some("192.0.2.11".to_string());
    assert_eq!(
        Interface::link_info(Some("corp".to_string()), Some("-67".to_string()), ip.clone()),
        ConnectionInfo::Wifi("corp".to_string(), 54, true, "192.0.2.11".to_string())
    );
    assert_eq!(
        Interface::link_info(Some("corp".to_string()), None, ip.clone()),
        ConnectionInfo::Wifi("corp".to_string(), 100, true, "192.0.2.11".to_string())
    );
    assert_eq!(
        Interface::link_info(Some("corp".to_string()), Some("loud".to_string()), ip.clone()),
        ConnectionInfo::Wifi("corp".to_string(), 100, true, "192.0.2.11".to_string())
    );
    assert_eq!(
        Interface::link_info(Some("\\xff".to_string()), None, ip.clone()),
        ConnectionInfo::NotConnected
    );
    assert_eq!(
        Interface::link_info(Some("\\xZ".to_string()), None, ip.clone()),
        ConnectionInfo::NotConnected
    );
    assert_eq!(Interface::link_info(None, None, ip.clone()), ConnectionInfo::NotConnected);
}

#[test]
fn empty_registry_has_no_interface() {
    let r = Interfaces::new();
    assert!(r.eth().is_none());
    assert!(r.wlan().is_none());
    assert!(r.from_setting(&ConnectionSetting::Ethernet).is_none());
    assert!(r.disconnect().is_empty());
}

#[test]
fn detect_classifies_by_first_letter() {
    let mut r = Interfaces::new();
    let effects = r.detect(&vec![
        report("lo", Some("1\n"), Some("unknown\n")),
        report("eth0", Some("1\n"), Some("up\n")),
        report("wlan0", Some("0\n"), Some("down\n")),
        report("docker0", None, None),
        report("", None, None),
        report("enp3s0", Some("0\n"), Some("down\n")),
    ]);
    assert_eq!(show(&effects), "[LinkUp(\"eth0\"), LinkUp(\"enp3s0\")]");
    assert_eq!(name_of(r.eth()), Some("eth0".to_string()));
    assert_eq!(name_of(r.wlan()), Some("wlan0".to_string()));
    assert_eq!(
        show(&r.disconnect()),
        "[Teardown(\"eth0\"), Teardown(\"enp3s0\"), Teardown(\"wlan0\")]"
    );
}

#[test]
fn detect_is_idempotent_and_never_drops() {
    let mut r = Interfaces::new();
    let reports = vec![report("eth0", Some("1\n"), Some("up\n")), report("wlan0", None, None)];
    r.detect(&reports);
    let first = show(&r);
    let effects = r.detect(&reports);
    assert_eq!(show(&r), first);
    assert_eq!(show(&effects), "[LinkUp(\"eth0\")]");
    r.detect(&vec![report("wlan1", Some("1\n"), Some("up\n"))]);
    assert_eq!(
        show(&r.disconnect()),
        "[Teardown(\"eth0\"), Teardown(\"wlan0\"), Teardown(\"wlan1\")]"
    );
    assert!(!r.eth().unwrap().is_plugged_in());
    assert_eq!(name_of(r.wlan()), Some("wlan1".to_string()));
}

#[test]
fn most_used_prefers_plugged_then_up() {
    let make = |flags: &[(&str, bool, bool)]| -> Vec<Interface> {
        flags
            .iter()
            .map(|(n, p, u)| {
                Interface::from_report(&report(
                    n,
                    Some(if *p { "1\n" } else { "0\n" }),
                    Some(if *u { "up\n" } else { "down\n" }),
                ))
            })
            .collect()
    };
    assert_eq!(name_of(Interfaces::most_used_iface(&make(&[]))), None);
    assert_eq!(
        name_of(Interfaces::most_used_iface(&make(&[("e0", false, false)]))),
        Some("e0".to_string())
    );
    assert_eq!(
        name_of(Interfaces::most_used_iface(&make(&[
            ("e0", false, true),
            ("e1", true, false),
            ("e2", true, true)
        ]))),
        Some("e1".to_string())
    );
    assert_eq!(
        name_of(Interfaces::most_used_iface(&make(&[
            ("e0", false, false),
            ("e1", false, true),
            ("e2", false, true)
        ]))),
        Some("e1".to_string())
    );
    assert_eq!(
        name_of(Interfaces::most_used_iface(&make(&[("e0", false, false), ("e1", false, false)]))),
        Some("e0".to_string())
    );
}

#[test]
fn from_setting_picks_the_kind() {
    let mut r = Interfaces::new();
    r.detect(&vec![report("eth0", None, None), report("wlan0", None, None)]);
    assert_eq!(name_of(r.from_setting(&ConnectionSetting::Ethernet)), Some("eth0".to_string()));
    assert_eq!(
        name_of(r.from_setting(&ConnectionSetting::OpenWifi {
            essid: "a".to_string(),
            threshold: None
        })),
        Some("wlan0".to_string())
    );
    assert_eq!(
        name_of(r.from_setting(&ConnectionSetting::Wifi {
            essid: "a".to_string(),
            password: "p".to_string(),
            threshold: None
        })),
        Some("wlan0".to_string())
    );
    assert_eq!(show(&r.clone()), show(&r));
}
