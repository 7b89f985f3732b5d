use snm::parsers::{parse, Parsers};

#[test]
fn parse_wpa_state() {
    let report = "bssid=00:11:22:33:44:55\nssid=corp\nwpa_state=COMPLETED\nip_address=192.0.2.10\n";
    assert_eq!(parse(Parsers::WpaState, report), Some("COMPLETED".to_string()));
    assert_eq!(parse(Parsers::WpaState, "wpa_state=SCANNING\n"), Some("SCANNING".to_string()));
    assert_eq!(parse(Parsers::WpaState, "nothing here\n"), None);
}

#[test]
fn parse_lease() {
    let report = "wlan0: offered 192.0.2.10 from 192.0.2.1\nwlan0: leased 192.0.2.10 for 86400 seconds\n";
    assert_eq!(parse(Parsers::Ip, report), Some("192.0.2.10".to_string()));
    assert_eq!(parse(Parsers::Ip, "wlan0: timed out\n"), None);
}

#[test]
fn parse_signal_level() {
    assert_eq!(parse(Parsers::NetworkQuality, "\tsignal: -67.00 dBm\n"), Some("-67".to_string()));
    assert_eq!(parse(Parsers::NetworkQuality, "\tfreq: 2412\n"), None);
}

#[test]
fn parse_capability_list() {
    assert_eq!(
        parse(Parsers::NetworkEnc, "\tcapability: ESS Privacy ShortSlotTime (0x0411)\n"),
        Some("ESS Privacy ShortSlotTime (0x0411)".to_string())
    );
    assert_eq!(parse(Parsers::NetworkEnc, "\tSSID: x\n"), None);
}

#[test]
fn parse_essid_field() {
    assert_eq!(parse(Parsers::NetworkEssid, "\tSSID: my net\n\tother\n"), Some("my net".to_string()));
    assert_eq!(parse(Parsers::NetworkEssid, "\tSSID: \n"), Some("".to_string()));
    assert_eq!(parse(Parsers::NetworkEssid, "\tSSID: no newline"), None);
}

#[test]
fn parse_does_not_hand_the_text_back() {
    let text = "wpa_state=COMPLETED\n";
    assert_ne!(parse(Parsers::WpaState, text), Some(text.to_string()));
}

#[test]
fn patterns_are_what_the_fields_need() {
    assert_eq!(Parsers::WpaState.pattern(), ".*wpa_state=(.*?)\\n");
    assert_eq!(Parsers::NetworkEssid.pattern(), ".*SSID: ([^\\n]*)\\n");
}
