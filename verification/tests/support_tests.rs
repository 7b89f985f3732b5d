use snm::support::{
    dbm2perc, decimal_count, decimal_string, essid_is_well_formed, gen_wpa_config, hex_string,
    parse_essid, render_wpa_config, try_parse_essid,
};

#[test]
fn dbm2perc_below_the_curve_is_one() {
    assert_eq!(dbm2perc(-93), 1);
    assert_eq!(dbm2perc(-200), 1);
    assert_eq!(dbm2perc(i32::MIN), 1);
}

#[test]
fn dbm2perc_above_the_curve_is_hundred() {
    assert_eq!(dbm2perc(-20), 100);
    assert_eq!(dbm2perc(0), 100);
    assert_eq!(dbm2perc(i32::MAX), 100);
}

#[test]
fn dbm2perc_at_the_ends_of_the_curve() {
    assert_eq!(dbm2perc(-92), 3);
    assert_eq!(dbm2perc(-21), 99);
}

#[test]
fn dbm2perc_on_the_curve() {
    assert_eq!(dbm2perc(-67), 54);
    assert_eq!(dbm2perc(-50), 79);
    assert_eq!(dbm2perc(-80), 30);
    assert_eq!(dbm2perc(-39), 90);
    assert_eq!(dbm2perc(-38), 90);
}

#[test]
fn dbm2perc_agrees_with_the_rounded_quadratic() {
    for dbm in -92..=-21 {
        let x = dbm as f64;
        let expected = (-0.0154 * x * x - 0.3794 * x + 98.182).round() as u32;
        assert_eq!(dbm2perc(dbm), expected);
    }
}

#[test]
fn dbm2perc_is_monotone_and_in_range() {
    let mut last = dbm2perc(-130);
    for dbm in -129..=10 {
        let q = dbm2perc(dbm);
        assert!(q >= last);
        assert!(q >= 1 && q <= 100);
        last = q;
    }
}

#[test]
fn parse_essid_plain_name_decodes_to_itself() {
    assert_eq!(parse_essid("hello world"), b"hello world".to_vec());
    assert_eq!(parse_essid(""), Vec::<u8>::new());
    assert_eq!(parse_essid("x"), vec![0x78]);
}

#[test]
fn parse_essid_one_letter_escapes() {
    assert_eq!(parse_essid("\\t"), vec![0x09]);
    assert_eq!(parse_essid("\\'"), vec![0x27]);
    assert_eq!(parse_essid("\\\""), vec![0x22]);
    assert_eq!(parse_essid("\\\\"), vec![0x5c]);
    assert_eq!(parse_essid("a\\tb\\\\c"), vec![0x61, 0x09, 0x62, 0x5c, 0x63]);
}

#[test]
fn parse_essid_hex_escapes() {
    assert_eq!(parse_essid("\\x41"), vec![0x41]);
    assert_eq!(parse_essid("\\x00\\xff\\xFf\\x7f"), vec![0x00, 0xff, 0xff, 0x7f]);
    assert_eq!(parse_essid("\\xe4\\xb8\\xad"), vec![0xe4, 0xb8, 0xad]);
    assert_eq!(parse_essid("caf\\xc3\\xa9"), "café".as_bytes().to_vec());
}

#[test]
fn parse_essid_sign_and_digit() {
    assert_eq!(parse_essid("\\x+f"), vec![0x0f]);
}

#[test]
fn parse_essid_stops_before_an_unknown_escape() {
    assert_eq!(parse_essid("ab\\qcd"), b"ab".to_vec());
    assert_eq!(parse_essid("ab\\"), b"ab".to_vec());
    assert_eq!(parse_essid("\\n"), Vec::<u8>::new());
}

#[test]
fn parse_essid_keeps_the_bytes_of_a_character() {
    assert_eq!(parse_essid("é"), vec![0xc3, 0xa9]);
    assert_eq!(parse_essid("中"), vec![0xe4, 0xb8, 0xad]);
    assert_eq!(parse_essid("a😀\tz"), vec![0x61, 0xf0, 0x9f, 0x98, 0x80, 0x09, 0x7a]);
}

#[test]
fn parse_essid_without_backslash_gives_the_bytes_of_the_input() {
    for name in ["", "guest", "caf\u{e9} du coin", "\u{4e2d}\u{6587} wifi", "tab\there", "q'\"x"] {
        assert_eq!(parse_essid(name), name.as_bytes().to_vec());
    }
}

#[test]
fn try_parse_essid_refuses_hex_spelt_with_other_characters() {
    assert_eq!(try_parse_essid("\\xé"), None);
    assert_eq!(try_parse_essid("\\x4é"), None);
}

#[test]
fn try_parse_essid_refuses_broken_hex() {
    assert_eq!(try_parse_essid("\\xZZ"), None);
    assert_eq!(try_parse_essid("\\x4"), None);
    assert_eq!(try_parse_essid("\\x"), None);
    assert_eq!(try_parse_essid("ab\\x4g"), None);
    assert_eq!(try_parse_essid("\\x-1"), None);
    assert_eq!(try_parse_essid("\\x++"), None);
    assert_eq!(try_parse_essid("ok\\x20"), Some(b"ok ".to_vec()));
}

#[test]
fn try_parse_essid_does_not_look_behind_an_unknown_escape() {
    assert_eq!(try_parse_essid("a\\q\\xZZ"), Some(b"a".to_vec()));
}

#[test]
fn essid_well_formedness() {
    assert!(essid_is_well_formed("plain"));
    assert!(essid_is_well_formed("\\x41"));
    assert!(essid_is_well_formed("tail\\"));
    assert!(!essid_is_well_formed("\\x4"));
    assert!(!essid_is_well_formed("\\xg0"));
}

#[test]
fn decimal_strings() {
    assert_eq!(decimal_string(0), "0");
    assert_eq!(decimal_string(7), "7");
    assert_eq!(decimal_string(10), "10");
    assert_eq!(decimal_string(-65), "-65");
    assert_eq!(decimal_string(1800), "1800");
    assert_eq!(decimal_string(i64::MAX), "9223372036854775807");
    assert_eq!(decimal_string(i64::MIN), "-9223372036854775808");
    assert_eq!(decimal_count(0), "0");
    assert_eq!(decimal_count(12345), "12345");
}

#[test]
fn hex_strings() {
    assert_eq!(hex_string(&[]), "");
    assert_eq!(hex_string(&[0x00, 0x0f, 0xa0, 0xff]), "000fa0ff");
}

#[test]
fn render_open_network() {
    let text = render_wpa_config("guest", &None, None, "/etc/snm/roaming.db", 30, 1800);
    assert_eq!(text, "network={\n\tssid=\"guest\"\n\tkey_mgmt=NONE\n}\n");
}

#[test]
fn render_secured_network_with_threshold() {
    let text = render_wpa_config(
        "corp",
        &Some(vec![0xde, 0xad, 0xbe, 0xef]),
        Some(-65),
        "/etc/snm/roaming.db",
        30,
        1800,
    );
    assert_eq!(
        text,
        "network={\n\tssid=\"corp\"\n\tpsk=deadbeef\n\tbgscan=\"learn:30:-65:1800:/etc/snm/roaming.db\"\n}\n"
    );
}

#[test]
fn gen_wpa_config_derives_the_key() {
    let text = gen_wpa_config("IEEE", Some("password"), None, "/etc/snm/roaming.db", 30, 1800);
    assert_eq!(
        text,
        Some(
            "network={\n\tssid=\"IEEE\"\n\tpsk=f42c6fc52df0ebef9ebb4b90b38a5f902e83fe1b135a70e23aed762e9710a12e\n}\n"
                .to_string()
        )
    );
}

#[test]
fn gen_wpa_config_key_depends_on_essid_and_password() {
    let a = gen_wpa_config("corp", Some("bad"), None, "db", 30, 1800).unwrap();
    assert!(a.contains("psk=4693dd4577c20e17bbee1e565498c179c1ff9abfbee592139f05c8b7a8139bc8"));
    let b = gen_wpa_config("corp", Some("good"), None, "db", 30, 1800).unwrap();
    assert_ne!(a, b);
}

#[test]
fn gen_wpa_config_open_with_threshold() {
    let text = gen_wpa_config("guest", None, Some(-70), "/tmp/db", 5, 60);
    assert_eq!(
        text,
        Some(
            "network={\n\tssid=\"guest\"\n\tkey_mgmt=NONE\n\tbgscan=\"learn:5:-70:60:/tmp/db\"\n}\n"
                .to_string()
        )
    );
}
