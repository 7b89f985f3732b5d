use snm::attempt::ConnectNext;
use snm::convert::{Base, Param};
use snm::interfaces::LinkReport;
use snm::known::KnownNetworks;
use snm::service::{
    Handled, Message, MessageKind, Origin, ServiceData, TickThen, NETWORK_CHECK_INTERVAL,
    NETWORK_SCAN_INTERVAL, SCAN_TICKS,
};
use snm::signalmsg::{Effect, SignalMsg};
use snm::types::{ConnectionInfo, ConnectionSetting, ConnectionStatus, KnownNetwork};

fn report(name: &str, plugged: bool, up: bool) -> LinkReport {
    LinkReport {
        name: name.to_string(),
        carrier: Some(if plugged { "1\n" } else { "0\n" }.to_string()),
        operstate: Some(if up { "up\n" } else { "down\n" }.to_string()),
    }
}

fn show<T: std::fmt::Debug>(t: &T) -> String {
    format!("{:?}", t)
}

fn bss(essid: &str, dbm: i32, privacy: bool) -> String {
    format!(
        "BSS 00:11:22:33:44:55(on wlan0)\n\tcapability: ESS {}(0x0411)\n\tsignal: {}.00 dBm\n\tSSID: {}\n",
        if privacy { "Privacy " } else { "" },
        dbm,
        essid
    )
}

fn service(eth: bool, wifi: bool, scan: &str, known: &[(&str, bool, Option<&str>)]) -> ServiceData {
    let mut store = KnownNetworks::new();
    for (essid, auto, password) in known {
        store.insert(
            essid,
            KnownNetwork { auto: *auto, password: password.map(|p| p.to_string()), threshold: None },
        );
    }
    let mut s = ServiceData::new(store);
    s.connection.detect(&vec![report("eth0", eth, eth), report("wlan0", wifi, true)]);
    s.connection.scan(scan);
    s
}

fn call(member: &str, params: Vec<Param>) -> Message {
    Message {
        kind: MessageKind::Call,
        member: Some(member.to_string()),
        interface: Some("com.github.okeri.snm".to_string()),
        sender: Some(":1.42".to_string()),
        params: Some(params),
    }
}

fn connect_call(kind: u32, essid: &str, enc: bool) -> Message {
    call(
        "connect",
        vec![Param::Struct(vec![
            Base::Uint32(kind),
            Base::Text(essid.to_string()),
            Base::Boolean(enc),
        ])],
    )
}

fn text(s: &str) -> Param {
    Param::Base(Base::Text(s.to_string()))
}

fn flag(b: bool) -> Param {
    Param::Base(Base::Boolean(b))
}

fn run_attempt(s: &mut ServiceData, setting: ConnectionSetting, complete: bool, lease: &str) -> (bool, Vec<Effect>) {
    let mut all = Vec::new();
    let mut step = s.connection.connect(setting);
    loop {
        all.append(&mut step.effects);
        step = match step.next {
            ConnectNext::Done(ok) => return (ok, all),
            ConnectNext::StoreConfig(_) => s.connection.config_stored(Some("/tmp/cfg".to_string())),
            ConnectNext::PollStatus(_) => s.connection.status_polled(if complete {
                "wpa_state=COMPLETED\n"
            } else {
                "wpa_state=SCANNING\n"
            }),
            ConnectNext::AcquireLease(_) => s.connection.lease_reported(lease),
        };
    }
}

fn events(effects: &[Effect]) -> Vec<String> {
    effects
        .iter()
        .filter_map(|e| match e {
            Effect::Emit(SignalMsg::ConnectStatusChanged(s)) => Some(format!("{:?}", s)),
            Effect::Emit(SignalMsg::StateChanged(s)) => Some(format!("{:?}", s)),
            Effect::Emit(SignalMsg::NetworkList(_)) => Some("list".to_string()),
            _ => None,
        })
        .collect()
}

#[test]
fn intervals() {
    assert_eq!(NETWORK_CHECK_INTERVAL, 2);
    assert_eq!(NETWORK_SCAN_INTERVAL, 14);
    assert_eq!(SCAN_TICKS, NETWORK_SCAN_INTERVAL / NETWORK_CHECK_INTERVAL);
}

#[test]
fn new_service_may_act() {
    let s = ServiceData::new(KnownNetworks::new());
    assert!(s.auto);
    assert_eq!(s.counter, 0);
    assert!(s.requests.is_empty());
    assert!(s.pending.is_none());
    assert_eq!(s.proxy_tracker.active(), 0);
    assert_eq!(s.get_state(), (0, String::new(), false, 0, String::new()));
    assert!(s.get_networks().is_empty());
}

#[test]
fn tick_warm_wired() {
    let mut s = service(true, false, "", &[]);
    let tick = s.tick();
    assert_eq!(
        show(&tick),
        "Tick { effects: [], next: Connect(Ethernet) }"
    );
    assert_eq!(s.pending, Some(Origin::Policy));
    let (ok, effects) = run_attempt(&mut s, ConnectionSetting::Ethernet, true, "leased 192.0.2.10 for 60");
    assert!(ok);
    assert_eq!(
        events(&effects),
        vec!["ConnectingEth", "Initializing", "GettingIP", "Ethernet(\"192.0.2.10\")"]
    );
    let after = s.connect_finished(true);
    assert_eq!(show(&after), "Tick { effects: [], next: Sleep(2) }");
    assert!(s.pending.is_none());
    assert_eq!(
        s.get_state(),
        (1, "Ethernet connection".to_string(), false, 100, "192.0.2.10".to_string())
    );
    assert_eq!(s.get_networks(), vec![(1, "Ethernet connection".to_string(), false, 100)]);
}

#[test]
fn tick_shows_the_wire_in_a_list_without_it() {
    let mut s = service(false, true, &bss("guest", -57, false), &[]);
    s.connection.detect(&vec![report("eth0", true, true), report("wlan0", true, true)]);
    let tick = s.tick();
    assert_eq!(
        show(&tick),
        "Tick { effects: [Emit(NetworkList(NetworkList { items: [Ethernet, Wifi(\"guest\", 70, false)] }))], \
         next: Connect(Ethernet) }"
    );
}

#[test]
fn tick_auto_joins_a_known_open_network() {
    let mut s = service(false, true, &bss("guest", -57, false), &[("guest", true, None)]);
    let tick = s.tick();
    let setting = match tick.next {
        TickThen::Connect(setting) => setting,
        other => panic!("no connect: {:?}", other),
    };
    assert_eq!(setting, ConnectionSetting::OpenWifi { essid: "guest".to_string(), threshold: None });
    let (ok, effects) = run_attempt(&mut s, setting, true, "leased 192.0.2.20 for 60");
    assert!(ok);
    assert_eq!(
        events(&effects),
        vec![
            "ConnectingWifi(\"guest\")",
            "Initializing",
            "Connecting",
            "GettingIP",
            "Wifi(\"guest\", 70, false, \"192.0.2.20\")"
        ]
    );
    s.connect_finished(true);
    assert_eq!(s.get_state(), (2, "guest".to_string(), false, 70, "192.0.2.20".to_string()));
}

#[test]
fn tick_wrong_password_returns_to_not_connected() {
    let mut s = service(false, true, &bss("corp", -49, true), &[("corp", true, Some("bad"))]);
    let tick = s.tick();
    let setting = match tick.next {
        TickThen::Connect(setting) => setting,
        other => panic!("no connect: {:?}", other),
    };
    let (ok, effects) = run_attempt(&mut s, setting, false, "");
    assert!(!ok);
    assert_eq!(
        events(&effects),
        vec!["ConnectingWifi(\"corp\")", "Initializing", "Authenticating", "AuthFail"]
    );
    assert_eq!(s.connection.current_state(), ConnectionInfo::ConnectingWifi("corp".to_string()));
    let after = s.connect_finished(false);
    assert_eq!(
        show(&after),
        "Tick { effects: [Teardown(\"eth0\"), Teardown(\"wlan0\"), Emit(StateChanged(NotConnected))], \
         next: Sleep(2) }"
    );
    assert_eq!(s.connection.current_state(), ConnectionInfo::NotConnected);
    assert!(s.auto);
}

#[test]
fn tick_serves_the_last_request_only() {
    let mut s = service(true, true, &bss("guest", -57, false), &[]);
    assert_eq!(show(&s.handle(&connect_call(2, "guest", false)).reply), "Some(Empty)");
    assert_eq!(show(&s.handle(&connect_call(1, "", false)).reply), "Some(Empty)");
    assert_eq!(s.requests.len(), 2);
    s.counter = 5;
    s.auto = false;
    let tick = s.tick();
    assert_eq!(show(&tick), "Tick { effects: [], next: Connect(Ethernet) }");
    assert!(s.requests.is_empty());
    assert_eq!(s.pending, Some(Origin::Request));
    let (ok, _) = run_attempt(&mut s, ConnectionSetting::Ethernet, true, "leased 192.0.2.10 for 60");
    assert!(ok);
    let after = s.connect_finished(true);
    assert_eq!(show(&after), "Tick { effects: [], next: Sleep(2) }");
    assert!(s.auto);
    assert_eq!(s.counter, 0);
}

#[test]
fn tick_failed_request_changes_nothing() {
    let mut s = service(false, true, "", &[]);
    s.handle(&connect_call(2, "ghost", false));
    s.auto = false;
    s.counter = 3;
    let tick = s.tick();
    let setting = match tick.next {
        TickThen::Connect(setting) => setting,
        other => panic!("no connect: {:?}", other),
    };
    let (ok, _) = run_attempt(&mut s, setting, false, "");
    assert!(!ok);
    let after = s.connect_finished(false);
    assert_eq!(show(&after), "Tick { effects: [], next: Sleep(2) }");
    assert!(!s.auto);
    assert_eq!(s.counter, 3);
    assert_eq!(s.connection.current_state(), ConnectionInfo::ConnectingWifi("ghost".to_string()));
}

#[test]
fn connect_finished_without_an_attempt_does_nothing() {
    let mut s = service(false, true, "", &[]);
    assert_eq!(show(&s.connect_finished(true)), "Tick { effects: [], next: Sleep(2) }");
    assert_eq!(s.counter, 0);
}

#[test]
fn tick_rescans_an_empty_list_when_due() {
    let mut s = service(false, true, "", &[]);
    for expected in 1..=7 {
        let tick = s.tick();
        assert_eq!(show(&tick), "Tick { effects: [], next: Sleep(2) }");
        assert_eq!(s.counter, expected);
    }
    let tick = s.tick();
    assert_eq!(show(&tick), "Tick { effects: [], next: Scan(2) }");
    assert_eq!(s.counter, 0);
}

#[test]
fn monitor_driven_rescan() {
    let mut s = service(false, true, &bss("guest", -57, false), &[]);
    let mut hello = call("monitor", vec![flag(true)]);
    hello.sender = Some(":1.7".to_string());
    assert_eq!(show(&s.handle(&hello).reply), "Some(Empty)");
    assert_eq!(s.proxy_tracker.active(), 1);
    for _ in 0..6 {
        let tick = s.tick();
        assert_eq!(show(&tick), "Tick { effects: [], next: Sleep(2) }");
    }
    let tick = s.tick();
    assert_eq!(show(&tick), "Tick { effects: [], next: Scan(2) }");
    assert_eq!(s.counter, 0);
    let effects = s.connection.scan(&bss("guest", -57, false));
    assert_eq!(events(&effects), vec!["list"]);
    assert_eq!(s.connection.current_state(), ConnectionInfo::NotConnected);
}

#[test]
fn no_rescan_without_a_client() {
    let mut s = service(false, true, &bss("guest", -57, false), &[]);
    for _ in 0..20 {
        let tick = s.tick();
        assert_eq!(show(&tick), "Tick { effects: [], next: Sleep(2) }");
    }
    assert_eq!(s.counter, SCAN_TICKS);
}

#[test]
fn tick_without_auto_only_refreshes() {
    let mut s = service(true, true, "", &[]);
    s.auto = false;
    let tick = s.tick();
    assert_eq!(show(&tick), "Tick { effects: [], next: Sleep(2) }");
    assert_eq!(s.counter, 0);
    s.proxy_tracker.start_track(&Some(":1.7".to_string()));
    s.counter = 7;
    let tick = s.tick();
    assert_eq!(show(&tick), "Tick { effects: [], next: Scan(2) }");
}

#[test]
fn tick_disconnects_and_scans_when_the_wire_is_pulled() {
    let mut s = service(true, false, "", &[]);
    s.tick();
    run_attempt(&mut s, ConnectionSetting::Ethernet, true, "leased 192.0.2.10 for 60");
    s.connect_finished(true);
    s.counter = 4;
    s.connection.detect(&vec![report("eth0", false, false), report("wlan0", false, true)]);
    let tick = s.tick();
    assert_eq!(
        show(&tick),
        "Tick { effects: [Emit(NetworkList(NetworkList { items: [] })), Teardown(\"eth0\"), \
         Teardown(\"wlan0\"), Emit(StateChanged(NotConnected))], next: Scan(2) }"
    );
    assert_eq!(s.counter, 0);
    assert_eq!(s.connection.current_state(), ConnectionInfo::NotConnected);
}

#[test]
fn reconnect_guard() {
    let mut s = service(true, true, &bss("guest", -57, false), &[]);
    run_attempt(&mut s, ConnectionSetting::Ethernet, true, "leased 192.0.2.10 for 60");
    let handled = s.handle(&connect_call(2, "guest", false));
    assert_eq!(
        show(&handled),
        "Handled { reply: Some(Failed(\"Reconnect is not alowed\")), effects: [], persist: false }"
    );
    assert!(s.requests.is_empty());
    assert_eq!(s.connection.current_state(), ConnectionInfo::Ethernet("192.0.2.10".to_string()));
    s.connection.connect(ConnectionSetting::Ethernet);
    assert_eq!(s.connection.current_state(), ConnectionInfo::ConnectingEth);
    let handled = s.handle(&connect_call(7, "guest", false));
    assert_eq!(show(&handled.reply), "Some(Failed(\"Reconnect is not alowed\"))");
}

#[test]
fn connect_call_with_bad_arguments() {
    let mut s = service(false, true, "", &[]);
    s.connection.connect(ConnectionSetting::OpenWifi { essid: "x".to_string(), threshold: None });
    let expected = "Handled { reply: Some(InvalidArgs(Some(\"(usb)\"))), effects: [], persist: false }";
    assert_eq!(show(&s.handle(&connect_call(3, "guest", false))), expected);
    assert_eq!(show(&s.handle(&call("connect", vec![]))), expected);
    assert_eq!(show(&s.handle(&call("connect", vec![text("guest")]))), expected);
    let mut unreadable = connect_call(1, "", false);
    unreadable.params = None;
    assert_eq!(show(&s.handle(&unreadable)), expected);
    assert!(s.requests.is_empty());
    assert_eq!(s.connection.current_state(), ConnectionInfo::ConnectingWifi("x".to_string()));
}

#[test]
fn connect_call_stops_an_attempt_in_flight() {
    let mut s = service(false, true, "", &[]);
    s.connection.connect(ConnectionSetting::OpenWifi { essid: "x".to_string(), threshold: None });
    let handled = s.handle(&connect_call(2, "guest", false));
    assert_eq!(
        show(&handled),
        "Handled { reply: Some(Empty), effects: [Teardown(\"eth0\"), Teardown(\"wlan0\"), \
         Emit(StateChanged(NotConnected))], persist: false }"
    );
    assert_eq!(
        s.requests,
        vec![ConnectionSetting::OpenWifi { essid: "guest".to_string(), threshold: None }]
    );
    assert_eq!(s.connection.tries(), 0);
}

#[test]
fn connect_call_takes_the_password_from_the_store() {
    let mut s = service(false, true, "", &[("corp", false, Some("pw")), ("cafe", true, None)]);
    assert_eq!(show(&s.handle(&connect_call(2, "corp", true)).reply), "Some(Empty)");
    assert_eq!(show(&s.handle(&connect_call(2, "cafe", true)).reply), "Some(Empty)");
    assert_eq!(
        s.requests,
        vec![
            ConnectionSetting::Wifi {
                essid: "corp".to_string(),
                password: "pw".to_string(),
                threshold: None
            },
            ConnectionSetting::OpenWifi { essid: "cafe".to_string(), threshold: None }
        ]
    );
    let handled = s.handle(&connect_call(2, "unknown", true));
    assert_eq!(
        show(&handled),
        "Handled { reply: Some(Failed(\"Connection is secured but no password specified\")), \
         effects: [], persist: false }"
    );
    assert_eq!(s.requests.len(), 2);
}

#[test]
fn disconnect_call_turns_auto_connect_off() {
    let mut s = service(true, true, "", &[]);
    run_attempt(&mut s, ConnectionSetting::Ethernet, true, "leased 192.0.2.10 for 60");
    let handled = s.handle(&call("disconnect", vec![]));
    assert_eq!(
        show(&handled),
        "Handled { reply: Some(Empty), effects: [Teardown(\"eth0\"), Teardown(\"wlan0\"), \
         Emit(StateChanged(NotConnected))], persist: false }"
    );
    assert!(!s.auto);
    assert_eq!(s.connection.current_state(), ConnectionInfo::NotConnected);
    let tick = s.tick();
    assert_eq!(show(&tick), "Tick { effects: [], next: Sleep(2) }");
}

#[test]
fn state_and_network_calls() {
    let mut s = service(true, true, &bss("guest", -57, false), &[]);
    assert_eq!(show(&s.handle(&call("get_state", vec![])).reply), "Some(State(NotConnected))");
    assert_eq!(
        show(&s.handle(&call("get_networks", vec![])).reply),
        "Some(Networks(NetworkList { items: [Ethernet, Wifi(\"guest\", 70, false)] }))"
    );
    assert_eq!(
        s.get_networks(),
        vec![
            (1, "Ethernet connection".to_string(), false, 100),
            (2, "guest".to_string(), false, 70)
        ]
    );
}

#[test]
fn props_calls() {
    let mut s = service(false, true, "", &[("corp", true, Some("pw"))]);
    assert_eq!(
        show(&s.handle(&call("get_props", vec![text("corp")])).reply),
        "Some(Props(KnownNetwork { auto: true, password: Some(\"pw\"), threshold: None }))"
    );
    assert_eq!(
        show(&s.handle(&call("get_props", vec![text("other")])).reply),
        "Some(Props(KnownNetwork { auto: false, password: None, threshold: None }))"
    );
    assert_eq!(
        show(&s.handle(&call("get_props", vec![flag(true)]))),
        "Handled { reply: Some(InvalidArgs(Some(\"s\"))), effects: [], persist: false }"
    );
    let set = |essid: &str, auto: bool, enc: bool, roaming: bool| {
        call(
            "set_props",
            vec![
                text(essid),
                text("secret"),
                Param::Base(Base::Int32(-72)),
                flag(auto),
                flag(enc),
                flag(roaming),
            ],
        )
    };
    assert_eq!(
        show(&s.handle(&set("guest", true, false, true))),
        "Handled { reply: Some(Empty), effects: [], persist: true }"
    );
    assert_eq!(
        s.known_networks.get("guest"),
        Some(KnownNetwork { auto: true, password: None, threshold: Some(-72) })
    );
    s.handle(&set("corp", false, false, true));
    assert_eq!(s.known_networks.get("corp"), None);
    s.handle(&set("guest", false, true, false));
    assert_eq!(
        s.known_networks.get("guest"),
        Some(KnownNetwork { auto: false, password: Some("secret".to_string()), threshold: None })
    );
    assert_eq!(
        show(&s.handle(&call("set_props", vec![text("guest")]))),
        "Handled { reply: Some(InvalidArgs(Some(\"ssibbb\"))), effects: [], persist: false }"
    );
    assert_eq!(s.known_networks.len(), 1);
    assert_eq!(show(&ServiceData::write_failed()), "Failed(\"Cannot write config\")");
}

#[test]
fn clients_come_and_go() {
    let mut s = service(false, true, "", &[]);
    assert_eq!(show(&s.handle(&call("hello", vec![])).reply), "Some(Empty)");
    assert_eq!(s.proxy_tracker.active(), 1);
    let mut other = call("monitor", vec![flag(true)]);
    other.sender = Some(":1.43".to_string());
    s.handle(&other);
    assert_eq!(s.proxy_tracker.active(), 2);
    s.handle(&call("monitor", vec![flag(false)]));
    assert_eq!(s.proxy_tracker.active(), 1);
    assert_eq!(
        show(&s.handle(&call("monitor", vec![text("on")])).reply),
        "Some(InvalidArgs(Some(\"b\")))"
    );
    let gone = Message {
        kind: MessageKind::Signal,
        member: Some("NameOwnerChanged".to_string()),
        interface: Some("org.freedesktop.DBus".to_string()),
        sender: Some("org.freedesktop.DBus".to_string()),
        params: Some(vec![text(":1.43"), text(":1.43"), text("")]),
    };
    let handled: Handled = s.handle(&gone);
    assert_eq!(show(&handled), "Handled { reply: None, effects: [], persist: false }");
    assert_eq!(s.proxy_tracker.active(), 0);
}

#[test]
fn signals_of_others_are_passed_over() {
    let mut s = service(false, true, "", &[]);
    s.handle(&call("hello", vec![]));
    let mut signal = Message {
        kind: MessageKind::Signal,
        member: Some("NameOwnerChanged".to_string()),
        interface: Some("org.example.Other".to_string()),
        sender: None,
        params: Some(vec![text(":1.42"), text(":1.42"), text("")]),
    };
    assert_eq!(show(&s.handle(&signal)), "Handled { reply: None, effects: [], persist: false }");
    assert_eq!(s.proxy_tracker.active(), 1);
    signal.interface = Some("org.freedesktop.DBus".to_string());
    signal.params = None;
    assert_eq!(show(&s.handle(&signal).reply), "Some(InvalidArgs(None))");
    signal.kind = MessageKind::Other;
    assert_eq!(show(&s.handle(&signal).reply), "None");
    assert_eq!(s.proxy_tracker.active(), 1);
}

#[test]
fn other_calls() {
    let mut s = service(false, true, "", &[]);
    assert_eq!(show(&s.handle(&call("Introspect", vec![])).reply), "Some(Introspection)");
    assert_eq!(show(&s.handle(&call("reboot", vec![])).reply), "Some(UnknownMethod)");
    let mut nameless = call("x", vec![]);
    nameless.member = None;
    assert_eq!(show(&s.handle(&nameless).reply), "Some(Empty)");
}

#[test]
fn signal_log_lines_and_members() {
    let list = service(true, true, &bss("guest", -57, false), &[]).connection.get_networks();
    let msg = SignalMsg::NetworkList(list);
    assert_eq!(msg.log(), "Scan complete. Found 2 networks");
    assert_eq!(msg.member(), "network_list");
    assert_eq!(msg.clone().log(), msg.log());
    let lines = [
        (ConnectionStatus::Initializing, "Bringing Interface Up"),
        (ConnectionStatus::Connecting, "Connecting"),
        (ConnectionStatus::Authenticating, "Authenticating"),
        (ConnectionStatus::GettingIP, "Getting ip address"),
        (ConnectionStatus::AuthFail, "Authorization failed"),
        (ConnectionStatus::Aborted, "Connection canceled"),
        (ConnectionStatus::ConnectFail, "Connection failed"),
    ];
    for (status, line) in lines.iter() {
        let msg = SignalMsg::ConnectStatusChanged(*status);
        assert_eq!(msg.log(), format!("Connect status changed to {}", line));
        assert_eq!(msg.member(), "connect_status_changed");
    }
    let state = |info: ConnectionInfo| SignalMsg::StateChanged(info).log();
    assert_eq!(state(ConnectionInfo::ConnectingEth), "Connecting");
    assert_eq!(state(ConnectionInfo::ConnectingWifi("a".to_string())), "Connecting");
    assert_eq!(state(ConnectionInfo::NotConnected), "Disconnected");
    assert_eq!(state(ConnectionInfo::Ethernet("192.0.2.10".to_string())), "Connected to eth: 192.0.2.10");
    assert_eq!(
        state(ConnectionInfo::Wifi("corp".to_string(), 80, true, "192.0.2.11".to_string())),
        "Connected to wifi: corp, ip: 192.0.2.11"
    );
    assert_eq!(SignalMsg::StateChanged(ConnectionInfo::NotConnected).member(), "state_changed");
}

#[test]
fn start_scans_when_nothing_is_connected() {
    let mut s = service(false, true, "", &[]);
    let tick = s.start(None, None, "Not connected.\n");
    assert_eq!(show(&tick), "Tick { effects: [], next: Scan(0) }");
    assert_eq!(s.connection.current_state(), ConnectionInfo::NotConnected);
}

#[test]
fn start_takes_over_a_wired_connection_without_a_scan() {
    let mut s = service(true, true, "", &[]);
    let tick = s.start(Some("192.0.2.10".to_string()), Some("192.0.2.11".to_string()), "\tSSID: corp\n");
    assert_eq!(
        show(&tick),
        "Tick { effects: [Emit(StateChanged(Ethernet(\"192.0.2.10\")))], next: Sleep(0) }"
    );
    assert_eq!(s.connection.current_state(), ConnectionInfo::Ethernet("192.0.2.10".to_string()));
}

#[test]
fn start_takes_over_a_wireless_connection_and_scans() {
    let mut s = service(false, true, "", &[]);
    let tick = s.start(None, Some("192.0.2.11".to_string()), "\tSSID: corp\n\tsignal: -49.00 dBm\n");
    assert_eq!(
        show(&tick),
        "Tick { effects: [Emit(StateChanged(Wifi(\"corp\", 80, true, \"192.0.2.11\")))], next: Scan(0) }"
    );
    let tick = s.start_from(None, Some("192.0.2.12".to_string()), Some("guest".to_string()), None);
    assert_eq!(
        show(&tick),
        "Tick { effects: [Emit(StateChanged(Wifi(\"guest\", 100, true, \"192.0.2.12\")))], next: Scan(0) }"
    );
}

#[test]
fn new_service_knows_no_interface() {
    let s = ServiceData::new(KnownNetworks::new());
    assert!(s.connection.eth().is_none());
    assert!(s.connection.wlan().is_none());
    assert_eq!(s.connection.tries(), 0);
}
