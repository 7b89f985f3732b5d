//! The connection: current state, network list, try budget and interface
//! registry, with the operations that work on them.

use vstd::prelude::*;
use crate::attempt::{
    option_attempt, remove_effects, wlan_down_effects, Attempt, AttemptView, ConnectNext, Phase,
    Step, ASSOC_MAX_TRIES, AUTH_MAX_TRIES, LONG_INTERVAL, POLL_INTERVAL, SHORT_INTERVAL,
    failure_status, setting_config,
};
use crate::interfaces::{
    option_interface, reports_view, Interface, InterfaceView, Interfaces, InterfacesView,
    LinkReport,
};
use crate::known::KnownNetworks;
use crate::network_info::{index_of_essid, records_view, NetworkInfo, NetworkInfoView};
use crate::network_list::{list_wf, NetworkList};
use crate::parsers::{option_text, parse, regex_first_group, Parsers};
use crate::policy::{adjusted_list, decide, first_joinable};
use crate::scan::{scan_report, scanned_list};
use crate::signalmsg::{
    append_effects, effects_view, emit_list, emit_state, emit_status, push_effect, Effect,
    EffectView, SignalMsg,
};
use crate::support::gen_wpa_config;
use crate::text::str_equal;
use crate::types::{
    ConnectionInfo, ConnectionInfoView, ConnectionSetting, ConnectionStatus, CouldConnect,
    CouldConnectView,
};

verus! {

/// The connection: what is known of the interfaces, the try budget, the
/// current state, the network list and the attempt in flight.
#[derive(Debug)]
pub struct Connection {
    ifaces: Interfaces,
    tries: usize,
    current: ConnectionInfo,
    networks: NetworkList,
    attempt: Option<Attempt>,
}

/// The value of a `Connection`.
pub struct ConnectionView {
    pub ifaces: InterfacesView,
    pub tries: nat,
    pub current: ConnectionInfoView,
    pub networks: Seq<NetworkInfoView>,
    pub attempt: Option<AttemptView>,
}

impl View for Connection {
    type V = ConnectionView;

    closed spec fn view(&self) -> ConnectionView {
        ConnectionView {
            ifaces: self.ifaces@,
            tries: self.tries as nat,
            current: self.current@,
            networks: self.networks@,
            attempt: option_attempt(self.attempt),
        }
    }
}

/// Scanning twice with the same report gives the same list as scanning
/// once, entry by entry, whatever the list held before.
pub proof fn lemma_scan_idempotent(c: ConnectionView, other: ConnectionView, report: Seq<char>)
    requires
        other.ifaces == c.ifaces,
    ensures
        c.scanned(report).scanned(report) == c.scanned(report),
        other.scanned(report).networks == c.scanned(report).networks,
{
}

/// The state that a warm start finds: the wired one where the wire carries
/// an address; else the wireless one where the wireless link carries an
/// address and its report names a network; else not connected.
pub open spec fn warm_state(
    eth_ip: Option<Seq<char>>,
    wlan_ip: Option<Seq<char>>,
    essid: Option<Seq<char>>,
    signal: Option<Seq<char>>,
) -> ConnectionInfoView {
    match eth_ip {
        Some(ip) => ConnectionInfoView::Ethernet(ip),
        None => InterfaceView::wlan_info(essid, signal, wlan_ip),
    }
}

impl ConnectionView {
    /// The connection after a teardown: the budget is spent and nothing is
    /// connected.
    pub open spec fn disconnected(self) -> ConnectionView {
        ConnectionView { tries: 0, current: ConnectionInfoView::NotConnected, ..self }
    }

    /// What a teardown asks for: every interface is taken out of service,
    /// then the new state is reported.
    pub open spec fn disconnect_effects(self) -> Seq<EffectView> {
        self.ifaces.teardown().push(emit_state(ConnectionInfoView::NotConnected))
    }

    /// The connection and the effects after a warm start that found the
    /// state `found`: a connected state becomes the current one and is
    /// reported; else nothing changes.
    pub open spec fn warm_started(self, found: ConnectionInfoView) -> (
        ConnectionView,
        Seq<EffectView>,
    ) {
        if found is NotConnected {
            (self, Seq::empty())
        } else {
            (ConnectionView { current: found, ..self }, seq![emit_state(found)])
        }
    }

    /// The connection after a scan that brought `report`: the list is made
    /// anew from the wire and the report, whatever it held before.
    pub open spec fn scanned(self, report: Seq<char>) -> ConnectionView {
        ConnectionView {
            networks: scanned_list(self.ifaces.eth_plugged(), self.wlan_name(), report),
            ..self
        }
    }

    /// The name of the wireless interface to use.
    pub open spec fn wlan_name(self) -> Option<Seq<char>> {
        match self.ifaces.wlan() {
            Some(wlan) => Some(wlan.name),
            None => None,
        }
    }

    /// What a scan needs done: the wireless interface is brought up for the
    /// scan where it is down, and down again behind it.
    pub open spec fn scan_effects(self) -> Seq<EffectView> {
        match self.ifaces.wlan() {
            Some(wlan) => if !wlan.valid() {
                Seq::empty()
            } else if wlan.is_up() {
                seq![EffectView::Scan(wlan.name)]
            } else {
                seq![
                    EffectView::LinkUp(wlan.name),
                    EffectView::Scan(wlan.name),
                    EffectView::LinkDown(wlan.name),
                ]
            },
            None => Seq::empty(),
        }
    }
}

fn remove_config(effects: &mut Vec<Effect>, config: &Option<String>)
    ensures
        effects_view(final(effects)@) == effects_view(old(effects)@) + remove_effects(
            option_text(*config),
        ),
{
    match config {
        Some(path) => {
            push_effect(effects, Effect::RemoveFile(path.clone()));
            assert(effects_view(effects@) =~= effects_view(old(effects)@) + remove_effects(
                option_text(*config),
            ));
        },
        None => {
            assert(effects_view(effects@) =~= effects_view(old(effects)@) + remove_effects(
                option_text(*config),
            ));
        },
    }
}

fn no_effects() -> (effects: Vec<Effect>)
    ensures
        effects_view(effects@) == Seq::<EffectView>::empty(),
{
    let effects: Vec<Effect> = Vec::new();
    assert(effects_view(effects@) =~= Seq::<EffectView>::empty());
    effects
}

fn push_status(effects: &mut Vec<Effect>, status: ConnectionStatus)
    ensures
        effects_view(final(effects)@) == effects_view(old(effects)@).push(emit_status(status)),
{
    push_effect(effects, Effect::Emit(SignalMsg::ConnectStatusChanged(status)));
}

fn push_optional(effects: &mut Vec<Effect>, effect: Option<Effect>)
    ensures
        effects_view(final(effects)@) == effects_view(old(effects)@) + match effect {
            Some(e) => seq![e@],
            None => Seq::<EffectView>::empty(),
        },
{
    match effect {
        Some(e) => {
            push_effect(effects, e);
            assert(effects_view(effects@) =~= effects_view(old(effects)@) + seq![e@]);
        },
        None => {
            assert(effects_view(effects@) =~= effects_view(old(effects)@) + Seq::<
                EffectView,
            >::empty());
        },
    }
}

impl Connection {
    /// Whether the network list is in order, with no key twice, and each
    /// interface stands once in the registry. Every connection that this
    /// library hands out is well formed.
    pub open spec fn wf(&self) -> bool {
        list_wf(self@.networks) && self@.ifaces.wf()
    }

    /// A connection that knows no interface and no network and is not
    /// connected.
    pub fn new() -> (r: Self)
        ensures
            r.wf(),
            r@.ifaces.eths.len() == 0,
            r@.ifaces.wlans.len() == 0,
            r@.tries == 0,
            r@.current == ConnectionInfoView::NotConnected,
            r@.networks == Seq::<NetworkInfoView>::empty(),
            r@.attempt is None,
    {
        Connection {
            ifaces: Interfaces::new(),
            tries: 0,
            current: ConnectionInfo::NotConnected,
            networks: NetworkList::new(),
            attempt: None,
        }
    }

    /// Takes in what the kernel lists of its network devices; see
    /// `Interfaces::detect`.
    pub fn detect(&mut self, reports: &Vec<LinkReport>) -> (effects: Vec<Effect>)
        requires
            old(self).wf(),
        ensures
            final(self).wf(),
            final(self)@ == (ConnectionView {
                ifaces: old(self)@.ifaces.detect(reports_view(reports@), reports@.len() as int),
                ..old(self)@
            }),
            effects_view(effects@) == InterfacesView::detect_effects(
                reports_view(reports@),
                reports@.len() as int,
            ),
    {
        self.ifaces.detect(reports)
    }

    /// The wired interface to use.
    pub fn eth(&self) -> (r: Option<Interface>)
        ensures
            option_interface(r) == self@.ifaces.eth(),
    {
        self.ifaces.eth()
    }

    /// The wireless interface to use.
    pub fn wlan(&self) -> (r: Option<Interface>)
        ensures
            option_interface(r) == self@.ifaces.wlan(),
    {
        self.ifaces.wlan()
    }

    /// Whether the try budget is spent, which is how a teardown stops an
    /// attempt.
    pub fn aborted(&self) -> (r: bool)
        ensures
            r == (self@.tries == 0),
    {
        self.tries == 0
    }

    /// What is left of the try budget.
    pub fn tries(&self) -> (r: usize)
        ensures
            r == self@.tries,
    {
        self.tries
    }

    /// What the attempt in flight waits for.
    pub fn phase(&self) -> (r: Option<Phase>)
        ensures
            match r {
                Some(p) => self@.attempt is Some && self@.attempt->0.phase == p,
                None => self@.attempt is None,
            },
    {
        match &self.attempt {
            Some(a) => Some(a.phase),
            None => None,
        }
    }

    /// Whether a new connect request is in order: not while wired.
    pub fn allow_reconnect(&self) -> (r: bool)
        ensures
            r == !self@.current.wired(),
    {
        !self.current.wired()
    }

    /// The current state.
    pub fn current_state(&self) -> (r: ConnectionInfo)
        ensures
            r@ == self@.current,
    {
        self.current.clone()
    }

    /// The network list.
    pub fn get_networks(&self) -> (r: NetworkList)
        requires
            self.wf(),
        ensures
            r@ == self@.networks,
            r.wf(),
    {
        self.networks.clone()
    }

    /// The listed wireless network named `essid`.
    pub fn get_network(&self, essid: &str) -> (r: Result<NetworkInfo, ()>)
        ensures
            match r {
                Ok(n) => {
                    let at = index_of_essid(self@.networks, essid@, 0);
                    0 <= at < self@.networks.len() && n@ == self@.networks[at]
                },
                Err(_) => index_of_essid(self@.networks, essid@, 0) == -1,
            },
    {
        match self.networks.find_essid(essid) {
            Some(n) => Ok(n),
            None => Err(()),
        }
    }

    /// Makes `info` the current state and reports it.
    fn change_state(&mut self, info: ConnectionInfo) -> (effect: Effect)
        requires
            old(self).wf(),
        ensures
            final(self).wf(),
            final(self)@ == (ConnectionView { current: info@, ..old(self)@ }),
            effect@ == emit_state(info@),
    {
        self.current = info.clone();
        Effect::Emit(SignalMsg::StateChanged(info))
    }

    /// Tears the connection down: spends the try budget, which stops an
    /// attempt at its next poll, takes every interface out of service and
    /// reports that nothing is connected.
    pub fn disconnect(&mut self) -> (effects: Vec<Effect>)
        requires
            old(self).wf(),
        ensures
            final(self).wf(),
            final(self)@ == old(self)@.disconnected(),
            effects_view(effects@) == old(self)@.disconnect_effects(),
    {
        self.tries = 0;
        let mut effects = self.ifaces.disconnect();
        let report = self.change_state(ConnectionInfo::NotConnected);
        push_effect(&mut effects, report);
        effects
    }

    /// What a scan needs done before its report can be read.
    pub fn scan_request(&self) -> (effects: Vec<Effect>)
        ensures
            effects_view(effects@) == self@.scan_effects(),
    {
        let mut effects: Vec<Effect> = Vec::new();
        assert(effects_view(effects@) =~= Seq::empty());
        match self.ifaces.wlan() {
            Some(wlan) => {
                if wlan.valid() {
                    let down: bool = !wlan.is_up();
                    if down {
                        push_effect(&mut effects, Effect::LinkUp(wlan.name().to_owned()));
                    }
                    push_effect(&mut effects, Effect::Scan(wlan.name().to_owned()));
                    if down {
                        push_effect(&mut effects, Effect::LinkDown(wlan.name().to_owned()));
                    }
                    assert(effects_view(effects@) =~= self@.scan_effects());
                }
            },
            None => {},
        }
        effects
    }

    /// Takes in a scan: the list becomes the wire, where it is plugged in,
    /// and the networks of `report`, merged and in order, and is published.
    /// `report` is the scan report of the wireless interface to use; without
    /// such an interface it is not looked at.
    pub fn scan(&mut self, report: &str) -> (effects: Vec<Effect>)
        requires
            old(self).wf(),
        ensures
            final(self).wf(),
            final(self)@ == old(self)@.scanned(report@),
            effects_view(effects@) == seq![emit_list(final(self)@.networks)],
    {
        let mut networks: Vec<NetworkInfo> = Vec::new();
        assert(records_view(networks@) =~= Seq::empty());
        let plugged: bool = match self.ifaces.eth() {
            Some(eth) => eth.is_plugged_in(),
            None => false,
        };
        if plugged {
            networks.push(NetworkInfo::Ethernet);
            assert(records_view(networks@) =~= seq![NetworkInfoView::Ethernet]);
        }
        match self.ifaces.wlan() {
            Some(wlan) => {
                scan_report(&mut networks, wlan.name(), report);
            },
            None => {},
        }
        self.networks = NetworkList::from_distinct(&networks);
        let mut effects: Vec<Effect> = Vec::new();
        effects.push(Effect::Emit(SignalMsg::NetworkList(self.networks.clone())));
        assert(effects_view(effects@) =~= seq![emit_list(self@.networks)]);
        effects
    }

    /// Warm start, from the addresses that the wired and the wireless
    /// interface carry and the fields of the wireless link report: where a
    /// link carries an address already, the state that this stands for
    /// becomes the current one and is reported.
    pub fn acquire_from(
        &mut self,
        eth_ip: Option<String>,
        wlan_ip: Option<String>,
        essid: Option<String>,
        signal: Option<String>,
    ) -> (effects: Vec<Effect>)
        requires
            old(self).wf(),
        ensures
            final(self).wf(),
            (final(self)@, effects_view(effects@)) == old(self)@.warm_started(
                warm_state(
                    option_text(eth_ip),
                    option_text(wlan_ip),
                    option_text(essid),
                    option_text(signal),
                ),
            ),
    {
        let mut effects: Vec<Effect> = Vec::new();
        assert(effects_view(effects@) =~= Seq::empty());
        let found = match eth_ip {
            Some(ip) => ConnectionInfo::Ethernet(ip),
            None => Interface::link_info(essid, signal, wlan_ip),
        };
        if found.active() {
            let report = self.change_state(found);
            effects.push(report);
            assert(effects_view(effects@) =~= seq![report@]);
        }
        effects
    }

    /// Warm start, from the addresses that the wired and the wireless
    /// interface carry and the wireless link report.
    pub fn acquire(
        &mut self,
        eth_ip: Option<String>,
        wlan_ip: Option<String>,
        link_report: &str,
    ) -> (effects: Vec<Effect>)
        requires
            old(self).wf(),
        ensures
            final(self).wf(),
            (final(self)@, effects_view(effects@)) == old(self)@.warm_started(
                warm_state(
                    option_text(eth_ip),
                    option_text(wlan_ip),
                    regex_first_group(Parsers::NetworkEssid.spec_pattern(), link_report@),
                    regex_first_group(Parsers::NetworkQuality.spec_pattern(), link_report@),
                ),
            ),
    {
        let essid = parse(Parsers::NetworkEssid, link_report);
        let signal = parse(Parsers::NetworkQuality, link_report);
        self.acquire_from(eth_ip, wlan_ip, essid, signal)
    }

    /// Asks the policy what to do, given the current state, the links as last
    /// seen, the network list and the known networks. The list is adjusted on
    /// the way and published where that changed it; nothing else changes.
    pub fn auto_connect_possible(&mut self, known_networks: &KnownNetworks) -> (r: (
        CouldConnect,
        Vec<Effect>,
    ))
        requires
            old(self).wf(),
        ensures
            final(self).wf(),
            r.0@ == decide(
                old(self)@.current,
                old(self)@.ifaces.eth_plugged(),
                old(self)@.ifaces.wifi_plugged(),
                old(self)@.networks,
                known_networks@,
            ),
            final(self)@ == (ConnectionView {
                networks: adjusted_list(
                    old(self)@.current,
                    old(self)@.ifaces.eth_plugged(),
                    old(self)@.ifaces.wifi_plugged(),
                    old(self)@.networks,
                ),
                ..old(self)@
            }),
            effects_view(r.1@) == if final(self)@.networks == old(self)@.networks {
                Seq::<EffectView>::empty()
            } else {
                seq![emit_list(final(self)@.networks)]
            },
    {
        let eth_plugged_in: bool = match self.ifaces.eth() {
            Some(eth) => eth.is_plugged_in(),
            None => false,
        };
        let wifi_plugged_in: bool = match self.ifaces.wlan() {
            Some(wlan) => wlan.is_plugged_in(),
            None => false,
        };
        let mut effects: Vec<Effect> = Vec::new();
        assert(effects_view(effects@) =~= Seq::empty());
        let mut changed: bool = false;
        let mut result = CouldConnect::DoNothing;
        match &self.current {
            ConnectionInfo::NotConnected => {
                if eth_plugged_in {
                    changed = self.networks.add_phantom_eth();
                    result = CouldConnect::Connect(ConnectionSetting::Ethernet);
                } else if self.networks.is_empty() {
                    result = CouldConnect::Rescan;
                } else {
                    result = Self::pick_known(&self.networks, known_networks);
                }
            },
            ConnectionInfo::Wifi(essid, _, _, _) => {
                if eth_plugged_in {
                    changed = self.networks.add_phantom_eth();
                    result = CouldConnect::Connect(ConnectionSetting::Ethernet);
                } else if !wifi_plugged_in {
                    changed = self.networks.remove_essid(essid.as_str());
                    result = CouldConnect::Disconnect;
                }
            },
            ConnectionInfo::Ethernet(_) => {
                if !eth_plugged_in {
                    changed = self.networks.remove_phantom_eth();
                    result = CouldConnect::Disconnect;
                }
            },
            _ => {},
        }
        if changed {
            effects.push(Effect::Emit(SignalMsg::NetworkList(self.networks.clone())));
            assert(effects_view(effects@) =~= seq![emit_list(self@.networks)]);
        }
        (result, effects)
    }

    fn pick_known(networks: &NetworkList, known_networks: &KnownNetworks) -> (r: CouldConnect)
        ensures
            r@ == ({
                let at = first_joinable(networks@, known_networks@, 0);
                if at >= 0 {
                    CouldConnectView::Connect(
                        known_networks@[networks@[at]->Wifi_0].to_setting(networks@[at]->Wifi_0),
                    )
                } else {
                    CouldConnectView::DoNothing
                }
            }),
    {
        let mut i: usize = 0;
        while i < networks.len()
            invariant
                i <= networks@.len(),
                first_joinable(networks@, known_networks@, 0) == first_joinable(
                    networks@,
                    known_networks@,
                    i as int,
                ),
            decreases networks@.len() - i,
        {
            match networks.get(i) {
                Some(NetworkInfo::Wifi(essid, _, enc)) => {
                    match known_networks.get(essid.as_str()) {
                        Some(known) => {
                            if known.auto && enc == known.password.is_some() {
                                return CouldConnect::Connect(known.to_setting(essid.as_str()));
                            }
                        },
                        None => {},
                    }
                },
                _ => {},
            }
            i += 1;
        }
        CouldConnect::DoNothing
    }
}

impl Connection {
    /// The configuration text of the supplicant for a setting.
    pub fn generate_wpa_config(setting: &ConnectionSetting) -> (r: Option<String>)
        ensures
            option_text(r) == setting_config(setting@),
    {
        proof {
            reveal_strlit("/etc/snm/roaming.db");
        }
        match setting {
            ConnectionSetting::Wifi { essid, password, threshold } => gen_wpa_config(
                essid.as_str(),
                Some(password.as_str()),
                *threshold,
                "/etc/snm/roaming.db",
                SHORT_INTERVAL,
                LONG_INTERVAL,
            ),
            ConnectionSetting::OpenWifi { essid, threshold } => gen_wpa_config(
                essid.as_str(),
                None,
                *threshold,
                "/etc/snm/roaming.db",
                SHORT_INTERVAL,
                LONG_INTERVAL,
            ),
            ConnectionSetting::Ethernet => None,
        }
    }

    fn clear(&mut self) -> (effects: Vec<Effect>)
        requires
            old(self).wf(),
        ensures
            final(self).wf(),
            final(self)@ == old(self)@.cleared().0,
            effects_view(effects@) == old(self)@.cleared().1,
    {
        let mut effects = no_effects();
        match self.attempt.take() {
            Some(a) => {
                remove_config(&mut effects, &a.config);
                assert(effects_view(effects@) =~= remove_effects(option_text(a.config)));
            },
            None => {},
        }
        if self.current.active() {
            let teardown = self.disconnect();
            append_effects(&mut effects, teardown);
        }
        effects
    }

    /// Starts an attempt to connect as `setting` asks; see
    /// `ConnectionView::connect`.
    pub fn connect(&mut self, setting: ConnectionSetting) -> (step: Step)
        requires
            old(self).wf(),
        ensures
            final(self).wf(),
            (final(self)@, step@) == old(self)@.connect(setting@),
    {
        let mut effects = self.clear();
        let ghost c1 = self@;
        let iface = match self.ifaces.from_setting(&setting) {
            Some(iface) => iface,
            None => {
                return Step { effects, next: ConnectNext::Done(false) };
            },
        };
        match &setting {
            ConnectionSetting::Ethernet => {
                let report = self.change_state(ConnectionInfo::ConnectingEth);
                push_effect(&mut effects, report);
                if !iface.is_plugged_in() {
                    return Step { effects, next: ConnectNext::Done(false) };
                }
                push_optional(&mut effects, iface.up());
                match self.ifaces.wlan() {
                    Some(wlan) => {
                        push_optional(&mut effects, wlan.down());
                    },
                    None => {
                        assert(effects_view(effects@) =~= effects_view(effects@)
                            + wlan_down_effects(c1.ifaces));
                    },
                }
                push_status(&mut effects, ConnectionStatus::Initializing);
                push_status(&mut effects, ConnectionStatus::GettingIP);
                self.tries = AUTH_MAX_TRIES;
                let name = iface.name().to_owned();
                self.attempt = Some(
                    Attempt {
                        setting: ConnectionSetting::Ethernet,
                        iface: iface.name().to_owned(),
                        network: NetworkInfo::Ethernet,
                        config: None,
                        polls: 0,
                        phase: Phase::Leasing,
                    },
                );
                Step { effects, next: ConnectNext::AcquireLease(name) }
            },
            ConnectionSetting::Wifi { essid, .. } | ConnectionSetting::OpenWifi { essid, .. } => {
                let report = self.change_state(ConnectionInfo::ConnectingWifi(essid.clone()));
                push_effect(&mut effects, report);
                let network = match self.networks.find_essid(essid.as_str()) {
                    Some(n) => n,
                    None => {
                        return Step { effects, next: ConnectNext::Done(false) };
                    },
                };
                push_optional(&mut effects, iface.up());
                push_status(&mut effects, ConnectionStatus::Initializing);
                self.tries = AUTH_MAX_TRIES;
                let name = iface.name().to_owned();
                match Self::generate_wpa_config(&setting) {
                    Some(text) => {
                        self.attempt = Some(
                            Attempt {
                                setting: setting.clone(),
                                iface: iface.name().to_owned(),
                                network,
                                config: None,
                                polls: 0,
                                phase: Phase::Configuring,
                            },
                        );
                        Step { effects, next: ConnectNext::StoreConfig(text) }
                    },
                    None => {
                        push_status(&mut effects, ConnectionStatus::GettingIP);
                        self.attempt = Some(
                            Attempt {
                                setting: setting.clone(),
                                iface: iface.name().to_owned(),
                                network,
                                config: None,
                                polls: 0,
                                phase: Phase::Leasing,
                            },
                        );
                        Step { effects, next: ConnectNext::AcquireLease(name) }
                    },
                }
            },
        }
    }

    /// Goes on after the configuration was stored under `path`, or could not
    /// be stored; see `ConnectionView::config_stored`.
    pub fn config_stored(&mut self, path: Option<String>) -> (step: Step)
        requires
            old(self).wf(),
        ensures
            final(self).wf(),
            (final(self)@, step@) == old(self)@.config_stored(option_text(path)),
    {
        let mut effects = no_effects();
        let attempt = match self.attempt.take() {
            Some(a) => a,
            None => {
                return Step { effects, next: ConnectNext::Done(false) };
            },
        };
        if attempt.phase != Phase::Configuring {
            self.attempt = Some(attempt);
            return Step { effects, next: ConnectNext::Done(false) };
        }
        if self.tries == 0 {
            push_status(&mut effects, ConnectionStatus::Aborted);
            remove_config(&mut effects, &path);
            assert(effects_view(effects@) =~= seq![emit_status(ConnectionStatus::Aborted)]
                + remove_effects(option_text(path)));
            return Step { effects, next: ConnectNext::Done(false) };
        }
        let name = attempt.iface.clone();
        match path {
            Some(p) => {
                if attempt.setting.need_auth() {
                    push_status(&mut effects, ConnectionStatus::Authenticating);
                } else {
                    self.tries = ASSOC_MAX_TRIES;
                    push_status(&mut effects, ConnectionStatus::Connecting);
                }
                push_effect(
                    &mut effects,
                    Effect::StartSupplicant { iface: attempt.iface.clone(), config: p.clone() },
                );
                self.attempt = Some(
                    Attempt {
                        setting: attempt.setting,
                        iface: attempt.iface,
                        network: attempt.network,
                        config: Some(p),
                        polls: attempt.polls,
                        phase: Phase::Associating,
                    },
                );
                assert(effects_view(effects@) =~= old(self)@.config_stored(
                    option_text(path),
                ).1.effects);
                Step { effects, next: ConnectNext::PollStatus(name) }
            },
            None => {
                push_status(&mut effects, ConnectionStatus::GettingIP);
                self.attempt = Some(
                    Attempt {
                        setting: attempt.setting,
                        iface: attempt.iface,
                        network: attempt.network,
                        config: attempt.config,
                        polls: attempt.polls,
                        phase: Phase::Leasing,
                    },
                );
                assert(effects_view(effects@) =~= seq![emit_status(ConnectionStatus::GettingIP)]);
                Step { effects, next: ConnectNext::AcquireLease(name) }
            },
        }
    }

    /// Goes on after a poll of the supplicant that showed the state
    /// `wpa_state`; see `ConnectionView::status_observed`.
    pub fn status_observed(&mut self, wpa_state: Option<String>) -> (step: Step)
        requires
            old(self).wf(),
        ensures
            final(self).wf(),
            (final(self)@, step@) == old(self)@.status_observed(option_text(wpa_state)),
    {
        let mut effects = no_effects();
        let attempt = match self.attempt.take() {
            Some(a) => a,
            None => {
                return Step { effects, next: ConnectNext::Done(false) };
            },
        };
        if attempt.phase != Phase::Associating {
            self.attempt = Some(attempt);
            return Step { effects, next: ConnectNext::Done(false) };
        }
        if self.tries == 0 {
            push_status(&mut effects, ConnectionStatus::Aborted);
            remove_config(&mut effects, &attempt.config);
            assert(effects_view(effects@) =~= seq![emit_status(ConnectionStatus::Aborted)]
                + remove_effects(option_text(attempt.config)));
            return Step { effects, next: ConnectNext::Done(false) };
        }
        let completed: bool = match &wpa_state {
            Some(state) => str_equal(state.as_str(), "COMPLETED"),
            None => false,
        };
        let name = attempt.iface.clone();
        if completed {
            push_status(&mut effects, ConnectionStatus::GettingIP);
            self.attempt = Some(
                Attempt {
                    setting: attempt.setting,
                    iface: attempt.iface,
                    network: attempt.network,
                    config: attempt.config,
                    polls: attempt.polls,
                    phase: Phase::Leasing,
                },
            );
            assert(effects_view(effects@) =~= seq![emit_status(ConnectionStatus::GettingIP)]);
            Step { effects, next: ConnectNext::AcquireLease(name) }
        } else if attempt.polls < self.tries - 1 {
            push_effect(&mut effects, Effect::Sleep(POLL_INTERVAL));
            self.attempt = Some(
                Attempt {
                    setting: attempt.setting,
                    iface: attempt.iface,
                    network: attempt.network,
                    config: attempt.config,
                    polls: attempt.polls + 1,
                    phase: Phase::Associating,
                },
            );
            assert(effects_view(effects@) =~= seq![EffectView::Sleep(POLL_INTERVAL)]);
            Step { effects, next: ConnectNext::PollStatus(name) }
        } else {
            push_effect(&mut effects, Effect::Sleep(POLL_INTERVAL));
            if attempt.setting.need_auth() {
                push_status(&mut effects, ConnectionStatus::AuthFail);
            } else {
                push_status(&mut effects, ConnectionStatus::ConnectFail);
            }
            remove_config(&mut effects, &attempt.config);
            assert(effects_view(effects@) =~= seq![
                EffectView::Sleep(POLL_INTERVAL),
                emit_status(failure_status(attempt.setting@)),
            ] + remove_effects(option_text(attempt.config)));
            Step { effects, next: ConnectNext::Done(false) }
        }
    }

    /// Goes on after a poll of the supplicant, from its status report.
    pub fn status_polled(&mut self, report: &str) -> (step: Step)
        requires
            old(self).wf(),
        ensures
            final(self).wf(),
            (final(self)@, step@) == old(self)@.status_observed(
                regex_first_group(Parsers::WpaState.spec_pattern(), report@),
            ),
    {
        let wpa_state = parse(Parsers::WpaState, report);
        self.status_observed(wpa_state)
    }

    /// Ends the attempt after the DHCP client came back with an address or
    /// without; see `ConnectionView::lease_result`.
    pub fn lease_result(&mut self, ip: Option<String>) -> (step: Step)
        requires
            old(self).wf(),
        ensures
            final(self).wf(),
            (final(self)@, step@) == old(self)@.lease_result(option_text(ip)),
    {
        let mut effects = no_effects();
        let attempt = match self.attempt.take() {
            Some(a) => a,
            None => {
                return Step { effects, next: ConnectNext::Done(false) };
            },
        };
        if attempt.phase != Phase::Leasing {
            self.attempt = Some(attempt);
            return Step { effects, next: ConnectNext::Done(false) };
        }
        remove_config(&mut effects, &attempt.config);
        assert(effects_view(effects@) =~= remove_effects(option_text(attempt.config)));
        match ip {
            Some(ip) => {
                let info = match &attempt.setting {
                    ConnectionSetting::Ethernet => ConnectionInfo::Ethernet(ip),
                    ConnectionSetting::Wifi { essid, .. }
                    | ConnectionSetting::OpenWifi { essid, .. } => match &attempt.network {
                        NetworkInfo::Wifi(_, quality, enc) => ConnectionInfo::Wifi(
                            essid.clone(),
                            *quality,
                            *enc,
                            ip,
                        ),
                        NetworkInfo::Ethernet => ConnectionInfo::NotConnected,
                    },
                };
                let report = self.change_state(info);
                push_effect(&mut effects, report);
                Step { effects, next: ConnectNext::Done(true) }
            },
            None => Step { effects, next: ConnectNext::Done(false) },
        }
    }

    /// Ends the attempt after the DHCP client came back, from its report.
    pub fn lease_reported(&mut self, report: &str) -> (step: Step)
        requires
            old(self).wf(),
        ensures
            final(self).wf(),
            (final(self)@, step@) == old(self)@.lease_result(old(self)@.leased(report@)),
    {
        let usable: bool = match &self.attempt {
            Some(a) => !a.iface.as_str().is_empty(),
            None => false,
        };
        let ip = if usable {
            parse(Parsers::Ip, report)
        } else {
            None
        };
        self.lease_result(ip)
    }
}

} // verus!
