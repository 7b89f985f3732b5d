//! The service: the connection with its known networks, request queue and
//! clients; what one tick of the orchestrator does, and how a call is
//! answered.

use vstd::prelude::*;
use crate::connection::{warm_state, Connection, ConnectionView};
use crate::policy::{adjusted_list, decide};
use crate::convert::{
    essid_from_params, essid_of, params_view, props_from_params, props_of, setting_of,
    strings_from_params, strings_of, Base, Param, ParamView,
};
use crate::known::{store_props, KnownNetworks};
use crate::network_info::NetworkInfoView;
use crate::network_list::NetworkList;
use crate::parsers::{option_text, parse, regex_first_group, Parsers};
use crate::proxy_tracker::{after_event, with_client, without_client, ProxyTracker};
use crate::signalmsg::{append_effects, effects_view, emit_list, Effect, EffectView};
use crate::text::str_equal;
use crate::types::{
    ConnectionInfo, ConnectionInfoView, ConnectionSetting, ConnectionSettingView, CouldConnect,
    CouldConnectView, KnownNetwork, KnownNetworkView,
};

verus! {

/// Seconds between two ticks.
pub const NETWORK_CHECK_INTERVAL: u64 = 2;

/// Seconds between two scans while nothing else asks for one.
pub const NETWORK_SCAN_INTERVAL: u64 = 14;

/// Ticks between two scans while nothing else asks for one.
pub const SCAN_TICKS: u64 = 7;

/// Who asked for the attempt that is running.
#[derive(Clone, Copy, Debug, PartialEq, Eq, Structural)]
pub enum Origin {
    /// A client, by a connect call.
    Request,
    /// The policy, by itself.
    Policy,
}

/// What the orchestrator has to do before its next tick.
#[derive(Debug)]
pub enum TickThen {
    /// Run a connect attempt with this setting and report how it ended.
    Connect(ConnectionSetting),
    /// Scan, and wait this many seconds for the next tick.
    Scan(u64),
    /// Wait this many seconds for the next tick.
    Sleep(u64),
}

/// The value of a `TickThen`.
pub enum TickThenView {
    Connect(ConnectionSettingView),
    Scan(u64),
    Sleep(u64),
}

impl View for TickThen {
    type V = TickThenView;

    open spec fn view(&self) -> TickThenView {
        match self {
            TickThen::Connect(setting) => TickThenView::Connect(setting@),
            TickThen::Scan(pause) => TickThenView::Scan(*pause),
            TickThen::Sleep(pause) => TickThenView::Sleep(*pause),
        }
    }
}

/// The outcome of a tick: what to carry out now, in order, and what to do
/// next.
#[derive(Debug)]
pub struct Tick {
    pub effects: Vec<Effect>,
    pub next: TickThen,
}

/// The value of a `Tick`.
pub struct TickView {
    pub effects: Seq<EffectView>,
    pub next: TickThenView,
}

impl View for Tick {
    type V = TickView;

    open spec fn view(&self) -> TickView {
        TickView { effects: effects_view(self.effects@), next: self.next@ }
    }
}

/// The kind of a message.
#[derive(Clone, Copy, Debug, PartialEq, Eq, Structural)]
pub enum MessageKind {
    Call,
    Signal,
    Other,
}

/// A message from the bus, as far as the service looks at it. `params` is
/// none where the body could not be read.
#[derive(Debug)]
pub struct Message {
    pub kind: MessageKind,
    pub member: Option<String>,
    pub interface: Option<String>,
    pub sender: Option<String>,
    pub params: Option<Vec<Param>>,
}

/// The value of a `Message`.
pub struct MessageView {
    pub kind: MessageKind,
    pub member: Option<Seq<char>>,
    pub interface: Option<Seq<char>>,
    pub sender: Option<Seq<char>>,
    pub params: Option<Seq<ParamView>>,
}

impl View for Message {
    type V = MessageView;

    open spec fn view(&self) -> MessageView {
        MessageView {
            kind: self.kind,
            member: option_text(self.member),
            interface: option_text(self.interface),
            sender: option_text(self.sender),
            params: match self.params {
                Some(p) => Some(params_view(p@)),
                None => None,
            },
        }
    }
}

/// The answer to a call.
#[derive(Debug)]
pub enum Reply {
    Empty,
    State(ConnectionInfo),
    Networks(NetworkList),
    Props(KnownNetwork),
    /// The description of the interface.
    Introspection,
    /// The call failed, for this reason.
    Failed(String),
    /// The arguments do not have the shape that the call takes, which is
    /// this signature.
    InvalidArgs(Option<String>),
    UnknownMethod,
}

/// The value of a `Reply`.
pub enum ReplyView {
    Empty,
    State(ConnectionInfoView),
    Networks(Seq<NetworkInfoView>),
    Props(KnownNetworkView),
    Introspection,
    Failed(Seq<char>),
    InvalidArgs(Option<Seq<char>>),
    UnknownMethod,
}

impl View for Reply {
    type V = ReplyView;

    open spec fn view(&self) -> ReplyView {
        match self {
            Reply::Empty => ReplyView::Empty,
            Reply::State(info) => ReplyView::State(info@),
            Reply::Networks(list) => ReplyView::Networks(list@),
            Reply::Props(known) => ReplyView::Props(known@),
            Reply::Introspection => ReplyView::Introspection,
            Reply::Failed(text) => ReplyView::Failed(text@),
            Reply::InvalidArgs(sig) => ReplyView::InvalidArgs(option_text(*sig)),
            Reply::UnknownMethod => ReplyView::UnknownMethod,
        }
    }
}

/// What came of a message: the answer, if it gets one; what to carry out,
/// in order; and whether the known networks have to be written out.
#[derive(Debug)]
pub struct Handled {
    pub reply: Option<Reply>,
    pub effects: Vec<Effect>,
    pub persist: bool,
}

/// The value of a `Handled`.
pub struct HandledView {
    pub reply: Option<ReplyView>,
    pub effects: Seq<EffectView>,
    pub persist: bool,
}

impl View for Handled {
    type V = HandledView;

    open spec fn view(&self) -> HandledView {
        HandledView {
            reply: match self.reply {
                Some(r) => Some(r@),
                None => None,
            },
            effects: effects_view(self.effects@),
            persist: self.persist,
        }
    }
}

/// An answer and nothing else.
pub open spec fn answered(reply: ReplyView) -> HandledView {
    HandledView { reply: Some(reply), effects: Seq::empty(), persist: false }
}

/// The service: connection, known networks, whether the policy may connect
/// by itself, the clients, the connect requests not yet served, the ticks
/// since the last scan, and who asked for the attempt that is running.
#[derive(Debug)]
pub struct ServiceData {
    pub connection: Connection,
    pub known_networks: KnownNetworks,
    pub auto: bool,
    pub proxy_tracker: ProxyTracker,
    pub requests: Vec<ConnectionSetting>,
    pub counter: u64,
    pub pending: Option<Origin>,
}

/// The value of a `ServiceData`.
pub struct ServiceView {
    pub connection: ConnectionView,
    pub known: Map<Seq<char>, KnownNetworkView>,
    pub auto: bool,
    pub proxies: Seq<Seq<char>>,
    pub requests: Seq<ConnectionSettingView>,
    pub counter: u64,
    pub pending: Option<Origin>,
}

/// The values of a run of settings.
pub open spec fn settings_view(v: Seq<ConnectionSetting>) -> Seq<ConnectionSettingView> {
    Seq::new(v.len(), |i: int| v[i]@)
}

impl View for ServiceData {
    type V = ServiceView;

    open spec fn view(&self) -> ServiceView {
        ServiceView {
            connection: self.connection@,
            known: self.known_networks@,
            auto: self.auto,
            proxies: self.proxy_tracker@,
            requests: settings_view(self.requests@),
            counter: self.counter,
            pending: self.pending,
        }
    }
}

impl ServiceView {
    /// The scan that keeps clients up to date: due where there is a client
    /// and enough ticks have passed since the last scan.
    pub open spec fn refresh(self) -> (ServiceView, TickThenView) {
        if self.proxies.len() > 0 && self.counter >= SCAN_TICKS {
            (ServiceView { counter: 0, ..self }, TickThenView::Scan(NETWORK_CHECK_INTERVAL))
        } else {
            (self, TickThenView::Sleep(NETWORK_CHECK_INTERVAL))
        }
    }

    /// One more tick without a scan.
    pub open spec fn bumped(self) -> ServiceView {
        if self.counter < SCAN_TICKS {
            ServiceView { counter: (self.counter + 1) as u64, ..self }
        } else {
            self
        }
    }

    /// The start of the service, with the state `found` that the links are
    /// in already: a connected state is taken over and reported. A scan
    /// follows at once unless the wire is connected; the first tick follows
    /// without a pause.
    pub open spec fn started(self, found: ConnectionInfoView) -> (ServiceView, TickView) {
        let warm = self.connection.warm_started(found);
        (
            ServiceView { connection: warm.0, ..self },
            TickView {
                effects: warm.1,
                next: if warm.0.current is NotConnected || warm.0.current is Wifi {
                    TickThenView::Scan(0)
                } else {
                    TickThenView::Sleep(0)
                },
            },
        )
    }

    /// One tick. Of the connect requests that came in, the last is served
    /// and the others are dropped. Without a request the policy is asked,
    /// where it may act: it may want to connect, to tear the connection down
    /// and scan at once, or to scan again once enough ticks have passed.
    /// Unless the tick ends in an attempt or a scan, the clients' refresh may
    /// be due.
    pub open spec fn tick(self) -> (ServiceView, TickView) {
        if self.requests.len() > 0 {
            (
                ServiceView {
                    requests: Seq::empty(),
                    pending: Some(Origin::Request),
                    ..self
                },
                TickView {
                    effects: Seq::empty(),
                    next: TickThenView::Connect(self.requests.last()),
                },
            )
        } else if self.auto {
            let c = self.connection;
            let decision = decide(
                c.current,
                c.ifaces.eth_plugged(),
                c.ifaces.wifi_plugged(),
                c.networks,
                self.known,
            );
            let adjusted = adjusted_list(
                c.current,
                c.ifaces.eth_plugged(),
                c.ifaces.wifi_plugged(),
                c.networks,
            );
            let c1 = ConnectionView { networks: adjusted, ..c };
            let e1 = if adjusted == c.networks {
                Seq::<EffectView>::empty()
            } else {
                seq![emit_list(adjusted)]
            };
            match decision {
                CouldConnectView::Connect(setting) => (
                    ServiceView { connection: c1, pending: Some(Origin::Policy), ..self },
                    TickView { effects: e1, next: TickThenView::Connect(setting) },
                ),
                CouldConnectView::Disconnect => (
                    ServiceView { connection: c1.disconnected(), counter: 0, ..self },
                    TickView {
                        effects: e1 + c1.disconnect_effects(),
                        next: TickThenView::Scan(NETWORK_CHECK_INTERVAL),
                    },
                ),
                CouldConnectView::Rescan => {
                    if self.counter >= SCAN_TICKS {
                        (
                            ServiceView { connection: c1, counter: 0, ..self },
                            TickView {
                                effects: e1,
                                next: TickThenView::Scan(NETWORK_CHECK_INTERVAL),
                            },
                        )
                    } else {
                        let next = (ServiceView { connection: c1, ..self }).bumped().refresh();
                        (next.0, TickView { effects: e1, next: next.1 })
                    }
                },
                CouldConnectView::DoNothing => {
                    let next = (ServiceView { connection: c1, ..self }).bumped().refresh();
                    (next.0, TickView { effects: e1, next: next.1 })
                },
            }
        } else {
            let next = self.refresh();
            (next.0, TickView { effects: Seq::empty(), next: next.1 })
        }
    }

    /// What follows an attempt. After one that a client asked for, success
    /// lets the policy act again and restarts the count of ticks. After one
    /// that the policy asked for, failure tears the connection down. After that the
    /// clients' refresh may be due.
    pub open spec fn connect_finished(self, ok: bool) -> (ServiceView, TickView) {
        match self.pending {
            Some(Origin::Request) => {
                let s1 = if ok {
                    ServiceView { auto: true, counter: 0, pending: None, ..self }
                } else {
                    ServiceView { pending: None, ..self }
                };
                let next = s1.refresh();
                (next.0, TickView { effects: Seq::empty(), next: next.1 })
            },
            Some(Origin::Policy) => {
                if ok {
                    let next = (ServiceView { auto: true, pending: None, ..self }).refresh();
                    (next.0, TickView { effects: Seq::empty(), next: next.1 })
                } else {
                    let next = (ServiceView {
                        connection: self.connection.disconnected(),
                        pending: None,
                        ..self
                    }).refresh();
                    (
                        next.0,
                        TickView { effects: self.connection.disconnect_effects(), next: next.1 },
                    )
                }
            },
            None => (
                self,
                TickView {
                    effects: Seq::empty(),
                    next: TickThenView::Sleep(NETWORK_CHECK_INTERVAL),
                },
            ),
        }
    }

    /// The answer to a connect call. While wired, the call is refused. Else
    /// its arguments must spell a request. An attempt in flight is torn down,
    /// and the request joins the queue: a secured network with what is
    /// remembered of it, and is refused where nothing is.
    pub open spec fn connect_call(self, params: Option<Seq<ParamView>>) -> (
        ServiceView,
        HandledView,
    ) {
        let got = match params {
            Some(p) => setting_of(p),
            None => None,
        };
        if self.connection.current.wired() {
            (self, answered(ReplyView::Failed("Reconnect is not alowed"@)))
        } else if got is None {
            (self, answered(ReplyView::InvalidArgs(Some("(usb)"@))))
        } else {
            let c = self.connection;
            let c1 = if c.current.connecting() {
                c.disconnected()
            } else {
                c
            };
            let e1 = if c.current.connecting() {
                c.disconnect_effects()
            } else {
                Seq::empty()
            };
            let essid = got->0.essid();
            if got->0 is Wifi && !self.known.contains_key(essid) {
                (
                    ServiceView { connection: c1, ..self },
                    HandledView {
                        reply: Some(
                            ReplyView::Failed("Connection is secured but no password specified"@),
                        ),
                        effects: e1,
                        persist: false,
                    },
                )
            } else {
                let setting = if got->0 is Wifi {
                    self.known[essid].to_setting(essid)
                } else {
                    got->0
                };
                (
                    ServiceView { connection: c1, requests: self.requests.push(setting), ..self },
                    HandledView { reply: Some(ReplyView::Empty), effects: e1, persist: false },
                )
            }
        }
    }

    /// The answer to a disconnect call: the connection is torn down, and the
    /// policy may no longer connect by itself.
    pub open spec fn disconnect_call(self) -> (ServiceView, HandledView) {
        (
            ServiceView { connection: self.connection.disconnected(), auto: false, ..self },
            HandledView {
                reply: Some(ReplyView::Empty),
                effects: self.connection.disconnect_effects(),
                persist: false,
            },
        )
    }

    /// The answer to a call for the properties of a network: what is
    /// remembered of it, or a blank record.
    pub open spec fn get_props_call(self, params: Option<Seq<ParamView>>) -> HandledView {
        let essid = match params {
            Some(p) => essid_of(p),
            None => None,
        };
        match essid {
            Some(e) => answered(
                ReplyView::Props(
                    if self.known.contains_key(e) {
                        self.known[e]
                    } else {
                        KnownNetworkView::blank()
                    },
                ),
            ),
            None => answered(ReplyView::InvalidArgs(Some("s"@))),
        }
    }

    /// The answer to a call that sets the properties of a network: the store
    /// takes them and has to be written out.
    pub open spec fn set_props_call(self, params: Option<Seq<ParamView>>) -> (
        ServiceView,
        HandledView,
    ) {
        let props = match params {
            Some(p) => props_of(p),
            None => None,
        };
        match props {
            Some((essid, known)) => (
                ServiceView { known: store_props(self.known, essid, known), ..self },
                HandledView { reply: Some(ReplyView::Empty), effects: Seq::empty(), persist: true },
            ),
            None => (self, answered(ReplyView::InvalidArgs(Some("ssibbb"@)))),
        }
    }

    /// The answer to a call that turns a client's updates on or off.
    pub open spec fn monitor_call(
        self,
        sender: Option<Seq<char>>,
        params: Option<Seq<ParamView>>,
    ) -> (ServiceView, HandledView) {
        if params is Some && params->0.len() == 1 && params->0[0] is Base && params->0[0]->Base_0
            is Boolean {
            let on = params->0[0]->Base_0->Boolean_0;
            (
                ServiceView {
                    proxies: match sender {
                        Some(name) => if on {
                            with_client(self.proxies, name)
                        } else {
                            without_client(self.proxies, name)
                        },
                        None => self.proxies,
                    },
                    ..self
                },
                answered(ReplyView::Empty),
            )
        } else {
            (self, answered(ReplyView::InvalidArgs(Some("b"@))))
        }
    }

    /// What comes of a call, by its member.
    pub open spec fn call(self, msg: MessageView) -> (ServiceView, HandledView) {
        match msg.member {
            None => (self, answered(ReplyView::Empty)),
            Some(member) => {
                if member == "hello"@ {
                    (
                        ServiceView {
                            proxies: match msg.sender {
                                Some(name) => with_client(self.proxies, name),
                                None => self.proxies,
                            },
                            ..self
                        },
                        answered(ReplyView::Empty),
                    )
                } else if member == "connect"@ {
                    self.connect_call(msg.params)
                } else if member == "disconnect"@ {
                    self.disconnect_call()
                } else if member == "get_state"@ {
                    (self, answered(ReplyView::State(self.connection.current)))
                } else if member == "get_networks"@ {
                    (self, answered(ReplyView::Networks(self.connection.networks)))
                } else if member == "get_props"@ {
                    (self, self.get_props_call(msg.params))
                } else if member == "set_props"@ {
                    self.set_props_call(msg.params)
                } else if member == "monitor"@ {
                    self.monitor_call(msg.sender, msg.params)
                } else if member == "Introspect"@ {
                    (self, answered(ReplyView::Introspection))
                } else {
                    (self, answered(ReplyView::UnknownMethod))
                }
            },
        }
    }

    /// What comes of a message: a call is answered; a signal of the bus
    /// itself may tell that a client is gone; anything else is passed over.
    pub open spec fn handle(self, msg: MessageView) -> (ServiceView, HandledView) {
        match msg.kind {
            MessageKind::Call => self.call(msg),
            MessageKind::Signal => {
                if msg.interface == Some("org.freedesktop.DBus"@) {
                    match msg.params {
                        Some(params) => (
                            ServiceView {
                                proxies: after_event(self.proxies, msg.member, strings_of(params)),
                                ..self
                            },
                            HandledView { reply: None, effects: Seq::empty(), persist: false },
                        ),
                        None => (self, answered(ReplyView::InvalidArgs(None))),
                    }
                } else {
                    (self, HandledView { reply: None, effects: Seq::empty(), persist: false })
                }
            },
            MessageKind::Other => (
                self,
                HandledView { reply: None, effects: Seq::empty(), persist: false },
            ),
        }
    }
}

fn nothing() -> (effects: Vec<Effect>)
    ensures
        effects_view(effects@) == Seq::<EffectView>::empty(),
{
    let effects: Vec<Effect> = Vec::new();
    assert(effects_view(effects@) =~= Seq::<EffectView>::empty());
    effects
}

fn answer(reply: Reply) -> (r: Handled)
    ensures
        r@ == answered(reply@),
{
    Handled { reply: Some(reply), effects: nothing(), persist: false }
}

impl ServiceData {
    /// Connection, known networks and clients are well formed. Every service
    /// that this library hands out is.
    pub open spec fn wf(&self) -> bool {
        self.connection.wf() && self.known_networks.wf() && self.proxy_tracker.wf()
    }

    /// A service around a fresh connection that remembers `known_networks`:
    /// the policy may act, and there is no client and no request.
    pub fn new(known_networks: KnownNetworks) -> (r: Self)
        requires
            known_networks.wf(),
        ensures
            r.wf(),
            r@.known == known_networks@,
            r@.auto,
            r@.proxies.len() == 0,
            r@.requests.len() == 0,
            r@.counter == 0,
            r@.pending is None,
            r@.connection.ifaces.eths.len() == 0,
            r@.connection.ifaces.wlans.len() == 0,
            r@.connection.tries == 0,
            r@.connection.current == ConnectionInfoView::NotConnected,
            r@.connection.networks.len() == 0,
            r@.connection.attempt is None,
    {
        ServiceData {
            connection: Connection::new(),
            known_networks,
            auto: true,
            proxy_tracker: ProxyTracker::new(),
            requests: Vec::new(),
            counter: 0,
            pending: None,
        }
    }

    fn refresh(&mut self) -> (next: TickThen)
        ensures
            (final(self)@, next@) == old(self)@.refresh(),
            final(self).wf() == old(self).wf(),
    {
        if self.proxy_tracker.active() > 0 && self.counter >= SCAN_TICKS {
            self.counter = 0;
            TickThen::Scan(NETWORK_CHECK_INTERVAL)
        } else {
            TickThen::Sleep(NETWORK_CHECK_INTERVAL)
        }
    }

    fn bump(&mut self)
        ensures
            final(self)@ == old(self)@.bumped(),
            final(self).wf() == old(self).wf(),
    {
        if self.counter < SCAN_TICKS {
            self.counter = self.counter + 1;
        }
    }

    /// Starts the service, from the addresses that the wired and the
    /// wireless interface carry and the fields of the wireless link report;
    /// see `ServiceView::started`.
    pub fn start_from(
        &mut self,
        eth_ip: Option<String>,
        wlan_ip: Option<String>,
        essid: Option<String>,
        signal: Option<String>,
    ) -> (r: Tick)
        requires
            old(self).wf(),
        ensures
            final(self).wf(),
            (final(self)@, r@) == old(self)@.started(
                warm_state(
                    option_text(eth_ip),
                    option_text(wlan_ip),
                    option_text(essid),
                    option_text(signal),
                ),
            ),
    {
        let effects = self.connection.acquire_from(eth_ip, wlan_ip, essid, signal);
        let next = match self.connection.current_state() {
            ConnectionInfo::NotConnected | ConnectionInfo::Wifi(_, _, _, _) => TickThen::Scan(0),
            _ => TickThen::Sleep(0),
        };
        Tick { effects, next }
    }

    /// Starts the service, from the addresses that the wired and the
    /// wireless interface carry and the wireless link report.
    pub fn start(
        &mut self,
        eth_ip: Option<String>,
        wlan_ip: Option<String>,
        link_report: &str,
    ) -> (r: Tick)
        requires
            old(self).wf(),
        ensures
            final(self).wf(),
            (final(self)@, r@) == old(self)@.started(
                warm_state(
                    option_text(eth_ip),
                    option_text(wlan_ip),
                    regex_first_group(Parsers::NetworkEssid.spec_pattern(), link_report@),
                    regex_first_group(Parsers::NetworkQuality.spec_pattern(), link_report@),
                ),
            ),
    {
        let essid = parse(Parsers::NetworkEssid, link_report);
        let signal = parse(Parsers::NetworkQuality, link_report);
        self.start_from(eth_ip, wlan_ip, essid, signal)
    }

    /// One tick of the orchestrator; see `ServiceView::tick`.
    pub fn tick(&mut self) -> (r: Tick)
        requires
            old(self).wf(),
        ensures
            final(self).wf(),
            (final(self)@, r@) == old(self)@.tick(),
    {
        match self.requests.pop() {
            Some(setting) => {
                assert(setting@ == old(self)@.requests.last());
                self.requests.clear();
                assert(settings_view(self.requests@) =~= Seq::empty());
                self.pending = Some(Origin::Request);
                return Tick { effects: nothing(), next: TickThen::Connect(setting) };
            },
            None => {
                assert(settings_view(self.requests@) =~= old(self)@.requests);
            },
        }
        if !self.auto {
            let next = self.refresh();
            return Tick { effects: nothing(), next };
        }
        let (decision, mut effects) = self.connection.auto_connect_possible(&self.known_networks);
        match decision {
            CouldConnect::Connect(setting) => {
                self.pending = Some(Origin::Policy);
                Tick { effects, next: TickThen::Connect(setting) }
            },
            CouldConnect::Disconnect => {
                let teardown = self.connection.disconnect();
                append_effects(&mut effects, teardown);
                self.counter = 0;
                Tick { effects, next: TickThen::Scan(NETWORK_CHECK_INTERVAL) }
            },
            CouldConnect::Rescan => {
                if self.counter >= SCAN_TICKS {
                    self.counter = 0;
                    Tick { effects, next: TickThen::Scan(NETWORK_CHECK_INTERVAL) }
                } else {
                    self.bump();
                    let next = self.refresh();
                    Tick { effects, next }
                }
            },
            CouldConnect::DoNothing => {
                self.bump();
                let next = self.refresh();
                Tick { effects, next }
            },
        }
    }

    /// Takes in how the attempt ended that the last tick asked for; see
    /// `ServiceView::connect_finished`.
    pub fn connect_finished(&mut self, ok: bool) -> (r: Tick)
        requires
            old(self).wf(),
        ensures
            final(self).wf(),
            (final(self)@, r@) == old(self)@.connect_finished(ok),
    {
        match self.pending {
            Some(Origin::Request) => {
                self.pending = None;
                if ok {
                    self.auto = true;
                    self.counter = 0;
                }
                let next = self.refresh();
                Tick { effects: nothing(), next }
            },
            Some(Origin::Policy) => {
                self.pending = None;
                if ok {
                    self.auto = true;
                    let next = self.refresh();
                    Tick { effects: nothing(), next }
                } else {
                    let effects = self.connection.disconnect();
                    let next = self.refresh();
                    Tick { effects, next }
                }
            },
            None => Tick { effects: nothing(), next: TickThen::Sleep(NETWORK_CHECK_INTERVAL) },
        }
    }

    /// Answers a connect call; see `ServiceView::connect_call`.
    pub fn connect(&mut self, params: &Option<Vec<Param>>) -> (r: Handled)
        requires
            old(self).wf(),
        ensures
            final(self).wf(),
            (final(self)@, r@) == old(self)@.connect_call(
                match *params {
                    Some(p) => Some(params_view(p@)),
                    None => None,
                },
            ),
    {
        if !self.connection.allow_reconnect() {
            return answer(Reply::Failed("Reconnect is not alowed".to_owned()));
        }
        let parsed = match params {
            Some(p) => ConnectionSetting::from_params(p),
            None => Err(()),
        };
        let got = match parsed {
            Ok(setting) => setting,
            Err(_) => {
                return answer(Reply::InvalidArgs(Some("(usb)".to_owned())));
            },
        };
        let effects = if self.connection.current_state().connecting() {
            self.connection.disconnect()
        } else {
            nothing()
        };
        let setting = match &got {
            ConnectionSetting::Wifi { essid, .. } => match self.known_networks.get(essid.as_str()) {
                Some(known) => known.to_setting(essid.as_str()),
                None => {
                    return Handled {
                        reply: Some(
                            Reply::Failed(
                                "Connection is secured but no password specified".to_owned(),
                            ),
                        ),
                        effects,
                        persist: false,
                    };
                },
            },
            _ => got.clone(),
        };
        self.requests.push(setting);
        assert(settings_view(self.requests@) =~= old(self)@.requests.push(setting@));
        Handled { reply: Some(Reply::Empty), effects, persist: false }
    }

    /// Answers a disconnect call; see `ServiceView::disconnect_call`.
    pub fn disconnect(&mut self) -> (r: Handled)
        requires
            old(self).wf(),
        ensures
            final(self).wf(),
            (final(self)@, r@) == old(self)@.disconnect_call(),
    {
        let effects = self.connection.disconnect();
        self.auto = false;
        Handled { reply: Some(Reply::Empty), effects, persist: false }
    }

    /// The current state, in its wire form.
    pub fn get_state(&self) -> (r: (u32, String, bool, u32, String))
        ensures
            (r.0, r.1@, r.2, r.3, r.4@) == self@.connection.current.dbus_tuple(),
    {
        self.connection.current_state().to_dbus_tuple()
    }

    /// The network list, each entry in its wire form.
    pub fn get_networks(&self) -> (r: Vec<(u32, String, bool, u32)>)
        requires
            self.wf(),
        ensures
            r@.len() == self@.connection.networks.len(),
            forall|i: int|
                0 <= i < r@.len() ==> (r@[i].0, r@[i].1@, r@[i].2, r@[i].3)
                    == self@.connection.networks[i].dbus_tuple(),
    {
        let list = self.connection.get_networks();
        let mut out: Vec<(u32, String, bool, u32)> = Vec::new();
        let mut i: usize = 0;
        while i < list.len()
            invariant
                i <= list@.len(),
                out@.len() == i,
                forall|k: int|
                    0 <= k < i ==> (out@[k].0, out@[k].1@, out@[k].2, out@[k].3)
                        == list@[k].dbus_tuple(),
            decreases list@.len() - i,
        {
            match list.get(i) {
                Some(n) => out.push(n.to_dbus_tuple()),
                None => {},
            }
            i += 1;
        }
        out
    }

    /// Answers a call for the properties of a network; see
    /// `ServiceView::get_props_call`.
    pub fn get_props(&self, params: &Option<Vec<Param>>) -> (r: Handled)
        ensures
            r@ == self@.get_props_call(
                match *params {
                    Some(p) => Some(params_view(p@)),
                    None => None,
                },
            ),
    {
        let parsed = match params {
            Some(p) => essid_from_params(p),
            None => Err(()),
        };
        match parsed {
            Ok(essid) => match self.known_networks.get(essid.as_str()) {
                Some(known) => answer(Reply::Props(known)),
                None => answer(Reply::Props(KnownNetwork::default())),
            },
            Err(_) => answer(Reply::InvalidArgs(Some("s".to_owned()))),
        }
    }

    /// Answers a call that sets the properties of a network; see
    /// `ServiceView::set_props_call`.
    pub fn set_props(&mut self, params: &Option<Vec<Param>>) -> (r: Handled)
        requires
            old(self).wf(),
        ensures
            final(self).wf(),
            (final(self)@, r@) == old(self)@.set_props_call(
                match *params {
                    Some(p) => Some(params_view(p@)),
                    None => None,
                },
            ),
    {
        let parsed = match params {
            Some(p) => props_from_params(p),
            None => Err(()),
        };
        match parsed {
            Ok((essid, props)) => {
                self.known_networks.set_props(essid.as_str(), props);
                Handled { reply: Some(Reply::Empty), effects: nothing(), persist: true }
            },
            Err(_) => answer(Reply::InvalidArgs(Some("ssibbb".to_owned()))),
        }
    }

    /// The answer to a properties call whose store could not be written
    /// out.
    pub fn write_failed() -> (r: Reply)
        ensures
            r@ == ReplyView::Failed("Cannot write config"@),
    {
        Reply::Failed("Cannot write config".to_owned())
    }

    /// Answers a call that turns a client's updates on or off; see
    /// `ServiceView::monitor_call`.
    pub fn monitor(&mut self, sender: &Option<String>, params: &Option<Vec<Param>>) -> (r: Handled)
        requires
            old(self).wf(),
        ensures
            final(self).wf(),
            (final(self)@, r@) == old(self)@.monitor_call(
                option_text(*sender),
                match *params {
                    Some(p) => Some(params_view(p@)),
                    None => None,
                },
            ),
    {
        let flag: Option<bool> = match params {
            Some(p) => {
                if p.len() == 1 {
                    assert(params_view(p@)[0] == p@[0]@);
                    match &p[0] {
                        Param::Base(Base::Boolean(on)) => Some(*on),
                        _ => None,
                    }
                } else {
                    None
                }
            },
            None => None,
        };
        match flag {
            Some(on) => {
                if on {
                    self.proxy_tracker.start_track(sender);
                } else {
                    self.proxy_tracker.stop_track(sender);
                }
                answer(Reply::Empty)
            },
            None => answer(Reply::InvalidArgs(Some("b".to_owned()))),
        }
    }

    fn call(&mut self, msg: &Message) -> (r: Handled)
        requires
            old(self).wf(),
            msg.kind == MessageKind::Call,
        ensures
            final(self).wf(),
            (final(self)@, r@) == old(self)@.call(msg@),
    {
        let member = match &msg.member {
            Some(m) => m.as_str(),
            None => {
                return answer(Reply::Empty);
            },
        };
        if str_equal(member, "hello") {
            self.proxy_tracker.start_track(&msg.sender);
            answer(Reply::Empty)
        } else if str_equal(member, "connect") {
            self.connect(&msg.params)
        } else if str_equal(member, "disconnect") {
            self.disconnect()
        } else if str_equal(member, "get_state") {
            answer(Reply::State(self.connection.current_state()))
        } else if str_equal(member, "get_networks") {
            answer(Reply::Networks(self.connection.get_networks()))
        } else if str_equal(member, "get_props") {
            self.get_props(&msg.params)
        } else if str_equal(member, "set_props") {
            self.set_props(&msg.params)
        } else if str_equal(member, "monitor") {
            self.monitor(&msg.sender, &msg.params)
        } else if str_equal(member, "Introspect") {
            answer(Reply::Introspection)
        } else {
            answer(Reply::UnknownMethod)
        }
    }

    /// Takes in a message from the bus; see `ServiceView::handle`.
    pub fn handle(&mut self, msg: &Message) -> (r: Handled)
        requires
            old(self).wf(),
        ensures
            final(self).wf(),
            (final(self)@, r@) == old(self)@.handle(msg@),
    {
        match msg.kind {
            MessageKind::Call => self.call(msg),
            MessageKind::Signal => {
                let ours: bool = match &msg.interface {
                    Some(i) => str_equal(i.as_str(), "org.freedesktop.DBus"),
                    None => false,
                };
                if !ours {
                    return Handled { reply: None, effects: nothing(), persist: false };
                }
                match &msg.params {
                    Some(params) => {
                        let strings = strings_from_params(params);
                        self.proxy_tracker.event(&msg.member, &strings);
                        Handled { reply: None, effects: nothing(), persist: false }
                    },
                    None => answer(Reply::InvalidArgs(None)),
                }
            },
            MessageKind::Other => Handled { reply: None, effects: nothing(), persist: false },
        }
    }
}

/// While the connection is wired, a connect call is refused and changes
/// nothing.
pub proof fn lemma_reconnect_guard(s: ServiceView, params: Option<Seq<ParamView>>)
    requires
        s.connection.current is Ethernet || s.connection.current is ConnectingEth,
    ensures
        s.connect_call(params).0 == s,
        s.connect_call(params).1 == answered(ReplyView::Failed("Reconnect is not alowed"@)),
{
}

/// A call with arguments of the wrong shape changes nothing.
pub proof fn lemma_invalid_args_change_nothing(s: ServiceView, msg: MessageView)
    requires
        msg.kind == MessageKind::Call,
        s.handle(msg).1.reply is Some,
        s.handle(msg).1.reply->0 is InvalidArgs,
    ensures
        s.handle(msg).0 == s,
        s.handle(msg).1.effects.len() == 0,
        !s.handle(msg).1.persist,
{
}

/// After a disconnect call nothing is connected, whatever was before.
pub proof fn lemma_disconnect_call(s: ServiceView)
    ensures
        s.disconnect_call().0.connection.current == ConnectionInfoView::NotConnected,
        s.disconnect_call().0.connection.tries == 0,
        !s.disconnect_call().0.auto,
{
}

} // verus!
