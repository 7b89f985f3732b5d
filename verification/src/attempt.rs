//! The connect attempt: its phases, what each step asks of its driver, and
//! the course that an attempt takes.

use vstd::prelude::*;
use vstd::utf8::encode_utf8;
use crate::connection::ConnectionView;
use crate::interfaces::{InterfaceView, InterfacesView};
use crate::network_info::{index_of_essid, lemma_index_of_essid, NetworkInfo, NetworkInfoView};
use crate::parsers::{option_text, regex_first_group, Parsers};
use crate::signalmsg::{effects_view, emit_state, emit_status, Effect, EffectView};
use crate::support::{derivable, psk_of, wpa_config_text};
use crate::types::{
    ConnectionInfoView, ConnectionSetting, ConnectionSettingView, ConnectionStatus,
};

verus! {

/// Polls of the supplicant that a secured network gets.
pub const AUTH_MAX_TRIES: usize = 30;

/// Polls of the supplicant that an open network gets.
pub const ASSOC_MAX_TRIES: usize = 12;

/// Seconds between background scans while the signal is weak.
pub const SHORT_INTERVAL: u32 = 30;

/// Seconds between background scans while the signal is good.
pub const LONG_INTERVAL: u32 = 1800;

/// Seconds between two polls of the supplicant.
pub const POLL_INTERVAL: u64 = 1;

/// Where the supplicant keeps what it learnt about roaming.
pub open spec fn roaming_db_path() -> Seq<char> {
    "/etc/snm/roaming.db"@
}

/// What a connect attempt waits for.
#[derive(Clone, Copy, Debug, PartialEq, Eq, Structural)]
pub enum Phase {
    /// For the supplicant's configuration to be stored.
    Configuring,
    /// For the supplicant to report that the link is complete.
    Associating,
    /// For an address.
    Leasing,
}

/// A connect attempt in flight.
#[derive(Debug)]
pub struct Attempt {
    pub setting: ConnectionSetting,
    pub iface: String,
    pub network: NetworkInfo,
    pub config: Option<String>,
    pub polls: usize,
    pub phase: Phase,
}

/// The value of an `Attempt`.
pub struct AttemptView {
    pub setting: ConnectionSettingView,
    pub iface: Seq<char>,
    pub network: NetworkInfoView,
    pub config: Option<Seq<char>>,
    pub polls: nat,
    pub phase: Phase,
}

impl View for Attempt {
    type V = AttemptView;

    open spec fn view(&self) -> AttemptView {
        AttemptView {
            setting: self.setting@,
            iface: self.iface@,
            network: self.network@,
            config: option_text(self.config),
            polls: self.polls as nat,
            phase: self.phase,
        }
    }
}

/// The value of an optional attempt.
pub open spec fn option_attempt(a: Option<Attempt>) -> Option<AttemptView> {
    match a {
        Some(a) => Some(a@),
        None => None,
    }
}

/// What the driver of an attempt has to come back with next.
#[derive(Debug)]
pub enum ConnectNext {
    /// Nothing: the attempt is over, with this result.
    Done(bool),
    /// The path under which it stored this configuration text, or none where
    /// it could not store it.
    StoreConfig(String),
    /// The supplicant's status report for this interface.
    PollStatus(String),
    /// The DHCP client's report for this interface.
    AcquireLease(String),
}

/// The value of a `ConnectNext`.
pub enum ConnectNextView {
    Done(bool),
    StoreConfig(Seq<char>),
    PollStatus(Seq<char>),
    AcquireLease(Seq<char>),
}

impl View for ConnectNext {
    type V = ConnectNextView;

    open spec fn view(&self) -> ConnectNextView {
        match self {
            ConnectNext::Done(ok) => ConnectNextView::Done(*ok),
            ConnectNext::StoreConfig(text) => ConnectNextView::StoreConfig(text@),
            ConnectNext::PollStatus(iface) => ConnectNextView::PollStatus(iface@),
            ConnectNext::AcquireLease(iface) => ConnectNextView::AcquireLease(iface@),
        }
    }
}

/// One step of a connect attempt: what to carry out now, in order, and what
/// to come back with.
#[derive(Debug)]
pub struct Step {
    pub effects: Vec<Effect>,
    pub next: ConnectNext,
}

/// The value of a `Step`.
pub struct StepView {
    pub effects: Seq<EffectView>,
    pub next: ConnectNextView,
}

impl View for Step {
    type V = StepView;

    open spec fn view(&self) -> StepView {
        StepView { effects: effects_view(self.effects@), next: self.next@ }
    }
}

/// The configuration text for a setting: none for the wire, and none for a
/// secured network for which no key can be derived.
pub open spec fn setting_config(setting: ConnectionSettingView) -> Option<Seq<char>> {
    match setting {
        ConnectionSettingView::Ethernet => None,
        ConnectionSettingView::Wifi { essid, password, threshold } => {
            if derivable(encode_utf8(essid), Some(encode_utf8(password))) {
                Some(
                    wpa_config_text(
                        essid,
                        psk_of(encode_utf8(essid), Some(encode_utf8(password))),
                        threshold,
                        roaming_db_path(),
                        SHORT_INTERVAL,
                        LONG_INTERVAL,
                    ),
                )
            } else {
                None
            }
        },
        ConnectionSettingView::OpenWifi { essid, threshold } => Some(
            wpa_config_text(
                essid,
                None,
                threshold,
                roaming_db_path(),
                SHORT_INTERVAL,
                LONG_INTERVAL,
            ),
        ),
    }
}

/// What brings an interface up.
pub open spec fn link_up_effects(iface: InterfaceView) -> Seq<EffectView> {
    if iface.valid() {
        seq![EffectView::LinkUp(iface.name)]
    } else {
        Seq::empty()
    }
}

/// What brings the wireless interface down, where there is one.
pub open spec fn wlan_down_effects(ifaces: InterfacesView) -> Seq<EffectView> {
    match ifaces.wlan() {
        Some(wlan) => if wlan.valid() {
            seq![EffectView::LinkDown(wlan.name)]
        } else {
            Seq::empty()
        },
        None => Seq::empty(),
    }
}

/// What deletes a stored configuration, where there is one.
pub open spec fn remove_effects(config: Option<Seq<char>>) -> Seq<EffectView> {
    match config {
        Some(path) => seq![EffectView::RemoveFile(path)],
        None => Seq::empty(),
    }
}

/// The status that reports a supplicant that never completed.
pub open spec fn failure_status(setting: ConnectionSettingView) -> ConnectionStatus {
    if setting.need_auth() {
        ConnectionStatus::AuthFail
    } else {
        ConnectionStatus::ConnectFail
    }
}

impl AttemptView {
    /// The state that the attempt reaches with the address `ip`.
    pub open spec fn connected_info(self, ip: Seq<char>) -> ConnectionInfoView {
        if self.setting is Ethernet {
            ConnectionInfoView::Ethernet(ip)
        } else {
            match self.network {
                NetworkInfoView::Wifi(_, quality, enc) => ConnectionInfoView::Wifi(
                    self.setting.essid(),
                    quality,
                    enc,
                    ip,
                ),
                NetworkInfoView::Ethernet => ConnectionInfoView::NotConnected,
            }
        }
    }
}

impl ConnectionView {
    /// The connection and the effects after what stands before an attempt:
    /// an attempt still in flight is given up and its stored configuration
    /// deleted, and an active connection is torn down.
    pub open spec fn cleared(self) -> (ConnectionView, Seq<EffectView>) {
        let stale = match self.attempt {
            Some(a) => remove_effects(a.config),
            None => Seq::empty(),
        };
        if self.current.active() {
            (
                ConnectionView { attempt: None, ..self.disconnected() },
                stale + self.disconnect_effects(),
            )
        } else {
            (ConnectionView { attempt: None, ..self }, stale)
        }
    }

    /// The start of an attempt. An active connection is torn down first. The
    /// attempt fails at once where no interface serves the setting, where a
    /// wireless network is not in the list, or where the wire is unplugged;
    /// the provisional state is reported before the last two are looked at.
    /// Else the interface is brought up (for the wire, the wireless one
    /// down), the budget is set, and the attempt goes on to store the
    /// supplicant's configuration or, where there is none, to ask for an
    /// address.
    pub open spec fn connect(self, setting: ConnectionSettingView) -> (ConnectionView, StepView) {
        let (c1, e1) = self.cleared();
        match c1.ifaces.from_setting(setting) {
            None => (c1, StepView { effects: e1, next: ConnectNextView::Done(false) }),
            Some(iface) => {
                if setting.wireless() {
                    let state = ConnectionInfoView::ConnectingWifi(setting.essid());
                    let c2 = ConnectionView { current: state, ..c1 };
                    let e2 = e1.push(emit_state(state));
                    let at = index_of_essid(c1.networks, setting.essid(), 0);
                    if at < 0 {
                        (c2, StepView { effects: e2, next: ConnectNextView::Done(false) })
                    } else {
                        let e3 = (e2 + link_up_effects(iface)).push(
                            emit_status(ConnectionStatus::Initializing),
                        );
                        let attempt = AttemptView {
                            setting,
                            iface: iface.name,
                            network: c1.networks[at],
                            config: None,
                            polls: 0,
                            phase: Phase::Configuring,
                        };
                        match setting_config(setting) {
                            Some(text) => (
                                ConnectionView {
                                    tries: AUTH_MAX_TRIES as nat,
                                    attempt: Some(attempt),
                                    ..c2
                                },
                                StepView { effects: e3, next: ConnectNextView::StoreConfig(text) },
                            ),
                            None => (
                                ConnectionView {
                                    tries: AUTH_MAX_TRIES as nat,
                                    attempt: Some(AttemptView { phase: Phase::Leasing, ..attempt }),
                                    ..c2
                                },
                                StepView {
                                    effects: e3.push(emit_status(ConnectionStatus::GettingIP)),
                                    next: ConnectNextView::AcquireLease(iface.name),
                                },
                            ),
                        }
                    }
                } else {
                    let state = ConnectionInfoView::ConnectingEth;
                    let c2 = ConnectionView { current: state, ..c1 };
                    let e2 = e1.push(emit_state(state));
                    if !iface.is_plugged_in() {
                        (c2, StepView { effects: e2, next: ConnectNextView::Done(false) })
                    } else {
                        let e3 = (e2 + link_up_effects(iface) + wlan_down_effects(c1.ifaces)).push(
                            emit_status(ConnectionStatus::Initializing),
                        ).push(emit_status(ConnectionStatus::GettingIP));
                        (
                            ConnectionView {
                                tries: AUTH_MAX_TRIES as nat,
                                attempt: Some(
                                    AttemptView {
                                        setting,
                                        iface: iface.name,
                                        network: NetworkInfoView::Ethernet,
                                        config: None,
                                        polls: 0,
                                        phase: Phase::Leasing,
                                    },
                                ),
                                ..c2
                            },
                            StepView {
                                effects: e3,
                                next: ConnectNextView::AcquireLease(iface.name),
                            },
                        )
                    }
                }
            },
        }
    }

    /// The step after the configuration was stored under `path`, or could
    /// not be stored. A budget spent meanwhile aborts the attempt. With a
    /// stored configuration the supplicant is started and polled: a secured
    /// network is reported as authenticating, an open one as connecting, with
    /// the smaller budget. Without one the attempt goes on to ask for an
    /// address. Outside the configuring phase nothing happens.
    pub open spec fn config_stored(self, path: Option<Seq<char>>) -> (ConnectionView, StepView) {
        if self.attempt is Some && self.attempt->0.phase == Phase::Configuring {
            let a = self.attempt->0;
            if self.tries == 0 {
                (
                    ConnectionView { attempt: None, ..self },
                    StepView {
                        effects: seq![emit_status(ConnectionStatus::Aborted)] + remove_effects(
                            path,
                        ),
                        next: ConnectNextView::Done(false),
                    },
                )
            } else {
                match path {
                    Some(p) => {
                        let auth = a.setting.need_auth();
                        (
                            ConnectionView {
                                tries: if auth {
                                    self.tries
                                } else {
                                    ASSOC_MAX_TRIES as nat
                                },
                                attempt: Some(
                                    AttemptView {
                                        config: Some(p),
                                        phase: Phase::Associating,
                                        ..a
                                    },
                                ),
                                ..self
                            },
                            StepView {
                                effects: seq![
                                    emit_status(
                                        if auth {
                                            ConnectionStatus::Authenticating
                                        } else {
                                            ConnectionStatus::Connecting
                                        },
                                    ),
                                    EffectView::StartSupplicant { iface: a.iface, config: p },
                                ],
                                next: ConnectNextView::PollStatus(a.iface),
                            },
                        )
                    },
                    None => (
                        ConnectionView {
                            attempt: Some(AttemptView { phase: Phase::Leasing, ..a }),
                            ..self
                        },
                        StepView {
                            effects: seq![emit_status(ConnectionStatus::GettingIP)],
                            next: ConnectNextView::AcquireLease(a.iface),
                        },
                    ),
                }
            }
        } else {
            (self, StepView { effects: Seq::empty(), next: ConnectNextView::Done(false) })
        }
    }

    /// The step after a poll of the supplicant that showed the state
    /// `wpa_state`. A spent budget aborts the attempt, whatever the poll
    /// showed. `COMPLETED` sends the attempt on to ask for an address. Any
    /// other answer counts as a failed poll: after the pause the supplicant
    /// is polled again while polls are left in the budget, and else the
    /// attempt fails. Outside the associating phase nothing happens.
    pub open spec fn status_observed(self, wpa_state: Option<Seq<char>>) -> (
        ConnectionView,
        StepView,
    ) {
        if self.attempt is Some && self.attempt->0.phase == Phase::Associating {
            let a = self.attempt->0;
            if self.tries == 0 {
                (
                    ConnectionView { attempt: None, ..self },
                    StepView {
                        effects: seq![emit_status(ConnectionStatus::Aborted)] + remove_effects(
                            a.config,
                        ),
                        next: ConnectNextView::Done(false),
                    },
                )
            } else if wpa_state == Some("COMPLETED"@) {
                (
                    ConnectionView {
                        attempt: Some(AttemptView { phase: Phase::Leasing, ..a }),
                        ..self
                    },
                    StepView {
                        effects: seq![emit_status(ConnectionStatus::GettingIP)],
                        next: ConnectNextView::AcquireLease(a.iface),
                    },
                )
            } else if a.polls + 1 < self.tries {
                (
                    ConnectionView {
                        attempt: Some(AttemptView { polls: a.polls + 1, ..a }),
                        ..self
                    },
                    StepView {
                        effects: seq![EffectView::Sleep(POLL_INTERVAL)],
                        next: ConnectNextView::PollStatus(a.iface),
                    },
                )
            } else {
                (
                    ConnectionView { attempt: None, ..self },
                    StepView {
                        effects: seq![
                            EffectView::Sleep(POLL_INTERVAL),
                            emit_status(failure_status(a.setting)),
                        ] + remove_effects(a.config),
                        next: ConnectNextView::Done(false),
                    },
                )
            }
        } else {
            (self, StepView { effects: Seq::empty(), next: ConnectNextView::Done(false) })
        }
    }

    /// The last step, after the DHCP client came back with an address or
    /// without. The stored configuration is deleted either way. With an
    /// address the new state becomes the current one and is reported, and
    /// the attempt has succeeded. Outside the leasing phase nothing happens.
    pub open spec fn lease_result(self, ip: Option<Seq<char>>) -> (ConnectionView, StepView) {
        if self.attempt is Some && self.attempt->0.phase == Phase::Leasing {
            let a = self.attempt->0;
            match ip {
                Some(ip) => {
                    let info = a.connected_info(ip);
                    (
                        ConnectionView { current: info, attempt: None, ..self },
                        StepView {
                            effects: remove_effects(a.config).push(emit_state(info)),
                            next: ConnectNextView::Done(true),
                        },
                    )
                },
                None => (
                    ConnectionView { attempt: None, ..self },
                    StepView {
                        effects: remove_effects(a.config),
                        next: ConnectNextView::Done(false),
                    },
                ),
            }
        } else {
            (self, StepView { effects: Seq::empty(), next: ConnectNextView::Done(false) })
        }
    }

    /// The address that the DHCP client's report gives the attempt in
    /// flight.
    pub open spec fn leased(self, report: Seq<char>) -> Option<Seq<char>> {
        if self.attempt is Some && self.attempt->0.iface.len() > 0 {
            regex_first_group(Parsers::Ip.spec_pattern(), report)
        } else {
            None
        }
    }
}

/// A teardown stops an attempt: once the connection is torn down, the next
/// step of an attempt that is storing its configuration or polling the
/// supplicant ends it in failure, whatever that step is told, and reports
/// `Aborted` exactly once, before anything else.
pub proof fn lemma_abort(c: ConnectionView, path: Option<Seq<char>>, wpa_state: Option<Seq<char>>)
    requires
        c.attempt is Some,
    ensures
        ({
            let torn = c.disconnected();
            let step = if c.attempt->0.phase == Phase::Configuring {
                torn.config_stored(path)
            } else {
                torn.status_observed(wpa_state)
            };
            c.attempt->0.phase != Phase::Leasing ==> {
                &&& step.1.next == ConnectNextView::Done(false)
                &&& step.0.attempt is None
                &&& step.0.current == ConnectionInfoView::NotConnected
                &&& step.1.effects.len() >= 1
                &&& step.1.effects[0] == emit_status(ConnectionStatus::Aborted)
                &&& forall|i: int|
                    1 <= i < step.1.effects.len() ==> !(#[trigger] step.1.effects[i] is Emit)
            }
        }),
{
}

impl Phase {
    /// The place of a phase in the course of an attempt.
    pub open spec fn rank(self) -> int {
        match self {
            Phase::Configuring => 0,
            Phase::Associating => 1,
            Phase::Leasing => 2,
        }
    }
}

impl AttemptView {
    /// An attempt for a wireless network holds the record of that network.
    pub open spec fn consistent(self) -> bool {
        self.setting.wireless() ==> self.network is Wifi
    }

    /// The same attempt, wherever it stands.
    pub open spec fn same_attempt(self, other: AttemptView) -> bool {
        self.setting == other.setting && self.iface == other.iface && self.network == other.network
    }
}

impl ConnectionView {
    /// The step of the attempt in flight that belongs to its phase.
    pub open spec fn step(
        self,
        path: Option<Seq<char>>,
        wpa_state: Option<Seq<char>>,
        ip: Option<Seq<char>>,
    ) -> (ConnectionView, StepView) {
        match self.attempt->0.phase {
            Phase::Configuring => self.config_stored(path),
            Phase::Associating => self.status_observed(wpa_state),
            Phase::Leasing => self.lease_result(ip),
        }
    }
}

/// An attempt starts by reporting a connecting state, unless no interface
/// serves it; it never succeeds at once; and where it goes on, it holds the
/// record of its network and the full budget.
pub proof fn lemma_attempt_starts(c: ConnectionView, setting: ConnectionSettingView)
    ensures
        ({
            let r = c.connect(setting);
            &&& r.1.next != ConnectNextView::Done(true)
            &&& r.0.current.connecting() || (r.1.next == ConnectNextView::Done(false)
                && r.0.current is NotConnected)
            &&& r.0.attempt is Some <==> !(r.1.next is Done)
            &&& r.0.attempt is Some ==> r.0.attempt->0.consistent() && r.0.attempt->0.setting
                == setting && r.0.tries == AUTH_MAX_TRIES && r.0.current.connecting()
        }),
{
    let c1 = c.cleared().0;
    lemma_index_of_essid(c1.networks, setting.essid(), 0);
}

/// The course of an attempt. A step in its phase either ends the attempt or
/// moves it on: the phase never goes back, and setting, interface and
/// network record stay. Only the step that brings an address ends in
/// success, and then the current state is a connected one; a step that ends
/// in failure leaves the current state as it was.
pub proof fn lemma_attempt_course(
    c: ConnectionView,
    path: Option<Seq<char>>,
    wpa_state: Option<Seq<char>>,
    ip: Option<Seq<char>>,
)
    requires
        c.attempt is Some,
        c.attempt->0.consistent(),
    ensures
        ({
            let a = c.attempt->0;
            let r = c.step(path, wpa_state, ip);
            &&& r.0.attempt is None <==> r.1.next is Done
            &&& r.0.attempt is Some ==> r.0.attempt->0.same_attempt(a)
                && r.0.attempt->0.phase.rank() >= a.phase.rank() && r.0.current == c.current
            &&& r.1.next == ConnectNextView::Done(true) <==> a.phase == Phase::Leasing && ip is Some
            &&& r.1.next == ConnectNextView::Done(true) ==> (r.0.current is Ethernet
                || r.0.current is Wifi)
            &&& r.1.next == ConnectNextView::Done(false) ==> r.0.current == c.current
            &&& r.0.tries <= c.tries || r.0.tries == ASSOC_MAX_TRIES
        }),
{
}

} // verus!
