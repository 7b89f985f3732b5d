//! What the connection tells its subscribers, and what it asks of the
//! system around it.

use vstd::prelude::*;
use vstd::string::StringExecFns;
use crate::network_info::NetworkInfoView;
use crate::network_list::NetworkList;
use crate::support::{decimal_count, decimal_text};
use crate::types::{ConnectionInfo, ConnectionInfoView, ConnectionStatus};

verus! {

/// An event for subscribers.
#[derive(Debug)]
pub enum SignalMsg {
    NetworkList(NetworkList),
    ConnectStatusChanged(ConnectionStatus),
    StateChanged(ConnectionInfo),
}

/// The value of a `SignalMsg`.
pub enum SignalMsgView {
    NetworkList(Seq<NetworkInfoView>),
    ConnectStatusChanged(ConnectionStatus),
    StateChanged(ConnectionInfoView),
}

impl View for SignalMsg {
    type V = SignalMsgView;

    open spec fn view(&self) -> SignalMsgView {
        match self {
            SignalMsg::NetworkList(list) => SignalMsgView::NetworkList(list@),
            SignalMsg::ConnectStatusChanged(status) => SignalMsgView::ConnectStatusChanged(*status),
            SignalMsg::StateChanged(info) => SignalMsgView::StateChanged(info@),
        }
    }
}

impl Clone for SignalMsg {
    fn clone(&self) -> (r: Self)
        ensures
            r@ == self@,
    {
        match self {
            SignalMsg::NetworkList(list) => SignalMsg::NetworkList(list.clone()),
            SignalMsg::ConnectStatusChanged(status) => SignalMsg::ConnectStatusChanged(*status),
            SignalMsg::StateChanged(info) => SignalMsg::StateChanged(info.clone()),
        }
    }
}

/// How a status reads in the log.
pub open spec fn status_text(status: ConnectionStatus) -> Seq<char> {
    match status {
        ConnectionStatus::Initializing => "Bringing Interface Up"@,
        ConnectionStatus::Connecting => "Connecting"@,
        ConnectionStatus::Authenticating => "Authenticating"@,
        ConnectionStatus::GettingIP => "Getting ip address"@,
        ConnectionStatus::AuthFail => "Authorization failed"@,
        ConnectionStatus::Aborted => "Connection canceled"@,
        ConnectionStatus::ConnectFail => "Connection failed"@,
    }
}

impl SignalMsgView {
    /// The name under which the event travels.
    pub open spec fn member(self) -> Seq<char> {
        match self {
            SignalMsgView::NetworkList(_) => "network_list"@,
            SignalMsgView::ConnectStatusChanged(_) => "connect_status_changed"@,
            SignalMsgView::StateChanged(_) => "state_changed"@,
        }
    }

    /// The line that the event leaves in the log.
    pub open spec fn log_text(self) -> Seq<char> {
        match self {
            SignalMsgView::NetworkList(list) => "Scan complete. Found "@ + decimal_text(
                list.len() as int,
            ) + " networks"@,
            SignalMsgView::ConnectStatusChanged(status) => "Connect status changed to "@
                + status_text(status),
            SignalMsgView::StateChanged(info) => match info {
                ConnectionInfoView::ConnectingEth => "Connecting"@,
                ConnectionInfoView::ConnectingWifi(_) => "Connecting"@,
                ConnectionInfoView::NotConnected => "Disconnected"@,
                ConnectionInfoView::Ethernet(ip) => "Connected to eth: "@ + ip,
                ConnectionInfoView::Wifi(essid, _, _, ip) => "Connected to wifi: "@ + essid
                    + ", ip: "@ + ip,
            },
        }
    }
}

fn status_str(status: ConnectionStatus) -> (r: &'static str)
    ensures
        r@ == status_text(status),
{
    match status {
        ConnectionStatus::Initializing => "Bringing Interface Up",
        ConnectionStatus::Connecting => "Connecting",
        ConnectionStatus::Authenticating => "Authenticating",
        ConnectionStatus::GettingIP => "Getting ip address",
        ConnectionStatus::AuthFail => "Authorization failed",
        ConnectionStatus::Aborted => "Connection canceled",
        ConnectionStatus::ConnectFail => "Connection failed",
    }
}

impl SignalMsg {
    /// The name under which the event travels.
    pub fn member(&self) -> (r: &'static str)
        ensures
            r@ == self@.member(),
    {
        match self {
            SignalMsg::NetworkList(_) => "network_list",
            SignalMsg::ConnectStatusChanged(_) => "connect_status_changed",
            SignalMsg::StateChanged(_) => "state_changed",
        }
    }

    /// The line that the event leaves in the log.
    pub fn log(&self) -> (line: String)
        ensures
            line@ == self@.log_text(),
    {
        match self {
            SignalMsg::NetworkList(networks) => {
                let mut line = "Scan complete. Found ".to_owned();
                let count = decimal_count(networks.len());
                line.append(count.as_str());
                line.append(" networks");
                line
            },
            SignalMsg::ConnectStatusChanged(status) => {
                let mut line = "Connect status changed to ".to_owned();
                line.append(status_str(*status));
                line
            },
            SignalMsg::StateChanged(info) => match info {
                ConnectionInfo::ConnectingEth => "Connecting".to_owned(),
                ConnectionInfo::ConnectingWifi(_) => "Connecting".to_owned(),
                ConnectionInfo::NotConnected => "Disconnected".to_owned(),
                ConnectionInfo::Ethernet(ip) => {
                    let mut line = "Connected to eth: ".to_owned();
                    line.append(ip.as_str());
                    line
                },
                ConnectionInfo::Wifi(essid, _, _, ip) => {
                    let mut line = "Connected to wifi: ".to_owned();
                    line.append(essid.as_str());
                    line.append(", ip: ");
                    line.append(ip.as_str());
                    line
                },
            },
        }
    }
}

/// Something for the system around the library to carry out. The effects of
/// one call are carried out in the order in which they are handed over.
#[derive(Debug)]
pub enum Effect {
    /// Send the event to the subscribers.
    Emit(SignalMsg),
    /// Bring the interface up.
    LinkUp(String),
    /// Bring the interface down.
    LinkDown(String),
    /// Release the lease, flush the addresses and stop the supplicant on the
    /// interface.
    Teardown(String),
    /// Scan for networks on the interface.
    Scan(String),
    /// Start the supplicant on the interface with the stored configuration.
    StartSupplicant { iface: String, config: String },
    /// Delete the stored configuration.
    RemoveFile(String),
    /// Wait this many seconds.
    Sleep(u64),
}

/// The value of an `Effect`.
pub enum EffectView {
    Emit(SignalMsgView),
    LinkUp(Seq<char>),
    LinkDown(Seq<char>),
    Teardown(Seq<char>),
    Scan(Seq<char>),
    StartSupplicant { iface: Seq<char>, config: Seq<char> },
    RemoveFile(Seq<char>),
    Sleep(u64),
}

impl View for Effect {
    type V = EffectView;

    open spec fn view(&self) -> EffectView {
        match self {
            Effect::Emit(msg) => EffectView::Emit(msg@),
            Effect::LinkUp(iface) => EffectView::LinkUp(iface@),
            Effect::LinkDown(iface) => EffectView::LinkDown(iface@),
            Effect::Teardown(iface) => EffectView::Teardown(iface@),
            Effect::Scan(iface) => EffectView::Scan(iface@),
            Effect::StartSupplicant { iface, config } => EffectView::StartSupplicant {
                iface: iface@,
                config: config@,
            },
            Effect::RemoveFile(path) => EffectView::RemoveFile(path@),
            Effect::Sleep(secs) => EffectView::Sleep(*secs),
        }
    }
}

/// The values of a run of effects.
pub open spec fn effects_view(effects: Seq<Effect>) -> Seq<EffectView> {
    Seq::new(effects.len(), |i: int| effects[i]@)
}

/// The event that reports a status.
pub open spec fn emit_status(status: ConnectionStatus) -> EffectView {
    EffectView::Emit(SignalMsgView::ConnectStatusChanged(status))
}

/// The event that reports a state.
pub open spec fn emit_state(info: ConnectionInfoView) -> EffectView {
    EffectView::Emit(SignalMsgView::StateChanged(info))
}

/// The event that publishes a list.
pub open spec fn emit_list(list: Seq<NetworkInfoView>) -> EffectView {
    EffectView::Emit(SignalMsgView::NetworkList(list))
}

/// Adds `effect` to `effects`.
pub fn push_effect(effects: &mut Vec<Effect>, effect: Effect)
    ensures
        effects_view(final(effects)@) == effects_view(old(effects)@).push(effect@),
{
    effects.push(effect);
    assert(effects_view(effects@) =~= effects_view(old(effects)@).push(effect@));
}

/// Adds `more` behind `effects`.
pub fn append_effects(effects: &mut Vec<Effect>, more: Vec<Effect>)
    ensures
        effects_view(final(effects)@) == effects_view(old(effects)@) + effects_view(more@),
{
    let mut more = more;
    let ghost added = more@;
    effects.append(&mut more);
    assert(effects_view(effects@) =~= effects_view(old(effects)@) + effects_view(added));
}

} // verus!
