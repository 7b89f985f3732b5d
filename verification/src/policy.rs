//! The policy: what is worth doing, given the state, the links and the
//! networks in sight.

use vstd::prelude::*;
use crate::network_info::NetworkInfoView;
use crate::network_list::{with_phantom_eth, without_essid, without_phantom_eth};
use crate::types::{
    ConnectionInfoView, ConnectionSettingView, CouldConnectView, KnownNetworkView,
};

verus! {

/// Whether a listed network can be joined without asking: it is known, set
/// to auto-join, and a password is kept for it exactly if it is encrypted.
pub open spec fn joinable(n: NetworkInfoView, known: Map<Seq<char>, KnownNetworkView>) -> bool {
    match n {
        NetworkInfoView::Wifi(essid, _, enc) => known.contains_key(essid) && known[essid].auto
            && (enc == (known[essid].password is Some)),
        NetworkInfoView::Ethernet => false,
    }
}

/// The index of the first joinable network at or after `from`, or -1.
pub open spec fn first_joinable(
    list: Seq<NetworkInfoView>,
    known: Map<Seq<char>, KnownNetworkView>,
    from: int,
) -> int
    decreases list.len() - from,
{
    if from < 0 || from >= list.len() {
        -1
    } else if joinable(list[from], known) {
        from
    } else {
        first_joinable(list, known, from + 1)
    }
}

/// What the policy finds worth doing.
pub open spec fn decide(
    current: ConnectionInfoView,
    eth_plugged: bool,
    wifi_plugged: bool,
    list: Seq<NetworkInfoView>,
    known: Map<Seq<char>, KnownNetworkView>,
) -> CouldConnectView {
    match current {
        ConnectionInfoView::NotConnected => {
            if eth_plugged {
                CouldConnectView::Connect(ConnectionSettingView::Ethernet)
            } else if list.len() == 0 {
                CouldConnectView::Rescan
            } else {
                let at = first_joinable(list, known, 0);
                if at >= 0 {
                    CouldConnectView::Connect(
                        known[list[at]->Wifi_0].to_setting(list[at]->Wifi_0),
                    )
                } else {
                    CouldConnectView::DoNothing
                }
            }
        },
        ConnectionInfoView::Wifi(..) => {
            if eth_plugged {
                CouldConnectView::Connect(ConnectionSettingView::Ethernet)
            } else if !wifi_plugged {
                CouldConnectView::Disconnect
            } else {
                CouldConnectView::DoNothing
            }
        },
        ConnectionInfoView::Ethernet(_) => {
            if !eth_plugged {
                CouldConnectView::Disconnect
            } else {
                CouldConnectView::DoNothing
            }
        },
        _ => CouldConnectView::DoNothing,
    }
}

/// The list as the policy leaves it: the wire is shown at the head while it
/// is plugged in and not in use, and what has just vanished is taken out.
pub open spec fn adjusted_list(
    current: ConnectionInfoView,
    eth_plugged: bool,
    wifi_plugged: bool,
    list: Seq<NetworkInfoView>,
) -> Seq<NetworkInfoView> {
    match current {
        ConnectionInfoView::NotConnected => {
            if eth_plugged {
                with_phantom_eth(list)
            } else {
                list
            }
        },
        ConnectionInfoView::Wifi(essid, _, _, _) => {
            if eth_plugged {
                with_phantom_eth(list)
            } else if !wifi_plugged {
                without_essid(list, essid)
            } else {
                list
            }
        },
        ConnectionInfoView::Ethernet(_) => {
            if !eth_plugged {
                without_phantom_eth(list)
            } else {
                list
            }
        },
        _ => list,
    }
}

/// The policy's answer depends on its inputs alone, and asking again after
/// it has adjusted the list gives the same answer.
pub proof fn lemma_decide_stable(
    current: ConnectionInfoView,
    eth_plugged: bool,
    wifi_plugged: bool,
    list: Seq<NetworkInfoView>,
    known: Map<Seq<char>, KnownNetworkView>,
)
    ensures
        decide(
            current,
            eth_plugged,
            wifi_plugged,
            adjusted_list(current, eth_plugged, wifi_plugged, list),
            known,
        ) == decide(current, eth_plugged, wifi_plugged, list, known),
{
}

} // verus!
