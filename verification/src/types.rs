//! The data model: connection state, user intent, known networks and scan
//! records, each with the mathematical value that contracts speak of.

use vstd::prelude::*;

verus! {

/// Progress reports of a connect attempt.
#[derive(Clone, Copy, Debug, PartialEq, Eq, Structural)]
pub enum ConnectionStatus {
    Initializing,
    Connecting,
    Authenticating,
    GettingIP,
    AuthFail,
    Aborted,
    ConnectFail,
}

impl ConnectionStatus {
    /// The number under which the status travels to subscribers.
    pub open spec fn spec_code(self) -> u32 {
        match self {
            ConnectionStatus::Initializing => 0,
            ConnectionStatus::Connecting => 1,
            ConnectionStatus::Authenticating => 2,
            ConnectionStatus::GettingIP => 3,
            ConnectionStatus::AuthFail => 4,
            ConnectionStatus::Aborted => 5,
            ConnectionStatus::ConnectFail => 6,
        }
    }

    /// The number under which the status travels to subscribers.
    pub fn code(&self) -> (c: u32)
        ensures
            c == self.spec_code(),
    {
        match self {
            ConnectionStatus::Initializing => 0,
            ConnectionStatus::Connecting => 1,
            ConnectionStatus::Authenticating => 2,
            ConnectionStatus::GettingIP => 3,
            ConnectionStatus::AuthFail => 4,
            ConnectionStatus::Aborted => 5,
            ConnectionStatus::ConnectFail => 6,
        }
    }

    /// Whether the status ends an attempt in failure.
    pub open spec fn is_failure(self) -> bool {
        self == ConnectionStatus::AuthFail || self == ConnectionStatus::Aborted || self
            == ConnectionStatus::ConnectFail
    }
}

/// Where the link stands.
#[derive(Debug, PartialEq, Eq)]
pub enum ConnectionInfo {
    NotConnected,
    /// Wired, with the leased address.
    Ethernet(String),
    /// Wireless: essid, quality, encrypted, leased address.
    Wifi(String, u32, bool, String),
    ConnectingEth,
    ConnectingWifi(String),
}

/// The value of a `ConnectionInfo`.
pub enum ConnectionInfoView {
    NotConnected,
    Ethernet(Seq<char>),
    Wifi(Seq<char>, u32, bool, Seq<char>),
    ConnectingEth,
    ConnectingWifi(Seq<char>),
}

impl ConnectionInfoView {
    pub open spec fn wired(self) -> bool {
        self is ConnectingEth || self is Ethernet
    }

    pub open spec fn active(self) -> bool {
        !(self is NotConnected)
    }

    pub open spec fn connecting(self) -> bool {
        self is ConnectingEth || self is ConnectingWifi
    }

    /// The wire form: tag, name, encrypted, quality, address.
    pub open spec fn dbus_tuple(self) -> (u32, Seq<char>, bool, u32, Seq<char>) {
        match self {
            ConnectionInfoView::NotConnected => (0, Seq::empty(), false, 0, Seq::empty()),
            ConnectionInfoView::Ethernet(ip) => (1, "Ethernet connection"@, false, 100, ip),
            ConnectionInfoView::Wifi(essid, quality, enc, ip) => (2, essid, enc, quality, ip),
            ConnectionInfoView::ConnectingEth => (
                3,
                "Ethernet connection"@,
                false,
                100,
                Seq::empty(),
            ),
            ConnectionInfoView::ConnectingWifi(essid) => (4, essid, false, 0, Seq::empty()),
        }
    }
}

impl View for ConnectionInfo {
    type V = ConnectionInfoView;

    open spec fn view(&self) -> ConnectionInfoView {
        match self {
            ConnectionInfo::NotConnected => ConnectionInfoView::NotConnected,
            ConnectionInfo::Ethernet(ip) => ConnectionInfoView::Ethernet(ip@),
            ConnectionInfo::Wifi(essid, quality, enc, ip) => ConnectionInfoView::Wifi(
                essid@,
                *quality,
                *enc,
                ip@,
            ),
            ConnectionInfo::ConnectingEth => ConnectionInfoView::ConnectingEth,
            ConnectionInfo::ConnectingWifi(essid) => ConnectionInfoView::ConnectingWifi(essid@),
        }
    }
}

impl Clone for ConnectionInfo {
    fn clone(&self) -> (r: Self)
        ensures
            r@ == self@,
    {
        match self {
            ConnectionInfo::NotConnected => ConnectionInfo::NotConnected,
            ConnectionInfo::Ethernet(ip) => ConnectionInfo::Ethernet(ip.clone()),
            ConnectionInfo::Wifi(essid, quality, enc, ip) => ConnectionInfo::Wifi(
                essid.clone(),
                *quality,
                *enc,
                ip.clone(),
            ),
            ConnectionInfo::ConnectingEth => ConnectionInfo::ConnectingEth,
            ConnectionInfo::ConnectingWifi(essid) => ConnectionInfo::ConnectingWifi(essid.clone()),
        }
    }
}

impl ConnectionInfo {
    /// Wired, connected or connecting.
    pub fn wired(&self) -> (r: bool)
        ensures
            r == self@.wired(),
    {
        match self {
            ConnectionInfo::ConnectingEth | ConnectionInfo::Ethernet(_) => true,
            _ => false,
        }
    }

    /// Anything but not connected.
    pub fn active(&self) -> (r: bool)
        ensures
            r == self@.active(),
    {
        match self {
            ConnectionInfo::NotConnected => false,
            _ => true,
        }
    }

    /// On the way to a link, wired or wireless.
    pub fn connecting(&self) -> (r: bool)
        ensures
            r == self@.connecting(),
    {
        match self {
            ConnectionInfo::ConnectingEth | ConnectionInfo::ConnectingWifi(_) => true,
            _ => false,
        }
    }

    /// The wire form: tag, name, encrypted, quality, address.
    pub fn to_dbus_tuple(&self) -> (r: (u32, String, bool, u32, String))
        ensures
            (r.0, r.1@, r.2, r.3, r.4@) == self@.dbus_tuple(),
    {
        match self {
            ConnectionInfo::NotConnected => (0, String::new(), false, 0, String::new()),
            ConnectionInfo::Ethernet(ip) => (
                1,
                "Ethernet connection".to_owned(),
                false,
                100,
                ip.clone(),
            ),
            ConnectionInfo::Wifi(essid, quality, enc, ip) => (
                2,
                essid.clone(),
                *enc,
                *quality,
                ip.clone(),
            ),
            ConnectionInfo::ConnectingEth => (
                3,
                "Ethernet connection".to_owned(),
                false,
                100,
                String::new(),
            ),
            ConnectionInfo::ConnectingWifi(essid) => (4, essid.clone(), false, 0, String::new()),
        }
    }
}

/// The type by which a connect request asks for the wire.
pub const REQUEST_ETHERNET: u32 = 1;

/// The type by which a connect request asks for a wireless network.
pub const REQUEST_WIFI: u32 = 2;

/// What the user asks for.
#[derive(Debug, PartialEq, Eq)]
pub enum ConnectionSetting {
    Ethernet,
    Wifi { essid: String, password: String, threshold: Option<i32> },
    OpenWifi { essid: String, threshold: Option<i32> },
}

/// The value of a `ConnectionSetting`.
pub enum ConnectionSettingView {
    Ethernet,
    Wifi { essid: Seq<char>, password: Seq<char>, threshold: Option<i32> },
    OpenWifi { essid: Seq<char>, threshold: Option<i32> },
}

impl ConnectionSettingView {
    pub open spec fn need_auth(self) -> bool {
        self is Wifi
    }

    /// Whether the setting asks for a wireless link.
    pub open spec fn wireless(self) -> bool {
        !(self is Ethernet)
    }

    /// The network name of a wireless setting.
    pub open spec fn essid(self) -> Seq<char> {
        match self {
            ConnectionSettingView::Ethernet => Seq::empty(),
            ConnectionSettingView::Wifi { essid, .. } => essid,
            ConnectionSettingView::OpenWifi { essid, .. } => essid,
        }
    }

    /// The setting that a connect request names.
    pub open spec fn requested(tp: u32, essid: Seq<char>, enc: bool) -> Option<
        ConnectionSettingView,
    > {
        if tp == REQUEST_ETHERNET {
            Some(ConnectionSettingView::Ethernet)
        } else if tp == REQUEST_WIFI {
            if enc {
                Some(
                    ConnectionSettingView::Wifi {
                        essid,
                        password: Seq::empty(),
                        threshold: None,
                    },
                )
            } else {
                Some(ConnectionSettingView::OpenWifi { essid, threshold: None })
            }
        } else {
            None
        }
    }

    /// The roaming threshold of a wireless setting.
    pub open spec fn threshold(self) -> Option<i32> {
        match self {
            ConnectionSettingView::Ethernet => None,
            ConnectionSettingView::Wifi { threshold, .. } => threshold,
            ConnectionSettingView::OpenWifi { threshold, .. } => threshold,
        }
    }
}

impl View for ConnectionSetting {
    type V = ConnectionSettingView;

    open spec fn view(&self) -> ConnectionSettingView {
        match self {
            ConnectionSetting::Ethernet => ConnectionSettingView::Ethernet,
            ConnectionSetting::Wifi { essid, password, threshold } => ConnectionSettingView::Wifi {
                essid: essid@,
                password: password@,
                threshold: *threshold,
            },
            ConnectionSetting::OpenWifi { essid, threshold } => ConnectionSettingView::OpenWifi {
                essid: essid@,
                threshold: *threshold,
            },
        }
    }
}

impl Clone for ConnectionSetting {
    fn clone(&self) -> (r: Self)
        ensures
            r@ == self@,
    {
        match self {
            ConnectionSetting::Ethernet => ConnectionSetting::Ethernet,
            ConnectionSetting::Wifi { essid, password, threshold } => ConnectionSetting::Wifi {
                essid: essid.clone(),
                password: password.clone(),
                threshold: *threshold,
            },
            ConnectionSetting::OpenWifi { essid, threshold } => ConnectionSetting::OpenWifi {
                essid: essid.clone(),
                threshold: *threshold,
            },
        }
    }
}

impl ConnectionSetting {
    /// Only a secured wireless setting needs authentication.
    pub fn need_auth(&self) -> (r: bool)
        ensures
            r == self@.need_auth(),
    {
        match self {
            ConnectionSetting::Wifi { .. } => true,
            _ => false,
        }
    }

    /// The setting that a connect request names by its type: the wire, or a
    /// wireless network, secured or open; no other type is known. The
    /// password is filled in later from the known networks.
    pub fn from_request(tp: u32, essid: &str, enc: bool) -> (r: Result<ConnectionSetting, ()>)
        ensures
            match r {
                Ok(setting) => Some(setting@) == ConnectionSettingView::requested(tp, essid@, enc),
                Err(_) => ConnectionSettingView::requested(tp, essid@, enc) is None,
            },
    {
        if tp == REQUEST_ETHERNET {
            Ok(ConnectionSetting::Ethernet)
        } else if tp == REQUEST_WIFI {
            if enc {
                Ok(
                    ConnectionSetting::Wifi {
                        essid: essid.to_owned(),
                        password: String::new(),
                        threshold: None,
                    },
                )
            } else {
                Ok(ConnectionSetting::OpenWifi { essid: essid.to_owned(), threshold: None })
            }
        } else {
            Err(())
        }
    }
}

/// What is remembered of a network.
#[derive(Debug, PartialEq, Eq)]
pub struct KnownNetwork {
    pub auto: bool,
    pub password: Option<String>,
    pub threshold: Option<i32>,
}

/// The value of a `KnownNetwork`.
pub struct KnownNetworkView {
    pub auto: bool,
    pub password: Option<Seq<char>>,
    pub threshold: Option<i32>,
}

/// The threshold reported for a network that has none.
pub const DEFAULT_THRESHOLD: i32 = -65;

impl KnownNetworkView {
    /// The setting that joins the network `essid` with what is remembered.
    pub open spec fn to_setting(self, essid: Seq<char>) -> ConnectionSettingView {
        match self.password {
            Some(password) => ConnectionSettingView::Wifi {
                essid,
                password,
                threshold: self.threshold,
            },
            None => ConnectionSettingView::OpenWifi { essid, threshold: self.threshold },
        }
    }

    /// A record that holds nothing worth keeping.
    pub open spec fn is_blank(self) -> bool {
        self.password is None && !self.auto
    }

    pub open spec fn blank() -> KnownNetworkView {
        KnownNetworkView { auto: false, password: None, threshold: None }
    }

    /// The wire form: password, threshold, auto, has password, has threshold.
    pub open spec fn dbus_tuple(self) -> (Seq<char>, i32, bool, bool, bool) {
        (
            match self.password {
                Some(p) => p,
                None => Seq::empty(),
            },
            match self.threshold {
                Some(t) => t,
                None => DEFAULT_THRESHOLD,
            },
            self.auto,
            self.password is Some,
            self.threshold is Some,
        )
    }
}

impl View for KnownNetwork {
    type V = KnownNetworkView;

    open spec fn view(&self) -> KnownNetworkView {
        KnownNetworkView {
            auto: self.auto,
            password: match self.password {
                Some(p) => Some(p@),
                None => None,
            },
            threshold: self.threshold,
        }
    }
}

impl Clone for KnownNetwork {
    fn clone(&self) -> (r: Self)
        ensures
            r@ == self@,
    {
        KnownNetwork {
            auto: self.auto,
            password: match &self.password {
                Some(p) => Some(p.clone()),
                None => None,
            },
            threshold: self.threshold,
        }
    }
}

impl Default for KnownNetwork {
    fn default() -> (r: Self)
        ensures
            r@ == KnownNetworkView::blank(),
    {
        KnownNetwork { auto: false, password: None, threshold: None }
    }
}

impl KnownNetwork {
    /// The threshold of a record that names none.
    pub fn default_threshold() -> (r: Option<i32>)
        ensures
            r is None,
    {
        None
    }

    /// `value` where roaming is wanted.
    pub fn make_threshold(roaming: bool, value: i32) -> (r: Option<i32>)
        ensures
            r == if roaming {
                Some(value)
            } else {
                None::<i32>
            },
    {
        if roaming {
            Some(value)
        } else {
            None
        }
    }

    /// `value` where the network is secured.
    pub fn make_password(enc: bool, value: String) -> (r: Option<String>)
        ensures
            r == if enc {
                Some(value)
            } else {
                None::<String>
            },
    {
        if enc {
            Some(value)
        } else {
            None
        }
    }

    /// A record from the flags and values of a properties request.
    pub fn new(auto: bool, enc: bool, roaming: bool, password: &str, threshold: i32) -> (r: Self)
        ensures
            r@ == (KnownNetworkView {
                auto,
                password: if enc {
                    Some(password@)
                } else {
                    None
                },
                threshold: if roaming {
                    Some(threshold)
                } else {
                    None
                },
            }),
    {
        KnownNetwork {
            auto,
            password: KnownNetwork::make_password(enc, password.to_owned()),
            threshold: KnownNetwork::make_threshold(roaming, threshold),
        }
    }

    /// The wire form: password, threshold, auto, has password, has threshold.
    pub fn to_dbus_tuple(&self) -> (r: (String, i32, bool, bool, bool))
        ensures
            (r.0@, r.1, r.2, r.3, r.4) == self@.dbus_tuple(),
    {
        let password = match &self.password {
            Some(p) => p.clone(),
            None => String::new(),
        };
        let threshold = match self.threshold {
            Some(t) => t,
            None => DEFAULT_THRESHOLD,
        };
        (password, threshold, self.auto, self.password.is_some(), self.threshold.is_some())
    }

    /// The wire form of a network of which nothing is remembered.
    pub fn default_dbus_tuple() -> (r: (String, i32, bool, bool, bool))
        ensures
            (r.0@, r.1, r.2, r.3, r.4) == KnownNetworkView::blank().dbus_tuple(),
    {
        (String::new(), DEFAULT_THRESHOLD, false, false, false)
    }

    /// The setting that joins the network `essid` with what is remembered:
    /// secured where a password is kept, open otherwise.
    pub fn to_setting(&self, essid: &str) -> (r: ConnectionSetting)
        ensures
            r@ == self@.to_setting(essid@),
    {
        match &self.password {
            Some(pass) => ConnectionSetting::Wifi {
                essid: essid.to_owned(),
                password: pass.clone(),
                threshold: self.threshold,
            },
            None => ConnectionSetting::OpenWifi {
                essid: essid.to_owned(),
                threshold: self.threshold,
            },
        }
    }
}

/// What the policy finds worth doing.
#[derive(Debug, PartialEq, Eq)]
pub enum CouldConnect {
    Connect(ConnectionSetting),
    Disconnect,
    Rescan,
    DoNothing,
}

/// The value of a `CouldConnect`.
pub enum CouldConnectView {
    Connect(ConnectionSettingView),
    Disconnect,
    Rescan,
    DoNothing,
}

impl View for CouldConnect {
    type V = CouldConnectView;

    open spec fn view(&self) -> CouldConnectView {
        match self {
            CouldConnect::Connect(setting) => CouldConnectView::Connect(setting@),
            CouldConnect::Disconnect => CouldConnectView::Disconnect,
            CouldConnect::Rescan => CouldConnectView::Rescan,
            CouldConnect::DoNothing => CouldConnectView::DoNothing,
        }
    }
}

} // verus!
