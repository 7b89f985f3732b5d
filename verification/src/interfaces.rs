//! The interface registry: which links exist, what was last seen of them,
//! and which one of a kind to use.

use vstd::prelude::*;
use crate::parsers::{option_text, parse, regex_first_group, Parsers};
use crate::signalmsg::{effects_view, push_effect, Effect, EffectView};
use crate::support::{
    dbm2perc, essid_bytes, essid_escapes_ok, spec_dbm2perc, try_parse_essid, utf8_text,
};
use crate::text::{chars_of, decimal_i32, parse_i32, str_equal};
use crate::types::{ConnectionInfo, ConnectionInfoView, ConnectionSetting, ConnectionSettingView};
use vstd::utf8::{decode_utf8, valid_utf8};

verus! {

/// What the kernel's carrier file holds when the link is there.
pub open spec fn carrier_plugged(content: Option<Seq<char>>) -> bool {
    content == Some("1\n"@)
}

/// What the kernel's operstate file holds when the interface is up.
pub open spec fn operstate_up(content: Option<Seq<char>>) -> bool {
    content == Some("up\n"@)
}

/// One entry of the kernel's list of network devices, with the contents of
/// its carrier and operstate files where they could be read.
#[derive(Debug)]
pub struct LinkReport {
    pub name: String,
    pub carrier: Option<String>,
    pub operstate: Option<String>,
}

/// The value of a `LinkReport`.
pub struct LinkReportView {
    pub name: Seq<char>,
    pub carrier: Option<Seq<char>>,
    pub operstate: Option<Seq<char>>,
}

impl View for LinkReport {
    type V = LinkReportView;

    open spec fn view(&self) -> LinkReportView {
        LinkReportView {
            name: self.name@,
            carrier: option_text(self.carrier),
            operstate: option_text(self.operstate),
        }
    }
}

impl LinkReportView {
    /// The interface as this report shows it.
    pub open spec fn seen(self) -> InterfaceView {
        InterfaceView {
            name: self.name,
            plugged: carrier_plugged(self.carrier),
            up: operstate_up(self.operstate),
        }
    }
}

/// The kind of a device, by the first letter of its name.
pub enum LinkKind {
    Ethernet,
    Wifi,
}

/// Devices whose names start with `e` are wired, with `w` wireless; others
/// are of no interest.
pub open spec fn classify(name: Seq<char>) -> Option<LinkKind> {
    if name.len() > 0 && name[0] == 'e' {
        Some(LinkKind::Ethernet)
    } else if name.len() > 0 && name[0] == 'w' {
        Some(LinkKind::Wifi)
    } else {
        None
    }
}

/// A named link-layer device, with what was last seen of its link.
#[derive(Debug)]
pub struct Interface {
    name: String,
    plugged: bool,
    up: bool,
}

/// The value of an `Interface`.
pub struct InterfaceView {
    pub name: Seq<char>,
    pub plugged: bool,
    pub up: bool,
}

impl InterfaceView {
    pub open spec fn valid(self) -> bool {
        self.name.len() > 0
    }

    pub open spec fn is_plugged_in(self) -> bool {
        self.valid() && self.plugged
    }

    pub open spec fn is_up(self) -> bool {
        self.valid() && self.up
    }

    /// The same interface with nothing seen of its link.
    pub open spec fn unseen(self) -> InterfaceView {
        InterfaceView { name: self.name, plugged: false, up: false }
    }

    /// The state that an address on the wire stands for.
    pub open spec fn eth_info(ip: Option<Seq<char>>) -> ConnectionInfoView {
        match ip {
            Some(ip) => ConnectionInfoView::Ethernet(ip),
            None => ConnectionInfoView::NotConnected,
        }
    }

    /// The quality that a link report shows: from its signal level, or 100
    /// where it names none that can be read.
    pub open spec fn link_quality(signal: Option<Seq<char>>) -> u32 {
        match signal {
            Some(text) => match decimal_i32(text) {
                Some(dbm) => spec_dbm2perc(dbm) as u32,
                None => spec_dbm2perc(100) as u32,
            },
            None => 100,
        }
    }

    /// The state that a wireless link report and an address stand for:
    /// connected where the report names an essid that decodes to text and the
    /// interface has an address.
    pub open spec fn wlan_info(
        essid: Option<Seq<char>>,
        signal: Option<Seq<char>>,
        ip: Option<Seq<char>>,
    ) -> ConnectionInfoView {
        if essid is Some && ip is Some && essid_escapes_ok(essid->0) && valid_utf8(
            essid_bytes(essid->0),
        ) {
            ConnectionInfoView::Wifi(
                decode_utf8(essid_bytes(essid->0)),
                Self::link_quality(signal),
                true,
                ip->0,
            )
        } else {
            ConnectionInfoView::NotConnected
        }
    }
}

impl View for Interface {
    type V = InterfaceView;

    closed spec fn view(&self) -> InterfaceView {
        InterfaceView { name: self.name@, plugged: self.plugged, up: self.up }
    }
}

impl Clone for Interface {
    fn clone(&self) -> (r: Self)
        ensures
            r@ == self@,
    {
        Interface { name: self.name.clone(), plugged: self.plugged, up: self.up }
    }
}

impl Interface {
    /// The interface `name`, with nothing seen of its link yet.
    pub fn new(name: &str) -> (r: Self)
        ensures
            r@ == (InterfaceView { name: name@, plugged: false, up: false }),
    {
        Interface { name: name.to_owned(), plugged: false, up: false }
    }

    /// The interface as a report shows it.
    pub fn from_report(report: &LinkReport) -> (r: Self)
        ensures
            r@ == report@.seen(),
    {
        let plugged = match &report.carrier {
            Some(content) => str_equal(content.as_str(), "1\n"),
            None => false,
        };
        let up = match &report.operstate {
            Some(content) => str_equal(content.as_str(), "up\n"),
            None => false,
        };
        Interface { name: report.name.clone(), plugged, up }
    }

    pub fn name(&self) -> (r: &str)
        ensures
            r@ == self@.name,
    {
        self.name.as_str()
    }

    /// Whether the interface has a name.
    pub fn valid(&self) -> (r: bool)
        ensures
            r == self@.valid(),
    {
        !self.name.as_str().is_empty()
    }

    /// Whether the link was there when the interface was last looked at.
    pub fn is_plugged_in(&self) -> (r: bool)
        ensures
            r == self@.is_plugged_in(),
    {
        self.valid() && self.plugged
    }

    /// Whether the interface was up when it was last looked at.
    pub fn is_up(&self) -> (r: bool)
        ensures
            r == self@.is_up(),
    {
        self.valid() && self.up
    }

    /// What brings the interface up.
    pub fn up(&self) -> (r: Option<Effect>)
        ensures
            r is Some <==> self@.valid(),
            r is Some ==> r->0@ == EffectView::LinkUp(self@.name),
    {
        if self.valid() {
            Some(Effect::LinkUp(self.name.clone()))
        } else {
            None
        }
    }

    /// What brings the interface down.
    pub fn down(&self) -> (r: Option<Effect>)
        ensures
            r is Some <==> self@.valid(),
            r is Some ==> r->0@ == EffectView::LinkDown(self@.name),
    {
        if self.valid() {
            Some(Effect::LinkDown(self.name.clone()))
        } else {
            None
        }
    }

    /// What scans for networks on the interface.
    pub fn scan(&self) -> (r: Option<Effect>)
        ensures
            r is Some <==> self@.valid(),
            r is Some ==> r->0@ == EffectView::Scan(self@.name),
    {
        if self.valid() {
            Some(Effect::Scan(self.name.clone()))
        } else {
            None
        }
    }

    /// What takes the interface out of service: lease, addresses and
    /// supplicant.
    pub fn disconnect(&self) -> (r: Effect)
        ensures
            r@ == EffectView::Teardown(self@.name),
    {
        Effect::Teardown(self.name.clone())
    }

    /// The address that the DHCP client's report names, where the interface
    /// is valid and the report names one.
    pub fn dhcp(&self, output: &str) -> (r: Result<String, ()>)
        ensures
            r is Ok <==> self@.valid() && regex_first_group(Parsers::Ip.spec_pattern(), output@)
                is Some,
            r is Ok ==> Some(r->Ok_0@) == regex_first_group(Parsers::Ip.spec_pattern(), output@),
    {
        if !self.valid() {
            return Err(());
        }
        match parse(Parsers::Ip, output) {
            Some(ip) => Ok(ip),
            None => Err(()),
        }
    }

    /// The state that an address on this wire stands for.
    pub fn eth_info(&self, ip: Option<String>) -> (r: ConnectionInfo)
        ensures
            r@ == InterfaceView::eth_info(option_text(ip)),
    {
        match ip {
            Some(ip) => ConnectionInfo::Ethernet(ip),
            None => ConnectionInfo::NotConnected,
        }
    }

    /// The state that the fields of a wireless link report and an address
    /// stand for.
    pub fn link_info(essid: Option<String>, signal: Option<String>, ip: Option<String>) -> (r:
        ConnectionInfo)
        ensures
            r@ == InterfaceView::wlan_info(
                option_text(essid),
                option_text(signal),
                option_text(ip),
            ),
    {
        let escaped = match essid {
            Some(e) => e,
            None => {
                return ConnectionInfo::NotConnected;
            },
        };
        let address = match ip {
            Some(a) => a,
            None => {
                return ConnectionInfo::NotConnected;
            },
        };
        let bytes = match try_parse_essid(escaped.as_str()) {
            Some(b) => b,
            None => {
                return ConnectionInfo::NotConnected;
            },
        };
        let name = match utf8_text(bytes) {
            Some(n) => n,
            None => {
                return ConnectionInfo::NotConnected;
            },
        };
        let quality: u32 = match signal {
            Some(text) => match parse_i32(text.as_str()) {
                Some(dbm) => dbm2perc(dbm),
                None => dbm2perc(100),
            },
            None => 100,
        };
        ConnectionInfo::Wifi(name, quality, true, address)
    }

    /// The state that a wireless link report and an address stand for.
    pub fn wlan_info(&self, link_output: &str, ip: Option<String>) -> (r: ConnectionInfo)
        ensures
            r@ == InterfaceView::wlan_info(
                regex_first_group(Parsers::NetworkEssid.spec_pattern(), link_output@),
                regex_first_group(Parsers::NetworkQuality.spec_pattern(), link_output@),
                option_text(ip),
            ),
    {
        let essid = parse(Parsers::NetworkEssid, link_output);
        let signal = parse(Parsers::NetworkQuality, link_output);
        Interface::link_info(essid, signal, ip)
    }
}

/// The values of a run of interfaces.
pub open spec fn interfaces_view(v: Seq<Interface>) -> Seq<InterfaceView> {
    Seq::new(v.len(), |i: int| v[i]@)
}

/// The first index at or after `from` whose interface is plugged in (or, for
/// `plugged == false`, is up), or -1.
pub open spec fn first_link(s: Seq<InterfaceView>, plugged: bool, from: int) -> int
    decreases s.len() - from,
{
    if from < 0 || from >= s.len() {
        -1
    } else if (plugged && s[from].is_plugged_in()) || (!plugged && s[from].is_up()) {
        from
    } else {
        first_link(s, plugged, from + 1)
    }
}

/// The member of a set to use: none of none, the only one of one, else one
/// that is plugged in, else one that is up, else the first.
pub open spec fn most_used(s: Seq<InterfaceView>) -> Option<InterfaceView> {
    if s.len() == 0 {
        None
    } else if s.len() == 1 {
        Some(s[0])
    } else if first_link(s, true, 0) >= 0 {
        Some(s[first_link(s, true, 0)])
    } else if first_link(s, false, 0) >= 0 {
        Some(s[first_link(s, false, 0)])
    } else {
        Some(s[0])
    }
}

/// What `first_link` returns is the first such index.
pub proof fn lemma_first_link(s: Seq<InterfaceView>, plugged: bool, from: int)
    requires
        0 <= from,
    ensures
        ({
            let at = first_link(s, plugged, from);
            &&& at == -1 || (from <= at < s.len() && if plugged {
                s[at].is_plugged_in()
            } else {
                s[at].is_up()
            })
            &&& forall|j: int|
                from <= j < s.len() && (j < at || at == -1) ==> !(if plugged {
                    (#[trigger] s[j]).is_plugged_in()
                } else {
                    s[j].is_up()
                })
        }),
    decreases s.len() - from,
{
    if from < s.len() && !((plugged && s[from].is_plugged_in()) || (!plugged && s[from].is_up())) {
        lemma_first_link(s, plugged, from + 1);
    }
}

/// The most used interface is a member; it is plugged in where any member
/// is, and up where none is plugged in and any is up.
pub proof fn lemma_most_used(s: Seq<InterfaceView>)
    ensures
        most_used(s) is None <==> s.len() == 0,
        most_used(s) is Some ==> s.contains(most_used(s)->0),
        s.len() > 1 && (exists|i: int| 0 <= i < s.len() && (#[trigger] s[i]).is_plugged_in())
            ==> most_used(s)->0.is_plugged_in(),
        s.len() > 1 && !(exists|i: int| 0 <= i < s.len() && (#[trigger] s[i]).is_plugged_in())
            && (exists|i: int| 0 <= i < s.len() && (#[trigger] s[i]).is_up()) ==> most_used(
            s,
        )->0.is_up(),
{
    lemma_first_link(s, true, 0);
    lemma_first_link(s, false, 0);
    if s.len() > 0 {
        assert(s.contains(s[0]));
        let p = first_link(s, true, 0);
        let u = first_link(s, false, 0);
        if p >= 0 {
            assert(s.contains(s[p]));
        }
        if u >= 0 {
            assert(s.contains(s[u]));
        }
    }
}

/// The first index at or after `from` whose interface is called `name`, or
/// -1.
pub open spec fn name_index(s: Seq<InterfaceView>, name: Seq<char>, from: int) -> int
    decreases s.len() - from,
{
    if from < 0 || from >= s.len() {
        -1
    } else if s[from].name == name {
        from
    } else {
        name_index(s, name, from + 1)
    }
}

/// The set after a report came in: the interface is taken in if it is new,
/// and what the report shows of its link replaces what was seen before.
pub open spec fn note_link(s: Seq<InterfaceView>, report: LinkReportView) -> Seq<InterfaceView> {
    let at = name_index(s, report.name, 0);
    if at < 0 {
        s.push(report.seen())
    } else {
        s.update(at, report.seen())
    }
}

proof fn lemma_name_index(s: Seq<InterfaceView>, name: Seq<char>, from: int)
    requires
        0 <= from,
    ensures
        ({
            let at = name_index(s, name, from);
            &&& at == -1 || (from <= at < s.len() && s[at].name == name)
            &&& forall|j: int|
                from <= j < s.len() && (j < at || at == -1) ==> (#[trigger] s[j]).name != name
        }),
    decreases s.len() - from,
{
    if from < s.len() && s[from].name != name {
        lemma_name_index(s, name, from + 1);
    }
}

/// A report never takes an interface out of its set, and taking the same
/// report in twice is the same as taking it in once.
pub proof fn lemma_note_link(s: Seq<InterfaceView>, report: LinkReportView, name: Seq<char>)
    ensures
        name_index(s, name, 0) >= 0 ==> name_index(note_link(s, report), name, 0) >= 0,
        name_index(note_link(s, report), report.name, 0) >= 0,
        note_link(note_link(s, report), report) == note_link(s, report),
{
    let after = note_link(s, report);
    lemma_name_index(s, name, 0);
    lemma_name_index(s, report.name, 0);
    lemma_name_index(after, name, 0);
    lemma_name_index(after, report.name, 0);
    let at = name_index(s, report.name, 0);
    if at < 0 {
        assert(after[s.len() as int].name == report.name);
    } else {
        assert(after[at].name == report.name);
    }
    let k = name_index(s, name, 0);
    if k >= 0 {
        assert(after[k].name == name);
    }
    let again = name_index(after, report.name, 0);
    if at >= 0 {
        if again < at {
            assert(s[again].name == report.name);
        }
        assert(again == at);
        assert(note_link(after, report) =~= after);
    } else {
        if again < s.len() {
            assert(s[again].name == report.name);
        }
        assert(again == s.len());
        assert(note_link(after, report) =~= after);
    }
}

proof fn lemma_forget_keeps(s: Seq<InterfaceView>, name: Seq<char>)
    ensures
        name_index(s, name, 0) >= 0 ==> name_index(forget_links(s), name, 0) >= 0,
{
    lemma_name_index(s, name, 0);
    lemma_name_index(forget_links(s), name, 0);
    let k = name_index(s, name, 0);
    if k >= 0 {
        assert(forget_links(s)[k].name == name);
    }
}

/// The set with nothing seen of any link.
pub open spec fn forget_links(s: Seq<InterfaceView>) -> Seq<InterfaceView> {
    Seq::new(s.len(), |i: int| s[i].unseen())
}

/// The two sets of the registry.
pub struct InterfacesView {
    pub eths: Seq<InterfaceView>,
    pub wlans: Seq<InterfaceView>,
}

impl InterfacesView {
    pub open spec fn eth(self) -> Option<InterfaceView> {
        most_used(self.eths)
    }

    pub open spec fn wlan(self) -> Option<InterfaceView> {
        most_used(self.wlans)
    }

    /// The interface that serves a setting: the most used wire for a wired
    /// setting, the most used wireless interface for any other.
    pub open spec fn from_setting(self, setting: ConnectionSettingView) -> Option<InterfaceView> {
        if setting is Ethernet {
            self.eth()
        } else {
            self.wlan()
        }
    }

    pub open spec fn eth_plugged(self) -> bool {
        self.eth() is Some && self.eth()->0.is_plugged_in()
    }

    pub open spec fn wifi_plugged(self) -> bool {
        self.wlan() is Some && self.wlan()->0.is_plugged_in()
    }

    /// The registry after the first `n` reports of a detection: every link
    /// counts as unseen until a report shows it, wired and wireless devices
    /// are taken in, others are passed over.
    pub open spec fn detect(self, reports: Seq<LinkReportView>, n: int) -> InterfacesView
        decreases n,
    {
        if n <= 0 {
            InterfacesView { eths: forget_links(self.eths), wlans: forget_links(self.wlans) }
        } else {
            let prev = self.detect(reports, n - 1);
            let report = reports[n - 1];
            match classify(report.name) {
                Some(LinkKind::Ethernet) => InterfacesView {
                    eths: note_link(prev.eths, report),
                    wlans: prev.wlans,
                },
                Some(LinkKind::Wifi) => InterfacesView {
                    eths: prev.eths,
                    wlans: note_link(prev.wlans, report),
                },
                None => prev,
            }
        }
    }

    /// What the first `n` reports of a detection ask for: every wired device
    /// that is reported is brought up.
    pub open spec fn detect_effects(reports: Seq<LinkReportView>, n: int) -> Seq<EffectView>
        decreases n,
    {
        if n <= 0 {
            Seq::empty()
        } else {
            let prev = Self::detect_effects(reports, n - 1);
            match classify(reports[n - 1].name) {
                Some(LinkKind::Ethernet) => prev.push(EffectView::LinkUp(reports[n - 1].name)),
                _ => prev,
            }
        }
    }

    /// What takes every interface out of service, the wired ones first.
    pub open spec fn teardown(self) -> Seq<EffectView> {
        Seq::new(self.eths.len(), |i: int| EffectView::Teardown(self.eths[i].name)) + Seq::new(
            self.wlans.len(),
            |i: int| EffectView::Teardown(self.wlans[i].name),
        )
    }
}

/// Detection never drops an interface: whatever stood in a set before
/// stands in it afterwards.
pub proof fn lemma_detect_never_drops(
    v: InterfacesView,
    reports: Seq<LinkReportView>,
    n: int,
    name: Seq<char>,
)
    ensures
        name_index(v.eths, name, 0) >= 0 ==> name_index(v.detect(reports, n).eths, name, 0) >= 0,
        name_index(v.wlans, name, 0) >= 0 ==> name_index(v.detect(reports, n).wlans, name, 0)
            >= 0,
    decreases n,
{
    if n <= 0 {
        lemma_forget_keeps(v.eths, name);
        lemma_forget_keeps(v.wlans, name);
    } else {
        lemma_detect_never_drops(v, reports, n - 1, name);
        let prev = v.detect(reports, n - 1);
        lemma_note_link(prev.eths, reports[n - 1], name);
        lemma_note_link(prev.wlans, reports[n - 1], name);
    }
}

/// Whether a device of this name belongs to the wireless set (or, for
/// `wifi == false`, to the wired one).
pub open spec fn kind_matches(name: Seq<char>, wifi: bool) -> bool {
    match classify(name) {
        Some(LinkKind::Ethernet) => !wifi,
        Some(LinkKind::Wifi) => wifi,
        None => false,
    }
}

impl InterfacesView {
    /// The wireless set, or the wired one.
    pub open spec fn set(self, wifi: bool) -> Seq<InterfaceView> {
        if wifi {
            self.wlans
        } else {
            self.eths
        }
    }
}

/// No name stands twice in the set, and every name is of the set's kind.
pub open spec fn set_wf(s: Seq<InterfaceView>, wifi: bool) -> bool {
    &&& forall|i: int, j: int|
        0 <= i < j < s.len() ==> (#[trigger] s[i]).name != (#[trigger] s[j]).name
    &&& forall|i: int| 0 <= i < s.len() ==> kind_matches((#[trigger] s[i]).name, wifi)
}

impl InterfacesView {
    /// Each interface stands once, in the set of its kind: the wired set
    /// holds the names that start with `e`, the wireless set those that
    /// start with `w`.
    pub open spec fn wf(self) -> bool {
        set_wf(self.eths, false) && set_wf(self.wlans, true)
    }
}

proof fn lemma_note_link_wf(s: Seq<InterfaceView>, report: LinkReportView, wifi: bool)
    requires
        set_wf(s, wifi),
        kind_matches(report.name, wifi),
    ensures
        set_wf(note_link(s, report), wifi),
{
    let after = note_link(s, report);
    lemma_name_index(s, report.name, 0);
    let at = name_index(s, report.name, 0);
    assert forall|i: int, j: int| 0 <= i < j < after.len() implies (#[trigger] after[i]).name != (
    #[trigger] after[j]).name by {
        if at < 0 {
            if j == s.len() {
                assert(s[i].name != report.name);
            } else {
                assert(s[i].name != s[j].name);
            }
        } else {
            assert(after[i].name == s[i].name);
            assert(after[j].name == s[j].name);
        }
    }
    assert forall|i: int| 0 <= i < after.len() implies kind_matches(
        (#[trigger] after[i]).name,
        wifi,
    ) by {
        if i < s.len() {
            assert(kind_matches(s[i].name, wifi));
            if at >= 0 {
                assert(after[i].name == s[i].name);
            }
        }
    }
}

proof fn lemma_forget_wf(s: Seq<InterfaceView>, wifi: bool)
    requires
        set_wf(s, wifi),
    ensures
        set_wf(forget_links(s), wifi),
{
    let after = forget_links(s);
    assert forall|i: int, j: int| 0 <= i < j < after.len() implies (#[trigger] after[i]).name != (
    #[trigger] after[j]).name by {
        assert(s[i].name != s[j].name);
    }
    assert forall|i: int| 0 <= i < after.len() implies kind_matches(
        (#[trigger] after[i]).name,
        wifi,
    ) by {
        assert(kind_matches(s[i].name, wifi));
    }
}

/// Detection keeps the registry well formed: no interface comes to stand
/// twice, and none in the set of the other kind.
pub proof fn lemma_detect_wf(v: InterfacesView, reports: Seq<LinkReportView>, n: int)
    requires
        v.wf(),
    ensures
        v.detect(reports, n).wf(),
    decreases n,
{
    if n <= 0 {
        lemma_forget_wf(v.eths, false);
        lemma_forget_wf(v.wlans, true);
    } else {
        lemma_detect_wf(v, reports, n - 1);
        let prev = v.detect(reports, n - 1);
        let report = reports[n - 1];
        if kind_matches(report.name, false) {
            lemma_note_link_wf(prev.eths, report, false);
        }
        if kind_matches(report.name, true) {
            lemma_note_link_wf(prev.wlans, report, true);
        }
    }
}

/// The index of the last of the first `k` reports that is about the device
/// `name` of the given kind, or -1.
pub open spec fn last_report(
    reports: Seq<LinkReportView>,
    k: int,
    name: Seq<char>,
    wifi: bool,
) -> int
    decreases k,
{
    if k <= 0 {
        -1
    } else if kind_matches(reports[k - 1].name, wifi) && reports[k - 1].name == name {
        k - 1
    } else {
        last_report(reports, k - 1, name, wifi)
    }
}

/// What a detection makes of a set: the interfaces of before stay in
/// their places, new ones follow; each reported device shows what its last
/// report showed, and nothing is seen of the others.
pub open spec fn detected(
    before: Seq<InterfaceView>,
    reports: Seq<LinkReportView>,
    k: int,
    wifi: bool,
    after: Seq<InterfaceView>,
) -> bool {
    &&& after.len() >= before.len()
    &&& forall|i: int| 0 <= i < before.len() ==> (#[trigger] after[i]).name == before[i].name
    &&& forall|i: int|
        0 <= i < after.len() ==> #[trigger] after[i] == if name_index(after, after[i].name, 0) == i
            && last_report(reports, k, after[i].name, wifi) >= 0 {
            reports[last_report(reports, k, after[i].name, wifi)].seen()
        } else {
            after[i].unseen()
        }
    &&& forall|i: int|
        before.len() <= i < after.len() ==> name_index(after, (#[trigger] after[i]).name, 0) == i
            && last_report(reports, k, after[i].name, wifi) >= 0
    &&& forall|j: int|
        0 <= j < k && kind_matches((#[trigger] reports[j]).name, wifi) ==> name_index(
            after,
            reports[j].name,
            0,
        ) >= 0
}

proof fn lemma_last_report(reports: Seq<LinkReportView>, k: int, name: Seq<char>, wifi: bool)
    ensures
        ({
            let at = last_report(reports, k, name, wifi);
            at == -1 || (0 <= at < k && reports[at].name == name && kind_matches(name, wifi))
        }),
    decreases k,
{
    if k > 0 {
        lemma_last_report(reports, k - 1, name, wifi);
    }
}

proof fn lemma_same_names(a: Seq<InterfaceView>, b: Seq<InterfaceView>, name: Seq<char>)
    requires
        a.len() <= b.len(),
        forall|i: int| 0 <= i < a.len() ==> (#[trigger] a[i]).name == b[i].name,
    ensures
        name_index(a, name, 0) >= 0 ==> name_index(b, name, 0) == name_index(a, name, 0),
        a.len() == b.len() ==> name_index(b, name, 0) == name_index(a, name, 0),
        name_index(a, name, 0) < 0 && name_index(b, name, 0) >= 0 ==> name_index(b, name, 0)
            >= a.len(),
{
    lemma_name_index(a, name, 0);
    lemma_name_index(b, name, 0);
    let x = name_index(a, name, 0);
    let y = name_index(b, name, 0);
    if x >= 0 {
        assert(b[x].name == name);
        if y >= 0 && y < x {
            assert(a[y].name == name);
        }
    } else if y >= 0 && y < a.len() {
        assert(a[y].name == name);
    }
}

proof fn lemma_detected(v: InterfacesView, reports: Seq<LinkReportView>, k: int, wifi: bool)
    requires
        0 <= k <= reports.len(),
    ensures
        detected(v.set(wifi), reports, k, wifi, v.detect(reports, k).set(wifi)),
    decreases k,
{
    let before = v.set(wifi);
    let after = v.detect(reports, k).set(wifi);
    if k == 0 {
        assert(after == forget_links(before));
    } else {
        lemma_detected(v, reports, k - 1, wifi);
        let prev = v.detect(reports, k - 1).set(wifi);
        let q = reports[k - 1];
        if !kind_matches(q.name, wifi) {
            assert(after == prev);
            assert forall|j: int|
                0 <= j < k && kind_matches((#[trigger] reports[j]).name, wifi) implies name_index(
                after,
                reports[j].name,
                0,
            ) >= 0 by {
                assert(j < k - 1);
            }
        } else {
            assert(after == note_link(prev, q));
            lemma_name_index(prev, q.name, 0);
            let at = name_index(prev, q.name, 0);
            assert forall|i: int| 0 <= i < after.len() implies #[trigger] after[i] == if name_index(
                after,
                after[i].name,
                0,
            ) == i && last_report(reports, k, after[i].name, wifi) >= 0 {
                reports[last_report(reports, k, after[i].name, wifi)].seen()
            } else {
                after[i].unseen()
            } by {
                let name = after[i].name;
                lemma_name_index(after, name, 0);
                lemma_name_index(prev, name, 0);
                if at >= 0 {
                    lemma_same_names(prev, after, name);
                    lemma_same_names(after, prev, name);
                    if i != at {
                        assert(after[i] == prev[i]);
                    }
                } else {
                    if i < prev.len() {
                        assert(after[i] == prev[i]);
                        assert(prev[i].name != q.name);
                        lemma_same_names(prev, after, name);
                        if name_index(prev, name, 0) < 0 {
                            assert(prev[i].name == name);
                        }
                    } else {
                        assert(name == q.name);
                        if name_index(after, name, 0) < i {
                            assert(prev[name_index(after, name, 0)].name == q.name);
                        }
                    }
                }
            }
            assert forall|i: int| before.len() <= i < after.len() implies name_index(
                after,
                (#[trigger] after[i]).name,
                0,
            ) == i && last_report(reports, k, after[i].name, wifi) >= 0 by {
                let name = after[i].name;
                lemma_name_index(after, name, 0);
                if i < prev.len() {
                    assert(after[i].name == prev[i].name);
                    lemma_same_names(prev, after, name);
                    assert(name_index(prev, name, 0) == i);
                } else {
                    assert(name == q.name);
                    if name_index(after, name, 0) < i {
                        assert(prev[name_index(after, name, 0)].name == q.name);
                    }
                }
            }
            assert forall|j: int|
                0 <= j < k && kind_matches((#[trigger] reports[j]).name, wifi) implies name_index(
                after,
                reports[j].name,
                0,
            ) >= 0 by {
                lemma_note_link(prev, q, reports[j].name);
            }
            assert forall|i: int| 0 <= i < before.len() implies (#[trigger] after[i]).name
                == before[i].name by {
                assert(prev[i].name == before[i].name);
            }
        }
    }
}

/// Detection is idempotent: detecting twice from the same reports leaves
/// the registry as detecting once does.
pub proof fn lemma_detect_idempotent(v: InterfacesView, reports: Seq<LinkReportView>)
    ensures
        v.detect(reports, reports.len() as int).detect(reports, reports.len() as int) == v.detect(
            reports,
            reports.len() as int,
        ),
{
    let n = reports.len() as int;
    let once = v.detect(reports, n);
    let twice = once.detect(reports, n);
    lemma_detect_twice(v, reports, false);
    lemma_detect_twice(v, reports, true);
    assert(twice.eths =~= once.eths);
    assert(twice.wlans =~= once.wlans);
}

proof fn lemma_detect_twice(v: InterfacesView, reports: Seq<LinkReportView>, wifi: bool)
    ensures
        v.detect(reports, reports.len() as int).detect(reports, reports.len() as int).set(wifi)
            =~= v.detect(reports, reports.len() as int).set(wifi),
{
    let n = reports.len() as int;
    let once = v.detect(reports, n);
    let t = once.set(wifi);
    let u = once.detect(reports, n).set(wifi);
    lemma_detected(v, reports, n, wifi);
    lemma_detected(once, reports, n, wifi);
    if u.len() > t.len() {
        let i = t.len() as int;
        let name = u[i].name;
        assert(name_index(u, name, 0) == i);
        let j = last_report(reports, n, name, wifi);
        assert(j >= 0);
        lemma_last_report(reports, n, name, wifi);
        assert(kind_matches(reports[j].name, wifi));
        assert(name_index(t, reports[j].name, 0) >= 0);
        lemma_same_names(t, u, name);
        assert(name_index(u, name, 0) == name_index(t, name, 0));
        lemma_name_index(t, name, 0);
        assert(false);
    }
    assert forall|i: int| 0 <= i < t.len() implies t[i] == u[i] by {
        let name = t[i].name;
        assert(u[i].name == name);
        lemma_same_names(t, u, name);
        lemma_same_names(u, t, name);
    }
}

/// The values of a run of reports.
pub open spec fn reports_view(v: Seq<LinkReport>) -> Seq<LinkReportView> {
    Seq::new(v.len(), |i: int| v[i]@)
}

/// The registry of interfaces, wired and wireless.
#[derive(Debug)]
pub struct Interfaces {
    eth_ifaces: Vec<Interface>,
    wlan_ifaces: Vec<Interface>,
}

impl View for Interfaces {
    type V = InterfacesView;

    closed spec fn view(&self) -> InterfacesView {
        InterfacesView {
            eths: interfaces_view(self.eth_ifaces@),
            wlans: interfaces_view(self.wlan_ifaces@),
        }
    }
}

impl Clone for Interfaces {
    fn clone(&self) -> (r: Self)
        ensures
            r@ == self@,
            r.wf() == self.wf(),
    {
        Interfaces {
            eth_ifaces: clone_interfaces(&self.eth_ifaces),
            wlan_ifaces: clone_interfaces(&self.wlan_ifaces),
        }
    }
}

fn clone_interfaces(ifaces: &Vec<Interface>) -> (r: Vec<Interface>)
    ensures
        interfaces_view(r@) == interfaces_view(ifaces@),
{
    let mut out: Vec<Interface> = Vec::new();
    let mut i: usize = 0;
    while i < ifaces.len()
        invariant
            i <= ifaces@.len(),
            out@.len() == i,
            forall|k: int| 0 <= k < i ==> out@[k]@ == ifaces@[k]@,
        decreases ifaces@.len() - i,
    {
        out.push(ifaces[i].clone());
        i += 1;
    }
    assert(interfaces_view(out@) =~= interfaces_view(ifaces@));
    out
}

fn forget(ifaces: &mut Vec<Interface>)
    ensures
        interfaces_view(final(ifaces)@) == forget_links(interfaces_view(old(ifaces)@)),
{
    let mut i: usize = 0;
    while i < ifaces.len()
        invariant
            i <= ifaces@.len(),
            ifaces@.len() == old(ifaces)@.len(),
            forall|k: int| 0 <= k < i ==> ifaces@[k]@ == old(ifaces)@[k]@.unseen(),
            forall|k: int| i <= k < ifaces@.len() ==> ifaces@[k]@ == old(ifaces)@[k]@,
        decreases ifaces@.len() - i,
    {
        let unseen = Interface::new(ifaces[i].name());
        ifaces.set(i, unseen);
        i += 1;
    }
    assert(interfaces_view(ifaces@) =~= forget_links(interfaces_view(old(ifaces)@)));
}

fn note(ifaces: &mut Vec<Interface>, report: &LinkReport)
    ensures
        interfaces_view(final(ifaces)@) == note_link(interfaces_view(old(ifaces)@), report@),
{
    let ghost before = interfaces_view(ifaces@);
    let seen = Interface::from_report(report);
    let mut i: usize = 0;
    while i < ifaces.len()
        invariant
            i <= ifaces@.len(),
            ifaces@ == old(ifaces)@,
            before == interfaces_view(ifaces@),
            seen@ == report@.seen(),
            name_index(before, report@.name, 0) == name_index(before, report@.name, i as int),
        decreases ifaces@.len() - i,
    {
        if str_equal(ifaces[i].name(), report.name.as_str()) {
            ifaces.set(i, seen);
            assert(interfaces_view(ifaces@) =~= before.update(i as int, report@.seen()));
            return ;
        }
        i += 1;
    }
    ifaces.push(seen);
    assert(interfaces_view(ifaces@) =~= before.push(report@.seen()));
}

fn first_char(name: &str) -> (r: Option<char>)
    ensures
        match r {
            Some(c) => name@.len() > 0 && c == name@[0],
            None => name@.len() == 0,
        },
{
    let chars = chars_of(name);
    if chars.len() > 0 {
        Some(chars[0])
    } else {
        None
    }
}

impl Interfaces {
    /// Each interface stands once, in the set of its kind. Every registry
    /// that this library hands out is well formed.
    pub open spec fn wf(&self) -> bool {
        self@.wf()
    }

    /// The registry with no interface in it.
    pub fn new() -> (r: Self)
        ensures
            r@.eths.len() == 0,
            r@.wlans.len() == 0,
            r.wf(),
    {
        Interfaces { eth_ifaces: Vec::new(), wlan_ifaces: Vec::new() }
    }

    /// Takes in what the kernel lists: new wired and wireless devices join
    /// their sets, known ones stay, and what the reports show of each link
    /// replaces what was seen before. Every wired device that is reported is
    /// brought up.
    pub fn detect(&mut self, reports: &Vec<LinkReport>) -> (effects: Vec<Effect>)
        requires
            old(self).wf(),
        ensures
            final(self).wf(),
            final(self)@ == old(self)@.detect(reports_view(reports@), reports@.len() as int),
            effects_view(effects@) == InterfacesView::detect_effects(
                reports_view(reports@),
                reports@.len() as int,
            ),
    {
        let ghost start = self@;
        proof {
            lemma_detect_wf(start, reports_view(reports@), reports@.len() as int);
        }
        let ghost all = reports_view(reports@);
        let mut effects: Vec<Effect> = Vec::new();
        forget(&mut self.eth_ifaces);
        forget(&mut self.wlan_ifaces);
        assert(effects_view(effects@) =~= Seq::empty());
        let mut i: usize = 0;
        while i < reports.len()
            invariant
                i <= reports@.len(),
                all == reports_view(reports@),
                self@ == start.detect(all, i as int),
                effects_view(effects@) == InterfacesView::detect_effects(all, i as int),
            decreases reports@.len() - i,
        {
            let report = &reports[i];
            assert(all[i as int] == report@);
            match first_char(report.name.as_str()) {
                Some('e') => {
                    note(&mut self.eth_ifaces, report);
                    push_effect(&mut effects, Effect::LinkUp(report.name.clone()));
                },
                Some('w') => {
                    note(&mut self.wlan_ifaces, report);
                },
                _ => {},
            }
            i += 1;
        }
        effects
    }

    /// What takes every interface out of service, the wired ones first.
    pub fn disconnect(&self) -> (effects: Vec<Effect>)
        ensures
            effects_view(effects@) == self@.teardown(),
    {
        let mut effects: Vec<Effect> = Vec::new();
        let mut i: usize = 0;
        while i < self.eth_ifaces.len()
            invariant
                i <= self.eth_ifaces@.len(),
                effects@.len() == i,
                forall|k: int|
                    0 <= k < i ==> effects@[k]@ == EffectView::Teardown(self.eth_ifaces@[k]@.name),
            decreases self.eth_ifaces@.len() - i,
        {
            effects.push(self.eth_ifaces[i].disconnect());
            i += 1;
        }
        let n: usize = self.eth_ifaces.len();
        let mut j: usize = 0;
        while j < self.wlan_ifaces.len()
            invariant
                j <= self.wlan_ifaces@.len(),
                n == self.eth_ifaces@.len(),
                effects@.len() == n + j,
                forall|k: int|
                    0 <= k < n ==> effects@[k]@ == EffectView::Teardown(self.eth_ifaces@[k]@.name),
                forall|k: int|
                    0 <= k < j ==> effects@[n + k]@ == EffectView::Teardown(
                        self.wlan_ifaces@[k]@.name,
                    ),
            decreases self.wlan_ifaces@.len() - j,
        {
            effects.push(self.wlan_ifaces[j].disconnect());
            j += 1;
        }
        assert(effects_view(effects@) =~= self@.teardown());
        effects
    }

    /// The wired interface to use.
    pub fn eth(&self) -> (r: Option<Interface>)
        ensures
            option_interface(r) == self@.eth(),
    {
        Self::most_used_iface(&self.eth_ifaces)
    }

    /// The wireless interface to use.
    pub fn wlan(&self) -> (r: Option<Interface>)
        ensures
            option_interface(r) == self@.wlan(),
    {
        Self::most_used_iface(&self.wlan_ifaces)
    }

    /// The interface that serves a setting.
    pub fn from_setting(&self, setting: &ConnectionSetting) -> (r: Option<Interface>)
        ensures
            option_interface(r) == self@.from_setting(setting@),
    {
        match setting {
            ConnectionSetting::Ethernet => self.eth(),
            _ => self.wlan(),
        }
    }

    /// The member of a set to use: none of none, the only one of one, else
    /// one that is plugged in, else one that is up, else the first.
    pub fn most_used_iface(ifaces: &Vec<Interface>) -> (r: Option<Interface>)
        ensures
            option_interface(r) == most_used(interfaces_view(ifaces@)),
    {
        let ghost all = interfaces_view(ifaces@);
        if ifaces.len() == 0 {
            return None;
        }
        if ifaces.len() == 1 {
            return Some(ifaces[0].clone());
        }
        let mut i: usize = 0;
        while i < ifaces.len()
            invariant
                i <= ifaces@.len(),
                all == interfaces_view(ifaces@),
                first_link(all, true, 0) == first_link(all, true, i as int),
            decreases ifaces@.len() - i,
        {
            if ifaces[i].is_plugged_in() {
                return Some(ifaces[i].clone());
            }
            i += 1;
        }
        let mut j: usize = 0;
        while j < ifaces.len()
            invariant
                j <= ifaces@.len(),
                all == interfaces_view(ifaces@),
                first_link(all, true, 0) == -1,
                first_link(all, false, 0) == first_link(all, false, j as int),
            decreases ifaces@.len() - j,
        {
            if ifaces[j].is_up() {
                return Some(ifaces[j].clone());
            }
            j += 1;
        }
        Some(ifaces[0].clone())
    }
}

/// The value of an optional interface.
pub open spec fn option_interface(i: Option<Interface>) -> Option<InterfaceView> {
    match i {
        Some(i) => Some(i@),
        None => None,
    }
}

} // verus!
