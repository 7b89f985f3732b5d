//! Scan records and the ordered list that is published to subscribers.

use vstd::prelude::*;
use crate::text::{
    lemma_lex_asymmetric, lemma_lex_total, lemma_lex_transitive, lex_less, str_equal, str_less,
};

verus! {

/// One entry of the network list: the wire, or a wireless network with its
/// essid, quality and whether it is encrypted.
#[derive(Debug)]
pub enum NetworkInfo {
    Ethernet,
    Wifi(String, u32, bool),
}

/// The value of a `NetworkInfo`.
pub enum NetworkInfoView {
    Ethernet,
    Wifi(Seq<char>, u32, bool),
}

impl View for NetworkInfo {
    type V = NetworkInfoView;

    open spec fn view(&self) -> NetworkInfoView {
        match self {
            NetworkInfo::Ethernet => NetworkInfoView::Ethernet,
            NetworkInfo::Wifi(essid, quality, enc) => NetworkInfoView::Wifi(essid@, *quality, *enc),
        }
    }
}

impl NetworkInfoView {
    /// The order of the list: the wire first, then wireless networks by
    /// falling quality, equal qualities by rising essid.
    pub open spec fn sorts_before(self, other: NetworkInfoView) -> bool {
        match (self, other) {
            (NetworkInfoView::Ethernet, NetworkInfoView::Wifi(..)) => true,
            (NetworkInfoView::Wifi(e1, q1, _), NetworkInfoView::Wifi(e2, q2, _)) => q1 > q2 || (q1
                == q2 && lex_less(e1, e2)),
            _ => false,
        }
    }

    /// Equality for merging: two wireless records of one essid. The wire
    /// equals nothing, not even itself.
    pub open spec fn same_network(self, other: NetworkInfoView) -> bool {
        match (self, other) {
            (NetworkInfoView::Wifi(e1, _, _), NetworkInfoView::Wifi(e2, _, _)) => e1 == e2,
            _ => false,
        }
    }

    /// Two records that cannot both stand in one list.
    pub open spec fn same_key(self, other: NetworkInfoView) -> bool {
        match (self, other) {
            (NetworkInfoView::Ethernet, NetworkInfoView::Ethernet) => true,
            (NetworkInfoView::Wifi(e1, _, _), NetworkInfoView::Wifi(e2, _, _)) => e1 == e2,
            _ => false,
        }
    }

    pub open spec fn is_wifi_named(self, essid: Seq<char>) -> bool {
        match self {
            NetworkInfoView::Wifi(e, _, _) => e == essid,
            _ => false,
        }
    }

    /// The wire form: tag, name, encrypted, quality.
    pub open spec fn dbus_tuple(self) -> (u32, Seq<char>, bool, u32) {
        match self {
            NetworkInfoView::Ethernet => (1, "Ethernet connection"@, false, 100),
            NetworkInfoView::Wifi(essid, quality, enc) => (2, essid, enc, quality),
        }
    }
}

/// Of two records with different keys one sorts before the other.
pub proof fn lemma_order_total(a: NetworkInfoView, b: NetworkInfoView)
    ensures
        a.sorts_before(b) || b.sorts_before(a) || a.same_key(b),
{
    match (a, b) {
        (NetworkInfoView::Wifi(e1, q1, _), NetworkInfoView::Wifi(e2, q2, _)) => {
            lemma_lex_total(e1, e2);
        },
        _ => {},
    }
}

/// The order is strict: no two records sort before each other.
pub proof fn lemma_order_strict(a: NetworkInfoView, b: NetworkInfoView)
    requires
        a.sorts_before(b),
    ensures
        !b.sorts_before(a),
{
    match (a, b) {
        (NetworkInfoView::Wifi(e1, q1, _), NetworkInfoView::Wifi(e2, q2, _)) => {
            if q1 == q2 {
                lemma_lex_asymmetric(e1, e2);
            }
        },
        _ => {},
    }
}

/// The order is transitive.
pub proof fn lemma_order_transitive(a: NetworkInfoView, b: NetworkInfoView, c: NetworkInfoView)
    requires
        a.sorts_before(b),
        b.sorts_before(c),
    ensures
        a.sorts_before(c),
{
    match (a, b, c) {
        (
            NetworkInfoView::Wifi(e1, q1, _),
            NetworkInfoView::Wifi(e2, q2, _),
            NetworkInfoView::Wifi(e3, q3, _),
        ) => {
            if q1 == q2 && q2 == q3 {
                lemma_lex_transitive(e1, e2, e3);
            }
        },
        _ => {},
    }
}

impl Clone for NetworkInfo {
    fn clone(&self) -> (r: Self)
        ensures
            r@ == self@,
    {
        match self {
            NetworkInfo::Ethernet => NetworkInfo::Ethernet,
            NetworkInfo::Wifi(essid, quality, enc) => NetworkInfo::Wifi(
                essid.clone(),
                *quality,
                *enc,
            ),
        }
    }
}

impl NetworkInfo {
    pub fn is_eth(&self) -> (r: bool)
        ensures
            r == (self@ is Ethernet),
    {
        match self {
            NetworkInfo::Ethernet => true,
            _ => false,
        }
    }

    /// Whether this is the wireless network `essid`.
    pub fn is_wifi_named(&self, essid: &str) -> (r: bool)
        ensures
            r == self@.is_wifi_named(essid@),
    {
        match self {
            NetworkInfo::Wifi(e, _, _) => str_equal(e.as_str(), essid),
            _ => false,
        }
    }

    /// Whether `self` stands before `other` in the list.
    pub fn sorts_before(&self, other: &NetworkInfo) -> (r: bool)
        ensures
            r == self@.sorts_before(other@),
    {
        match self {
            NetworkInfo::Ethernet => !other.is_eth(),
            NetworkInfo::Wifi(e1, q1, _) => match other {
                NetworkInfo::Ethernet => false,
                NetworkInfo::Wifi(e2, q2, _) => *q1 > *q2 || (*q1 == *q2 && str_less(
                    e1.as_str(),
                    e2.as_str(),
                )),
            },
        }
    }

    /// Equality for merging: two wireless records of one essid.
    pub fn same_network(&self, other: &NetworkInfo) -> (r: bool)
        ensures
            r == self@.same_network(other@),
    {
        match self {
            NetworkInfo::Ethernet => false,
            NetworkInfo::Wifi(e1, _, _) => other.is_wifi_named(e1.as_str()),
        }
    }

    /// The wire form: tag, name, encrypted, quality.
    pub fn to_dbus_tuple(&self) -> (r: (u32, String, bool, u32))
        ensures
            (r.0, r.1@, r.2, r.3) == self@.dbus_tuple(),
    {
        match self {
            NetworkInfo::Ethernet => (1, "Ethernet connection".to_owned(), false, 100),
            NetworkInfo::Wifi(essid, quality, enc) => (2, essid.clone(), *enc, *quality),
        }
    }
}

/// The values of a run of records.
pub open spec fn records_view(v: Seq<NetworkInfo>) -> Seq<NetworkInfoView> {
    Seq::new(v.len(), |i: int| v[i]@)
}

/// The first index at or after `from` that holds the wireless network
/// `essid`, or -1.
pub open spec fn index_of_essid(l: Seq<NetworkInfoView>, essid: Seq<char>, from: int) -> int
    decreases l.len() - from,
{
    if from < 0 || from >= l.len() {
        -1
    } else if l[from].is_wifi_named(essid) {
        from
    } else {
        index_of_essid(l, essid, from + 1)
    }
}

/// What `index_of_essid` returns is the first such index.
pub proof fn lemma_index_of_essid(l: Seq<NetworkInfoView>, essid: Seq<char>, from: int)
    requires
        0 <= from,
    ensures
        ({
            let at = index_of_essid(l, essid, from);
            &&& at == -1 || (from <= at < l.len() && l[at].is_wifi_named(essid))
            &&& forall|j: int|
                from <= j < l.len() && (j < at || at == -1) ==> !(#[trigger] l[j]).is_wifi_named(
                    essid,
                )
        }),
    decreases l.len() - from,
{
    if from < l.len() && !l[from].is_wifi_named(essid) {
        lemma_index_of_essid(l, essid, from + 1);
    }
}

/// The list after one more record came in: a wireless record whose essid is
/// already there replaces quality and encryption of the stored one where its
/// own quality is strictly higher, and is dropped otherwise; any other record
/// goes to the end.
pub open spec fn merge_record(l: Seq<NetworkInfoView>, new: NetworkInfoView) -> Seq<
    NetworkInfoView,
> {
    match new {
        NetworkInfoView::Ethernet => l.push(new),
        NetworkInfoView::Wifi(essid, quality, enc) => {
            let at = index_of_essid(l, essid, 0);
            if at < 0 {
                l.push(new)
            } else if let NetworkInfoView::Wifi(_, stored, _) = l[at] {
                if quality > stored {
                    l.update(at, new)
                } else {
                    l
                }
            } else {
                l
            }
        },
    }
}

/// No two entries share a key: at most one wire, and each essid once.
pub open spec fn distinct_keys(l: Seq<NetworkInfoView>) -> bool {
    forall|i: int, j: int| 0 <= i < j < l.len() ==> !(#[trigger] l[i]).same_key(#[trigger] l[j])
}

/// Each entry sorts strictly before every later one.
pub open spec fn strictly_sorted(l: Seq<NetworkInfoView>) -> bool {
    forall|i: int, j: int|
        0 <= i < j < l.len() ==> (#[trigger] l[i]).sorts_before(#[trigger] l[j])
}

/// Merging a wireless record keeps the keys distinct.
pub proof fn lemma_merge_keeps_distinct(l: Seq<NetworkInfoView>, new: NetworkInfoView)
    requires
        distinct_keys(l),
        new is Wifi,
    ensures
        distinct_keys(merge_record(l, new)),
{
    let essid = new->Wifi_0;
    lemma_index_of_essid(l, essid, 0);
    let at = index_of_essid(l, essid, 0);
    let m = merge_record(l, new);
    if at < 0 {
        assert forall|i: int, j: int| 0 <= i < j < m.len() implies !(#[trigger] m[i]).same_key(
            #[trigger] m[j],
        ) by {
            if j == l.len() {
                assert(!l[i].is_wifi_named(essid));
            } else {
                assert(!l[i].same_key(l[j]));
            }
        }
    } else {
        assert forall|i: int, j: int| 0 <= i < j < m.len() implies !(#[trigger] m[i]).same_key(
            #[trigger] m[j],
        ) by {
            assert(!l[i].same_key(l[j]));
        }
    }
}

/// After a merge the essid of the new record is stored once, with the higher
/// of the two qualities and the encryption flag that came with it; on equal
/// qualities the stored record stays.
pub proof fn lemma_merge_keeps_best(
    l: Seq<NetworkInfoView>,
    at: int,
    essid: Seq<char>,
    quality: u32,
    enc: bool,
)
    requires
        distinct_keys(l),
        0 <= at < l.len(),
        l[at].is_wifi_named(essid),
    ensures
        ({
            let m = merge_record(l, NetworkInfoView::Wifi(essid, quality, enc));
            let stored = l[at]->Wifi_1;
            &&& m.len() == l.len()
            &&& forall|i: int| 0 <= i < l.len() && i != at ==> m[i] == l[i]
            &&& m[at] == if quality > stored {
                NetworkInfoView::Wifi(essid, quality, enc)
            } else {
                l[at]
            }
        }),
{
    lemma_index_of_essid(l, essid, 0);
    let first = index_of_essid(l, essid, 0);
    if first != at {
        if first < at {
            assert(l[first].same_key(l[at]));
        }
    }
}

/// The index at which `x` goes into the sorted list `l`: behind the entries
/// that sort before it.
pub open spec fn insertion_point(l: Seq<NetworkInfoView>, x: NetworkInfoView, from: int) -> int
    decreases l.len() - from,
{
    if from < 0 || from >= l.len() {
        l.len() as int
    } else if l[from].sorts_before(x) {
        insertion_point(l, x, from + 1)
    } else {
        from
    }
}

pub open spec fn insert_sorted(l: Seq<NetworkInfoView>, x: NetworkInfoView) -> Seq<
    NetworkInfoView,
> {
    l.insert(insertion_point(l, x, 0), x)
}

/// The records of `l` in list order, by insertion from the left.
pub open spec fn sort_records(l: Seq<NetworkInfoView>) -> Seq<NetworkInfoView>
    decreases l.len(),
{
    if l.len() == 0 {
        Seq::empty()
    } else {
        insert_sorted(sort_records(l.drop_last()), l.last())
    }
}

proof fn lemma_insertion_point(l: Seq<NetworkInfoView>, x: NetworkInfoView, from: int)
    requires
        0 <= from <= l.len(),
    ensures
        ({
            let at = insertion_point(l, x, from);
            &&& from <= at <= l.len()
            &&& forall|i: int| from <= i < at ==> (#[trigger] l[i]).sorts_before(x)
            &&& at < l.len() ==> !l[at].sorts_before(x)
        }),
    decreases l.len() - from,
{
    if from < l.len() && l[from].sorts_before(x) {
        lemma_insertion_point(l, x, from + 1);
    }
}

/// A key stands in the list.
pub open spec fn has_key(l: Seq<NetworkInfoView>, x: NetworkInfoView) -> bool {
    exists|i: int| 0 <= i < l.len() && (#[trigger] l[i]).same_key(x)
}

proof fn lemma_insert_sorted(l: Seq<NetworkInfoView>, x: NetworkInfoView)
    requires
        strictly_sorted(l),
        !has_key(l, x),
    ensures
        strictly_sorted(insert_sorted(l, x)),
        distinct_keys(l) ==> distinct_keys(insert_sorted(l, x)),
        insert_sorted(l, x).len() == l.len() + 1,
        forall|y: NetworkInfoView|
            insert_sorted(l, x).contains(y) <==> (l.contains(y) || y == x),
{
    lemma_insertion_point(l, x, 0);
    let at = insertion_point(l, x, 0);
    let m = insert_sorted(l, x);
    assert forall|i: int, j: int| 0 <= i < j < m.len() implies (#[trigger] m[i]).sorts_before(
        #[trigger] m[j],
    ) by {
        if j < at {
            assert(l[i].sorts_before(l[j]));
        } else if j == at {
            assert(l[i].sorts_before(x));
        } else if i == at {
            // x against a later entry
            assert(!l[at].same_key(x));
            lemma_order_total(x, l[at]);
            if j - 1 > at {
                assert(l[at].sorts_before(l[j - 1]));
                lemma_order_transitive(x, l[at], l[j - 1]);
            }
        } else if i < at {
            assert(l[i].sorts_before(l[j - 1]));
        } else {
            assert(l[i - 1].sorts_before(l[j - 1]));
        }
    }
    if distinct_keys(l) {
        assert forall|i: int, j: int| 0 <= i < j < m.len() implies !(#[trigger] m[i]).same_key(
            #[trigger] m[j],
        ) by {
            let oi = if i < at { i } else { i - 1 };
            let oj = if j < at { j } else { j - 1 };
            if i == at {
                assert(!l[oj].same_key(x));
            } else if j == at {
                assert(!l[oi].same_key(x));
            } else {
                assert(!l[oi].same_key(l[oj]));
            }
        }
    }
    assert forall|y: NetworkInfoView| m.contains(y) <==> (l.contains(y) || y == x) by {
        if m.contains(y) {
            let k = choose|k: int| 0 <= k < m.len() && m[k] == y;
            if k < at {
                assert(l[k] == y);
            } else if k > at {
                assert(l[k - 1] == y);
            }
        }
        if l.contains(y) {
            let k = choose|k: int| 0 <= k < l.len() && l[k] == y;
            if k < at {
                assert(m[k] == y);
            } else {
                assert(m[k + 1] == y);
            }
        }
        if y == x {
            assert(m[at] == y);
        }
    }
}

/// Sorting records with distinct keys gives a strictly ordered list of the
/// same records.
pub proof fn lemma_sort_records(l: Seq<NetworkInfoView>)
    requires
        distinct_keys(l),
    ensures
        strictly_sorted(sort_records(l)),
        distinct_keys(sort_records(l)),
        sort_records(l).len() == l.len(),
        forall|y: NetworkInfoView| sort_records(l).contains(y) <==> l.contains(y),
    decreases l.len(),
{
    if l.len() > 0 {
        let front = l.drop_last();
        let x = l.last();
        assert forall|i: int, j: int| 0 <= i < j < front.len() implies !(
        #[trigger] front[i]).same_key(#[trigger] front[j]) by {
            assert(!l[i].same_key(l[j]));
        }
        lemma_sort_records(front);
        let s = sort_records(front);
        if has_key(s, x) {
            let i = choose|i: int| 0 <= i < s.len() && (#[trigger] s[i]).same_key(x);
            assert(s.contains(s[i]));
            assert(front.contains(s[i]));
            let k = choose|k: int| 0 <= k < front.len() && front[k] == s[i];
            assert(l[k].same_key(l[l.len() - 1]));
            assert(false);
        }
        lemma_insert_sorted(s, x);
        assert forall|y: NetworkInfoView| sort_records(l).contains(y) <==> l.contains(y) by {
            if l.contains(y) {
                let k = choose|k: int| 0 <= k < l.len() && l[k] == y;
                if k < front.len() {
                    assert(front[k] == y);
                    assert(front.contains(y));
                }
            }
            if front.contains(y) {
                let k = choose|k: int| 0 <= k < front.len() && front[k] == y;
                assert(l[k] == y);
            }
            if y == x {
                assert(l[l.len() - 1] == y);
            }
        }
    }
}

/// In a strictly ordered list the wire can only stand first, and the
/// wireless entries follow by falling quality, equal qualities by rising
/// essid.
pub proof fn lemma_sorted_shape(l: Seq<NetworkInfoView>)
    requires
        strictly_sorted(l),
    ensures
        forall|i: int| 0 <= i < l.len() && (#[trigger] l[i]) is Ethernet ==> i == 0,
        forall|i: int, j: int|
            0 <= i < j < l.len() && (#[trigger] l[i]) is Wifi ==> (#[trigger] l[j]) is Wifi && (
            l[i]->Wifi_1 > l[j]->Wifi_1 || (l[i]->Wifi_1 == l[j]->Wifi_1 && lex_less(
                l[i]->Wifi_0,
                l[j]->Wifi_0,
            ))),
{
    assert forall|i: int| 0 <= i < l.len() && (#[trigger] l[i]) is Ethernet implies i == 0 by {
        if i > 0 {
            assert(l[0].sorts_before(l[i]));
        }
    }
    assert forall|i: int, j: int| 0 <= i < j < l.len() && (#[trigger] l[i]) is Wifi implies (
    #[trigger] l[j]) is Wifi && (l[i]->Wifi_1 > l[j]->Wifi_1 || (l[i]->Wifi_1 == l[j]->Wifi_1
        && lex_less(l[i]->Wifi_0, l[j]->Wifi_0))) by {
        assert(l[i].sorts_before(l[j]));
    }
}

} // verus!
