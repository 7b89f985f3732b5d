//! The published network list: merging scan records and keeping them in
//! order.

use vstd::prelude::*;
use crate::network_info::{
    distinct_keys, index_of_essid, insertion_point, lemma_index_of_essid,
    lemma_merge_keeps_distinct, lemma_sort_records, merge_record, records_view, sort_records,
    strictly_sorted, NetworkInfo, NetworkInfoView,
};

verus! {

/// Takes one more record into `networks`: a wireless record whose essid is
/// already there raises quality and encryption of the stored one where its
/// own quality is strictly higher and is dropped otherwise; any other record
/// goes to the end.
pub fn add_wifi_network(networks: &mut Vec<NetworkInfo>, new_network: NetworkInfo)
    ensures
        records_view(final(networks)@) == merge_record(
            records_view(old(networks)@),
            new_network@,
        ),
{
    let ghost before = records_view(networks@);
    match &new_network {
        NetworkInfo::Wifi(new_essid, new_q, new_enc) => {
            let mut i: usize = 0;
            while i < networks.len()
                invariant
                    i <= networks@.len(),
                    networks@ == old(networks)@,
                    before == records_view(networks@),
                    new_network@ == NetworkInfoView::Wifi(new_essid@, *new_q, *new_enc),
                    index_of_essid(before, new_essid@, 0) == index_of_essid(
                        before,
                        new_essid@,
                        i as int,
                    ),
                decreases networks@.len() - i,
            {
                if networks[i].is_wifi_named(new_essid.as_str()) {
                    let stored: u32 = match &networks[i] {
                        NetworkInfo::Wifi(_, q, _) => *q,
                        NetworkInfo::Ethernet => 0,
                    };
                    if *new_q > stored {
                        let replacement = NetworkInfo::Wifi(new_essid.clone(), *new_q, *new_enc);
                        networks.set(i, replacement);
                        assert(records_view(networks@) =~= before.update(i as int, new_network@));
                    }
                    return ;
                }
                i += 1;
            }
        },
        NetworkInfo::Ethernet => {},
    }
    networks.push(new_network);
    assert(records_view(networks@) =~= before.push(new_network@));
}

/// Puts records into list order.
pub fn sort_networks(records: &Vec<NetworkInfo>) -> (out: Vec<NetworkInfo>)
    ensures
        records_view(out@) == sort_records(records_view(records@)),
{
    let ghost all = records_view(records@);
    let mut out: Vec<NetworkInfo> = Vec::new();
    let mut i: usize = 0;
    assert(all.take(0) =~= Seq::empty());
    assert(records_view(out@) =~= Seq::empty());
    while i < records.len()
        invariant
            i <= records@.len(),
            all == records_view(records@),
            records_view(out@) == sort_records(all.take(i as int)),
        decreases records@.len() - i,
    {
        let x = records[i].clone();
        let ghost sorted = records_view(out@);
        let mut pos: usize = 0;
        while pos < out.len() && out[pos].sorts_before(&x)
            invariant
                pos <= out@.len(),
                sorted == records_view(out@),
                insertion_point(sorted, x@, 0) == insertion_point(sorted, x@, pos as int),
            decreases out@.len() - pos,
        {
            pos += 1;
        }
        out.insert(pos, x);
        proof {
            assert(records_view(out@) =~= sorted.insert(pos as int, x@));
            assert(all.take(i + 1).drop_last() =~= all.take(i as int));
            assert(all.take(i + 1).last() == x@);
        }
        i += 1;
    }
    assert(all.take(records@.len() as int) =~= all);
    out
}

/// The list that subscribers see: at most one wire entry, which then stands
/// first, and each essid once, by falling quality.
#[derive(Debug)]
pub struct NetworkList {
    items: Vec<NetworkInfo>,
}

impl View for NetworkList {
    type V = Seq<NetworkInfoView>;

    closed spec fn view(&self) -> Seq<NetworkInfoView> {
        records_view(self.items@)
    }
}

/// A list as the library keeps it: strictly ordered, no key twice.
pub open spec fn list_wf(l: Seq<NetworkInfoView>) -> bool {
    strictly_sorted(l) && distinct_keys(l)
}

/// The records as a list: later copies of the wire are left out, wireless
/// records are merged, and the result is put in order.
pub open spec fn collect_records(records: Seq<NetworkInfoView>) -> Seq<NetworkInfoView> {
    sort_records(gather_records(records))
}

/// The records merged in the order in which they came.
pub open spec fn gather_records(records: Seq<NetworkInfoView>) -> Seq<NetworkInfoView>
    decreases records.len(),
{
    if records.len() == 0 {
        Seq::empty()
    } else {
        let front = gather_records(records.drop_last());
        let x = records.last();
        if x is Ethernet && has_wire(front) {
            front
        } else {
            merge_record(front, x)
        }
    }
}

/// The wire stands in the list.
pub open spec fn has_wire(l: Seq<NetworkInfoView>) -> bool {
    exists|i: int| 0 <= i < l.len() && (#[trigger] l[i]) is Ethernet
}

proof fn lemma_push_wire_distinct(l: Seq<NetworkInfoView>)
    requires
        distinct_keys(l),
        !has_wire(l),
    ensures
        distinct_keys(l.push(NetworkInfoView::Ethernet)),
{
    let m = l.push(NetworkInfoView::Ethernet);
    assert forall|i: int, j: int| 0 <= i < j < m.len() implies !(#[trigger] m[i]).same_key(
        #[trigger] m[j],
    ) by {
        if j == l.len() {
            assert(!(l[i] is Ethernet));
        } else {
            assert(!l[i].same_key(l[j]));
        }
    }
}

/// Gathered records never hold a key twice.
pub proof fn lemma_gather_distinct(records: Seq<NetworkInfoView>)
    ensures
        distinct_keys(gather_records(records)),
    decreases records.len(),
{
    if records.len() > 0 {
        lemma_gather_distinct(records.drop_last());
        let front = gather_records(records.drop_last());
        let x = records.last();
        if x is Ethernet {
            if !has_wire(front) {
                lemma_push_wire_distinct(front);
            }
        } else {
            lemma_merge_keeps_distinct(front, x);
        }
    }
}

impl NetworkList {
    /// Whether the list is in order, with no key twice. Every list that this
    /// library hands out is.
    pub open spec fn wf(&self) -> bool {
        list_wf(self@)
    }

    /// The empty list.
    pub fn new() -> (r: Self)
        ensures
            r@ == Seq::<NetworkInfoView>::empty(),
            r.wf(),
    {
        let r = NetworkList { items: Vec::new() };
        assert(r@ =~= Seq::<NetworkInfoView>::empty());
        r
    }

    /// The list of records whose keys are distinct.
    pub(crate) fn from_distinct(records: &Vec<NetworkInfo>) -> (r: Self)
        requires
            distinct_keys(records_view(records@)),
        ensures
            r@ == sort_records(records_view(records@)),
            r.wf(),
    {
        proof {
            lemma_sort_records(records_view(records@));
        }
        NetworkList { items: sort_networks(records) }
    }

    /// The list made of `records`, whatever they are: later copies of the
    /// wire are left out, wireless records are merged, and the result is put
    /// in order.
    pub fn from_records(records: &Vec<NetworkInfo>) -> (r: Self)
        ensures
            r@ == collect_records(records_view(records@)),
            r.wf(),
    {
        let ghost all = records_view(records@);
        let mut gathered: Vec<NetworkInfo> = Vec::new();
        let mut wire: bool = false;
        let mut i: usize = 0;
        assert(all.take(0) =~= Seq::empty());
        assert(records_view(gathered@) =~= Seq::empty());
        while i < records.len()
            invariant
                i <= records@.len(),
                all == records_view(records@),
                records_view(gathered@) == gather_records(all.take(i as int)),
                wire == has_wire(records_view(gathered@)),
            decreases records@.len() - i,
        {
            let ghost front = records_view(gathered@);
            proof {
                assert(all.take(i + 1).drop_last() =~= all.take(i as int));
                assert(all.take(i + 1).last() == records@[i as int]@);
            }
            if records[i].is_eth() {
                if !wire {
                    add_wifi_network(&mut gathered, NetworkInfo::Ethernet);
                    wire = true;
                    assert(records_view(gathered@)[front.len() as int] is Ethernet);
                }
            } else {
                add_wifi_network(&mut gathered, records[i].clone());
                proof {
                    let x = records@[i as int]@;
                    let after = records_view(gathered@);
                    lemma_index_of_essid(front, x->Wifi_0, 0);
                    if has_wire(front) {
                        let k = choose|k: int|
                            0 <= k < front.len() && (#[trigger] front[k]) is Ethernet;
                        assert(after[k] is Ethernet);
                    }
                    if has_wire(after) {
                        let k = choose|k: int|
                            0 <= k < after.len() && (#[trigger] after[k]) is Ethernet;
                        assert(front[k] is Ethernet);
                    }
                }
            }
            i += 1;
        }
        proof {
            assert(all.take(records@.len() as int) =~= all);
            lemma_gather_distinct(all);
        }
        NetworkList::from_distinct(&gathered)
    }

    pub fn len(&self) -> (n: usize)
        ensures
            n == self@.len(),
    {
        self.items.len()
    }

    pub fn is_empty(&self) -> (r: bool)
        ensures
            r == (self@.len() == 0),
    {
        self.items.len() == 0
    }

    /// The entry at `index`, where there is one.
    pub fn get(&self, index: usize) -> (r: Option<NetworkInfo>)
        ensures
            match r {
                Some(n) => index < self@.len() && n@ == self@[index as int],
                None => index >= self@.len(),
            },
    {
        if index < self.items.len() {
            Some(self.items[index].clone())
        } else {
            None
        }
    }

    /// The entries, in order.
    pub fn to_vec(&self) -> (r: Vec<NetworkInfo>)
        ensures
            records_view(r@) == self@,
    {
        let mut out: Vec<NetworkInfo> = Vec::new();
        let mut i: usize = 0;
        while i < self.items.len()
            invariant
                i <= self.items@.len(),
                out@.len() == i,
                forall|k: int| 0 <= k < i ==> out@[k]@ == self.items@[k]@,
            decreases self.items@.len() - i,
        {
            out.push(self.items[i].clone());
            i += 1;
        }
        assert(records_view(out@) =~= self@);
        out
    }

    /// The wireless entry named `essid`, where the list holds one.
    pub fn find_essid(&self, essid: &str) -> (r: Option<NetworkInfo>)
        ensures
            match r {
                Some(n) => {
                    let at = index_of_essid(self@, essid@, 0);
                    0 <= at < self@.len() && n@ == self@[at]
                },
                None => index_of_essid(self@, essid@, 0) == -1,
            },
    {
        let mut i: usize = 0;
        while i < self.items.len()
            invariant
                i <= self.items@.len(),
                index_of_essid(self@, essid@, 0) == index_of_essid(self@, essid@, i as int),
            decreases self.items@.len() - i,
        {
            if self.items[i].is_wifi_named(essid) {
                return Some(self.items[i].clone());
            }
            i += 1;
        }
        None
    }

    /// Puts the wire at the head unless it stands there already; says
    /// whether the list changed.
    pub fn add_phantom_eth(&mut self) -> (changed: bool)
        requires
            old(self).wf(),
        ensures
            final(self)@ == with_phantom_eth(old(self)@),
            changed == (final(self)@ != old(self)@),
            final(self).wf(),
    {
        if self.items.len() == 0 || !self.items[0].is_eth() {
            let ghost before = self@;
            self.items.insert(0, NetworkInfo::Ethernet);
            proof {
                let after = self@;
                assert(after =~= seq![NetworkInfoView::Ethernet] + before);
                assert(after.len() != before.len());
                assert forall|i: int, j: int| 0 <= i < j < after.len() implies (
                #[trigger] after[i]).sorts_before(#[trigger] after[j]) && !after[i].same_key(
                    after[j],
                ) by {
                    if i == 0 {
                        if j > 1 {
                            assert(before[0].sorts_before(before[j - 1]));
                        }
                    } else {
                        assert(before[i - 1].sorts_before(before[j - 1]));
                        assert(!before[i - 1].same_key(before[j - 1]));
                    }
                }
            }
            true
        } else {
            false
        }
    }

    /// Takes the wire from the head where it stands there; says whether the
    /// list changed.
    pub fn remove_phantom_eth(&mut self) -> (changed: bool)
        requires
            old(self).wf(),
        ensures
            final(self)@ == without_phantom_eth(old(self)@),
            changed == (final(self)@ != old(self)@),
            final(self).wf(),
    {
        if self.items.len() > 0 && self.items[0].is_eth() {
            let ghost before = self@;
            self.items.remove(0);
            proof {
                let after = self@;
                assert(after =~= before.drop_first());
                assert(after.len() != before.len());
                assert forall|i: int, j: int| 0 <= i < j < after.len() implies (
                #[trigger] after[i]).sorts_before(#[trigger] after[j]) && !after[i].same_key(
                    after[j],
                ) by {
                    assert(before[i + 1].sorts_before(before[j + 1]));
                    assert(!before[i + 1].same_key(before[j + 1]));
                }
            }
            true
        } else {
            false
        }
    }

    /// Takes the wireless entry named `essid` from the list; says whether the
    /// list changed.
    pub fn remove_essid(&mut self, essid: &str) -> (changed: bool)
        requires
            old(self).wf(),
        ensures
            final(self)@ == without_essid(old(self)@, essid@),
            changed == (final(self)@ != old(self)@),
            final(self).wf(),
    {
        let mut i: usize = 0;
        while i < self.items.len()
            invariant
                i <= self.items@.len(),
                self.items@ == old(self).items@,
                list_wf(self@),
                index_of_essid(self@, essid@, 0) == index_of_essid(self@, essid@, i as int),
            decreases self.items@.len() - i,
        {
            if self.items[i].is_wifi_named(essid) {
                let ghost before = self@;
                self.items.remove(i);
                proof {
                    let after = self@;
                    assert(after =~= before.remove(i as int));
                    assert(after.len() != before.len());
                    assert forall|a: int, b: int| 0 <= a < b < after.len() implies (
                    #[trigger] after[a]).sorts_before(#[trigger] after[b]) && !after[a].same_key(
                        after[b],
                    ) by {
                        let oa = if a < i { a } else { a + 1 };
                        let ob = if b < i { b } else { b + 1 };
                        assert(before[oa].sorts_before(before[ob]));
                        assert(!before[oa].same_key(before[ob]));
                    }
                }
                return true;
            }
            i += 1;
        }
        false
    }
}

impl Clone for NetworkList {
    fn clone(&self) -> (r: Self)
        ensures
            r@ == self@,
    {
        NetworkList { items: self.to_vec() }
    }
}

/// The list with the wire at its head.
pub open spec fn with_phantom_eth(l: Seq<NetworkInfoView>) -> Seq<NetworkInfoView> {
    if l.len() == 0 || !(l[0] is Ethernet) {
        seq![NetworkInfoView::Ethernet] + l
    } else {
        l
    }
}

/// The list without the wire at its head.
pub open spec fn without_phantom_eth(l: Seq<NetworkInfoView>) -> Seq<NetworkInfoView> {
    if l.len() > 0 && l[0] is Ethernet {
        l.drop_first()
    } else {
        l
    }
}

/// The list without the first wireless entry named `essid`.
pub open spec fn without_essid(l: Seq<NetworkInfoView>, essid: Seq<char>) -> Seq<NetworkInfoView> {
    let at = index_of_essid(l, essid, 0);
    if at < 0 {
        l
    } else {
        l.remove(at)
    }
}

} // verus!
