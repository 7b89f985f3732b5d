//! The store of known networks: what is remembered under each essid.

use vstd::prelude::*;
use crate::text::str_equal;
use crate::types::{KnownNetwork, KnownNetworkView};

verus! {

/// The first index at or after `from` whose key is `key`, or -1.
pub open spec fn key_index(entries: Seq<(String, KnownNetwork)>, key: Seq<char>, from: int) -> int
    decreases entries.len() - from,
{
    if from < 0 || from >= entries.len() {
        -1
    } else if entries[from].0@ == key {
        from
    } else {
        key_index(entries, key, from + 1)
    }
}

proof fn lemma_key_index(entries: Seq<(String, KnownNetwork)>, key: Seq<char>, from: int)
    requires
        0 <= from,
    ensures
        ({
            let at = key_index(entries, key, from);
            &&& at == -1 || (from <= at < entries.len() && entries[at].0@ == key)
            &&& forall|j: int|
                from <= j < entries.len() && (j < at || at == -1) ==> (#[trigger] entries[j]).0@
                    != key
        }),
    decreases entries.len() - from,
{
    if from < entries.len() && entries[from].0@ != key {
        lemma_key_index(entries, key, from + 1);
    }
}

proof fn lemma_key_index_is(entries: Seq<(String, KnownNetwork)>, key: Seq<char>, at: int)
    requires
        0 <= at < entries.len(),
        entries[at].0@ == key,
        forall|j: int| 0 <= j < at ==> (#[trigger] entries[j]).0@ != key,
    ensures
        key_index(entries, key, 0) == at,
{
    lemma_key_index(entries, key, 0);
}

proof fn lemma_key_index_none(entries: Seq<(String, KnownNetwork)>, key: Seq<char>)
    requires
        forall|j: int| 0 <= j < entries.len() ==> (#[trigger] entries[j]).0@ != key,
    ensures
        key_index(entries, key, 0) == -1,
{
    lemma_key_index(entries, key, 0);
}

/// What the entries say, as a map from essid to record.
pub open spec fn entries_map(entries: Seq<(String, KnownNetwork)>) -> Map<
    Seq<char>,
    KnownNetworkView,
> {
    Map::new(
        |k: Seq<char>| key_index(entries, k, 0) >= 0,
        |k: Seq<char>| entries[key_index(entries, k, 0)].1@,
    )
}

/// Entries with the same keys and records at every index say the same.
proof fn lemma_same_entries(a: Seq<(String, KnownNetwork)>, b: Seq<(String, KnownNetwork)>)
    requires
        a.len() == b.len(),
        forall|i: int|
            0 <= i < a.len() ==> (#[trigger] a[i]).0@ == b[i].0@ && a[i].1@ == b[i].1@,
    ensures
        entries_map(a) == entries_map(b),
        unique_keys(b) ==> unique_keys(a),
{
    assert forall|k: Seq<char>| key_index(a, k, 0) == key_index(b, k, 0) by {
        lemma_key_index(b, k, 0);
        let at = key_index(b, k, 0);
        if at >= 0 {
            assert(a[at].0@ == k);
            assert forall|j: int| 0 <= j < at implies (#[trigger] a[j]).0@ != k by {
                assert(b[j].0@ != k);
            }
            lemma_key_index_is(a, k, at);
        } else {
            assert forall|j: int| 0 <= j < a.len() implies (#[trigger] a[j]).0@ != k by {
                assert(b[j].0@ != k);
            }
            lemma_key_index_none(a, k);
        }
    }
    assert forall|k: Seq<char>| key_index(a, k, 0) >= 0 implies a[key_index(a, k, 0)].1@
        == b[key_index(b, k, 0)].1@ by {
        lemma_key_index(b, k, 0);
    }
    assert(entries_map(a) =~= entries_map(b));
    if unique_keys(b) {
        assert forall|i: int, j: int| 0 <= i < j < a.len() implies (#[trigger] a[i]).0@ != (
        #[trigger] a[j]).0@ by {
            assert(b[i].0@ != b[j].0@);
        }
    }
}

/// Replacing the first entry of a key replaces what the map says of it.
proof fn lemma_replace_entry(
    before: Seq<(String, KnownNetwork)>,
    at: int,
    entry: (String, KnownNetwork),
)
    requires
        0 <= at < before.len(),
        key_index(before, entry.0@, 0) == at,
    ensures
        entries_map(before.update(at, entry)) == entries_map(before).insert(entry.0@, entry.1@),
        unique_keys(before) ==> unique_keys(before.update(at, entry)),
{
    let after = before.update(at, entry);
    let key = entry.0@;
    lemma_key_index(before, key, 0);
    assert forall|k: Seq<char>| key_index(after, k, 0) == key_index(before, k, 0) by {
        lemma_key_index(before, k, 0);
        let b = key_index(before, k, 0);
        if b >= 0 {
            assert(after[b].0@ == k);
            assert forall|j: int| 0 <= j < b implies (#[trigger] after[j]).0@ != k by {
                assert(before[j].0@ != k);
            }
            lemma_key_index_is(after, k, b);
        } else {
            assert forall|j: int| 0 <= j < after.len() implies (#[trigger] after[j]).0@ != k by {
                assert(before[j].0@ != k);
            }
            lemma_key_index_none(after, k);
        }
    }
    let target = entries_map(before).insert(key, entry.1@);
    assert forall|k: Seq<char>| entries_map(after).dom().contains(k) == target.dom().contains(
        k,
    ) by {
        assert(key_index(after, k, 0) == key_index(before, k, 0) || k == key);
    }
    assert forall|k: Seq<char>| #[trigger] entries_map(after).dom().contains(k) implies entries_map(
        after,
    )[k] == target[k] by {
        if k != key {
            assert(key_index(after, k, 0) == key_index(before, k, 0));
            lemma_key_index(before, k, 0);
        }
    }
    assert(entries_map(after) =~= target);
    if unique_keys(before) {
        assert forall|i: int, j: int| 0 <= i < j < after.len() implies (#[trigger] after[i]).0@
            != (#[trigger] after[j]).0@ by {
            assert(before[i].0@ != before[j].0@);
        }
    }
}

/// An entry under a new key adds to what the map says.
proof fn lemma_push_entry(before: Seq<(String, KnownNetwork)>, entry: (String, KnownNetwork))
    requires
        key_index(before, entry.0@, 0) == -1,
    ensures
        entries_map(before.push(entry)) == entries_map(before).insert(entry.0@, entry.1@),
        unique_keys(before) ==> unique_keys(before.push(entry)),
{
    let after = before.push(entry);
    let key = entry.0@;
    lemma_key_index(before, key, 0);
    assert forall|j: int| 0 <= j < before.len() implies (#[trigger] after[j]).0@ != key by {
        assert(before[j].0@ != key);
    }
    lemma_key_index_is(after, key, before.len() as int);
    assert forall|k: Seq<char>| k != key implies key_index(after, k, 0) == key_index(
        before,
        k,
        0,
    ) by {
        lemma_key_index(before, k, 0);
        let b = key_index(before, k, 0);
        if b >= 0 {
            assert(after[b].0@ == k);
            assert forall|j: int| 0 <= j < b implies (#[trigger] after[j]).0@ != k by {
                assert(before[j].0@ != k);
            }
            lemma_key_index_is(after, k, b);
        } else {
            assert forall|j: int| 0 <= j < after.len() implies (#[trigger] after[j]).0@ != k by {
                if j < before.len() {
                    assert(before[j].0@ != k);
                }
            }
            lemma_key_index_none(after, k);
        }
    }
    let target = entries_map(before).insert(key, entry.1@);
    assert forall|k: Seq<char>| entries_map(after).dom().contains(k) == target.dom().contains(
        k,
    ) by {
        assert(key_index(after, k, 0) == key_index(before, k, 0) || k == key);
    }
    assert forall|k: Seq<char>| #[trigger] entries_map(after).dom().contains(k) implies entries_map(
        after,
    )[k] == target[k] by {
        if k != key {
            assert(key_index(after, k, 0) == key_index(before, k, 0));
            lemma_key_index(before, k, 0);
        }
    }
    assert(entries_map(after) =~= target);
    if unique_keys(before) {
        assert forall|i: int, j: int| 0 <= i < j < after.len() implies (#[trigger] after[i]).0@
            != (#[trigger] after[j]).0@ by {
            if j < before.len() {
                assert(before[i].0@ != before[j].0@);
            } else {
                assert(before[i].0@ != key);
            }
        }
    }
}

/// Taking out the entry of a key takes the key out of the map.
proof fn lemma_remove_entry(before: Seq<(String, KnownNetwork)>, at: int)
    requires
        0 <= at < before.len(),
        unique_keys(before),
    ensures
        entries_map(before.remove(at)) == entries_map(before).remove(before[at].0@),
        unique_keys(before.remove(at)),
{
    let after = before.remove(at);
    let key = before[at].0@;
    assert forall|j: int| 0 <= j < after.len() implies (#[trigger] after[j]).0@ != key by {
        let o = if j < at { j } else { j + 1 };
        assert(before[o].0@ != before[at].0@);
    }
    lemma_key_index_none(after, key);
    assert forall|k: Seq<char>| k != key implies (key_index(after, k, 0) >= 0) == (key_index(
        before,
        k,
        0,
    ) >= 0) && (key_index(after, k, 0) >= 0 ==> after[key_index(after, k, 0)]
        == before[key_index(before, k, 0)]) by {
        lemma_key_index(before, k, 0);
        let b = key_index(before, k, 0);
        if b >= 0 {
            let n = if b < at { b } else { b - 1 };
            assert(after[n] == before[b]);
            assert forall|j: int| 0 <= j < n implies (#[trigger] after[j]).0@ != k by {
                let o = if j < at { j } else { j + 1 };
                assert(before[o].0@ != k);
            }
            lemma_key_index_is(after, k, n);
        } else {
            assert forall|j: int| 0 <= j < after.len() implies (#[trigger] after[j]).0@ != k by {
                let o = if j < at { j } else { j + 1 };
                assert(before[o].0@ != k);
            }
            lemma_key_index_none(after, k);
        }
    }
    assert(entries_map(after) =~= entries_map(before).remove(key));
    assert forall|i: int, j: int| 0 <= i < j < after.len() implies (#[trigger] after[i]).0@ != (
    #[trigger] after[j]).0@ by {
        let oi = if i < at { i } else { i + 1 };
        let oj = if j < at { j } else { j + 1 };
        assert(before[oi].0@ != before[oj].0@);
    }
}

/// No essid is the key of two entries.
pub open spec fn unique_keys(entries: Seq<(String, KnownNetwork)>) -> bool {
    forall|i: int, j: int|
        0 <= i < j < entries.len() ==> (#[trigger] entries[i]).0@ != (#[trigger] entries[j]).0@
}

/// The known networks: a map from essid to what is remembered of it.
#[derive(Debug)]
pub struct KnownNetworks {
    entries: Vec<(String, KnownNetwork)>,
}

impl View for KnownNetworks {
    type V = Map<Seq<char>, KnownNetworkView>;

    closed spec fn view(&self) -> Map<Seq<char>, KnownNetworkView> {
        entries_map(self.entries@)
    }
}

impl KnownNetworks {
    /// Each essid is stored once. Every store that this library hands out
    /// is well formed.
    pub closed spec fn wf(&self) -> bool {
        unique_keys(self.entries@)
    }

    /// The empty store.
    pub fn new() -> (r: Self)
        ensures
            r@ == Map::<Seq<char>, KnownNetworkView>::empty(),
            r.spec_len() == 0,
            r.wf(),
    {
        let r = KnownNetworks { entries: Vec::new() };
        assert(r@ =~= Map::<Seq<char>, KnownNetworkView>::empty());
        r
    }

    fn position(&self, essid: &str) -> (r: Option<usize>)
        ensures
            match r {
                Some(at) => at as int == key_index(self.entries@, essid@, 0) && at
                    < self.entries@.len(),
                None => key_index(self.entries@, essid@, 0) == -1,
            },
    {
        let mut i: usize = 0;
        while i < self.entries.len()
            invariant
                i <= self.entries@.len(),
                key_index(self.entries@, essid@, 0) == key_index(self.entries@, essid@, i as int),
            decreases self.entries@.len() - i,
        {
            if str_equal(self.entries[i].0.as_str(), essid) {
                return Some(i);
            }
            i += 1;
        }
        None
    }

    /// What is remembered of `essid`.
    pub fn get(&self, essid: &str) -> (r: Option<KnownNetwork>)
        ensures
            match r {
                Some(known) => self@.contains_key(essid@) && known@ == self@[essid@],
                None => !self@.contains_key(essid@),
            },
    {
        match self.position(essid) {
            Some(at) => Some(self.entries[at].1.clone()),
            None => None,
        }
    }

    /// The number of essids of which something is remembered.
    pub fn len(&self) -> (n: usize)
        ensures
            n == self.spec_len(),
    {
        self.entries.len()
    }

    pub closed spec fn spec_len(&self) -> nat {
        self.entries@.len()
    }

    /// Remembers `props` under `essid`, in place of what was there.
    pub fn insert(&mut self, essid: &str, props: KnownNetwork)
        requires
            old(self).wf(),
        ensures
            final(self)@ == old(self)@.insert(essid@, props@),
            final(self).wf(),
    {
        let ghost before = self.entries@;
        let key = essid.to_owned();
        match self.position(essid) {
            Some(at) => {
                proof {
                    lemma_replace_entry(before, at as int, (key, props));
                }
                self.entries.set(at, (key, props));
            },
            None => {
                proof {
                    lemma_push_entry(before, (key, props));
                }
                self.entries.push((key, props));
            },
        }
    }

    /// Forgets `essid`; says whether anything was remembered of it.
    pub fn remove(&mut self, essid: &str) -> (removed: bool)
        requires
            old(self).wf(),
        ensures
            final(self)@ == old(self)@.remove(essid@),
            removed == old(self)@.contains_key(essid@),
            final(self).wf(),
    {
        let ghost before = self.entries@;
        match self.position(essid) {
            Some(at) => {
                proof {
                    lemma_key_index(before, essid@, 0);
                    lemma_remove_entry(before, at as int);
                }
                self.entries.remove(at);
                true
            },
            None => {
                assert(entries_map(before) =~= entries_map(before).remove(essid@));
                false
            },
        }
    }

    /// Takes new properties for `essid`: a record without password and
    /// without auto-join erases what was remembered, any other replaces it.
    pub fn set_props(&mut self, essid: &str, props: KnownNetwork)
        requires
            old(self).wf(),
        ensures
            final(self)@ == store_props(old(self)@, essid@, props@),
            final(self).wf(),
    {
        if props.password.is_some() || props.auto {
            self.insert(essid, props);
        } else {
            self.remove(essid);
        }
    }

    /// The essids and their records, one pair each.
    pub fn entries(&self) -> (r: Vec<(String, KnownNetwork)>)
        ensures
            entries_map(r@) == self@,
            self.wf() ==> unique_keys(r@),
            r@.len() == self.spec_len(),
    {
        let mut out: Vec<(String, KnownNetwork)> = Vec::new();
        let mut i: usize = 0;
        while i < self.entries.len()
            invariant
                i <= self.entries@.len(),
                out@.len() == i,
                forall|k: int|
                    0 <= k < i ==> (#[trigger] out@[k]).0@ == self.entries@[k].0@ && out@[k].1@
                        == self.entries@[k].1@,
            decreases self.entries@.len() - i,
        {
            out.push((self.entries[i].0.clone(), self.entries[i].1.clone()));
            i += 1;
        }
        proof {
            lemma_same_entries(out@, self.entries@);
        }
        out
    }

    /// The store that remembers `entries`; of two entries for one essid the
    /// later one counts.
    pub fn from_entries(entries: &Vec<(String, KnownNetwork)>) -> (r: Self)
        ensures
            r@ == load_entries(entries@, entries@.len() as int),
            r.wf(),
    {
        let mut store = KnownNetworks::new();
        let mut i: usize = 0;
        while i < entries.len()
            invariant
                i <= entries@.len(),
                store.wf(),
                store@ == load_entries(entries@, i as int),
            decreases entries@.len() - i,
        {
            store.insert(entries[i].0.as_str(), entries[i].1.clone());
            i += 1;
        }
        store
    }
}

impl Clone for KnownNetworks {
    fn clone(&self) -> (r: Self)
        ensures
            r@ == self@,
            self.wf() ==> r.wf(),
    {
        KnownNetworks { entries: self.entries() }
    }
}

/// The store after new properties came in for `essid`.
pub open spec fn store_props(
    store: Map<Seq<char>, KnownNetworkView>,
    essid: Seq<char>,
    props: KnownNetworkView,
) -> Map<Seq<char>, KnownNetworkView> {
    if props.is_blank() {
        store.remove(essid)
    } else {
        store.insert(essid, props)
    }
}

/// The map that the first `n` entries make, later ones over earlier ones.
pub open spec fn load_entries(entries: Seq<(String, KnownNetwork)>, n: int) -> Map<
    Seq<char>,
    KnownNetworkView,
>
    decreases n,
{
    if n <= 0 {
        Map::empty()
    } else {
        load_entries(entries, n - 1).insert(entries[n - 1].0@, entries[n - 1].1@)
    }
}

} // verus!
