//! The clients that asked to be kept up to date.

use vstd::prelude::*;
use crate::text::str_equal;

verus! {

/// The first index at or after `from` that holds `name`, or -1.
pub open spec fn proxy_index(names: Seq<Seq<char>>, name: Seq<char>, from: int) -> int
    decreases names.len() - from,
{
    if from < 0 || from >= names.len() {
        -1
    } else if names[from] == name {
        from
    } else {
        proxy_index(names, name, from + 1)
    }
}

proof fn lemma_proxy_index(names: Seq<Seq<char>>, name: Seq<char>, from: int)
    requires
        0 <= from,
    ensures
        ({
            let at = proxy_index(names, name, from);
            &&& at == -1 || (from <= at < names.len() && names[at] == name)
            &&& forall|j: int|
                from <= j < names.len() && (j < at || at == -1) ==> #[trigger] names[j] != name
        }),
    decreases names.len() - from,
{
    if from < names.len() && names[from] != name {
        lemma_proxy_index(names, name, from + 1);
    }
}

/// The clients after `name` joined: it is added unless it is there already.
pub open spec fn with_client(names: Seq<Seq<char>>, name: Seq<char>) -> Seq<Seq<char>> {
    if proxy_index(names, name, 0) >= 0 {
        names
    } else {
        names.push(name)
    }
}

/// The clients after `name` left.
pub open spec fn without_client(names: Seq<Seq<char>>, name: Seq<char>) -> Seq<Seq<char>> {
    let at = proxy_index(names, name, 0);
    if at >= 0 {
        names.remove(at)
    } else {
        names
    }
}

/// The clients after the bus reported that a name changed hands, with the
/// name, its old owner and its new owner where each is a string: where the
/// new owner is empty, the name has left the bus and is forgotten. Any other
/// signal changes nothing.
pub open spec fn after_event(
    names: Seq<Seq<char>>,
    member: Option<Seq<char>>,
    params: Seq<Option<Seq<char>>>,
) -> Seq<Seq<char>> {
    if member == Some("NameOwnerChanged"@) && params.len() == 3 && params[2] == Some(
        Seq::<char>::empty(),
    ) && params[0] is Some {
        without_client(names, params[0]->0)
    } else {
        names
    }
}

/// The values of a run of names.
pub open spec fn names_view(names: Seq<String>) -> Seq<Seq<char>> {
    Seq::new(names.len(), |i: int| names[i]@)
}

/// The values of a run of optional strings.
pub open spec fn texts_view(params: Seq<Option<String>>) -> Seq<Option<Seq<char>>> {
    Seq::new(
        params.len(),
        |i: int|
            match params[i] {
                Some(s) => Some(s@),
                None => None,
            },
    )
}

/// The bus names of the clients that are kept up to date, each once.
#[derive(Debug)]
pub struct ProxyTracker {
    proxies: Vec<String>,
}

impl View for ProxyTracker {
    type V = Seq<Seq<char>>;

    closed spec fn view(&self) -> Seq<Seq<char>> {
        names_view(self.proxies@)
    }
}

impl ProxyTracker {
    /// No client is counted twice. Every tracker that this library hands out
    /// is well formed.
    pub open spec fn wf(&self) -> bool {
        no_duplicates(self@)
    }

    /// No client.
    pub fn new() -> (r: Self)
        ensures
            r@ == Seq::<Seq<char>>::empty(),
            r.wf(),
    {
        let r = ProxyTracker { proxies: Vec::new() };
        assert(r@ =~= Seq::<Seq<char>>::empty());
        r
    }

    fn position(&self, name: &str) -> (r: Option<usize>)
        ensures
            match r {
                Some(at) => at as int == proxy_index(self@, name@, 0) && at < self@.len(),
                None => proxy_index(self@, name@, 0) == -1,
            },
    {
        let mut i: usize = 0;
        while i < self.proxies.len()
            invariant
                i <= self.proxies@.len(),
                proxy_index(self@, name@, 0) == proxy_index(self@, name@, i as int),
            decreases self.proxies@.len() - i,
        {
            if str_equal(self.proxies[i].as_str(), name) {
                return Some(i);
            }
            i += 1;
        }
        None
    }

    /// Takes in the sender of a call as a client, where the call names one.
    pub fn start_track(&mut self, sender: &Option<String>)
        requires
            old(self).wf(),
        ensures
            final(self).wf(),
            final(self)@ == match *sender {
                Some(name) => with_client(old(self)@, name@),
                None => old(self)@,
            },
    {
        match sender {
            Some(name) => {
                proof {
                    lemma_tracking(self@, name@);
                }
                if self.position(name.as_str()).is_none() {
                    self.proxies.push(name.clone());
                    assert(self@ =~= old(self)@.push(name@));
                }
            },
            None => {},
        }
    }

    /// Lets the sender of a call go, where the call names one.
    pub fn stop_track(&mut self, sender: &Option<String>)
        requires
            old(self).wf(),
        ensures
            final(self).wf(),
            final(self)@ == match *sender {
                Some(name) => without_client(old(self)@, name@),
                None => old(self)@,
            },
    {
        match sender {
            Some(name) => {
                proof {
                    lemma_tracking(self@, name@);
                }
                match self.position(name.as_str()) {
                    Some(at) => {
                        self.proxies.remove(at);
                        assert(self@ =~= old(self)@.remove(at as int));
                    },
                    None => {},
                }
            },
            None => {},
        }
    }

    /// Takes in a signal of the bus, with its member and those of its
    /// parameters that are strings; see `after_event`.
    pub fn event(&mut self, member: &Option<String>, params: &Vec<Option<String>>)
        requires
            old(self).wf(),
        ensures
            final(self).wf(),
            final(self)@ == after_event(
                old(self)@,
                match *member {
                    Some(m) => Some(m@),
                    None => None,
                },
                texts_view(params@),
            ),
    {
        let changed: bool = match member {
            Some(m) => str_equal(m.as_str(), "NameOwnerChanged"),
            None => false,
        };
        if changed && params.len() == 3 {
            assert(texts_view(params@)[2] == match params@[2] {
                Some(s) => Some(s@),
                None => None,
            });
            assert(texts_view(params@)[0] == match params@[0] {
                Some(s) => Some(s@),
                None => None,
            });
            let gone: bool = match &params[2] {
                Some(owner) => owner.as_str().is_empty(),
                None => false,
            };
            if gone {
                assert(params@[2]->0@ =~= Seq::<char>::empty());
                self.stop_track(&params[0]);
            }
        }
    }

    /// The number of clients.
    pub fn active(&self) -> (n: usize)
        ensures
            n == self@.len(),
    {
        self.proxies.len()
    }
}

/// No client is counted twice.
pub open spec fn no_duplicates(names: Seq<Seq<char>>) -> bool {
    forall|i: int, j: int| 0 <= i < j < names.len() ==> names[i] != names[j]
}

/// A signal of the bus keeps each client counted once.
pub proof fn lemma_event_keeps_clients_apart(
    names: Seq<Seq<char>>,
    member: Option<Seq<char>>,
    params: Seq<Option<Seq<char>>>,
)
    requires
        no_duplicates(names),
    ensures
        no_duplicates(after_event(names, member, params)),
{
    if params.len() == 3 && params[0] is Some {
        lemma_tracking(names, params[0]->0);
    }
}

/// Joining and leaving keep each client counted once, and a client that
/// left is no longer there.
pub proof fn lemma_tracking(names: Seq<Seq<char>>, name: Seq<char>)
    requires
        no_duplicates(names),
    ensures
        no_duplicates(with_client(names, name)),
        no_duplicates(without_client(names, name)),
        proxy_index(with_client(names, name), name, 0) >= 0,
        proxy_index(without_client(names, name), name, 0) == -1,
{
    lemma_proxy_index(names, name, 0);
    lemma_proxy_index(with_client(names, name), name, 0);
    lemma_proxy_index(without_client(names, name), name, 0);
    let at = proxy_index(names, name, 0);
    if at < 0 {
        let t = names.push(name);
        assert(t[names.len() as int] == name);
        assert forall|i: int, j: int| 0 <= i < j < t.len() implies t[i] != t[j] by {
            if j == names.len() {
                assert(names[i] != name);
            }
        }
    } else {
        let u = names.remove(at);
        assert forall|i: int, j: int| 0 <= i < j < u.len() implies u[i] != u[j] by {
            let oi = if i < at { i } else { i + 1 };
            let oj = if j < at { j } else { j + 1 };
            assert(names[oi] != names[oj]);
        }
        assert forall|j: int| 0 <= j < u.len() implies #[trigger] u[j] != name by {
            let o = if j < at { j } else { j + 1 };
            assert(names[o] != names[at]);
        }
    }
}

} // verus!
