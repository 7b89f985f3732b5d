//! `==` and `<` on scan records.

use vstd::prelude::*;
use core::cmp::Ordering;
use crate::network_info::NetworkInfo;
use crate::network_info::NetworkInfoView;
use crate::text::{lex_less, str_less};

verus! {

/// How two records compare: the wire is less than anything; a wireless
/// record is greater than the wire, and less than another wireless record of
/// lower quality or, at the same quality, of greater essid.
pub open spec fn compare_records(a: NetworkInfoView, b: NetworkInfoView) -> Ordering {
    match (a, b) {
        (NetworkInfoView::Wifi(e1, q1, _), NetworkInfoView::Wifi(e2, q2, _)) => {
            if q1 > q2 {
                Ordering::Less
            } else if q1 < q2 {
                Ordering::Greater
            } else if lex_less(e1, e2) {
                Ordering::Less
            } else if lex_less(e2, e1) {
                Ordering::Greater
            } else {
                Ordering::Equal
            }
        },
        (NetworkInfoView::Wifi(..), NetworkInfoView::Ethernet) => Ordering::Greater,
        (NetworkInfoView::Ethernet, _) => Ordering::Less,
    }
}

impl PartialEq for NetworkInfo {
    fn eq(&self, other: &NetworkInfo) -> (r: bool) {
        self.same_network(other)
    }
}

impl vstd::std_specs::cmp::PartialEqSpecImpl for NetworkInfo {
    open spec fn obeys_eq_spec() -> bool {
        true
    }

    open spec fn eq_spec(&self, other: &NetworkInfo) -> bool {
        self@.same_network(other@)
    }
}

impl PartialOrd for NetworkInfo {
    fn partial_cmp(&self, other: &NetworkInfo) -> (r: Option<Ordering>) {
        match self {
            NetworkInfo::Ethernet => Some(Ordering::Less),
            NetworkInfo::Wifi(e1, q1, _) => match other {
                NetworkInfo::Ethernet => Some(Ordering::Greater),
                NetworkInfo::Wifi(e2, q2, _) => {
                    if *q1 > *q2 {
                        Some(Ordering::Less)
                    } else if *q1 < *q2 {
                        Some(Ordering::Greater)
                    } else if str_less(e1.as_str(), e2.as_str()) {
                        Some(Ordering::Less)
                    } else if str_less(e2.as_str(), e1.as_str()) {
                        Some(Ordering::Greater)
                    } else {
                        Some(Ordering::Equal)
                    }
                },
            },
        }
    }
}

impl vstd::std_specs::cmp::PartialOrdSpecImpl for NetworkInfo {
    open spec fn obeys_partial_cmp_spec() -> bool {
        true
    }

    open spec fn partial_cmp_spec(&self, other: &NetworkInfo) -> Option<Ordering> {
        Some(compare_records(self@, other@))
    }
}

/// `<` is the order of the list, but for the wire against itself, which
/// counts as less than itself.
pub proof fn lemma_compare_is_list_order(a: NetworkInfoView, b: NetworkInfoView)
    requires
        !(a is Ethernet && b is Ethernet),
    ensures
        (compare_records(a, b) == Ordering::Less) == a.sorts_before(b),
        (compare_records(a, b) == Ordering::Greater) == b.sorts_before(a),
{
    match (a, b) {
        (NetworkInfoView::Wifi(e1, q1, _), NetworkInfoView::Wifi(e2, q2, _)) => {
            if q1 == q2 && lex_less(e1, e2) {
                crate::text::lemma_lex_asymmetric(e1, e2);
            }
        },
        _ => {},
    }
}

} // verus!
