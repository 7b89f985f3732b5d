//! Reading a scan report: its blocks, the record that each stands for, and
//! the list that comes of them.

use vstd::prelude::*;
use vstd::string::StringExecFns;
use vstd::utf8::{decode_utf8, valid_utf8};
use crate::network_info::{
    distinct_keys, lemma_merge_keeps_distinct, lemma_sort_records, lemma_sorted_shape,
    merge_record, records_view, sort_records, NetworkInfo, NetworkInfoView,
};
use crate::network_list::{add_wifi_network, list_wf};
use crate::parsers::{option_text, parse, regex_first_group, Parsers};
use crate::support::{
    dbm2perc, essid_bytes, essid_escapes_ok, spec_dbm2perc, try_parse_essid, utf8_text,
};
use crate::text::{
    chars_of, contains_seq, decimal_i32, find, find_first, lemma_find_first, lex_less, occurs_at,
    parse_i32,
};

verus! {

/// The record that one block of a scan report stands for, from the three
/// fields read from it: the signal level, the escaped name and the
/// capability list. Quality comes from the signal level and is 0 where the
/// block names none; the network counts as encrypted unless a capability
/// list is there and lacks `Privacy`. No record where the name is missing,
/// empty or no text, where its escapes are ill-formed, or where the signal
/// level is no number.
pub open spec fn chunk_record(
    signal: Option<Seq<char>>,
    essid: Option<Seq<char>>,
    capability: Option<Seq<char>>,
) -> Option<NetworkInfoView> {
    if signal is Some && decimal_i32(signal->0) is None {
        None
    } else if essid is None || !essid_escapes_ok(essid->0) || !valid_utf8(
        essid_bytes(essid->0),
    ) || decode_utf8(essid_bytes(essid->0)).len() == 0 {
        None
    } else {
        Some(
            NetworkInfoView::Wifi(
                decode_utf8(essid_bytes(essid->0)),
                match signal {
                    Some(text) => spec_dbm2perc(decimal_i32(text)->0) as u32,
                    None => 0,
                },
                match capability {
                    Some(caps) => contains_seq(caps, "Privacy"@),
                    None => true,
                },
            ),
        )
    }
}

/// The record that one block of a scan report stands for.
pub open spec fn chunk_network(chunk: Seq<char>) -> Option<NetworkInfoView> {
    chunk_record(
        regex_first_group(Parsers::NetworkQuality.spec_pattern(), chunk),
        regex_first_group(Parsers::NetworkEssid.spec_pattern(), chunk),
        regex_first_group(Parsers::NetworkEnc.spec_pattern(), chunk),
    )
}

/// The records after one more block.
pub open spec fn merge_chunk(acc: Seq<NetworkInfoView>, chunk: Seq<char>) -> Seq<NetworkInfoView> {
    match chunk_network(chunk) {
        Some(record) => merge_record(acc, record),
        None => acc,
    }
}

/// The token that starts each block of a scan report.
pub open spec fn scan_separator(wlan: Seq<char>) -> Seq<char> {
    "(on "@ + wlan + ")"@
}

/// The records after the blocks of `report` from index `from` on, where the
/// blocks are what lies between the occurrences of `sep`.
pub open spec fn merge_chunks(
    acc: Seq<NetworkInfoView>,
    report: Seq<char>,
    sep: Seq<char>,
    from: int,
) -> Seq<NetworkInfoView>
    decreases report.len() - from,
{
    let at = find_first(report, sep, from);
    if from < 0 || from > report.len() {
        acc
    } else if sep.len() == 0 || at < from || !occurs_at(report, sep, at) {
        merge_chunk(acc, report.subrange(from, report.len() as int))
    } else {
        merge_chunks(merge_chunk(acc, report.subrange(from, at)), report, sep, at + sep.len())
    }
}

/// The list that a scan gives: the wire where it is plugged in, then the
/// networks of the report, merged and in order.
pub open spec fn scanned_list(
    eth_plugged: bool,
    wlan: Option<Seq<char>>,
    report: Seq<char>,
) -> Seq<NetworkInfoView> {
    let initial = if eth_plugged {
        seq![NetworkInfoView::Ethernet]
    } else {
        Seq::empty()
    };
    match wlan {
        Some(name) => sort_records(merge_chunks(initial, report, scan_separator(name), 0)),
        None => sort_records(initial),
    }
}

/// The list that a scan gives is in order: the wire, where it is there,
/// stands first, the wireless networks follow by falling quality, equal
/// qualities by rising essid, and no essid stands twice.
pub proof fn lemma_scanned_list_ordered(
    eth_plugged: bool,
    wlan: Option<Seq<char>>,
    report: Seq<char>,
)
    ensures
        list_wf(scanned_list(eth_plugged, wlan, report)),
        ({
            let l = scanned_list(eth_plugged, wlan, report);
            &&& forall|i: int| 0 <= i < l.len() && (#[trigger] l[i]) is Ethernet ==> i == 0
            &&& forall|i: int, j: int|
                0 <= i < j < l.len() && (#[trigger] l[i]) is Wifi ==> (#[trigger] l[j]) is Wifi
                    && (l[i]->Wifi_1 > l[j]->Wifi_1 || (l[i]->Wifi_1 == l[j]->Wifi_1
                    && lex_less(l[i]->Wifi_0, l[j]->Wifi_0)))
        }),
{
    let initial = if eth_plugged {
        seq![NetworkInfoView::Ethernet]
    } else {
        Seq::empty()
    };
    assert(distinct_keys(initial));
    match wlan {
        Some(name) => {
            lemma_merge_chunks_distinct(initial, report, scan_separator(name), 0);
            lemma_sort_records(
                merge_chunks(initial, report, scan_separator(name), 0),
            );
        },
        None => {
            lemma_sort_records(initial);
        },
    }
    lemma_sorted_shape(scanned_list(eth_plugged, wlan, report));
}

proof fn lemma_merge_chunks_distinct(
    acc: Seq<NetworkInfoView>,
    report: Seq<char>,
    sep: Seq<char>,
    from: int,
)
    requires
        distinct_keys(acc),
    ensures
        distinct_keys(merge_chunks(acc, report, sep, from)),
    decreases report.len() - from,
{
    let at = find_first(report, sep, from);
    if from < 0 || from > report.len() {
    } else if sep.len() == 0 || at < from || !occurs_at(report, sep, at) {
        let chunk = report.subrange(from, report.len() as int);
        if chunk_network(chunk) is Some {
            lemma_merge_keeps_distinct(acc, chunk_network(chunk)->0);
        }
    } else {
        let chunk = report.subrange(from, at);
        if chunk_network(chunk) is Some {
            lemma_merge_keeps_distinct(acc, chunk_network(chunk)->0);
        }
        lemma_merge_chunks_distinct(merge_chunk(acc, chunk), report, sep, at + sep.len());
    }
}

fn contains_privacy(caps: &str) -> (r: bool)
    ensures
        r == contains_seq(caps@, "Privacy"@),
{
    let hay = chars_of(caps);
    let needle = chars_of("Privacy");
    find(&hay, &needle, 0).is_some()
}

/// The record that the three fields of one block of a scan report stand
/// for.
pub fn scan_record(signal: Option<String>, essid: Option<String>, capability: Option<String>) -> (r:
    Option<NetworkInfo>)
    ensures
        option_record(r) == chunk_record(
            option_text(signal),
            option_text(essid),
            option_text(capability),
        ),
{
    let quality: u32 = match &signal {
        Some(text) => match parse_i32(text.as_str()) {
            Some(dbm) => dbm2perc(dbm),
            None => {
                return None;
            },
        },
        None => 0,
    };
    let escaped = match essid {
        Some(e) => e,
        None => {
            return None;
        },
    };
    let bytes = match try_parse_essid(escaped.as_str()) {
        Some(b) => b,
        None => {
            return None;
        },
    };
    let name = match utf8_text(bytes) {
        Some(n) => n,
        None => {
            return None;
        },
    };
    if name.as_str().is_empty() {
        return None;
    }
    let enc: bool = match &capability {
        Some(caps) => contains_privacy(caps.as_str()),
        None => true,
    };
    Some(NetworkInfo::Wifi(name, quality, enc))
}

/// The value of an optional record.
pub open spec fn option_record(r: Option<NetworkInfo>) -> Option<NetworkInfoView> {
    match r {
        Some(n) => Some(n@),
        None => None,
    }
}

/// Reads one block of a scan report.
pub fn scan_chunk(chunk: &str) -> (r: Option<NetworkInfo>)
    ensures
        option_record(r) == chunk_network(chunk@),
{
    let signal = parse(Parsers::NetworkQuality, chunk);
    let essid = parse(Parsers::NetworkEssid, chunk);
    let capability = parse(Parsers::NetworkEnc, chunk);
    scan_record(signal, essid, capability)
}

fn merge_scan_chunk(networks: &mut Vec<NetworkInfo>, chunk: &str)
    ensures
        records_view(final(networks)@) == merge_chunk(records_view(old(networks)@), chunk@),
        distinct_keys(records_view(old(networks)@)) ==> distinct_keys(
            records_view(final(networks)@),
        ),
{
    match scan_chunk(chunk) {
        Some(record) => {
            proof {
                if distinct_keys(records_view(networks@)) {
                    lemma_merge_keeps_distinct(records_view(networks@), record@);
                }
            }
            add_wifi_network(networks, record);
        },
        None => {},
    }
}

/// Reads a scan report of the interface `wlan` into `networks`: each block
/// of the report that stands for a network is merged in.
pub fn scan_report(networks: &mut Vec<NetworkInfo>, wlan: &str, report: &str)
    ensures
        records_view(final(networks)@) == merge_chunks(
            records_view(old(networks)@),
            report@,
            scan_separator(wlan@),
            0,
        ),
        distinct_keys(records_view(old(networks)@)) ==> distinct_keys(
            records_view(final(networks)@),
        ),
{
    let mut token = "(on ".to_owned();
    token.append(wlan);
    token.append(")");
    proof {
        reveal_strlit("(on ");
        reveal_strlit(")");
    }
    let sep = chars_of(token.as_str());
    let hay = chars_of(report);
    let width: usize = sep.len();
    let total: usize = hay.len();
    let ghost start = records_view(networks@);
    let mut from: usize = 0;
    loop
        invariant_except_break
            hay@ == report@,
            sep@ == scan_separator(wlan@),
            width == sep@.len(),
            width > 0,
            total == hay@.len(),
            from <= total,
            distinct_keys(start) ==> distinct_keys(records_view(networks@)),
            merge_chunks(start, report@, sep@, 0) == merge_chunks(
                records_view(networks@),
                report@,
                sep@,
                from as int,
            ),
        ensures
            records_view(networks@) == merge_chunks(start, report@, sep@, 0),
            distinct_keys(start) ==> distinct_keys(records_view(networks@)),
        decreases total - from,
    {
        proof {
            lemma_find_first(hay@, sep@, from as int);
        }
        match find(&hay, &sep, from) {
            Some(at) => {
                let chunk = report.substring_char(from, at);
                merge_scan_chunk(networks, chunk);
                from = at + width;
            },
            None => {
                let chunk = report.substring_char(from, total);
                merge_scan_chunk(networks, chunk);
                break ;
            },
        }
    }
}

} // verus!
