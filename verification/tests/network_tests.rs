use snm::network_info::NetworkInfo;
use snm::network_list::{add_wifi_network, sort_networks, NetworkList};

fn wifi(essid: &str, quality: u32, enc: bool) -> NetworkInfo {
    NetworkInfo::Wifi(essid.to_string(), quality, enc)
}

fn tuples(list: &[NetworkInfo]) -> Vec<(u32, String, bool, u32)> {
    list.iter().map(|n| n.to_dbus_tuple()).collect()
}

fn t(essid: &str, quality: u32, enc: bool) -> (u32, String, bool, u32) {
    (2, essid.to_string(), enc, quality)
}

fn eth() -> (u32, String, bool, u32) {
    (1, "Ethernet connection".to_string(), false, 100)
}

#[test]
fn wire_sorts_before_wifi() {
    assert!(NetworkInfo::Ethernet.sorts_before(&wifi("a", 100, false)));
    assert!(!wifi("a", 100, false).sorts_before(&NetworkInfo::Ethernet));
    assert!(!NetworkInfo::Ethernet.sorts_before(&NetworkInfo::Ethernet));
}

#[test]
fn wifi_sorts_by_falling_quality_and_rising_essid() {
    assert!(wifi("z", 80, false).sorts_before(&wifi("a", 70, true)));
    assert!(!wifi("a", 70, true).sorts_before(&wifi("z", 80, false)));
    assert!(wifi("a", 70, true).sorts_before(&wifi("b", 70, false)));
    assert!(!wifi("b", 70, false).sorts_before(&wifi("a", 70, true)));
    assert!(!wifi("a", 70, true).sorts_before(&wifi("a", 70, false)));
}

#[test]
fn same_network_goes_by_essid_alone() {
    assert!(wifi("a", 1, true).same_network(&wifi("a", 99, false)));
    assert!(!wifi("a", 1, true).same_network(&wifi("b", 1, true)));
    assert!(!NetworkInfo::Ethernet.same_network(&NetworkInfo::Ethernet));
    assert!(!NetworkInfo::Ethernet.same_network(&wifi("a", 1, true)));
    assert!(!wifi("a", 1, true).same_network(&NetworkInfo::Ethernet));
}

#[test]
fn network_wire_forms() {
    assert_eq!(NetworkInfo::Ethernet.to_dbus_tuple(), eth());
    assert_eq!(wifi("corp", 80, true).to_dbus_tuple(), t("corp", 80, true));
    assert!(NetworkInfo::Ethernet.is_eth());
    assert!(!wifi("corp", 80, true).is_eth());
    assert!(wifi("corp", 80, true).is_wifi_named("corp"));
    assert!(!wifi("corp", 80, true).is_wifi_named("cor"));
}

#[test]
fn merge_takes_a_new_essid_at_the_end() {
    let mut list = vec![wifi("a", 50, true)];
    add_wifi_network(&mut list, wifi("b", 90, false));
    assert_eq!(tuples(&list), vec![t("a", 50, true), t("b", 90, false)]);
}

#[test]
fn merge_prefers_the_higher_quality() {
    let mut list = vec![wifi("a", 50, true), wifi("b", 60, true)];
    add_wifi_network(&mut list, wifi("b", 61, false));
    assert_eq!(tuples(&list), vec![t("a", 50, true), t("b", 61, false)]);
}

#[test]
fn merge_drops_a_record_that_is_not_better() {
    let mut list = vec![wifi("a", 50, true), wifi("b", 60, true)];
    add_wifi_network(&mut list, wifi("b", 60, false));
    add_wifi_network(&mut list, wifi("a", 10, false));
    assert_eq!(tuples(&list), vec![t("a", 50, true), t("b", 60, true)]);
}

#[test]
fn merge_keeps_the_best_of_many() {
    let mut list = Vec::new();
    for (q, enc) in [(30, true), (80, false), (50, true), (80, true)] {
        add_wifi_network(&mut list, wifi("x", q, enc));
    }
    assert_eq!(tuples(&list), vec![t("x", 80, false)]);
}

#[test]
fn merge_puts_the_wire_at_the_end() {
    let mut list = vec![wifi("a", 50, true)];
    add_wifi_network(&mut list, NetworkInfo::Ethernet);
    assert_eq!(tuples(&list), vec![t("a", 50, true), eth()]);
}

#[test]
fn sort_puts_records_in_list_order() {
    let records = vec![
        wifi("b", 70, true),
        wifi("c", 90, false),
        NetworkInfo::Ethernet,
        wifi("a", 70, false),
        wifi("d", 10, true),
    ];
    assert_eq!(
        tuples(&sort_networks(&records)),
        vec![eth(), t("c", 90, false), t("a", 70, false), t("b", 70, true), t("d", 10, true)]
    );
    assert_eq!(tuples(&sort_networks(&Vec::new())), vec![]);
}

#[test]
fn sort_agrees_with_a_sort_by_key() {
    let mut records = Vec::new();
    let mut expected = Vec::new();
    let mut seed: u32 = 12345;
    for i in 0..40 {
        seed = seed.wrapping_mul(1103515245).wrapping_add(12345);
        let q = (seed >> 16) % 5 * 20;
        let name = format!("net{}", (seed >> 8) % 1000 * 100 + i);
        records.push(wifi(&name, q, i % 2 == 0));
        expected.push((q, name, i % 2 == 0));
    }
    expected.sort_by(|a, b| b.0.cmp(&a.0).then(a.1.cmp(&b.1)));
    let expected: Vec<_> = expected.into_iter().map(|(q, n, e)| t(&n, q, e)).collect();
    assert_eq!(tuples(&sort_networks(&records)), expected);
}

#[test]
fn list_from_records_merges_and_sorts() {
    let list = NetworkList::from_records(&vec![
        wifi("b", 10, true),
        NetworkInfo::Ethernet,
        wifi("a", 10, true),
        wifi("b", 95, false),
        NetworkInfo::Ethernet,
        wifi("a", 5, false),
    ]);
    assert_eq!(tuples(&list.to_vec()), vec![eth(), t("b", 95, false), t("a", 10, true)]);
    assert_eq!(list.len(), 3);
    assert!(!list.is_empty());
}

#[test]
fn list_new_is_empty() {
    let list = NetworkList::new();
    assert_eq!(list.len(), 0);
    assert!(list.is_empty());
    assert!(list.get(0).is_none());
    assert!(list.find_essid("a").is_none());
}

#[test]
fn list_get_and_find() {
    let list = NetworkList::from_records(&vec![wifi("a", 10, true), wifi("b", 20, false)]);
    assert_eq!(list.get(0).unwrap().to_dbus_tuple(), t("b", 20, false));
    assert_eq!(list.get(1).unwrap().to_dbus_tuple(), t("a", 10, true));
    assert!(list.get(2).is_none());
    assert_eq!(list.find_essid("a").unwrap().to_dbus_tuple(), t("a", 10, true));
    assert!(list.find_essid("c").is_none());
    assert_eq!(tuples(&list.clone().to_vec()), tuples(&list.to_vec()));
}

#[test]
fn phantom_wire_comes_and_goes() {
    let mut list = NetworkList::from_records(&vec![wifi("a", 10, true)]);
    assert!(list.add_phantom_eth());
    assert_eq!(tuples(&list.to_vec()), vec![eth(), t("a", 10, true)]);
    assert!(!list.add_phantom_eth());
    assert_eq!(list.len(), 2);
    assert!(list.remove_phantom_eth());
    assert_eq!(tuples(&list.to_vec()), vec![t("a", 10, true)]);
    assert!(!list.remove_phantom_eth());
    assert_eq!(list.len(), 1);
}

#[test]
fn phantom_wire_on_an_empty_list() {
    let mut list = NetworkList::new();
    assert!(!list.remove_phantom_eth());
    assert!(list.add_phantom_eth());
    assert_eq!(tuples(&list.to_vec()), vec![eth()]);
}

#[test]
fn remove_essid_takes_one_entry() {
    let mut list = NetworkList::from_records(&vec![
        wifi("a", 10, true),
        wifi("b", 20, false),
        wifi("c", 30, false),
    ]);
    assert!(list.remove_essid("b"));
    assert_eq!(tuples(&list.to_vec()), vec![t("c", 30, false), t("a", 10, true)]);
    assert!(!list.remove_essid("b"));
    assert_eq!(list.len(), 2);
}

#[test]
fn records_compare_with_operators() {
    assert!(wifi("a", 1, true) == wifi("a", 99, false));
    assert!(wifi("a", 1, true) != wifi("b", 1, true));
    assert!(NetworkInfo::Ethernet != NetworkInfo::Ethernet);
    assert!(NetworkInfo::Ethernet < wifi("a", 100, false));
    assert!(wifi("a", 100, false) > NetworkInfo::Ethernet);
    assert!(NetworkInfo::Ethernet < NetworkInfo::Ethernet);
    assert!(wifi("z", 80, false) < wifi("a", 70, false));
    assert!(wifi("a", 70, false) < wifi("b", 70, true));
    assert!(!(wifi("a", 70, false) < wifi("a", 70, true)));
    assert!(!(wifi("a", 70, false) > wifi("a", 70, true)));
    assert!(wifi("b", 70, false) > wifi("a", 70, true));
}
