use hostinfo::netselect::{get_ip_addr, extract_ip, interface_priority, IpAddress, NetInterface};

fn v4(s: &str) -> IpAddress {
    IpAddress::V4(String::from(s))
}

fn v6(s: &str) -> IpAddress {
    IpAddress::V6(String::from(s))
}

fn iface(name: &str, addrs: Vec<IpAddress>) -> NetInterface {
    NetInterface { name: String::from(name), addrs }
}

#[test]
fn wireless_outranks_tunnel_and_ipv4_outranks_ipv6() {
    let interfaces = vec![
        iface("lo", vec![v4("127.0.0.1")]),
        iface("wlan0", vec![v6("fe80::1"), v4("10.0.0.5")]),
        iface("tun0", vec![v4("10.8.0.2")]),
    ];
    assert_eq!(get_ip_addr(&interfaces), "10.0.0.5");
}

#[test]
fn no_interface_with_address_reports_no_connection() {
    let interfaces = vec![iface("en0", vec![]), iface("wlan0", vec![])];
    assert_eq!(get_ip_addr(&interfaces), "No Connection");
}

#[test]
fn empty_interface_list_reports_no_connection() {
    let interfaces: Vec<NetInterface> = vec![];
    assert_eq!(get_ip_addr(&interfaces), "No Connection");
}

#[test]
fn loopback_only_snapshot_reports_no_connection() {
    let interfaces = vec![iface("lo", vec![v4("127.0.0.1")])];
    assert_eq!(get_ip_addr(&interfaces), "No Connection");
}

#[test]
fn loopback_addresses_never_supply_the_result() {
    let interfaces = vec![iface("en0", vec![]), iface("lo", vec![v4("127.0.0.1")])];
    assert_eq!(get_ip_addr(&interfaces), "No Connection");
}

#[test]
fn ipv4_is_preferred_when_both_families_are_bound() {
    let interfaces = vec![iface("en0", vec![v6("fe80::2"), v6("2001:db8::1"), v4("192.168.1.9")])];
    assert_eq!(get_ip_addr(&interfaces), "192.168.1.9");
}

#[test]
fn addressless_interface_is_skipped_for_a_lower_priority_one() {
    let interfaces = vec![iface("en0", vec![]), iface("wlan0", vec![v4("10.0.0.7")])];
    assert_eq!(get_ip_addr(&interfaces), "10.0.0.7");
}

#[test]
fn enumeration_order_breaks_priority_ties() {
    let interfaces = vec![
        iface("en1", vec![v4("192.168.0.2")]),
        iface("en0", vec![v4("192.168.0.3")]),
    ];
    assert_eq!(get_ip_addr(&interfaces), "192.168.0.2");
}

#[test]
fn tailscale_supplies_even_though_it_ranks_nearly_last() {
    let interfaces = vec![
        iface("lo", vec![v4("127.0.0.1")]),
        iface("tailscale0", vec![v4("100.64.0.1")]),
    ];
    assert_eq!(get_ip_addr(&interfaces), "100.64.0.1");
}

#[test]
fn unrecognised_name_outranks_vpn_prefixes() {
    let interfaces = vec![
        iface("tun0", vec![v4("10.8.0.2")]),
        iface("br0", vec![v4("172.17.0.1")]),
    ];
    assert_eq!(get_ip_addr(&interfaces), "172.17.0.1");
}

#[test]
fn prefix_matching_ignores_case() {
    let interfaces = vec![
        iface("TUN0", vec![v4("10.8.0.2")]),
        iface("WLAN0", vec![v4("10.0.0.8")]),
    ];
    assert_eq!(get_ip_addr(&interfaces), "10.0.0.8");
}

#[test]
fn priority_scores_match_the_documented_table() {
    assert_eq!(interface_priority("en0"), 0);
    assert_eq!(interface_priority("eth0"), 69);
    assert_eq!(interface_priority("wlp3s0"), 1);
    assert_eq!(interface_priority("wwan0"), 2);
    assert_eq!(interface_priority("tailscale0"), u32::MAX - 1);
    assert_eq!(interface_priority("tun1"), 1000);
    assert_eq!(interface_priority("tap0"), 1000);
    assert_eq!(interface_priority("wg0"), 1000);
    assert_eq!(interface_priority("vpn0"), 1000);
    assert_eq!(interface_priority("nm-bridge"), 1001);
    assert_eq!(interface_priority("lo"), u32::MAX);
    assert_eq!(interface_priority("LO"), u32::MAX);
    assert_eq!(interface_priority("lo0"), 69);
    assert_eq!(interface_priority("br0"), 69);
}

#[test]
fn extract_ip_keeps_same_family_enumeration_order() {
    let addrs = vec![v4("10.0.0.1"), v4("10.0.0.2")];
    assert_eq!(extract_ip(&addrs), Some(String::from("10.0.0.1")));
    let only_v6 = vec![v6("fe80::9"), v6("fe80::a")];
    assert_eq!(extract_ip(&only_v6), Some(String::from("fe80::9")));
    let none: Vec<IpAddress> = vec![];
    assert_eq!(extract_ip(&none), None);
}
