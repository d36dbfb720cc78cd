//! Textual addresses and the network-order port decode on concrete
//! bytes.

use dns_sd::addr::{format_ipv4, format_ipv6, port_from_network_bytes, port_network_bytes};

fn v6(groups: [u16; 8]) -> String {
    let mut bytes = Vec::new();
    for g in groups {
        bytes.push((g / 256) as u8);
        bytes.push((g % 256) as u8);
    }
    format_ipv6(&bytes)
}

#[test]
fn ipv4_dotted_quad() {
    assert_eq!(format_ipv4(192, 168, 1, 5), "192.168.1.5");
    assert_eq!(format_ipv4(0, 0, 0, 0), "0.0.0.0");
    assert_eq!(format_ipv4(255, 255, 255, 255), "255.255.255.255");
    assert_eq!(format_ipv4(10, 0, 42, 1), "10.0.42.1");
}

#[test]
fn ipv6_loopback_compresses() {
    assert_eq!(v6([0, 0, 0, 0, 0, 0, 0, 1]), "::1");
}

#[test]
fn ipv6_unspecified_is_double_colon() {
    assert_eq!(v6([0, 0, 0, 0, 0, 0, 0, 0]), "::");
}

#[test]
fn ipv6_trailing_zero_run() {
    assert_eq!(v6([0xfe80, 0, 0, 0, 0, 0, 0, 1]), "fe80::1");
    assert_eq!(v6([0x2001, 0xdb8, 0, 0, 0, 0, 0, 0]), "2001:db8::");
}

#[test]
fn ipv6_no_zero_run_prints_all_groups() {
    assert_eq!(v6([0x2001, 0x0db8, 1, 2, 3, 4, 5, 6]), "2001:db8:1:2:3:4:5:6");
}

#[test]
fn ipv6_single_zero_group_is_not_compressed() {
    assert_eq!(v6([1, 2, 3, 0, 5, 6, 7, 8]), "1:2:3:0:5:6:7:8");
}

#[test]
fn ipv6_longest_zero_run_wins() {
    assert_eq!(v6([1, 0, 0, 2, 0, 0, 0, 3]), "1:0:0:2::3");
}

#[test]
fn ipv6_leftmost_zero_run_wins_ties() {
    assert_eq!(v6([1, 0, 0, 2, 0, 0, 3, 4]), "1::2:0:0:3:4");
}

#[test]
fn ipv6_hex_is_lower_case_without_leading_zeros() {
    assert_eq!(v6([0xabcd, 0xef, 0xa, 0, 0, 0, 0xffff, 0x1]), "abcd:ef:a::ffff:1");
}

#[test]
fn port_decodes_from_network_order() {
    assert_eq!(port_from_network_bytes(0x1f, 0x90), 8080);
    assert_eq!(port_from_network_bytes(0x02, 0x77), 631);
    assert_eq!(port_from_network_bytes(0, 0), 0);
    assert_eq!(port_from_network_bytes(255, 255), 65535);
}

#[test]
fn port_round_trips_through_network_bytes() {
    for port in [1u16, 80, 631, 8080, 65535] {
        let (hi, lo) = port_network_bytes(port);
        assert_eq!(port_from_network_bytes(hi, lo), port);
    }
}
