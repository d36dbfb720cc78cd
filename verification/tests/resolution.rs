//! Progressive refinement of one instance's result: resolve answers,
//! address de-duplication, TTL capture, and the browse and register
//! event decisions.

use dns_sd::service::{IpBytes, ServiceInfo};
use dns_sd::session::{browse_event_action, register_event, BrowseAction, FLAG_ADD};
use dns_sd::txt::{parse_txt_record, TxtRecord};

fn discovered(name: &str) -> ServiceInfo {
    ServiceInfo::minimal(name.to_string(), "_http._tcp".to_string(), "local.".to_string())
}

#[test]
fn minimal_result_has_empty_defaults() {
    let info = discovered("cam1");
    assert_eq!(info.name, "cam1");
    assert_eq!(info.service_type, "_http._tcp");
    assert_eq!(info.domain, "local.");
    assert_eq!(info.host_name, "");
    assert!(info.addresses.is_empty());
    assert_eq!(info.port, 0);
    assert!(info.txt.is_empty());
    assert_eq!(info.ttl, 0);
}

#[test]
fn resolve_answer_refines_without_retracting() {
    let mut info = discovered("printer");
    let txt = parse_txt_record(&[6, b'p', b'a', b't', b'h', b'=', b'/']);
    info.apply_resolved("printer.local.".to_string(), 631, txt);
    assert_eq!(info.name, "printer");
    assert_eq!(info.host_name, "printer.local.");
    assert_eq!(info.port, 631);
    assert_eq!(info.txt.get(b"path"), Some(b"/".to_vec()));
    assert!(info.addresses.is_empty());
}

#[test]
fn same_address_twice_yields_one_entry_and_one_emission() {
    let mut info = discovered("printer");
    let first = info.add_address("192.168.1.5".to_string());
    let second = info.add_address("192.168.1.5".to_string());
    assert!(first);
    assert!(!second);
    assert_eq!(info.addresses, vec!["192.168.1.5".to_string()]);
}

#[test]
fn each_new_address_is_emitted_once_in_order() {
    let mut info = discovered("printer");
    assert!(info.add_address("192.168.1.5".to_string()));
    assert!(info.add_address("fe80::1".to_string()));
    assert!(!info.add_address("192.168.1.5".to_string()));
    assert_eq!(
        info.addresses,
        vec!["192.168.1.5".to_string(), "fe80::1".to_string()]
    );
}

#[test]
fn modern_strategy_captures_ttl_and_deduplicates() {
    let mut info = discovered("printer");
    let emitted = info.apply_addr_info(Some(IpBytes::V4(192, 168, 1, 5)), 120);
    assert!(emitted);
    assert_eq!(info.ttl, 120);
    assert_eq!(info.addresses, vec!["192.168.1.5".to_string()]);

    // The same address again: the TTL is still captured, nothing is
    // appended, nothing is emitted.
    let emitted = info.apply_addr_info(Some(IpBytes::V4(192, 168, 1, 5)), 60);
    assert!(!emitted);
    assert_eq!(info.ttl, 60);
    assert_eq!(info.addresses.len(), 1);

    // An unknown address family still captures the TTL.
    let emitted = info.apply_addr_info(None, 99);
    assert!(!emitted);
    assert_eq!(info.ttl, 99);
}

#[test]
fn compat_strategy_decodes_a_and_aaaa_records() {
    let mut info = discovered("printer");
    let emitted = info.apply_query_record(1, &[10, 0, 0, 7], 120);
    assert!(emitted);
    assert_eq!(info.addresses, vec!["10.0.0.7".to_string()]);

    let mut v6 = vec![0u8; 16];
    v6[15] = 1;
    let emitted = info.apply_query_record(28, &v6, 0);
    assert!(emitted);
    assert_eq!(info.addresses, vec!["10.0.0.7".to_string(), "::1".to_string()]);
}

#[test]
fn compat_strategy_prefers_non_zero_ttl() {
    let mut info = discovered("printer");
    assert!(info.apply_query_record(1, &[10, 0, 0, 7], 120));
    assert_eq!(info.ttl, 120);
    // A zero TTL on a later record does not erase the known one.
    assert!(!info.apply_query_record(1, &[10, 0, 0, 7], 0));
    assert_eq!(info.ttl, 120);
}

#[test]
fn compat_strategy_ignores_malformed_payloads() {
    let mut info = discovered("printer");
    // Record type and payload length must pair up.
    assert!(!info.apply_query_record(1, &[10, 0, 0], 120));
    assert!(!info.apply_query_record(28, &[0u8; 4], 120));
    assert!(!info.apply_query_record(16, &[10, 0, 0, 7], 120));
    assert!(info.addresses.is_empty());
}

#[test]
fn browse_add_event_starts_resolution() {
    let action = browse_event_action(
        FLAG_ADD,
        0,
        "cam1".to_string(),
        "_http._tcp".to_string(),
        "local.".to_string(),
    );
    match action {
        Some(BrowseAction::Resolve(info)) => {
            assert_eq!(info.name, "cam1");
            assert_eq!(info.service_type, "_http._tcp");
            assert_eq!(info.domain, "local.");
        }
        other => panic!("expected a resolution, got {:?}", other),
    }
}

#[test]
fn browse_remove_event_emits_minimal_loss() {
    let action = browse_event_action(
        0,
        0,
        "cam1".to_string(),
        "_http._tcp".to_string(),
        "local.".to_string(),
    );
    match action {
        Some(BrowseAction::EmitLost(info)) => {
            assert_eq!(info.name, "cam1");
            assert_eq!(info.service_type, "_http._tcp");
            assert_eq!(info.host_name, "");
            assert!(info.addresses.is_empty());
            assert_eq!(info.port, 0);
            assert!(info.txt.is_empty());
            assert_eq!(info.ttl, 0);
        }
        other => panic!("expected a loss event, got {:?}", other),
    }
}

#[test]
fn browse_error_event_is_dropped() {
    let action = browse_event_action(
        FLAG_ADD,
        -65537,
        "cam1".to_string(),
        "_http._tcp".to_string(),
        "local.".to_string(),
    );
    assert!(action.is_none());
}

#[test]
fn register_success_reports_the_name() {
    let (tag, payload) = register_event(0, "MyPrinter".to_string());
    assert_eq!(tag, "registered");
    assert_eq!(payload, "MyPrinter");
}

#[test]
fn register_failure_reports_the_code() {
    let (tag, payload) = register_event(-65548, "MyPrinter".to_string());
    assert_eq!(tag, "error");
    assert_eq!(payload, "DNS-SD error: -65548");
}
