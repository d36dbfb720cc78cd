//! Handle issue and stop semantics over the registry.

use dns_sd::backend::Backend;
use dns_sd::registry::{AdvertiseSession, BrowseSession, HandleRegistry};

fn browse(service_type: &str) -> BrowseSession {
    BrowseSession { backend: Backend::Fallback, service_type: service_type.to_string() }
}

fn advertise(name: &str) -> AdvertiseSession {
    AdvertiseSession {
        backend: Backend::Fallback,
        name: name.to_string(),
        service_type: "_http._tcp.local.".to_string(),
        port: 8080,
        fullname: format!("{}._http._tcp.local.", name),
    }
}

#[test]
fn mixed_starts_return_distinct_increasing_handles() {
    let mut reg = HandleRegistry::new();
    let h1 = reg.register_browse(browse("_http._tcp"));
    let h2 = reg.register_advertise(advertise("a"));
    let h3 = reg.register_browse(browse("_ipp._tcp"));
    let h4 = reg.register_advertise(advertise("b"));
    let handles = [h1, h2, h3, h4];
    assert_eq!(handles, [1, 2, 3, 4]);
    for i in 0..handles.len() {
        for j in i + 1..handles.len() {
            assert!(handles[i] < handles[j]);
        }
    }
}

#[test]
fn stop_twice_returns_a_session_once() {
    let mut reg = HandleRegistry::new();
    let h = reg.register_browse(browse("_http._tcp"));
    let first = reg.stop_browse(h);
    let second = reg.stop_browse(h);
    assert!(first.is_some());
    assert!(second.is_none());
}

#[test]
fn stop_of_never_issued_handle_finds_nothing() {
    let mut reg = HandleRegistry::new();
    assert!(reg.stop_browse(7).is_none());
    assert!(reg.stop_advertise(7).is_none());
}

#[test]
fn handles_are_not_reused_after_stop() {
    let mut reg = HandleRegistry::new();
    let h1 = reg.register_browse(browse("_http._tcp"));
    assert!(reg.stop_browse(h1).is_some());
    let h2 = reg.register_browse(browse("_http._tcp"));
    assert_ne!(h1, h2);
    assert!(h2 > h1);
}

#[test]
fn stop_removes_only_its_own_session() {
    let mut reg = HandleRegistry::new();
    let h1 = reg.register_browse(browse("_http._tcp"));
    let h2 = reg.register_browse(browse("_ipp._tcp"));
    let ha = reg.register_advertise(advertise("a"));
    let stopped = reg.stop_browse(h1).expect("first browse should be live");
    assert_eq!(stopped.service_type, "_http._tcp");
    assert_eq!(reg.browse_count(), 1);
    assert_eq!(reg.advertise_count(), 1);
    let stopped = reg.stop_browse(h2).expect("second browse should be live");
    assert_eq!(stopped.service_type, "_ipp._tcp");
    let stopped = reg.stop_advertise(ha).expect("advertisement should be live");
    assert_eq!(stopped.name, "a");
    assert_eq!(reg.browse_count(), 0);
    assert_eq!(reg.advertise_count(), 0);
}

#[test]
fn browse_and_advertise_tables_are_independent() {
    let mut reg = HandleRegistry::new();
    let hb = reg.register_browse(browse("_http._tcp"));
    let ha = reg.register_advertise(advertise("a"));
    // A browse handle does not stop an advertisement, nor the reverse.
    assert!(reg.stop_advertise(hb).is_none());
    assert!(reg.stop_browse(ha).is_none());
    assert!(reg.stop_browse(hb).is_some());
    assert!(reg.stop_advertise(ha).is_some());
}
