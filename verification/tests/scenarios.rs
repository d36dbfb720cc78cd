//! End-to-end scenarios over the composed system, with the engine's part
//! played by hand: the fallback browse pipeline, the advertise pipeline,
//! and a removal after a discovery.

use dns_sd::backend::Backend;
use dns_sd::fallback::{fallback_removed_info, fallback_resolved_info};
use dns_sd::registry::{AdvertiseSession, BrowseSession};
use dns_sd::service::ServiceInfo;
use dns_sd::session::{browse_event_action, register_event, BrowseAction, FLAG_ADD};
use dns_sd::txt::TxtRecord;
use dns_sd::Discovery;

/// No native library present: browsing goes to the fallback engine, and
/// one resolved record for "printer" comes back as exactly one found
/// event with the name, port and address.
#[test]
fn fallback_browse_resolves_a_printer() {
    let mut system = Discovery::new();
    let native_available = false;

    let plan = system
        .start_browse(native_available, "_http._tcp")
        .expect("fallback refuses nothing here");
    assert_eq!(plan.backend, Backend::Fallback);
    assert_eq!(plan.engine_type, "_http._tcp.local.");

    let handle = system.commit_browse(BrowseSession {
        backend: plan.backend,
        service_type: plan.engine_type.clone(),
    });
    assert_eq!(handle, 1);

    // The engine reports one resolved record; the session thread would
    // translate it and invoke the callback once with a found event.
    let mut emissions: Vec<(&str, ServiceInfo)> = Vec::new();
    let info = fallback_resolved_info(
        "printer._http._tcp.local.",
        "printer.local.".to_string(),
        vec!["192.168.1.5".to_string()],
        631,
        TxtRecord::new(),
    );
    emissions.push(("serviceFound", info));

    assert_eq!(emissions.len(), 1);
    let (tag, found) = &emissions[0];
    assert_eq!(*tag, "serviceFound");
    assert_eq!(found.name, "printer");
    assert_eq!(found.service_type, "_http._tcp");
    assert_eq!(found.domain, "local");
    assert_eq!(found.host_name, "printer.local.");
    assert_eq!(found.port, 631);
    assert_eq!(found.addresses, vec!["192.168.1.5".to_string()]);
    assert_eq!(found.ttl, 0);

    assert!(system.stop_browse(handle).is_some());
    assert!(system.stop_browse(handle).is_none());
}

/// The engine deduplicates nothing for us: a record carrying the same
/// address twice still yields one entry.
#[test]
fn fallback_resolution_deduplicates_addresses() {
    let info = fallback_resolved_info(
        "cam._rtsp._tcp.local.",
        "cam.local.".to_string(),
        vec![
            "10.0.0.9".to_string(),
            "fe80::2".to_string(),
            "10.0.0.9".to_string(),
        ],
        554,
        TxtRecord::new(),
    );
    assert_eq!(
        info.addresses,
        vec!["10.0.0.9".to_string(), "fe80::2".to_string()]
    );
}

/// Advertising succeeds synchronously with a handle, and the callback
/// soon carries the registered tag with the service name.
#[test]
fn advertise_reports_registered() {
    let mut system = Discovery::new();
    let native_available = false;

    let mut txt = TxtRecord::new();
    txt.set(b"path".to_vec(), b"/".to_vec());

    let plan = system
        .start_advertise(native_available, "MyPrinter", "_http._tcp", 8080, &txt)
        .expect("fallback refuses nothing here");
    assert_eq!(plan.backend, Backend::Fallback);
    assert_eq!(plan.engine_type, "_http._tcp.local.");
    assert_eq!(plan.port, 8080);
    assert_eq!(plan.fullname, "MyPrinter._http._tcp.local.");
    assert!(plan.host.ends_with(".local."));

    let handle = system.commit_advertise(AdvertiseSession {
        backend: plan.backend,
        name: "MyPrinter".to_string(),
        service_type: plan.engine_type.clone(),
        port: plan.port,
        fullname: plan.fullname.clone(),
    });
    assert_eq!(handle, 1);

    // The fallback engine registers synchronously and reports at once.
    let (tag, payload) = register_event(0, "MyPrinter".to_string());
    assert_eq!(tag, "registered");
    assert_eq!(payload, "MyPrinter");

    assert!(system.stop_advertise(handle).is_some());
    assert!(system.stop_advertise(handle).is_none());
}

/// After a found event for an instance, a native remove callback for the
/// same instance yields a lost event whose other fields are all at their
/// zero or empty defaults.
#[test]
fn removal_after_discovery_is_minimal() {
    // The instance was found first.
    let found = browse_event_action(
        FLAG_ADD,
        0,
        "cam1".to_string(),
        "_http._tcp".to_string(),
        "local.".to_string(),
    );
    assert!(matches!(found, Some(BrowseAction::Resolve(_))));

    // The native callback then reports it without the add flag.
    let lost = browse_event_action(
        0,
        0,
        "cam1".to_string(),
        "_http._tcp".to_string(),
        "local.".to_string(),
    );
    match lost {
        Some(BrowseAction::EmitLost(info)) => {
            assert_eq!(info.name, "cam1");
            assert_eq!(info.service_type, "_http._tcp");
            assert_eq!(info.host_name, "");
            assert!(info.addresses.is_empty());
            assert_eq!(info.port, 0);
            assert!(info.txt.is_empty());
            assert_eq!(info.ttl, 0);
        }
        other => panic!("expected a loss event, got {:?}", other),
    }
}

/// The same removal, as the fallback engine reports it.
#[test]
fn fallback_removal_is_minimal() {
    let info = fallback_removed_info("_http._tcp.local.".to_string(), "cam1._http._tcp.local.");
    assert_eq!(info.name, "cam1");
    assert_eq!(info.service_type, "_http._tcp.local.");
    assert_eq!(info.domain, "local");
    assert_eq!(info.host_name, "");
    assert!(info.addresses.is_empty());
    assert_eq!(info.port, 0);
    assert!(info.txt.is_empty());
    assert_eq!(info.ttl, 0);
}

/// Malformed input: a type string with an interior nul byte fails the
/// native start synchronously; the fallback path has no such limit.
#[test]
fn interior_nul_fails_native_start_synchronously() {
    let mut system = Discovery::new();
    let bad = "_http\0._tcp";

    let r = system.start_browse(true, bad);
    assert!(r.is_err());
    assert_eq!(
        r.unwrap_err().message(),
        "service string contains an interior nul byte"
    );

    let r = system.start_advertise(true, "My\0Printer", "_http._tcp", 80, &TxtRecord::new());
    assert!(r.is_err());

    let mut fallback_system = Discovery::new();
    assert!(fallback_system.start_browse(false, bad).is_ok());
}

/// A native advertise start carries the TXT attributes as wire bytes;
/// decoding them gives the attributes back.
#[test]
fn native_advertise_plan_carries_txt_wire_bytes() {
    let mut system = Discovery::new();
    let mut txt = TxtRecord::new();
    txt.set(b"path".to_vec(), b"/".to_vec());
    txt.set(b"note".to_vec(), b"on".to_vec());

    let plan = system
        .start_advertise(true, "MyPrinter", "_http._tcp", 8080, &txt)
        .expect("clean strings pass validation");
    assert_eq!(plan.backend, Backend::Native);
    assert_eq!(plan.engine_type, "_http._tcp");
    let back = dns_sd::txt::parse_txt_record(&plan.txt_bytes);
    assert_eq!(back.get(b"path"), Some(b"/".to_vec()));
    assert_eq!(back.get(b"note"), Some(b"on".to_vec()));
    assert_eq!(back.len(), 2);
}

/// Normalization of the service type for the fallback engine.
#[test]
fn fallback_type_normalization() {
    let mut system = Discovery::new();
    let p = system.start_browse(false, "_http._tcp.local.").unwrap();
    assert_eq!(p.engine_type, "_http._tcp.local.");
    let p = system.start_browse(false, "_http._tcp.").unwrap();
    assert_eq!(p.engine_type, "_http._tcp.local.");
    let p = system.start_browse(false, "_http._tcp").unwrap();
    assert_eq!(p.engine_type, "_http._tcp.local.");
}

/// Handles stay distinct and increasing across a mix of starts through
/// the composed system.
#[test]
fn mixed_session_handles_increase() {
    let mut system = Discovery::new();
    let b1 = system.commit_browse(BrowseSession {
        backend: Backend::Fallback,
        service_type: "_http._tcp.local.".to_string(),
    });
    let a1 = system.commit_advertise(AdvertiseSession {
        backend: Backend::Fallback,
        name: "a".to_string(),
        service_type: "_http._tcp.local.".to_string(),
        port: 80,
        fullname: "a._http._tcp.local.".to_string(),
    });
    let b2 = system.commit_browse(BrowseSession {
        backend: Backend::Fallback,
        service_type: "_ipp._tcp.local.".to_string(),
    });
    assert_eq!((b1, a1, b2), (1, 2, 3));
}
