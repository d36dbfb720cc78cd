//! Dual-backend DNS-SD service discovery core.
//!
//! Discovers and advertises network services over mDNS/DNS-SD behind one
//! handle-based API, whichever of two backends serves the process: the
//! operating system's native DNS-SD library, or a pure in-process
//! multicast DNS engine. This crate holds the decision logic, the TXT
//! wire codec and the session bookkeeping; the host process supplies the
//! threads and I/O around it.

use vstd::prelude::*;
use vstd::string::StringExecFns;

pub mod addr;
pub mod backend;
pub mod fallback;
pub mod library;
pub mod numfmt;
pub mod registry;
pub mod service;
pub mod session;
pub mod strutil;
pub mod txt;

use crate::backend::{spec_backend_info, spec_select, Backend, BackendSelector};
use crate::fallback::{advertise_host_name, fallback_fullname};
use crate::library::Platform;
use crate::registry::{AdvertiseSession, BrowseSession, HandleRegistry};
use crate::strutil::{normalize_service_type, spec_ends_with, spec_normalized_type,
    str_contains_char};
use crate::txt::{spec_encode, TxtRecord};

verus! {

/// A synchronous failure of a start operation: no session was created.
#[derive(Debug, Clone, Copy, PartialEq, Eq, Structural)]
pub enum StartError {
    /// A name or type string holds an interior nul byte, which the
    /// native library's string arguments cannot carry.
    InteriorNul,
}

impl StartError {
    /// The descriptive text of the failure.
    pub fn message(&self) -> (r: String)
        ensures
            r@ == "service string contains an interior nul byte"@,
    {
        String::from_str("service string contains an interior nul byte")
    }
}

/// What a browse start hands its backend.
#[derive(Debug)]
pub struct BrowsePlan {
    pub backend: Backend,
    /// What the engine browses for: the given type string for the native
    /// library, its normalized suffix form for the fallback engine.
    pub engine_type: String,
}

/// Validates a browse start and fixes what the chosen backend is asked
/// for. The native library takes the type string as given but cannot
/// carry an interior nul; the fallback engine takes the normalized form
/// and rejects nothing here.
pub fn prepare_browse(backend: Backend, service_type: &str) -> (r: Result<BrowsePlan, StartError>)
    ensures
        r is Err <==> (backend == Backend::Native && service_type@.contains('\0')),
        (r matches Err(e) ==> e == StartError::InteriorNul),
        (r matches Ok(p) ==> p.backend == backend),
        (backend == Backend::Native ==> (r matches Ok(p) ==> p.engine_type@ == service_type@)),
        (backend == Backend::Fallback ==> (r matches Ok(p) && p.engine_type@
            == spec_normalized_type(service_type@))),
{
    match backend {
        Backend::Native => {
            if str_contains_char(service_type, '\0') {
                Err(StartError::InteriorNul)
            } else {
                Ok(BrowsePlan { backend, engine_type: String::from_str(service_type) })
            }
        },
        Backend::Fallback => {
            Ok(BrowsePlan { backend, engine_type: normalize_service_type(service_type) })
        },
    }
}

/// What an advertise start hands its backend.
#[derive(Debug)]
pub struct AdvertisePlan {
    pub backend: Backend,
    /// The type registered: as given for the native library, normalized
    /// for the fallback engine.
    pub engine_type: String,
    /// The port registered.
    pub port: u16,
    /// The TXT wire bytes a native register carries.
    pub txt_bytes: Vec<u8>,
    /// The host the fallback engine registers under; empty for a native
    /// registration, which names no host.
    pub host: String,
    /// The fully qualified name a fallback unregister later goes by;
    /// empty for a native registration.
    pub fullname: String,
}

/// Validates an advertise start and fixes what the chosen backend is
/// asked for: the native library gets the type as given, the TXT
/// attributes on the wire and no host; the fallback engine gets the
/// normalized type, the system host name under the local scope, and the
/// fully qualified name a later unregister goes by.
pub fn prepare_advertise(
    backend: Backend,
    name: &str,
    service_type: &str,
    port: u16,
    txt: &TxtRecord,
) -> (r: Result<AdvertisePlan, StartError>)
    requires
        1 <= port,
        txt.wf(),
    ensures
        r is Err <==> (backend == Backend::Native && (name@.contains('\0')
            || service_type@.contains('\0'))),
        (r matches Err(e) ==> e == StartError::InteriorNul),
        (r matches Ok(p) ==> p.backend == backend && p.port == port),
        (backend == Backend::Native ==> (r matches Ok(p) ==> p.engine_type@ == service_type@
            && p.txt_bytes@ == spec_encode(txt@))),
        (backend == Backend::Fallback ==> (r matches Ok(p) && p.engine_type@
            == spec_normalized_type(service_type@) && p.fullname@ == name@ + "."@
            + spec_normalized_type(service_type@) && spec_ends_with(p.host@, ".local."@))),
{
    match backend {
        Backend::Native => {
            if str_contains_char(name, '\0') || str_contains_char(service_type, '\0') {
                Err(StartError::InteriorNul)
            } else {
                Ok(AdvertisePlan {
                    backend,
                    engine_type: String::from_str(service_type),
                    port,
                    txt_bytes: txt.encode(),
                    host: String::new(),
                    fullname: String::new(),
                })
            }
        },
        Backend::Fallback => {
            let engine_type = normalize_service_type(service_type);
            let fullname = fallback_fullname(name, engine_type.as_str());
            Ok(AdvertisePlan {
                backend,
                engine_type,
                port,
                txt_bytes: Vec::new(),
                host: advertise_host_name(),
                fullname,
            })
        },
    }
}

/// One composed discovery system: the backend choice and the handle
/// registry, owned together by whatever embeds the crate rather than
/// living as ambient process state.
pub struct Discovery {
    pub selector: BackendSelector,
    pub registry: HandleRegistry,
}

impl Discovery {
    /// A fresh system: no backend committed, no sessions, handles from 1.
    pub fn new() -> (r: Discovery)
        ensures
            r.selector.spec_chosen() is None,
            r.registry.wf(),
            r.registry.spec_next() == 1,
            r.registry.browse_entries() == Seq::<(u32, BrowseSession)>::empty(),
            r.registry.advertise_entries() == Seq::<(u32, AdvertiseSession)>::empty(),
    {
        Discovery { selector: BackendSelector::new(), registry: HandleRegistry::new() }
    }

    /// The backend this system runs on, committed on first call.
    pub fn backend(&mut self, native_available: bool) -> (b: Backend)
        ensures
            (b, final(self).selector.spec_chosen()) == spec_select(
                old(self).selector.spec_chosen(),
                native_available,
            ),
            final(self).registry == old(self).registry,
    {
        self.selector.select(native_available)
    }

    /// The diagnostic backend name, probing and committing like any
    /// other operation.
    pub fn backend_info(&mut self, native_available: bool, platform: Platform) -> (r: String)
        ensures
            r@ == spec_backend_info(
                spec_select(old(self).selector.spec_chosen(), native_available).0,
                platform,
            ),
            final(self).selector.spec_chosen() == spec_select(
                old(self).selector.spec_chosen(),
                native_available,
            ).1,
            final(self).registry == old(self).registry,
    {
        let b = self.selector.select(native_available);
        crate::backend::get_backend_info(b, platform)
    }

    /// Validates a browse start against the committed backend.
    pub fn start_browse(&mut self, native_available: bool, service_type: &str) -> (r: Result<
        BrowsePlan,
        StartError,
    >)
        ensures
            final(self).selector.spec_chosen() == spec_select(
                old(self).selector.spec_chosen(),
                native_available,
            ).1,
            final(self).registry == old(self).registry,
            ({
                let b = spec_select(old(self).selector.spec_chosen(), native_available).0;
                &&& (r is Err <==> (b == Backend::Native && service_type@.contains('\0')))
                &&& (r matches Ok(p) ==> p.backend == b)
                &&& (b == Backend::Native ==> (r matches Ok(p) ==> p.engine_type@
                    == service_type@))
                &&& (b == Backend::Fallback ==> (r matches Ok(p) && p.engine_type@
                    == spec_normalized_type(service_type@)))
            }),
    {
        let b = self.selector.select(native_available);
        prepare_browse(b, service_type)
    }

    /// Records a browse session the backend has started and issues its
    /// handle.
    pub fn commit_browse(&mut self, session: BrowseSession) -> (h: u32)
        requires
            old(self).registry.wf(),
            old(self).registry.spec_next() < u32::MAX,
        ensures
            final(self).registry.wf(),
            h == old(self).registry.spec_next(),
            final(self).registry.spec_next() == old(self).registry.spec_next() + 1,
            final(self).registry.browse_entries() == old(self).registry.browse_entries().push(
                (h, session),
            ),
            final(self).registry.advertise_entries() == old(self).registry.advertise_entries(),
            final(self).selector == old(self).selector,
    {
        self.registry.register_browse(session)
    }

    /// Validates an advertise start against the committed backend.
    pub fn start_advertise(
        &mut self,
        native_available: bool,
        name: &str,
        service_type: &str,
        port: u16,
        txt: &TxtRecord,
    ) -> (r: Result<AdvertisePlan, StartError>)
        requires
            1 <= port,
            txt.wf(),
        ensures
            final(self).selector.spec_chosen() == spec_select(
                old(self).selector.spec_chosen(),
                native_available,
            ).1,
            final(self).registry == old(self).registry,
            ({
                let b = spec_select(old(self).selector.spec_chosen(), native_available).0;
                &&& (r is Err <==> (b == Backend::Native && (name@.contains('\0')
                    || service_type@.contains('\0'))))
                &&& (r matches Ok(p) ==> p.backend == b && p.port == port)
                &&& (b == Backend::Native ==> (r matches Ok(p) ==> p.engine_type@
                    == service_type@ && p.txt_bytes@ == spec_encode(txt@)))
                &&& (b == Backend::Fallback ==> (r matches Ok(p) && p.engine_type@
                    == spec_normalized_type(service_type@) && p.fullname@ == name@ + "."@
                    + spec_normalized_type(service_type@) && spec_ends_with(
                    p.host@,
                    ".local."@,
                )))
            }),
    {
        let b = self.selector.select(native_available);
        prepare_advertise(b, name, service_type, port, txt)
    }

    /// Records an advertisement the backend has registered and issues
    /// its handle.
    pub fn commit_advertise(&mut self, session: AdvertiseSession) -> (h: u32)
        requires
            old(self).registry.wf(),
            old(self).registry.spec_next() < u32::MAX,
        ensures
            final(self).registry.wf(),
            h == old(self).registry.spec_next(),
            final(self).registry.spec_next() == old(self).registry.spec_next() + 1,
            final(self).registry.advertise_entries() == old(
                self,
            ).registry.advertise_entries().push((h, session)),
            final(self).registry.browse_entries() == old(self).registry.browse_entries(),
            final(self).selector == old(self).selector,
    {
        self.registry.register_advertise(session)
    }

    /// Removes a browse session for teardown; Some exactly when the
    /// handle was live.
    pub fn stop_browse(&mut self, h: u32) -> (r: Option<BrowseSession>)
        requires
            old(self).registry.wf(),
        ensures
            final(self).registry.wf(),
            r is Some <==> crate::registry::spec_has_key(old(self).registry.browse_entries(), h),
            final(self).registry.browse_entries() == crate::registry::spec_remove_key(
                old(self).registry.browse_entries(),
                h,
            ),
            !crate::registry::spec_has_key(final(self).registry.browse_entries(), h),
            final(self).registry.advertise_entries() == old(self).registry.advertise_entries(),
            final(self).registry.spec_next() == old(self).registry.spec_next(),
            final(self).selector == old(self).selector,
    {
        self.registry.stop_browse(h)
    }

    /// Removes an advertisement for teardown; Some exactly when the
    /// handle was live.
    pub fn stop_advertise(&mut self, h: u32) -> (r: Option<AdvertiseSession>)
        requires
            old(self).registry.wf(),
        ensures
            final(self).registry.wf(),
            r is Some <==> crate::registry::spec_has_key(
                old(self).registry.advertise_entries(),
                h,
            ),
            final(self).registry.advertise_entries() == crate::registry::spec_remove_key(
                old(self).registry.advertise_entries(),
                h,
            ),
            !crate::registry::spec_has_key(final(self).registry.advertise_entries(), h),
            final(self).registry.browse_entries() == old(self).registry.browse_entries(),
            final(self).registry.spec_next() == old(self).registry.spec_next(),
            final(self).selector == old(self).selector,
    {
        self.registry.stop_advertise(h)
    }
}

} // verus!
