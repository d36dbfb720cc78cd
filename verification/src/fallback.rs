//! Adapting the in-process multicast DNS engine's event model to the
//! canonical result shape. The engine itself is an external collaborator
//! the host drains on a session thread; everything it reports passes
//! through these translations.

use crate::service::ServiceInfo;
use crate::strutil::{first_label, spec_ends_with, spec_first_label, spec_type_of_fullname,
    service_type_of_fullname};
use crate::txt::TxtRecord;
use vstd::prelude::*;
use vstd::string::StringExecFns;

verus! {

/// The addresses in feeding order with every repeat of an earlier
/// address dropped.
pub open spec fn spec_dedup_addrs(s: Seq<Seq<char>>) -> Seq<Seq<char>>
    decreases s.len(),
{
    if s.len() == 0 {
        s
    } else {
        let rest = spec_dedup_addrs(s.drop_last());
        if rest.contains(s.last()) {
            rest
        } else {
            rest.push(s.last())
        }
    }
}

/// Translates one resolved event of the fallback engine into a found
/// result: the instance name is the full name's first label, the type
/// its second and third labels, the domain the local scope; addresses
/// are deduplicated in the order the engine gave them; the engine's
/// model surfaces no TTL, so the TTL is 0.
pub fn fallback_resolved_info(
    fullname: &str,
    host_name: String,
    addresses: Vec<String>,
    port: u16,
    txt: TxtRecord,
) -> (r: ServiceInfo)
    ensures
        r.name@ == spec_first_label(fullname@),
        r.service_type@ == spec_type_of_fullname(fullname@),
        r.domain@ == "local"@,
        r.host_name == host_name,
        r.addrs() == spec_dedup_addrs(addresses@.map_values(|a: String| a@)),
        r.addrs_unique(),
        r.port == port,
        r.txt == txt,
        r.ttl == 0,
{
    let name = first_label(fullname);
    let service_type = service_type_of_fullname(fullname);
    let mut info = ServiceInfo::minimal(name, service_type, String::from_str("local"));
    info.apply_resolved(host_name, port, txt);
    let ghost given = addresses@.map_values(|a: String| a@);
    let mut i: usize = 0;
    while i < addresses.len()
        invariant
            i <= addresses@.len(),
            given == addresses@.map_values(|a: String| a@),
            info.addrs() == spec_dedup_addrs(given.take(i as int)),
            info.addrs_unique(),
            info.name@ == spec_first_label(fullname@),
            info.service_type@ == spec_type_of_fullname(fullname@),
            info.domain@ == "local"@,
            info.host_name == host_name,
            info.port == port,
            info.txt == txt,
            info.ttl == 0,
        decreases addresses@.len() - i,
    {
        let a = addresses[i].clone();
        proof {
            assert(given.take(i + 1 as int).drop_last() =~= given.take(i as int));
            assert(given.take(i + 1 as int).last() == a@);
        }
        info.add_address(a);
        i += 1;
    }
    proof {
        assert(given.take(given.len() as int) =~= given);
    }
    info
}

/// Translates one removed event of the fallback engine into the minimal
/// lost result: the instance name is the full name's first label, the
/// type is what the event carried, everything else stays at its empty
/// default.
pub fn fallback_removed_info(service_type: String, fullname: &str) -> (r: ServiceInfo)
    ensures
        r.name@ == spec_first_label(fullname@),
        r.service_type == service_type,
        r.domain@ == "local"@,
        r.is_minimal(),
        r.addrs_unique(),
{
    let name = first_label(fullname);
    ServiceInfo::minimal(name, service_type, String::from_str("local"))
}

/// Relies on hostname::get: asks the operating system for this machine's
/// hostname. The answer is machine state, so nothing is promised of it;
/// an error is handed through for the caller to fall back on.
#[verifier::external_body]
fn system_hostname() -> (r: Result<String, ()>) {
    match hostname::get() {
        Ok(h) => Ok(h.to_string_lossy().into_owned()),
        Err(_) => Err(()),
    }
}

/// The host name an advertisement registers under: the system hostname,
/// or a plain local placeholder when none can be had, under the local
/// scope suffix.
pub fn advertise_host_name() -> (r: String)
    ensures
        spec_ends_with(r@, ".local."@),
{
    let base = match system_hostname() {
        Ok(h) => h,
        Err(()) => String::from_str("localhost"),
    };
    let r = base.concat(".local.");
    proof {
        assert(r@.skip(r@.len() - ".local."@.len()) =~= ".local."@);
    }
    r
}

/// The fully qualified name the engine gives a registered instance, and
/// the key a later unregister goes by: the instance name under the
/// normalized type.
pub fn fallback_fullname(name: &str, engine_type: &str) -> (r: String)
    ensures
        r@ == name@ + "."@ + engine_type@,
{
    String::from_str(name).concat(".").concat(engine_type)
}

} // verus!
