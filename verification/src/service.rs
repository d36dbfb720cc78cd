//! The discovery result and the per-instance resolution state.
//!
//! A `ServiceInfo` is refined progressively while one instance resolves:
//! identity first, then host, port and TXT attributes, then each address.
//! Fields are only added or overwritten with more complete data; addresses
//! are deduplicated, and each genuinely new address is what prompts one
//! more emission to the caller.

use crate::addr::{format_ipv4, format_ipv6, spec_ipv4, spec_ipv6, spec_ipv6_groups};
use crate::txt::TxtRecord;
use vstd::prelude::*;
use vstd::string::StringExecFnsIsAscii;

verus! {

/// DNS record type number of an IPv4 address record.
pub const RECORD_TYPE_A: u16 = 1;

/// DNS record type number of an IPv6 address record.
pub const RECORD_TYPE_AAAA: u16 = 28;

/// The canonical discovery result, refined progressively per instance.
#[derive(Debug, Clone)]
pub struct ServiceInfo {
    pub name: String,
    pub service_type: String,
    pub domain: String,
    pub host_name: String,
    pub addresses: Vec<String>,
    pub port: u16,
    pub txt: TxtRecord,
    pub ttl: u32,
}

/// The raw bytes of one resolved IP address.
#[derive(Debug, Clone)]
pub enum IpBytes {
    /// Four IPv4 address bytes.
    V4(u8, u8, u8, u8),
    /// Sixteen IPv6 address bytes in network order.
    V6(Vec<u8>),
}

/// The textual form this crate gives an address's raw bytes.
pub open spec fn spec_ip_text(ip: IpBytes) -> Seq<char> {
    match ip {
        IpBytes::V4(a, b, c, d) => spec_ipv4(a, b, c, d),
        IpBytes::V6(b) => spec_ipv6(spec_ipv6_groups(b@)),
    }
}

/// The address an A or AAAA record's payload denotes, if the record type
/// and payload length pair up; anything else carries no address.
pub open spec fn spec_query_ip(rrtype: u16, rdata: Seq<u8>) -> Option<Seq<char>> {
    if rrtype == RECORD_TYPE_A && rdata.len() == 4 {
        Some(spec_ipv4(rdata[0], rdata[1], rdata[2], rdata[3]))
    } else if rrtype == RECORD_TYPE_AAAA && rdata.len() == 16 {
        Some(spec_ipv6(spec_ipv6_groups(rdata)))
    } else {
        None
    }
}

impl ServiceInfo {
    /// The addresses as text sequences.
    pub open spec fn addrs(&self) -> Seq<Seq<char>> {
        self.addresses@.map_values(|a: String| a@)
    }

    /// No address occurs twice.
    pub open spec fn addrs_unique(&self) -> bool {
        forall|i: int, j: int|
            0 <= i < j < self.addrs().len() ==> self.addrs()[i] != self.addrs()[j]
    }

    /// All fields but the three identity fields at their empty defaults.
    pub open spec fn is_minimal(&self) -> bool {
        &&& self.host_name@ == Seq::<char>::empty()
        &&& self.addresses@ == Seq::<String>::empty()
        &&& self.port == 0
        &&& self.txt@ == Seq::<(Seq<u8>, Seq<u8>)>::empty()
        &&& self.ttl == 0
    }

    /// A result carrying only the instance's identity: what a browse
    /// event knows before resolution, and all a removal event reports.
    pub fn minimal(name: String, service_type: String, domain: String) -> (r: ServiceInfo)
        ensures
            r.name == name,
            r.service_type == service_type,
            r.domain == domain,
            r.is_minimal(),
            r.addrs_unique(),
    {
        let r = ServiceInfo {
            name,
            service_type,
            domain,
            host_name: String::new(),
            addresses: Vec::new(),
            port: 0,
            txt: TxtRecord::new(),
            ttl: 0,
        };
        proof {
            assert(r.addrs() =~= Seq::<Seq<char>>::empty());
        }
        r
    }

    /// Whether the host name has been learnt yet: resolution polls until
    /// it has, and gives up silently if it never arrives.
    pub fn has_host(&self) -> (r: bool)
        ensures
            r == (self.host_name@.len() != 0),
    {
        self.host_name.as_str().unicode_len() != 0
    }

    /// Records what a resolve answer carries: host, port and TXT
    /// attributes. Identity, addresses and TTL stay as they were.
    pub fn apply_resolved(&mut self, host_name: String, port: u16, txt: TxtRecord)
        ensures
            final(self).host_name == host_name,
            final(self).port == port,
            final(self).txt == txt,
            final(self).name == old(self).name,
            final(self).service_type == old(self).service_type,
            final(self).domain == old(self).domain,
            final(self).addresses == old(self).addresses,
            final(self).ttl == old(self).ttl,
    {
        self.host_name = host_name;
        self.port = port;
        self.txt = txt;
    }

    /// Whether this address text was already seen.
    pub fn contains_address(&self, addr: &String) -> (r: bool)
        ensures
            r == self.addrs().contains(addr@),
    {
        let mut j: usize = 0;
        while j < self.addresses.len()
            invariant
                j <= self.addresses@.len(),
                forall|t: int| 0 <= t < j ==> self.addrs()[t] != addr@,
            decreases self.addresses@.len() - j,
        {
            if self.addresses[j] == *addr {
                assert(self.addrs()[j as int] == addr@);
                return true;
            }
            j += 1;
        }
        proof {
            if self.addrs().contains(addr@) {
                let t = choose|t: int|
                    0 <= t < self.addrs().len() && self.addrs()[t] == addr@;
                assert(self.addrs()[t] != addr@);
            }
        }
        false
    }

    /// Appends the address unless it was already seen; true means it was
    /// new, and exactly then does the caller re-emit the result.
    pub fn add_address(&mut self, addr: String) -> (added: bool)
        ensures
            (final(self).addrs(), added) == spec_add_address(old(self).addrs(), addr@),
            added == !old(self).addrs().contains(addr@),
            added ==> final(self).addrs() == old(self).addrs().push(addr@),
            !added ==> final(self).addresses == old(self).addresses,
            old(self).addrs_unique() ==> final(self).addrs_unique(),
            final(self).name == old(self).name,
            final(self).service_type == old(self).service_type,
            final(self).domain == old(self).domain,
            final(self).host_name == old(self).host_name,
            final(self).port == old(self).port,
            final(self).txt == old(self).txt,
            final(self).ttl == old(self).ttl,
    {
        if self.contains_address(&addr) {
            false
        } else {
            let ghost prev = self.addrs();
            let ghost a = addr@;
            self.addresses.push(addr);
            proof {
                assert(self.addrs() =~= prev.push(a));
                if old(self).addrs_unique() {
                    assert forall|i: int, j: int|
                        0 <= i < j < self.addrs().len() implies self.addrs()[i]
                        != self.addrs()[j] by {
                        if j == self.addrs().len() - 1 {
                            assert(!prev.contains(a));
                            assert(prev[i] != a);
                        }
                    }
                }
            }
            true
        }
    }

    /// Applies one answer of the modern address-resolution strategy: the
    /// TTL is captured unconditionally, and an address of a known family
    /// is deduplicated and appended. True means a new address arrived and
    /// the refined result is to be emitted again.
    pub fn apply_addr_info(&mut self, ip: Option<IpBytes>, ttl: u32) -> (emitted: bool)
        requires
            (match ip {
                Some(IpBytes::V6(b)) => b@.len() == 16,
                _ => true,
            }),
        ensures
            final(self).ttl == ttl,
            (match ip {
                None => {
                    &&& !emitted
                    &&& final(self).addresses == old(self).addresses
                },
                Some(p) => {
                    &&& emitted == !old(self).addrs().contains(spec_ip_text(p))
                    &&& (emitted ==> final(self).addrs() == old(self).addrs().push(
                        spec_ip_text(p),
                    ))
                    &&& (!emitted ==> final(self).addresses == old(self).addresses)
                },
            }),
            old(self).addrs_unique() ==> final(self).addrs_unique(),
            final(self).name == old(self).name,
            final(self).service_type == old(self).service_type,
            final(self).domain == old(self).domain,
            final(self).host_name == old(self).host_name,
            final(self).port == old(self).port,
            final(self).txt == old(self).txt,
    {
        self.ttl = ttl;
        match ip {
            None => {
                proof {
                    assert(self.addrs() =~= old(self).addrs());
                }
                false
            },
            Some(IpBytes::V4(a, b, c, d)) => {
                let text = format_ipv4(a, b, c, d);
                self.add_address(text)
            },
            Some(IpBytes::V6(bytes)) => {
                let text = format_ipv6(bytes.as_slice());
                self.add_address(text)
            },
        }
    }

    /// Applies one answer of the compatibility strategy's low-level
    /// record queries: a non-zero TTL is preferred over whatever stood
    /// before, and an A or AAAA payload of the right length is
    /// deduplicated and appended. True means a new address arrived and
    /// the refined result is to be emitted again.
    pub fn apply_query_record(&mut self, rrtype: u16, rdata: &[u8], ttl: u32) -> (emitted: bool)
        ensures
            final(self).ttl == (if ttl > 0 { ttl } else { old(self).ttl }),
            (match spec_query_ip(rrtype, rdata@) {
                None => {
                    &&& !emitted
                    &&& final(self).addresses == old(self).addresses
                },
                Some(text) => {
                    &&& emitted == !old(self).addrs().contains(text)
                    &&& (emitted ==> final(self).addrs() == old(self).addrs().push(text))
                    &&& (!emitted ==> final(self).addresses == old(self).addresses)
                },
            }),
            old(self).addrs_unique() ==> final(self).addrs_unique(),
            final(self).name == old(self).name,
            final(self).service_type == old(self).service_type,
            final(self).domain == old(self).domain,
            final(self).host_name == old(self).host_name,
            final(self).port == old(self).port,
            final(self).txt == old(self).txt,
    {
        if ttl > 0 {
            self.ttl = ttl;
        }
        if rrtype == RECORD_TYPE_A && rdata.len() == 4 {
            let text = format_ipv4(rdata[0], rdata[1], rdata[2], rdata[3]);
            self.add_address(text)
        } else if rrtype == RECORD_TYPE_AAAA && rdata.len() == 16 {
            let text = format_ipv6(rdata);
            self.add_address(text)
        } else {
            false
        }
    }
}

/// What feeding one address into the resolution state does to the list
/// of addresses, and whether it prompts an emission.
pub open spec fn spec_add_address(addrs: Seq<Seq<char>>, a: Seq<char>) -> (Seq<Seq<char>>, bool) {
    if addrs.contains(a) {
        (addrs, false)
    } else {
        (addrs.push(a), true)
    }
}

/// Feeding the same address twice into one resolution state yields
/// exactly one entry for it and exactly one emission: the first feeding
/// of a new address appends it and emits, the second changes nothing and
/// emits nothing.
pub proof fn lemma_address_dedup(addrs: Seq<Seq<char>>, a: Seq<char>)
    requires
        !addrs.contains(a),
    ensures
        ({
            let first = spec_add_address(addrs, a);
            let second = spec_add_address(first.0, a);
            &&& first.1
            &&& first.0 == addrs.push(a)
            &&& !second.1
            &&& second.0 == first.0
        }),
{
    assert(addrs.push(a)[addrs.len() as int] == a);
}

} // verus!
