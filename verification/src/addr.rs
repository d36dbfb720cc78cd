//! Textual IP addresses from raw record bytes, and the network-order
//! port decode.
//!
//! IPv4 is printed as the dotted quad. IPv6 is printed as colon-joined
//! lower-case hexadecimal groups with the leftmost longest run of two or
//! more zero groups compressed to `::`.

use crate::numfmt::{push_udec, push_uhex, spec_udec, spec_uhex};
use vstd::prelude::*;
use vstd::string::StringExecFns;

verus! {

/// A 16-bit port from its two network-order (big-endian) bytes.
pub fn port_from_network_bytes(hi: u8, lo: u8) -> (port: u16)
    ensures
        port == hi * 256 + lo,
{
    (hi as u16) * 256 + (lo as u16)
}

/// The two network-order (big-endian) bytes of a 16-bit port, high
/// byte first.
pub fn port_network_bytes(port: u16) -> (r: (u8, u8))
    ensures
        r.0 == port / 256,
        r.1 == port % 256,
        r.0 * 256 + r.1 == port,
{
    ((port / 256) as u8, (port % 256) as u8)
}

/// The dotted-quad text of four IPv4 address bytes.
pub open spec fn spec_ipv4(a: u8, b: u8, c: u8, d: u8) -> Seq<char> {
    spec_udec(a as int) + seq!['.'] + spec_udec(b as int) + seq!['.'] + spec_udec(c as int)
        + seq!['.'] + spec_udec(d as int)
}

/// Formats four IPv4 address bytes as their dotted quad.
pub fn format_ipv4(a: u8, b: u8, c: u8, d: u8) -> (r: String)
    ensures
        r@ == spec_ipv4(a, b, c, d),
{
    let mut out = String::new();
    proof {
        reveal_strlit(".");
    }
    push_udec(&mut out, a as u32);
    out.append(".");
    push_udec(&mut out, b as u32);
    out.append(".");
    push_udec(&mut out, c as u32);
    out.append(".");
    push_udec(&mut out, d as u32);
    proof {
        assert(out@ =~= spec_ipv4(a, b, c, d));
    }
    out
}

/// The eight 16-bit groups of an IPv6 address, from its sixteen bytes in
/// network order.
pub open spec fn spec_ipv6_groups(b: Seq<u8>) -> Seq<u16> {
    Seq::new(8, |i: int| (b[2 * i] * 256 + b[2 * i + 1]) as u16)
}

/// How many consecutive zero groups start at position `i`.
pub open spec fn spec_zero_run(g: Seq<u16>, i: int) -> int
    decreases g.len() - i, when 0 <= i <= g.len()
{
    if i >= g.len() || g[i] != 0 {
        0
    } else {
        1 + spec_zero_run(g, i + 1)
    }
}

/// The leftmost longest zero run at or after `i`: (start, length).
pub open spec fn spec_best_zero_run(g: Seq<u16>, i: int) -> (int, int)
    decreases g.len() - i, when 0 <= i <= g.len()
{
    if i >= g.len() {
        (i, 0)
    } else {
        let cur = spec_zero_run(g, i);
        let rest = spec_best_zero_run(g, i + 1);
        if cur >= rest.1 {
            (i, cur)
        } else {
            rest
        }
    }
}

/// The hexadecimal texts of groups `from..to`, joined by colons.
pub open spec fn spec_hex_groups(g: Seq<u16>, from: int, to: int) -> Seq<char>
    decreases to - from, when from <= to <= g.len()
{
    if from >= to {
        Seq::<char>::empty()
    } else if from + 1 == to {
        spec_uhex(g[from] as int)
    } else {
        spec_uhex(g[from] as int) + seq![':'] + spec_hex_groups(g, from + 1, to)
    }
}

/// The text of an IPv6 address from its eight groups: all groups joined
/// by colons, or, when the leftmost longest zero run spans two or more
/// groups, that run compressed to a double colon.
pub open spec fn spec_ipv6(g: Seq<u16>) -> Seq<char> {
    let run = spec_best_zero_run(g, 0);
    if run.1 >= 2 {
        spec_hex_groups(g, 0, run.0) + seq![':', ':'] + spec_hex_groups(g, run.0 + run.1, 8)
    } else {
        spec_hex_groups(g, 0, 8)
    }
}

fn push_hex_groups(out: &mut String, groups: &Vec<u16>, from: usize, to: usize)
    requires
        from <= to <= groups@.len(),
    ensures
        final(out)@ == old(out)@ + spec_hex_groups(groups@, from as int, to as int),
    decreases to - from,
{
    if from >= to {
        proof {
            assert(old(out)@ + spec_hex_groups(groups@, from as int, to as int) =~= old(out)@);
        }
    } else if from + 1 == to {
        push_uhex(out, groups[from] as u32);
    } else {
        let ghost start = out@;
        push_uhex(out, groups[from] as u32);
        proof {
            reveal_strlit(":");
        }
        out.append(":");
        push_hex_groups(out, groups, from + 1, to);
        proof {
            assert(start + spec_uhex(groups@[from as int] as int) + ":"@ + spec_hex_groups(
                groups@,
                from + 1 as int,
                to as int,
            ) =~= start + spec_hex_groups(groups@, from as int, to as int));
        }
    }
}

fn best_zero_run(groups: &Vec<u16>) -> (r: (usize, usize))
    requires
        groups@.len() == 8,
    ensures
        r.0 as int == spec_best_zero_run(groups@, 0).0,
        r.1 as int == spec_best_zero_run(groups@, 0).1,
        r.0 + r.1 <= 8,
{
    let mut i: usize = 8;
    let mut cur: usize = 0;
    let mut best_start: usize = 8;
    let mut best_len: usize = 0;
    while i > 0
        invariant
            groups@.len() == 8,
            i <= 8,
            cur as int == spec_zero_run(groups@, i as int),
            best_start as int == spec_best_zero_run(groups@, i as int).0,
            best_len as int == spec_best_zero_run(groups@, i as int).1,
            cur <= 8 - i,
            best_start + best_len <= 8,
        decreases i,
    {
        i = i - 1;
        if groups[i] == 0 {
            cur = cur + 1;
        } else {
            cur = 0;
        }
        if cur >= best_len {
            best_start = i;
            best_len = cur;
        }
        proof {
            assert(cur as int == spec_zero_run(groups@, i as int));
        }
    }
    (best_start, best_len)
}

/// Formats sixteen IPv6 address bytes, network order, as text.
pub fn format_ipv6(bytes: &[u8]) -> (r: String)
    requires
        bytes@.len() == 16,
    ensures
        r@ == spec_ipv6(spec_ipv6_groups(bytes@)),
{
    let mut groups: Vec<u16> = Vec::new();
    let mut k: usize = 0;
    while k < 8
        invariant
            bytes@.len() == 16,
            k <= 8,
            groups@.len() == k,
            forall|i: int| 0 <= i < k ==> groups@[i] == spec_ipv6_groups(bytes@)[i],
        decreases 8 - k,
    {
        let hi = bytes[2 * k];
        let lo = bytes[2 * k + 1];
        groups.push((hi as u16) * 256 + (lo as u16));
        k += 1;
    }
    proof {
        assert(groups@ =~= spec_ipv6_groups(bytes@));
    }
    let (start, len) = best_zero_run(&groups);
    let mut out = String::new();
    if len >= 2 {
        push_hex_groups(&mut out, &groups, 0, start);
        proof {
            reveal_strlit("::");
        }
        out.append("::");
        let ghost mid = out@;
        push_hex_groups(&mut out, &groups, start + len, 8);
        proof {
            assert(Seq::<char>::empty() + spec_hex_groups(groups@, 0, start as int) + "::"@
                + spec_hex_groups(groups@, start + len as int, 8) =~= spec_ipv6(groups@));
        }
    } else {
        push_hex_groups(&mut out, &groups, 0, 8);
        proof {
            assert(Seq::<char>::empty() + spec_hex_groups(groups@, 0, 8) =~= spec_ipv6(groups@));
        }
    }
    out
}

} // verus!
