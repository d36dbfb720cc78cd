//! The handle registry: two tables of live sessions, browse and
//! advertise, keyed by one shared, monotonically increasing handle
//! counter. A handle is issued once and never reused while the process
//! runs; stopping removes the entry and reports whether one existed.

use crate::backend::Backend;
use vstd::prelude::*;

verus! {

/// The registry's record of a live browse session.
#[derive(Debug)]
pub struct BrowseSession {
    pub backend: Backend,
    pub service_type: String,
}

/// The registry's record of a live advertisement.
#[derive(Debug)]
pub struct AdvertiseSession {
    pub backend: Backend,
    pub name: String,
    pub service_type: String,
    pub port: u16,
    /// The fully qualified name the fallback engine unregisters by;
    /// empty for a native advertisement.
    pub fullname: String,
}

/// Whether a key occurs in a table.
pub open spec fn spec_has_key<T>(items: Seq<(u32, T)>, h: u32) -> bool {
    exists|i: int| 0 <= i < items.len() && (#[trigger] items[i]).0 == h
}

/// The table with the first entry under a key removed; unchanged if the
/// key is absent.
pub open spec fn spec_remove_key<T>(items: Seq<(u32, T)>, h: u32) -> Seq<(u32, T)>
    decreases items.len(),
{
    if items.len() == 0 {
        items
    } else if items[0].0 == h {
        items.skip(1)
    } else {
        seq![items[0]] + spec_remove_key(items.skip(1), h)
    }
}

/// All keys of the table are distinct.
pub open spec fn spec_keys_unique<T>(items: Seq<(u32, T)>) -> bool {
    forall|i: int, j: int|
        0 <= i < j < items.len() ==> (#[trigger] items[i]).0 != (#[trigger] items[j]).0
}

/// All keys of the table were issued: at least 1 and below the counter.
pub open spec fn spec_keys_below<T>(items: Seq<(u32, T)>, next: u32) -> bool {
    forall|i: int| 0 <= i < items.len() ==> 1 <= (#[trigger] items[i]).0 < next
}

proof fn lemma_remove_key_absent<T>(items: Seq<(u32, T)>, h: u32)
    requires
        !spec_has_key(items, h),
    ensures
        spec_remove_key(items, h) == items,
    decreases items.len(),
{
    if items.len() == 0 {
    } else {
        assert(items[0].0 != h);
        assert(!spec_has_key(items.skip(1), h)) by {
            if exists|i: int| 0 <= i < items.skip(1).len() && (#[trigger] items.skip(1)[i]).0
                == h {
                let i = choose|i: int|
                    0 <= i < items.skip(1).len() && (#[trigger] items.skip(1)[i]).0 == h;
                assert(items[i + 1].0 == h);
            }
        }
        lemma_remove_key_absent(items.skip(1), h);
        assert(seq![items[0]] + items.skip(1) =~= items);
    }
}

proof fn lemma_remove_at_first_match<T>(items: Seq<(u32, T)>, h: u32, i: int)
    requires
        0 <= i < items.len(),
        items[i].0 == h,
        forall|j: int| 0 <= j < i ==> (#[trigger] items[j]).0 != h,
    ensures
        spec_remove_key(items, h) == items.remove(i),
    decreases items.len(),
{
    if i == 0 {
        assert(items.remove(0) =~= items.skip(1));
    } else {
        assert(items[0].0 != h);
        assert(items.skip(1)[i - 1].0 == h);
        assert(forall|j: int| 0 <= j < i - 1 ==> (#[trigger] items.skip(1)[j]).0 != h) by {
            assert(forall|j: int|
                0 <= j < i - 1 ==> #[trigger] items.skip(1)[j] == items[j + 1]);
        }
        lemma_remove_at_first_match(items.skip(1), h, i - 1);
        assert(seq![items[0]] + items.skip(1).remove(i - 1) =~= items.remove(i));
    }
}

/// Each element of the table-after-removal stood in the table before.
proof fn lemma_remove_key_element<T>(items: Seq<(u32, T)>, h: u32, j: int)
    requires
        0 <= j < spec_remove_key(items, h).len(),
    ensures
        exists|t: int|
            0 <= t < items.len() && #[trigger] items[t] == spec_remove_key(items, h)[j],
    decreases items.len(),
{
    if items.len() == 0 {
    } else if items[0].0 == h {
        assert(items[j + 1] == spec_remove_key(items, h)[j]);
    } else {
        if j == 0 {
            assert(items[0] == spec_remove_key(items, h)[0]);
        } else {
            lemma_remove_key_element(items.skip(1), h, j - 1);
            let t = choose|t: int|
                0 <= t < items.skip(1).len() && #[trigger] items.skip(1)[t] == spec_remove_key(
                    items.skip(1),
                    h,
                )[j - 1];
            assert(spec_remove_key(items, h)[j] == spec_remove_key(items.skip(1), h)[j - 1]);
            assert(items[t + 1] == spec_remove_key(items, h)[j]);
        }
    }
}

/// Removing a key from a table with distinct keys leaves the keys
/// distinct and the removed key gone: stopping the same handle again
/// finds nothing.
pub proof fn lemma_remove_key_unique<T>(items: Seq<(u32, T)>, h: u32)
    requires
        spec_keys_unique(items),
    ensures
        spec_keys_unique(spec_remove_key(items, h)),
        !spec_has_key(spec_remove_key(items, h), h),
    decreases items.len(),
{
    let out = spec_remove_key(items, h);
    if items.len() == 0 {
    } else if items[0].0 == h {
        assert(forall|i: int, j: int|
            0 <= i < j < out.len() ==> (#[trigger] out[i]).0 != (#[trigger] out[j]).0) by {
            assert(forall|i: int| 0 <= i < out.len() ==> #[trigger] out[i] == items[i + 1]);
        }
        if exists|i: int| 0 <= i < out.len() && (#[trigger] out[i]).0 == h {
            let i = choose|i: int| 0 <= i < out.len() && (#[trigger] out[i]).0 == h;
            assert(items[i + 1].0 == h);
            assert(items[0].0 == items[i + 1].0);
        }
    } else {
        assert(spec_keys_unique(items.skip(1))) by {
            assert(forall|i: int|
                0 <= i < items.skip(1).len() ==> #[trigger] items.skip(1)[i] == items[i + 1]);
        }
        lemma_remove_key_unique(items.skip(1), h);
        let tail = spec_remove_key(items.skip(1), h);
        assert forall|i: int, j: int| 0 <= i < j < out.len() implies (#[trigger] out[i]).0
            != (#[trigger] out[j]).0 by {
            if i == 0 {
                assert(out[j] == tail[j - 1]);
                lemma_remove_key_element(items.skip(1), h, j - 1);
                let t = choose|t: int|
                    0 <= t < items.skip(1).len() && #[trigger] items.skip(1)[t] == tail[j - 1];
                assert(items[t + 1] == tail[j - 1]);
                assert(items[0].0 != items[t + 1].0);
            } else {
                assert(out[i] == tail[i - 1] && out[j] == tail[j - 1]);
            }
        }
        if exists|i: int| 0 <= i < out.len() && (#[trigger] out[i]).0 == h {
            let i = choose|i: int| 0 <= i < out.len() && (#[trigger] out[i]).0 == h;
            if i == 0 {
                assert(items[0].0 == h);
            } else {
                assert(out[i] == tail[i - 1]);
                assert(spec_has_key(tail, h));
            }
        }
    }
}

/// A handle at or above the counter was never issued, so no table holds
/// it: stopping it finds nothing.
pub proof fn lemma_unissued_key_absent<T>(items: Seq<(u32, T)>, next: u32, h: u32)
    requires
        spec_keys_below(items, next),
        h >= next,
    ensures
        !spec_has_key(items, h),
{
}

/// The position of the first entry under a key, if any.
fn table_find<T>(items: &Vec<(u32, T)>, h: u32) -> (r: Option<usize>)
    ensures
        (match r {
            Some(i) => {
                &&& i < items@.len()
                &&& items@[i as int].0 == h
                &&& forall|j: int| 0 <= j < i ==> (#[trigger] items@[j]).0 != h
            },
            None => !spec_has_key(items@, h),
        }),
{
    let mut i: usize = 0;
    while i < items.len()
        invariant
            i <= items@.len(),
            forall|j: int| 0 <= j < i ==> (#[trigger] items@[j]).0 != h,
        decreases items@.len() - i,
    {
        if items[i].0 == h {
            return Some(i);
        }
        i += 1;
    }
    None
}

/// Removes the first entry under a key and hands its session out.
fn table_remove<T>(items: &mut Vec<(u32, T)>, h: u32) -> (r: Option<T>)
    ensures
        r is Some <==> spec_has_key(old(items)@, h),
        final(items)@ == spec_remove_key(old(items)@, h),
        (r matches Some(v) ==> exists|i: int|
            0 <= i < old(items)@.len() && #[trigger] old(items)@[i] == (h, v)),
{
    match table_find(items, h) {
        Some(i) => {
            proof {
                lemma_remove_at_first_match(items@, h, i as int);
            }
            let pair = items.remove(i);
            assert(old(items)@[i as int] == (h, pair.1));
            Some(pair.1)
        },
        None => {
            proof {
                lemma_remove_key_absent(items@, h);
            }
            None
        },
    }
}

/// The registry itself: one counter, two tables.
pub struct HandleRegistry {
    next: u32,
    browsers: Vec<(u32, BrowseSession)>,
    advertisements: Vec<(u32, AdvertiseSession)>,
}

impl HandleRegistry {
    /// The next handle to issue.
    pub closed spec fn spec_next(&self) -> u32 {
        self.next
    }

    /// The live browse sessions, in registration order.
    pub closed spec fn browse_entries(&self) -> Seq<(u32, BrowseSession)> {
        self.browsers@
    }

    /// The live advertisements, in registration order.
    pub closed spec fn advertise_entries(&self) -> Seq<(u32, AdvertiseSession)> {
        self.advertisements@
    }

    /// Handles start at 1, every stored handle was issued, each table's
    /// keys are distinct, and the tables share no handle.
    pub open spec fn wf(&self) -> bool {
        &&& 1 <= self.spec_next()
        &&& spec_keys_unique(self.browse_entries())
        &&& spec_keys_unique(self.advertise_entries())
        &&& spec_keys_below(self.browse_entries(), self.spec_next())
        &&& spec_keys_below(self.advertise_entries(), self.spec_next())
        &&& forall|i: int, j: int|
            0 <= i < self.browse_entries().len() && 0 <= j < self.advertise_entries().len()
                ==> (#[trigger] self.browse_entries()[i]).0 != (
            #[trigger] self.advertise_entries()[j]).0
    }

    /// An empty registry; the first handle issued will be 1.
    pub fn new() -> (r: HandleRegistry)
        ensures
            r.wf(),
            r.spec_next() == 1,
            r.browse_entries() == Seq::<(u32, BrowseSession)>::empty(),
            r.advertise_entries() == Seq::<(u32, AdvertiseSession)>::empty(),
    {
        let r = HandleRegistry { next: 1, browsers: Vec::new(), advertisements: Vec::new() };
        proof {
            assert(r.browse_entries() =~= Seq::<(u32, BrowseSession)>::empty());
            assert(r.advertise_entries() =~= Seq::<(u32, AdvertiseSession)>::empty());
        }
        r
    }

    /// Issues the next handle to a new browse session.
    pub fn register_browse(&mut self, session: BrowseSession) -> (h: u32)
        requires
            old(self).wf(),
            old(self).spec_next() < u32::MAX,
        ensures
            final(self).wf(),
            h == old(self).spec_next(),
            final(self).spec_next() == old(self).spec_next() + 1,
            final(self).browse_entries() == old(self).browse_entries().push((h, session)),
            final(self).advertise_entries() == old(self).advertise_entries(),
            !spec_has_key(old(self).browse_entries(), h),
            !spec_has_key(old(self).advertise_entries(), h),
    {
        let h = self.next;
        self.next = self.next + 1;
        self.browsers.push((h, session));
        proof {
            lemma_unissued_key_absent(old(self).browse_entries(), h, h);
            lemma_unissued_key_absent(old(self).advertise_entries(), h, h);
            assert(forall|i: int|
                0 <= i < old(self).browse_entries().len()
                    ==> #[trigger] self.browse_entries()[i] == old(self).browse_entries()[i]);
        }
        h
    }

    /// Issues the next handle to a new advertisement.
    pub fn register_advertise(&mut self, session: AdvertiseSession) -> (h: u32)
        requires
            old(self).wf(),
            old(self).spec_next() < u32::MAX,
        ensures
            final(self).wf(),
            h == old(self).spec_next(),
            final(self).spec_next() == old(self).spec_next() + 1,
            final(self).advertise_entries() == old(self).advertise_entries().push((h, session)),
            final(self).browse_entries() == old(self).browse_entries(),
            !spec_has_key(old(self).browse_entries(), h),
            !spec_has_key(old(self).advertise_entries(), h),
    {
        let h = self.next;
        self.next = self.next + 1;
        self.advertisements.push((h, session));
        proof {
            lemma_unissued_key_absent(old(self).browse_entries(), h, h);
            lemma_unissued_key_absent(old(self).advertise_entries(), h, h);
            assert(forall|i: int|
                0 <= i < old(self).advertise_entries().len()
                    ==> #[trigger] self.advertise_entries()[i] == old(
                self).advertise_entries()[i]);
        }
        h
    }

    /// Removes a browse session and hands it out for teardown. Some
    /// exactly when the handle was live: a second stop of the same
    /// handle, or a stop of a never-issued one, returns None.
    pub fn stop_browse(&mut self, h: u32) -> (r: Option<BrowseSession>)
        requires
            old(self).wf(),
        ensures
            final(self).wf(),
            r is Some <==> spec_has_key(old(self).browse_entries(), h),
            final(self).browse_entries() == spec_remove_key(old(self).browse_entries(), h),
            !spec_has_key(final(self).browse_entries(), h),
            final(self).advertise_entries() == old(self).advertise_entries(),
            final(self).spec_next() == old(self).spec_next(),
            (r matches Some(s) ==> exists|i: int|
                0 <= i < old(self).browse_entries().len() && #[trigger] old(
                    self,
                ).browse_entries()[i] == (h, s)),
    {
        let r = table_remove(&mut self.browsers, h);
        proof {
            lemma_remove_key_unique(old(self).browse_entries(), h);
            assert forall|i: int| 0 <= i < self.browse_entries().len() implies 1 <= (
            #[trigger] self.browse_entries()[i]).0 < self.spec_next() by {
                lemma_remove_key_element(old(self).browse_entries(), h, i);
            }
            assert forall|i: int, j: int|
                0 <= i < self.browse_entries().len() && 0 <= j
                    < self.advertise_entries().len() implies (
            #[trigger] self.browse_entries()[i]).0 != (
            #[trigger] self.advertise_entries()[j]).0 by {
                lemma_remove_key_element(old(self).browse_entries(), h, i);
            }
        }
        r
    }

    /// Removes an advertisement and hands it out for teardown. Some
    /// exactly when the handle was live.
    pub fn stop_advertise(&mut self, h: u32) -> (r: Option<AdvertiseSession>)
        requires
            old(self).wf(),
        ensures
            final(self).wf(),
            r is Some <==> spec_has_key(old(self).advertise_entries(), h),
            final(self).advertise_entries() == spec_remove_key(old(self).advertise_entries(), h),
            !spec_has_key(final(self).advertise_entries(), h),
            final(self).browse_entries() == old(self).browse_entries(),
            final(self).spec_next() == old(self).spec_next(),
            (r matches Some(s) ==> exists|i: int|
                0 <= i < old(self).advertise_entries().len() && #[trigger] old(
                    self,
                ).advertise_entries()[i] == (h, s)),
    {
        let r = table_remove(&mut self.advertisements, h);
        proof {
            lemma_remove_key_unique(old(self).advertise_entries(), h);
            assert forall|i: int| 0 <= i < self.advertise_entries().len() implies 1 <= (
            #[trigger] self.advertise_entries()[i]).0 < self.spec_next() by {
                lemma_remove_key_element(old(self).advertise_entries(), h, i);
            }
            assert forall|i: int, j: int|
                0 <= i < self.browse_entries().len() && 0 <= j
                    < self.advertise_entries().len() implies (
            #[trigger] self.browse_entries()[i]).0 != (
            #[trigger] self.advertise_entries()[j]).0 by {
                lemma_remove_key_element(old(self).advertise_entries(), h, j);
            }
        }
        r
    }

    /// Whether another handle can still be issued.
    pub fn can_issue(&self) -> (r: bool)
        ensures
            r == (self.spec_next() < u32::MAX),
    {
        self.next < u32::MAX
    }

    /// How many browse sessions are live.
    pub fn browse_count(&self) -> (n: usize)
        ensures
            n == self.browse_entries().len(),
    {
        self.browsers.len()
    }

    /// How many advertisements are live.
    pub fn advertise_count(&self) -> (n: usize)
        ensures
            n == self.advertise_entries().len(),
    {
        self.advertisements.len()
    }
}

/// The counter after a run of registry operations, each marked true for
/// a start (of either kind) and false for a stop: a start raises the
/// counter by one and a stop leaves it alone, exactly as the ensures of
/// `register_browse`, `register_advertise`, `stop_browse` and
/// `stop_advertise` say of `spec_next`.
pub open spec fn spec_counter_after(next0: int, ops: Seq<bool>) -> int
    decreases ops.len(),
{
    if ops.len() == 0 {
        next0
    } else {
        spec_counter_after(next0, ops.drop_last()) + (if ops.last() {
            1int
        } else {
            0int
        })
    }
}

/// The handle the operation at position `k` returns if it is a start:
/// the counter as it stood just before it.
pub open spec fn spec_handle_at(next0: int, ops: Seq<bool>, k: int) -> int {
    spec_counter_after(next0, ops.take(k))
}

proof fn lemma_counter_monotone(next0: int, ops: Seq<bool>, a: int, b: int)
    requires
        0 <= a <= b <= ops.len(),
    ensures
        spec_counter_after(next0, ops.take(a)) <= spec_counter_after(next0, ops.take(b)),
    decreases b - a,
{
    if a < b {
        lemma_counter_monotone(next0, ops, a, b - 1);
        assert(ops.take(b).drop_last() =~= ops.take(b - 1));
    }
}

/// Consecutive starts, browse or advertise in any mix and with stops
/// interleaved anywhere among them, return distinct handles in
/// increasing order: the counter never falls, and each start consumes
/// its value and raises it.
pub proof fn lemma_handle_uniqueness(next0: int, ops: Seq<bool>, k1: int, k2: int)
    requires
        0 <= k1 < k2 < ops.len(),
        ops[k1],
        ops[k2],
    ensures
        spec_handle_at(next0, ops, k1) < spec_handle_at(next0, ops, k2),
{
    assert(ops.take(k1 + 1).drop_last() =~= ops.take(k1));
    assert(ops.take(k1 + 1).last() == ops[k1]);
    lemma_counter_monotone(next0, ops, k1 + 1, k2);
}

/// Stopping a handle twice returns a session once: after the first stop
/// removed the entry, the handle is in no table, so the second stop (and
/// any stop of a never-issued handle) reports that nothing existed.
pub proof fn lemma_stop_idempotent<T>(items: Seq<(u32, T)>, next: u32, h: u32, unknown: u32)
    requires
        spec_keys_unique(items),
        spec_keys_below(items, next),
        unknown >= next,
    ensures
        !spec_has_key(spec_remove_key(items, h), h),
        !spec_has_key(items, unknown),
{
    lemma_remove_key_unique(items, h);
    lemma_unissued_key_absent(items, next, unknown);
}

} // verus!
