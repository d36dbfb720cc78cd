//! TXT record wire codec.
//!
//! A TXT record is a run of segments, each one length byte followed by that
//! many bytes of `key=value` (or a bare `key`, meaning an empty value). The
//! decoder splits each segment at its first `=`; a segment whose length byte
//! promises more bytes than remain ends decoding at the last complete
//! segment. When one key occurs in several segments, the record's mapping
//! keeps the last occurrence.

use vstd::prelude::*;
use vstd::slice::{slice_subrange, slice_to_vec};

verus! {

/// The byte that separates a key from its value inside a segment.
pub const TXT_SEPARATOR: u8 = 61;

/// One key/value attribute of a TXT record, as raw bytes.
#[derive(Debug, Clone)]
pub struct TxtEntry {
    pub key: Vec<u8>,
    pub value: Vec<u8>,
}

impl View for TxtEntry {
    type V = (Seq<u8>, Seq<u8>);

    open spec fn view(&self) -> (Seq<u8>, Seq<u8>) {
        (self.key@, self.value@)
    }
}

/// An ordered list of TXT attributes; its meaning as a mapping is
/// [`spec_txt_map`], under which a later entry shadows an earlier one
/// with the same key.
#[derive(Debug, Clone)]
pub struct TxtRecord {
    pub entries: Vec<TxtEntry>,
}

impl View for TxtRecord {
    type V = Seq<(Seq<u8>, Seq<u8>)>;

    open spec fn view(&self) -> Seq<(Seq<u8>, Seq<u8>)> {
        self.entries@.map_values(|e: TxtEntry| e@)
    }
}

/// An entry that fits one segment: the key is non-empty, holds no
/// separator, and key, separator and value together fit the length byte.
pub open spec fn entry_wf(e: (Seq<u8>, Seq<u8>)) -> bool {
    &&& 1 <= e.0.len()
    &&& e.0.len() + 1 + e.1.len() <= 255
    &&& !e.0.contains(TXT_SEPARATOR)
}

/// All entries of a record fit their segments.
pub open spec fn entries_wf(es: Seq<(Seq<u8>, Seq<u8>)>) -> bool {
    forall|i: int| 0 <= i < es.len() ==> entry_wf(#[trigger] es[i])
}

/// Index of the first occurrence of `b` in `s`, or `s.len()` if absent.
pub open spec fn spec_first_eq(s: Seq<u8>, b: u8) -> int
    decreases s.len(),
{
    if s.len() == 0 {
        0
    } else if s[0] == b {
        0
    } else {
        1 + spec_first_eq(s.skip(1), b)
    }
}

/// How one segment's bytes split into a key and a value.
pub open spec fn spec_split_entry(seg: Seq<u8>) -> (Seq<u8>, Seq<u8>) {
    let i = spec_first_eq(seg, TXT_SEPARATOR);
    if i < seg.len() {
        (seg.take(i), seg.skip(i + 1))
    } else {
        (seg, Seq::<u8>::empty())
    }
}

/// The segment encoding one entry: length byte, key, separator, value.
pub open spec fn spec_encode_entry(e: (Seq<u8>, Seq<u8>)) -> Seq<u8> {
    seq![(e.0.len() + 1 + e.1.len()) as u8] + e.0 + seq![TXT_SEPARATOR] + e.1
}

/// The byte encoding of a whole record: its segments in order.
pub open spec fn spec_encode(es: Seq<(Seq<u8>, Seq<u8>)>) -> Seq<u8>
    decreases es.len(),
{
    if es.len() == 0 {
        Seq::<u8>::empty()
    } else {
        spec_encode_entry(es[0]) + spec_encode(es.skip(1))
    }
}

/// The entries a byte buffer decodes to: one per complete segment, in
/// order, stopping at the first incomplete segment.
pub open spec fn spec_decode(b: Seq<u8>) -> Seq<(Seq<u8>, Seq<u8>)>
    decreases b.len(),
{
    if b.len() == 0 {
        Seq::<(Seq<u8>, Seq<u8>)>::empty()
    } else {
        let n = b[0] as int;
        if b.len() < 1 + n {
            Seq::<(Seq<u8>, Seq<u8>)>::empty()
        } else {
            seq![spec_split_entry(b.subrange(1, 1 + n))] + spec_decode(b.skip(1 + n))
        }
    }
}

/// Every segment of the buffer is complete.
pub open spec fn spec_complete(b: Seq<u8>) -> bool
    decreases b.len(),
{
    b.len() == 0 || (1 + b[0] as int <= b.len() && spec_complete(b.skip(1 + b[0] as int)))
}

/// The mapping a list of entries denotes: the last entry with a key wins.
pub open spec fn spec_txt_map(es: Seq<(Seq<u8>, Seq<u8>)>) -> Map<Seq<u8>, Seq<u8>>
    decreases es.len(),
{
    if es.len() == 0 {
        Map::<Seq<u8>, Seq<u8>>::empty()
    } else {
        spec_txt_map(es.drop_last()).insert(es.last().0, es.last().1)
    }
}

proof fn lemma_first_eq_concat(k: Seq<u8>, rest: Seq<u8>, b: u8)
    requires
        !k.contains(b),
    ensures
        spec_first_eq(k + rest, b) == k.len() + spec_first_eq(rest, b),
    decreases k.len(),
{
    if k.len() == 0 {
        assert(k + rest =~= rest);
    } else {
        assert(!(exists|i: int| 0 <= i < k.len() && k[i] == b));
        assert((k + rest)[0] == k[0]);
        assert(k[0] != b);
        assert(!k.skip(1).contains(b)) by {
            if exists|i: int| 0 <= i < k.skip(1).len() && k.skip(1)[i] == b {
                let i = choose|i: int| 0 <= i < k.skip(1).len() && k.skip(1)[i] == b;
                assert(k[i + 1] == b);
            }
        }
        lemma_first_eq_concat(k.skip(1), rest, b);
        assert((k + rest).skip(1) =~= k.skip(1) + rest);
    }
}

proof fn lemma_split_encoded(k: Seq<u8>, v: Seq<u8>)
    requires
        !k.contains(TXT_SEPARATOR),
    ensures
        spec_split_entry(k + seq![TXT_SEPARATOR] + v) == (k, v),
{
    let seg = k + seq![TXT_SEPARATOR] + v;
    assert(seg =~= k + (seq![TXT_SEPARATOR] + v));
    lemma_first_eq_concat(k, seq![TXT_SEPARATOR] + v, TXT_SEPARATOR);
    assert((seq![TXT_SEPARATOR] + v)[0] == TXT_SEPARATOR);
    assert(spec_first_eq(seq![TXT_SEPARATOR] + v, TXT_SEPARATOR) == 0);
    assert(spec_first_eq(seg, TXT_SEPARATOR) == k.len());
    assert(seg.take(k.len() as int) =~= k);
    assert(seg.skip(k.len() as int + 1) =~= v);
}

proof fn lemma_decode_step(e: (Seq<u8>, Seq<u8>), rest: Seq<u8>)
    requires
        entry_wf(e),
    ensures
        spec_decode(spec_encode_entry(e) + rest) == seq![e] + spec_decode(rest),
{
    let b = spec_encode_entry(e) + rest;
    let n = (e.0.len() + 1 + e.1.len()) as int;
    assert(b[0] == (n as u8));
    assert((n as u8) as int == n);
    assert(b.len() == 1 + n + rest.len());
    assert(b.subrange(1, 1 + n) =~= e.0 + seq![TXT_SEPARATOR] + e.1);
    lemma_split_encoded(e.0, e.1);
    assert(b.skip(1 + n) =~= rest);
    assert(spec_decode(b) =~= seq![e] + spec_decode(rest));
}

/// Encoding a record and decoding the bytes gives the entries back,
/// exactly and in order, for every record whose entries fit their
/// segments.
pub proof fn lemma_txt_round_trip(es: Seq<(Seq<u8>, Seq<u8>)>)
    requires
        entries_wf(es),
    ensures
        spec_decode(spec_encode(es)) == es,
    decreases es.len(),
{
    if es.len() == 0 {
        assert(spec_decode(spec_encode(es)) =~= es);
    } else {
        assert(entries_wf(es.skip(1))) by {
            assert(forall|i: int|
                0 <= i < es.skip(1).len() ==> #[trigger] es.skip(1)[i] == es[i + 1]);
        }
        lemma_txt_round_trip(es.skip(1));
        lemma_decode_step(es[0], spec_encode(es.skip(1)));
        assert(seq![es[0]] + es.skip(1) =~= es);
    }
}

/// Encoding a record and decoding the bytes gives the same mapping back.
pub proof fn lemma_txt_round_trip_map(es: Seq<(Seq<u8>, Seq<u8>)>)
    requires
        entries_wf(es),
    ensures
        spec_txt_map(spec_decode(spec_encode(es))) == spec_txt_map(es),
{
    lemma_txt_round_trip(es);
}

/// A well-formed encoding has only complete segments.
pub proof fn lemma_encode_complete(es: Seq<(Seq<u8>, Seq<u8>)>)
    requires
        entries_wf(es),
    ensures
        spec_complete(spec_encode(es)),
    decreases es.len(),
{
    if es.len() == 0 {
    } else {
        assert(entries_wf(es.skip(1))) by {
            assert(forall|i: int|
                0 <= i < es.skip(1).len() ==> #[trigger] es.skip(1)[i] == es[i + 1]);
        }
        lemma_encode_complete(es.skip(1));
        let b = spec_encode(es);
        let e = es[0];
        let n = (e.0.len() + 1 + e.1.len()) as int;
        assert(b =~= spec_encode_entry(e) + spec_encode(es.skip(1)));
        assert(b[0] == (n as u8));
        assert((n as u8) as int == n);
        assert(b.skip(1 + n) =~= spec_encode(es.skip(1)));
    }
}

/// A buffer cut off inside a segment decodes to what its complete prefix
/// decodes to: the truncated tail adds nothing and raises no error.
pub proof fn lemma_txt_truncation(b: Seq<u8>, extra: Seq<u8>)
    requires
        spec_complete(b),
        extra.len() >= 1,
        extra.len() < 1 + extra[0] as int,
    ensures
        spec_decode(b + extra) == spec_decode(b),
    decreases b.len(),
{
    if b.len() == 0 {
        assert(b + extra =~= extra);
        assert(spec_decode(extra) =~= Seq::<(Seq<u8>, Seq<u8>)>::empty());
        assert(spec_decode(b) =~= Seq::<(Seq<u8>, Seq<u8>)>::empty());
    } else {
        let n = b[0] as int;
        let c = b + extra;
        assert(c[0] == b[0]);
        assert(c.subrange(1, 1 + n) =~= b.subrange(1, 1 + n));
        assert(c.skip(1 + n) =~= b.skip(1 + n) + extra);
        lemma_txt_truncation(b.skip(1 + n), extra);
        assert(spec_decode(c) =~= spec_decode(b));
    }
}

/// Index of the first separator within `data[start..end)`, or `end` if
/// there is none.
fn find_separator(data: &[u8], start: usize, end: usize) -> (r: usize)
    requires
        start <= end <= data@.len(),
    ensures
        start <= r <= end,
        r - start == spec_first_eq(data@.subrange(start as int, end as int), TXT_SEPARATOR),
{
    let mut j: usize = start;
    while j < end
        invariant
            start <= j <= end <= data@.len(),
            forall|t: int| start <= t < j ==> data@[t] != TXT_SEPARATOR,
        decreases end - j,
    {
        if data[j] == TXT_SEPARATOR {
            proof {
                lemma_first_eq_char(
                    data@.subrange(start as int, end as int),
                    TXT_SEPARATOR,
                    j - start,
                );
            }
            return j;
        }
        j += 1;
    }
    proof {
        lemma_first_eq_char(data@.subrange(start as int, end as int), TXT_SEPARATOR, end - start);
    }
    end
}

proof fn lemma_first_eq_char(s: Seq<u8>, b: u8, m: int)
    requires
        0 <= m <= s.len(),
        m < s.len() ==> s[m] == b,
        forall|j: int| 0 <= j < m ==> s[j] != b,
    ensures
        spec_first_eq(s, b) == m,
    decreases s.len(),
{
    if s.len() == 0 {
    } else if s[0] == b {
        assert(m == 0);
    } else {
        assert(forall|j: int| 0 <= j < m - 1 ==> s.skip(1)[j] == s[j + 1]);
        if m < s.len() {
            assert(s.skip(1)[m - 1] == s[m]);
        }
        lemma_first_eq_char(s.skip(1), b, m - 1);
    }
}

/// Decodes a TXT byte buffer into its entries, one per complete segment;
/// a truncated final segment is dropped, never an error.
pub fn parse_txt_record(data: &[u8]) -> (r: TxtRecord)
    ensures
        r@ == spec_decode(data@),
{
    let mut entries: Vec<TxtEntry> = Vec::new();
    let mut i: usize = 0;
    proof {
        assert(data@.skip(0) =~= data@);
        assert(entries@.map_values(|e: TxtEntry| e@) + spec_decode(data@) =~= spec_decode(data@));
    }
    while i < data.len()
        invariant
            i <= data@.len(),
            spec_decode(data@) == entries@.map_values(|e: TxtEntry| e@) + spec_decode(
                data@.skip(i as int),
            ),
        decreases data@.len() - i,
    {
        let n = data[i] as usize;
        if data.len() - (i + 1) < n {
            proof {
                let rest = data@.skip(i as int);
                assert(rest[0] == data@[i as int]);
                assert(rest.len() < 1 + rest[0] as int);
                assert(spec_decode(rest) =~= Seq::<(Seq<u8>, Seq<u8>)>::empty());
                assert(spec_decode(data@) =~= entries@.map_values(|e: TxtEntry| e@));
            }
            return TxtRecord { entries };
        }
        let start = i + 1;
        let end = i + 1 + n;
        let sep = find_separator(data, start, end);
        let key: Vec<u8>;
        let value: Vec<u8>;
        if sep < end {
            key = slice_to_vec(slice_subrange(data, start, sep));
            value = slice_to_vec(slice_subrange(data, sep + 1, end));
        } else {
            key = slice_to_vec(slice_subrange(data, start, end));
            value = Vec::new();
        }
        proof {
            let rest = data@.skip(i as int);
            let seg = data@.subrange(start as int, end as int);
            assert(rest[0] == data@[i as int]);
            assert(rest.len() >= 1 + n);
            assert(rest.subrange(1, 1 + n as int) =~= seg);
            assert(seg.len() == n);
            assert(spec_first_eq(seg, TXT_SEPARATOR) == sep - start);
            if sep < end {
                assert(seg.take(sep - start) =~= data@.subrange(start as int, sep as int));
                assert(seg.skip(sep - start + 1) =~= data@.subrange(sep + 1 as int, end as int));
                assert(spec_split_entry(seg) == (key@, value@));
            } else {
                assert(seg.take(sep - start) =~= seg);
                assert(spec_split_entry(seg) == (key@, value@));
            }
            assert(rest.skip(1 + n as int) =~= data@.skip(end as int));
            assert(spec_decode(rest) =~= seq![(key@, value@)] + spec_decode(data@.skip(end as int)));
        }
        let ghost prev = entries@;
        entries.push(TxtEntry { key, value });
        proof {
            assert(entries@.map_values(|e: TxtEntry| e@) =~= prev.map_values(|e: TxtEntry| e@)
                + seq![entries@.last()@]);
            assert(spec_decode(data@) =~= entries@.map_values(|e: TxtEntry| e@) + spec_decode(
                data@.skip(end as int),
            ));
        }
        i = end;
    }
    proof {
        assert(data@.skip(i as int) =~= Seq::<u8>::empty());
        assert(spec_decode(data@) =~= entries@.map_values(|e: TxtEntry| e@));
    }
    TxtRecord { entries }
}

proof fn lemma_encode_snoc(es: Seq<(Seq<u8>, Seq<u8>)>, e: (Seq<u8>, Seq<u8>))
    ensures
        spec_encode(es.push(e)) == spec_encode(es) + spec_encode_entry(e),
    decreases es.len(),
{
    if es.len() == 0 {
        assert(es.push(e)[0] == e);
        assert(es.push(e).skip(1) =~= Seq::<(Seq<u8>, Seq<u8>)>::empty());
        assert(spec_encode(es.push(e)) == spec_encode_entry(e) + spec_encode(
            Seq::<(Seq<u8>, Seq<u8>)>::empty(),
        ));
        assert(spec_encode(Seq::<(Seq<u8>, Seq<u8>)>::empty()) == Seq::<u8>::empty());
        assert(spec_encode(es) == Seq::<u8>::empty());
        assert(spec_encode(es.push(e)) =~= spec_encode(es) + spec_encode_entry(e));
    } else {
        assert(es.push(e)[0] == es[0]);
        assert(es.push(e).skip(1) =~= es.skip(1).push(e));
        lemma_encode_snoc(es.skip(1), e);
        assert(spec_encode(es.push(e)) == spec_encode_entry(es[0]) + spec_encode(
            es.skip(1).push(e),
        ));
        assert(spec_encode(es.push(e)) == spec_encode_entry(es[0]) + (spec_encode(es.skip(1))
            + spec_encode_entry(e)));
        assert(spec_encode(es) == spec_encode_entry(es[0]) + spec_encode(es.skip(1)));
        assert(spec_encode(es.push(e)) =~= spec_encode(es) + spec_encode_entry(e));
    }
}

/// Whether a byte vector holds exactly these bytes.
fn bytes_match(a: &Vec<u8>, b: &[u8]) -> (r: bool)
    ensures
        r == (a@ == b@),
{
    if a.len() != b.len() {
        return false;
    }
    let mut i: usize = 0;
    while i < a.len()
        invariant
            i <= a@.len(),
            a@.len() == b@.len(),
            forall|t: int| 0 <= t < i ==> a@[t] == b@[t],
        decreases a@.len() - i,
    {
        if a[i] != b[i] {
            return false;
        }
        i += 1;
    }
    proof {
        assert(a@ =~= b@);
    }
    true
}

impl TxtRecord {
    /// A record with no attributes.
    pub fn new() -> (r: TxtRecord)
        ensures
            r@ == Seq::<(Seq<u8>, Seq<u8>)>::empty(),
    {
        let r = TxtRecord { entries: Vec::new() };
        proof {
            assert(r@ =~= Seq::<(Seq<u8>, Seq<u8>)>::empty());
        }
        r
    }

    /// How many segments the record holds.
    pub fn len(&self) -> (n: usize)
        ensures
            n == self@.len(),
    {
        self.entries.len()
    }

    /// Whether the record holds no attributes.
    pub fn is_empty(&self) -> (r: bool)
        ensures
            r == (self@.len() == 0),
    {
        self.entries.len() == 0
    }

    /// Every entry fits its segment.
    pub open spec fn wf(&self) -> bool {
        entries_wf(self@)
    }

    /// Appends one attribute. A key set again later shadows this one in
    /// the record's mapping, as a duplicate key does on the wire.
    pub fn set(&mut self, key: Vec<u8>, value: Vec<u8>)
        requires
            entry_wf((key@, value@)),
        ensures
            final(self)@ == old(self)@.push((key@, value@)),
            spec_txt_map(final(self)@) == spec_txt_map(old(self)@).insert(key@, value@),
            old(self).wf() ==> final(self).wf(),
    {
        let ghost prev = self@;
        self.entries.push(TxtEntry { key, value });
        proof {
            assert(self@ =~= prev.push(self.entries@.last()@));
            assert(self@.drop_last() =~= prev);
            if entries_wf(prev) {
                assert(forall|i: int|
                    0 <= i < prev.len() ==> #[trigger] self@[i] == prev[i]);
            }
        }
    }

    /// The value under a key in the record's mapping. The last entry
    /// under the key wins, as the last duplicate segment does on the
    /// wire.
    pub fn get(&self, key: &[u8]) -> (r: Option<Vec<u8>>)
        ensures
            (match r {
                Some(v) => spec_txt_map(self@).contains_key(key@) && v@ == spec_txt_map(
                    self@,
                )[key@],
                None => !spec_txt_map(self@).contains_key(key@),
            }),
    {
        let mut i: usize = self.entries.len();
        proof {
            assert(self@.take(i as int) =~= self@);
        }
        while i > 0
            invariant
                i <= self.entries@.len(),
                self@.len() == self.entries@.len(),
                spec_txt_map(self@).contains_key(key@) == spec_txt_map(
                    self@.take(i as int),
                ).contains_key(key@),
                spec_txt_map(self@).contains_key(key@) ==> spec_txt_map(self@)[key@]
                    == spec_txt_map(self@.take(i as int))[key@],
            decreases i,
        {
            i = i - 1;
            proof {
                assert(self@.take(i + 1 as int).drop_last() =~= self@.take(i as int));
                assert(self@.take(i + 1 as int).last() == self@[i as int]);
                assert(self@[i as int] == (self.entries@[i as int].key@,
                    self.entries@[i as int].value@));
            }
            if bytes_match(&self.entries[i].key, key) {
                return Some(slice_to_vec(self.entries[i].value.as_slice()));
            }
        }
        proof {
            assert(self@.take(0) =~= Seq::<(Seq<u8>, Seq<u8>)>::empty());
        }
        None
    }

    /// Encodes the record into TXT wire bytes, one segment per entry.
    pub fn encode(&self) -> (r: Vec<u8>)
        requires
            self.wf(),
        ensures
            r@ == spec_encode(self@),
    {
        let mut out: Vec<u8> = Vec::new();
        let mut k: usize = 0;
        while k < self.entries.len()
            invariant
                k <= self.entries@.len(),
                self.wf(),
                self@.len() == self.entries@.len(),
                out@ == spec_encode(self@.take(k as int)),
            decreases self.entries@.len() - k,
        {
            let e = &self.entries[k];
            assert(self@[k as int] == (e.key@, e.value@));
            assert(entry_wf(self@[k as int]));
            let n = e.key.len() + 1 + e.value.len();
            let ghost before = out@;
            out.push(n as u8);
            out.extend_from_slice(e.key.as_slice());
            out.push(TXT_SEPARATOR);
            out.extend_from_slice(e.value.as_slice());
            proof {
                lemma_encode_snoc(self@.take(k as int), self@[k as int]);
                assert(self@.take(k + 1 as int) =~= self@.take(k as int).push(self@[k as int]));
                assert(out@ =~= before + spec_encode_entry(self@[k as int]));
            }
            k += 1;
        }
        proof {
            assert(self@.take(self@.len() as int) =~= self@);
        }
        out
    }
}

} // verus!
