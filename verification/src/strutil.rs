//! Character scanning over strings: first occurrence of a character,
//! suffix tests, and the label arithmetic of fully qualified service
//! names.

use vstd::prelude::*;
use vstd::string::{StrSliceExecFns, StringExecFns};

verus! {

/// Index of the first occurrence of `c` in `s`, or `s.len()` if absent.
pub open spec fn spec_first_char(s: Seq<char>, c: char) -> int
    decreases s.len(),
{
    if s.len() == 0 {
        0
    } else if s[0] == c {
        0
    } else {
        1 + spec_first_char(s.skip(1), c)
    }
}

proof fn lemma_first_char_char(s: Seq<char>, c: char, m: int)
    requires
        0 <= m <= s.len(),
        m < s.len() ==> s[m] == c,
        forall|j: int| 0 <= j < m ==> s[j] != c,
    ensures
        spec_first_char(s, c) == m,
    decreases s.len(),
{
    if s.len() == 0 {
    } else if s[0] == c {
        assert(m == 0);
    } else {
        assert(forall|j: int| 0 <= j < m - 1 ==> s.skip(1)[j] == s[j + 1]);
        if m < s.len() {
            assert(s.skip(1)[m - 1] == s[m]);
        }
        lemma_first_char_char(s.skip(1), c, m - 1);
    }
}

/// Index of the first occurrence of `c` in `s` at or after `from`, or
/// the string's length if there is none.
pub fn find_char(s: &str, c: char, from: usize) -> (r: usize)
    requires
        from <= s@.len(),
    ensures
        from <= r <= s@.len(),
        r - from == spec_first_char(s@.skip(from as int), c),
        r < s@.len() ==> s@[r as int] == c,
        forall|t: int| from <= t < r ==> s@[t] != c,
{
    let n = s.unicode_len();
    let mut j: usize = from;
    while j < n
        invariant
            from <= j <= n == s@.len(),
            forall|t: int| from <= t < j ==> s@[t] != c,
        decreases n - j,
    {
        if s.get_char(j) == c {
            proof {
                let sub = s@.skip(from as int);
                assert(forall|t: int| 0 <= t < j - from ==> sub[t] == s@[t + from]);
                assert(sub[j - from] == s@[j as int]);
                lemma_first_char_char(sub, c, j - from);
            }
            return j;
        }
        j += 1;
    }
    proof {
        let sub = s@.skip(from as int);
        assert(forall|t: int| 0 <= t < n - from ==> sub[t] == s@[t + from]);
        lemma_first_char_char(sub, c, n - from);
    }
    n
}

/// Whether `c` occurs anywhere in `s`.
pub fn str_contains_char(s: &str, c: char) -> (r: bool)
    ensures
        r == s@.contains(c),
{
    let i = find_char(s, c, 0);
    let n = s.unicode_len();
    proof {
        assert(s@.skip(0) =~= s@);
        if i < n {
            assert(s@.contains(c));
        } else if s@.contains(c) {
            let t = choose|t: int| 0 <= t < s@.len() && s@[t] == c;
            assert(s@[t] != c);
        }
    }
    i < n
}

/// Whether `s` ends in `suffix`.
pub open spec fn spec_ends_with(s: Seq<char>, suffix: Seq<char>) -> bool {
    s.len() >= suffix.len() && s.skip(s.len() - suffix.len()) == suffix
}

/// Tests whether `s` ends in `suffix`.
pub fn str_ends_with(s: &str, suffix: &str) -> (r: bool)
    ensures
        r == spec_ends_with(s@, suffix@),
{
    let n = s.unicode_len();
    let m = suffix.unicode_len();
    if n < m {
        return false;
    }
    let base = n - m;
    let ghost tail = s@.skip(base as int);
    let mut k: usize = 0;
    while k < m
        invariant
            0 <= k <= m,
            m <= n == s@.len(),
            m == suffix@.len(),
            base == n - m,
            tail == s@.skip(base as int),
            forall|t: int| 0 <= t < k ==> tail[t] == suffix@[t],
        decreases m - k,
    {
        proof {
            assert(tail[k as int] == s@[base + k]);
        }
        if s.get_char(base + k) != suffix.get_char(k) {
            proof {
                assert(tail[k as int] != suffix@[k as int]);
                assert(tail != suffix@);
            }
            return false;
        }
        k += 1;
    }
    proof {
        assert(tail =~= suffix@);
    }
    true
}

/// The first label of a fully qualified name: everything before the
/// first dot, or the whole name if it has none.
pub open spec fn spec_first_label(s: Seq<char>) -> Seq<char> {
    s.take(spec_first_char(s, '.'))
}

/// Extracts the first label of a fully qualified name: the instance
/// name in a name such as a printer's full service name.
pub fn first_label(s: &str) -> (r: String)
    ensures
        r@ == spec_first_label(s@),
{
    let d = find_char(s, '.', 0);
    proof {
        assert(s@.skip(0) =~= s@);
    }
    let part = s.substring_char(0, d);
    String::from_str(part)
}

/// The service type and transport a fully qualified instance name names:
/// its second and third dot-separated parts joined by a dot, or empty
/// where the name has fewer than three parts.
pub open spec fn spec_type_of_fullname(s: Seq<char>) -> Seq<char> {
    let d1 = spec_first_char(s, '.');
    if d1 >= s.len() {
        Seq::<char>::empty()
    } else {
        let d2 = d1 + 1 + spec_first_char(s.skip(d1 + 1), '.');
        if d2 >= s.len() {
            Seq::<char>::empty()
        } else {
            let d3 = d2 + 1 + spec_first_char(s.skip(d2 + 1), '.');
            s.subrange(d1 + 1, d3)
        }
    }
}

/// Extracts the service type from a fully qualified instance name, as
/// its second and third labels joined by a dot.
pub fn service_type_of_fullname(s: &str) -> (r: String)
    ensures
        r@ == spec_type_of_fullname(s@),
{
    let n = s.unicode_len();
    proof {
        assert(s@.skip(0) =~= s@);
    }
    let d1 = find_char(s, '.', 0);
    if d1 >= n {
        return String::new();
    }
    let d2 = find_char(s, '.', d1 + 1);
    if d2 >= n {
        return String::new();
    }
    let d3 = find_char(s, '.', d2 + 1);
    let part = s.substring_char(d1 + 1, d3);
    String::from_str(part)
}

/// The engine's required suffix form of a service-type string: a
/// trailing scoped-domain label is kept, a trailing dot is completed,
/// anything else gets the whole suffix appended.
pub open spec fn spec_normalized_type(s: Seq<char>) -> Seq<char> {
    if spec_ends_with(s, ".local."@) {
        s
    } else if spec_ends_with(s, "."@) {
        s + "local."@
    } else {
        s + ".local."@
    }
}

/// Normalizes a service-type string to the suffix form the fallback
/// engine requires.
pub fn normalize_service_type(s: &str) -> (r: String)
    ensures
        r@ == spec_normalized_type(s@),
{
    if str_ends_with(s, ".local.") {
        String::from_str(s)
    } else if str_ends_with(s, ".") {
        String::from_str(s).concat("local.")
    } else {
        String::from_str(s).concat(".local.")
    }
}

} // verus!
