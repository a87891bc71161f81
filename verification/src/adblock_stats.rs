//! Blocking statistics: request counters, per-domain and per-type tallies,
//! the most-blocked domains and a text report.

use vstd::prelude::*;
use crate::percentage::{percent_hundredths, percent_hundredths_of};
use crate::text::{
    chars_of, decimal, digit, digit_char, find_from, find_in, lemma_find_from_some, lemma_trim_offset,
    occurs_at, owned, push_all,
    push_decimal, push_str, slice_chars, str_eq, string_from_chars, trim, trim_range,
};

verus! {

/// A tally entry viewed as plain values: the key's characters and its count.
pub open spec fn entry_view(e: (String, u64)) -> (Seq<char>, u64) {
    (e.0@, e.1)
}

/// The plain-value view of a list of tally entries.
pub open spec fn entries_view(v: Seq<(String, u64)>) -> Seq<(Seq<char>, u64)> {
    v.map_values(|e: (String, u64)| entry_view(e))
}

/// No key occurs twice in `s`.
pub open spec fn keys_distinct(s: Seq<(Seq<char>, u64)>) -> bool {
    forall|i: int, j: int| 0 <= i < j < s.len() ==> s[i].0 != s[j].0
}

/// `k` is a key of `s`.
pub open spec fn has_key(s: Seq<(Seq<char>, u64)>, k: Seq<char>) -> bool {
    exists|i: int| 0 <= i < s.len() && s[i].0 == k
}

/// The position of key `k` in `s` (meaningful when `has_key(s, k)`).
pub open spec fn key_index(s: Seq<(Seq<char>, u64)>, k: Seq<char>) -> int {
    choose|i: int| 0 <= i < s.len() && s[i].0 == k
}

/// The count recorded for `k` in `s`, if any.
pub open spec fn count_of(s: Seq<(Seq<char>, u64)>, k: Seq<char>) -> Option<u64> {
    if has_key(s, k) {
        Some(s[key_index(s, k)].1)
    } else {
        None
    }
}

/// The count recorded for `k` in `s`, zero when absent.
pub open spec fn count_or_zero(s: Seq<(Seq<char>, u64)>, k: Seq<char>) -> u64 {
    match count_of(s, k) {
        Some(c) => c,
        None => 0,
    }
}

/// `s` after one more occurrence of `k`: its count goes up by one, or a new
/// entry with count one is added at the end.
pub open spec fn bumped(s: Seq<(Seq<char>, u64)>, k: Seq<char>) -> Seq<(Seq<char>, u64)> {
    if has_key(s, k) {
        let i = key_index(s, k);
        s.update(i, (k, (s[i].1 + 1) as u64))
    } else {
        s.push((k, 1u64))
    }
}

/// Counts never increase from the front of `r` to its back.
pub open spec fn sorted_desc(r: Seq<(Seq<char>, u64)>) -> bool {
    forall|i: int, j: int| 0 <= i < j < r.len() ==> r[i].1 >= r[j].1
}

/// `r` holds the entries of `s`, each once, ordered by decreasing count.
pub open spec fn is_ranking(r: Seq<(Seq<char>, u64)>, s: Seq<(Seq<char>, u64)>) -> bool {
    &&& r.len() == s.len()
    &&& keys_distinct(r)
    &&& sorted_desc(r)
    &&& forall|i: int| 0 <= i < r.len() ==> s.contains(#[trigger] r[i])
    &&& forall|j: int| 0 <= j < s.len() ==> r.contains(#[trigger] s[j])
}

/// `r` holds `min(limit, |s|)` entries of `s`, ordered by decreasing count,
/// and no entry of `s` left out has a larger count than one taken.
pub open spec fn is_top(r: Seq<(Seq<char>, u64)>, s: Seq<(Seq<char>, u64)>, limit: nat) -> bool {
    &&& r.len() == if limit < s.len() {
        limit
    } else {
        s.len()
    }
    &&& keys_distinct(r)
    &&& sorted_desc(r)
    &&& forall|i: int| 0 <= i < r.len() ==> s.contains(#[trigger] r[i])
    &&& forall|j: int, i: int|
        0 <= j < s.len() && !r.contains(s[j]) && 0 <= i < r.len() ==> #[trigger] s[j].1
            <= #[trigger] r[i].1
}

/// Counts per key, each key once, in the order keys were first seen.
pub struct BlockCounts {
    entries: Vec<(String, u64)>,
}

impl View for BlockCounts {
    type V = Seq<(Seq<char>, u64)>;

    closed spec fn view(&self) -> Seq<(Seq<char>, u64)> {
        entries_view(self.entries@)
    }
}

impl BlockCounts {
    #[verifier::type_invariant]
    spec fn well_formed(self) -> bool {
        keys_distinct(entries_view(self.entries@))
    }

    /// An empty tally.
    pub fn new() -> (r: Self)
        ensures
            r@ == Seq::<(Seq<char>, u64)>::empty(),
    {
        let r = BlockCounts { entries: Vec::new() };
        assert(r@ =~= Seq::<(Seq<char>, u64)>::empty());
        r
    }

    /// The number of keys.
    pub fn len(&self) -> (n: usize)
        ensures
            n == self@.len(),
    {
        self.entries.len()
    }

    /// Whether no key has been counted.
    pub fn is_empty(&self) -> (b: bool)
        ensures
            b == (self@.len() == 0),
    {
        self.entries.len() == 0
    }

    /// The position of `key`, if it is counted.
    fn position(&self, key: &str) -> (r: Option<usize>)
        ensures
            r matches Some(i) ==> i < self@.len() && self@[i as int].0 == key@,
            r is None ==> !has_key(self@, key@),
    {
        let mut i: usize = 0;
        while i < self.entries.len()
            invariant
                i <= self.entries@.len(),
                forall|j: int| 0 <= j < i ==> self@[j].0 != key@,
            decreases self.entries@.len() - i,
        {
            if str_eq(self.entries[i].0.as_str(), key) {
                return Some(i);
            }
            i = i + 1;
        }
        None
    }

    /// The count of `key`, if it is counted.
    pub fn get(&self, key: &str) -> (r: Option<&u64>)
        ensures
            r matches Some(c) ==> count_of(self@, key@) == Some(*c),
            r is None ==> count_of(self@, key@) is None,
    {
        proof {
            use_type_invariant(self);
        }
        match self.position(key) {
            Some(i) => {
                proof {
                    let k = key_index(self@, key@);
                    assert(self@[k].0 == key@);
                    if k != i {
                        if k < i {
                            assert(self@[k].0 != self@[i as int].0);
                        } else {
                            assert(self@[i as int].0 != self@[k].0);
                        }
                    }
                }
                Some(&self.entries[i].1)
            },
            None => None,
        }
    }

    /// Counts one more occurrence of `key`.
    pub fn increment(&mut self, key: &str)
        requires
            count_or_zero(old(self)@, key@) < u64::MAX,
        ensures
            final(self)@ == bumped(old(self)@, key@),
    {
        proof {
            use_type_invariant(&*self);
        }
        let ghost before = self@;
        match self.position(key) {
            Some(i) => {
                proof {
                    let k = key_index(before, key@);
                    if k != i {
                        if k < i {
                            assert(before[k].0 != before[i as int].0);
                        } else {
                            assert(before[i as int].0 != before[k].0);
                        }
                    }
                }
                let count = self.entries[i].1 + 1;
                let name = self.entries[i].0.clone();
                let mut entries: Vec<(String, u64)> = Vec::new();
                std::mem::swap(&mut entries, &mut self.entries);
                entries.set(i, (name, count));
                proof {
                    assert(entries_view(entries@) =~= bumped(before, key@));
                }
                self.entries = entries;
            },
            None => {
                let name = owned(key);
                let mut entries: Vec<(String, u64)> = Vec::new();
                std::mem::swap(&mut entries, &mut self.entries);
                entries.push((name, 1));
                proof {
                    assert(entries_view(entries@) =~= bumped(before, key@));
                }
                self.entries = entries;
            },
        }
    }

    /// Forgets every key.
    pub fn clear(&mut self)
        ensures
            final(self)@ == Seq::<(Seq<char>, u64)>::empty(),
    {
        self.entries = Vec::new();
        assert(self@ =~= Seq::<(Seq<char>, u64)>::empty());
    }

    /// An independent tally with the same entries.
    pub fn copy(&self) -> (r: BlockCounts)
        ensures
            r@ == self@,
    {
        proof {
            use_type_invariant(self);
        }
        let mut entries: Vec<(String, u64)> = Vec::new();
        let mut i: usize = 0;
        while i < self.entries.len()
            invariant
                i <= self.entries@.len(),
                entries@.len() == i,
                forall|j: int| 0 <= j < i ==> entry_view(entries@[j]) == entry_view(self.entries@[j]),
            decreases self.entries@.len() - i,
        {
            entries.push((self.entries[i].0.clone(), self.entries[i].1));
            i = i + 1;
        }
        assert(entries_view(entries@) =~= entries_view(self.entries@));
        BlockCounts { entries }
    }

    /// The entries, each once, ordered by decreasing count; entries with equal
    /// counts keep the order in which their keys were first seen.
    pub fn ranked(&self) -> (r: Vec<(String, u64)>)
        ensures
            is_ranking(entries_view(r@), self@),
    {
        proof {
            use_type_invariant(self);
        }
        let ghost src = self@;
        let mut out: Vec<(String, u64)> = Vec::new();
        let mut i: usize = 0;
        proof {
            reveal(drawn_from);
            reveal(covers);
            assert(entries_view(out@) =~= Seq::<(Seq<char>, u64)>::empty());
        }
        while i < self.entries.len()
            invariant
                i <= self.entries@.len(),
                src == self@,
                src.len() == self.entries@.len(),
                keys_distinct(src),
                partial_ranking(entries_view(out@), src, i as int),
            decreases self.entries@.len() - i,
        {
            let count = self.entries[i].1;
            let ghost e = src[i as int];
            assert(e == entry_view(self.entries@[i as int]));
            let ghost old_out = entries_view(out@);
            let mut pos: usize = 0;
            while pos < out.len() && out[pos].1 >= count
                invariant
                    pos <= out@.len(),
                    old_out == entries_view(out@),
                    forall|m: int| 0 <= m < pos ==> old_out[m].1 >= count,
                decreases out@.len() - pos,
            {
                assert(old_out[pos as int] == entry_view(out@[pos as int]));
                pos = pos + 1;
            }
            proof {
                if pos < out@.len() {
                    assert(old_out[pos as int] == entry_view(out@[pos as int]));
                }
            }
            out.insert(pos, (self.entries[i].0.clone(), count));
            proof {
                assert(entries_view(out@) =~= old_out.insert(pos as int, e));
                lemma_insert_keeps_ranking(old_out, src, i as int, pos as int);
            }
            i = i + 1;
        }
        proof {
            reveal(drawn_from);
            reveal(covers);
            let r = entries_view(out@);
            assert forall|m: int| 0 <= m < r.len() implies src.contains(#[trigger] r[m]) by {
                let k = choose|k: int| 0 <= k < i && r[m] == src[k];
            }
            assert forall|k: int| 0 <= k < src.len() implies r.contains(#[trigger] src[k]) by {
                let m = choose|m: int| 0 <= m < r.len() && r[m] == src[k];
            }
        }
        out
    }
}

/// Every entry of `ov` is one of the first `i` entries of `src`.
#[verifier::opaque]
spec fn drawn_from(ov: Seq<(Seq<char>, u64)>, src: Seq<(Seq<char>, u64)>, i: int) -> bool {
    forall|m: int| 0 <= m < ov.len() ==> exists|k: int| 0 <= k < i && #[trigger] ov[m] == src[k]
}

/// Each of the first `i` entries of `src` is an entry of `ov`.
#[verifier::opaque]
spec fn covers(ov: Seq<(Seq<char>, u64)>, src: Seq<(Seq<char>, u64)>, i: int) -> bool {
    forall|k: int| 0 <= k < i ==> exists|m: int| 0 <= m < ov.len() && ov[m] == #[trigger] src[k]
}

/// `ov` ranks the first `i` entries of `src`.
spec fn partial_ranking(ov: Seq<(Seq<char>, u64)>, src: Seq<(Seq<char>, u64)>, i: int) -> bool {
    &&& ov.len() == i
    &&& keys_distinct(ov)
    &&& sorted_desc(ov)
    &&& drawn_from(ov, src, i)
    &&& covers(ov, src, i)
}

/// `nv` is `ov` with `e` inserted at `pos`, spelled out position by position.
spec fn inserted_at(
    nv: Seq<(Seq<char>, u64)>,
    ov: Seq<(Seq<char>, u64)>,
    pos: int,
    e: (Seq<char>, u64),
) -> bool {
    &&& 0 <= pos <= ov.len()
    &&& nv.len() == ov.len() + 1
    &&& forall|m: int| 0 <= m < pos ==> #[trigger] nv[m] == ov[m]
    &&& nv[pos] == e
    &&& forall|m: int| pos < m < nv.len() ==> #[trigger] nv[m] == ov[m - 1]
}

proof fn lemma_inserted_at(ov: Seq<(Seq<char>, u64)>, pos: int, e: (Seq<char>, u64))
    requires
        0 <= pos <= ov.len(),
    ensures
        inserted_at(ov.insert(pos, e), ov, pos, e),
{
    ov.insert_ensures(pos, e);
    assert forall|m: int| pos < m < ov.len() + 1 implies #[trigger] ov.insert(pos, e)[m] == ov[m
        - 1] by {
        assert(ov.insert(pos, e)[(m - 1) + 1] == ov[m - 1]);
    }
}

proof fn lemma_insert_distinct(
    nv: Seq<(Seq<char>, u64)>,
    ov: Seq<(Seq<char>, u64)>,
    pos: int,
    e: (Seq<char>, u64),
)
    requires
        inserted_at(nv, ov, pos, e),
        keys_distinct(ov),
        forall|m: int| 0 <= m < ov.len() ==> ov[m].0 != e.0,
    ensures
        keys_distinct(nv),
{
    assert forall|a: int, b: int| 0 <= a < b < nv.len() implies nv[a].0 != nv[b].0 by {
        if b < pos {
        } else if b == pos {
        } else if a < pos {
        } else if a == pos {
        } else {
        }
    }
}

proof fn lemma_insert_sorted(
    nv: Seq<(Seq<char>, u64)>,
    ov: Seq<(Seq<char>, u64)>,
    pos: int,
    e: (Seq<char>, u64),
)
    requires
        inserted_at(nv, ov, pos, e),
        sorted_desc(ov),
        forall|m: int| 0 <= m < pos ==> ov[m].1 >= e.1,
        pos < ov.len() ==> ov[pos].1 < e.1,
    ensures
        sorted_desc(nv),
{
    assert forall|m: int| pos <= m < ov.len() implies ov[m].1 < e.1 by {
        if m > pos {
            assert(ov[pos].1 >= ov[m].1);
        }
    }
    assert forall|a: int, b: int| 0 <= a < b < nv.len() implies nv[a].1 >= nv[b].1 by {
        if b < pos {
        } else if b == pos {
        } else if a < pos {
            assert(ov[a].1 >= e.1);
        } else if a == pos {
        } else {
        }
    }
}

proof fn lemma_insert_drawn(
    nv: Seq<(Seq<char>, u64)>,
    ov: Seq<(Seq<char>, u64)>,
    src: Seq<(Seq<char>, u64)>,
    i: int,
    pos: int,
)
    requires
        inserted_at(nv, ov, pos, src[i]),
        drawn_from(ov, src, i),
        0 <= i < src.len(),
    ensures
        drawn_from(nv, src, i + 1),
{
    reveal(drawn_from);
    assert forall|m: int| 0 <= m < nv.len() implies exists|k: int|
        0 <= k < i + 1 && #[trigger] nv[m] == src[k] by {
        if m < pos {
            let k = choose|k: int| 0 <= k < i && ov[m] == src[k];
            assert(nv[m] == src[k]);
        } else if m == pos {
            assert(nv[m] == src[i]);
        } else {
            let k = choose|k: int| 0 <= k < i && ov[m - 1] == src[k];
            assert(nv[m] == src[k]);
        }
    }
}

proof fn lemma_insert_covers(
    nv: Seq<(Seq<char>, u64)>,
    ov: Seq<(Seq<char>, u64)>,
    src: Seq<(Seq<char>, u64)>,
    i: int,
    pos: int,
)
    requires
        inserted_at(nv, ov, pos, src[i]),
        covers(ov, src, i),
        0 <= i < src.len(),
    ensures
        covers(nv, src, i + 1),
{
    reveal(covers);
    assert forall|k: int| 0 <= k < i + 1 implies exists|m: int|
        0 <= m < nv.len() && nv[m] == #[trigger] src[k] by {
        if k < i {
            let m = choose|m: int| 0 <= m < ov.len() && ov[m] == src[k];
            if m < pos {
                assert(nv[m] == src[k]);
            } else {
                assert(nv[m + 1] == src[k]);
            }
        } else {
            assert(nv[pos] == src[k]);
        }
    }
}

/// Inserting the next entry of `src` after every entry with a count at least
/// as large keeps a ranking of a prefix of `src`.
proof fn lemma_insert_keeps_ranking(
    ov: Seq<(Seq<char>, u64)>,
    src: Seq<(Seq<char>, u64)>,
    i: int,
    pos: int,
)
    requires
        partial_ranking(ov, src, i),
        keys_distinct(src),
        0 <= i < src.len(),
        0 <= pos <= ov.len(),
        forall|m: int| 0 <= m < pos ==> ov[m].1 >= src[i].1,
        pos < ov.len() ==> ov[pos].1 < src[i].1,
    ensures
        partial_ranking(ov.insert(pos, src[i]), src, i + 1),
{
    let e = src[i];
    let nv = ov.insert(pos, e);
    lemma_inserted_at(ov, pos, e);
    assert forall|m: int| 0 <= m < ov.len() implies ov[m].0 != e.0 by {
        reveal(drawn_from);
        let k = choose|k: int| 0 <= k < i && ov[m] == src[k];
        assert(src[k].0 != src[i].0);
    }
    lemma_insert_distinct(nv, ov, pos, e);
    lemma_insert_sorted(nv, ov, pos, e);
    lemma_insert_drawn(nv, ov, src, i, pos);
    lemma_insert_covers(nv, ov, src, i, pos);
}

/// The plain-value view of a ranking is a ranking of any tally it was made from;
/// its first `limit` entries are the `limit` largest.
proof fn lemma_top_of_ranking(r: Seq<(Seq<char>, u64)>, s: Seq<(Seq<char>, u64)>, limit: nat)
    requires
        is_ranking(r, s),
    ensures
        is_top(
            r.take(
                if limit < r.len() {
                    limit as int
                } else {
                    r.len() as int
                },
            ),
            s,
            limit,
        ),
{
    let n = if limit < r.len() {
        limit as int
    } else {
        r.len() as int
    };
    let t = r.take(n);
    assert forall|i: int| 0 <= i < t.len() implies s.contains(#[trigger] t[i]) by {
        assert(t[i] == r[i]);
    }
    assert forall|j: int, i: int|
        0 <= j < s.len() && !t.contains(s[j]) && 0 <= i < t.len() implies #[trigger] s[j].1
        <= #[trigger] t[i].1 by {
        assert(r.contains(s[j]));
        let p = choose|p: int| 0 <= p < r.len() && r[p] == s[j];
        if p < n {
            assert(t[p] == s[j]);
        }
        assert(t[i] == r[i]);
    }
}

/// Blocking statistics.
pub struct AdBlockStats {
    /// Total of blocked requests.
    pub blocked_requests: u64,
    /// Total of allowed requests.
    pub allowed_requests: u64,
    /// Blocked requests per domain.
    blocked_by_domain: BlockCounts,
    /// Blocked requests per resource type.
    blocked_by_type: BlockCounts,
}

impl AdBlockStats {
    /// The number of blocked requests.
    pub closed spec fn blocked(&self) -> u64 {
        self.blocked_requests
    }

    /// The number of allowed requests.
    pub closed spec fn allowed(&self) -> u64 {
        self.allowed_requests
    }

    /// Blocked requests per domain, in the order domains were first blocked.
    pub closed spec fn domains(&self) -> Seq<(Seq<char>, u64)> {
        self.blocked_by_domain@
    }

    /// Blocked requests per resource type, in the order types were first blocked.
    pub closed spec fn types(&self) -> Seq<(Seq<char>, u64)> {
        self.blocked_by_type@
    }

    /// Statistics with every counter at zero.
    pub fn new() -> (r: Self)
        ensures
            r.blocked() == 0,
            r.allowed() == 0,
            r.domains().len() == 0,
            r.types().len() == 0,
    {
        AdBlockStats {
            blocked_requests: 0,
            allowed_requests: 0,
            blocked_by_domain: BlockCounts::new(),
            blocked_by_type: BlockCounts::new(),
        }
    }

    /// Counts one more blocked request (wrapping around at `u64::MAX`).
    pub fn increment_blocked(&mut self)
        ensures
            final(self).blocked() == (old(self).blocked() + 1) % 0x1_0000_0000_0000_0000,
            final(self).allowed() == old(self).allowed(),
            final(self).domains() == old(self).domains(),
            final(self).types() == old(self).types(),
    {
        self.blocked_requests = self.blocked_requests.wrapping_add(1);
    }

    /// Counts one more allowed request (wrapping around at `u64::MAX`).
    pub fn increment_allowed(&mut self)
        ensures
            final(self).allowed() == (old(self).allowed() + 1) % 0x1_0000_0000_0000_0000,
            final(self).blocked() == old(self).blocked(),
            final(self).domains() == old(self).domains(),
            final(self).types() == old(self).types(),
    {
        self.allowed_requests = self.allowed_requests.wrapping_add(1);
    }

    /// Records a blocked request: one more blocked request, one more for the
    /// domain of `url` (when it has one) and one more for `request_type`.
    pub fn record_blocked(&mut self, url: &str, request_type: &str)
        requires
            domain_of(url@) matches Some(d) ==> count_or_zero(old(self).domains(), d) < u64::MAX,
            count_or_zero(old(self).types(), request_type@) < u64::MAX,
        ensures
            final(self).blocked() == (old(self).blocked() + 1) % 0x1_0000_0000_0000_0000,
            final(self).allowed() == old(self).allowed(),
            final(self).domains() == match domain_of(url@) {
                Some(d) => bumped(old(self).domains(), d),
                None => old(self).domains(),
            },
            final(self).types() == bumped(old(self).types(), request_type@),
    {
        self.increment_blocked();
        match extract_domain(url) {
            Some(domain) => self.blocked_by_domain.increment(domain.as_str()),
            None => {},
        }
        self.blocked_by_type.increment(request_type);
    }

    /// Records an allowed request.
    pub fn record_allowed(&mut self, _url: &str, _request_type: &str)
        ensures
            final(self).allowed() == (old(self).allowed() + 1) % 0x1_0000_0000_0000_0000,
            final(self).blocked() == old(self).blocked(),
            final(self).domains() == old(self).domains(),
            final(self).types() == old(self).types(),
    {
        self.increment_allowed();
    }

    /// The blocked and allowed totals.
    pub fn get_totals(&self) -> (r: (u64, u64))
        ensures
            r == (self.blocked(), self.allowed()),
    {
        (self.blocked_requests, self.allowed_requests)
    }

    /// The number of blocked requests.
    pub fn get_blocked_count(&self) -> (r: u64)
        ensures
            r == self.blocked(),
    {
        self.blocked_requests
    }

    /// The number of allowed requests.
    pub fn get_allowed_count(&self) -> (r: u64)
        ensures
            r == self.allowed(),
    {
        self.allowed_requests
    }

    /// The `limit` most blocked domains with their counts, most blocked first.
    pub fn get_top_blocked_domains(&self, limit: usize) -> (r: Vec<(String, u64)>)
        ensures
            is_top(entries_view(r@), self.domains(), limit as nat),
    {
        let mut ranked = self.blocked_by_domain.ranked();
        let ghost full = entries_view(ranked@);
        ranked.truncate(limit);
        proof {
            lemma_top_of_ranking(full, self.domains(), limit as nat);
            let n = if (limit as nat) < full.len() {
                limit as int
            } else {
                full.len() as int
            };
            assert(entries_view(ranked@) =~= full.take(n));
        }
        ranked
    }

    /// Blocked requests per resource type.
    pub fn get_blocked_by_type(&self) -> (r: BlockCounts)
        ensures
            r@ == self.types(),
    {
        self.blocked_by_type.copy()
    }

    /// Sets every counter back to zero.
    pub fn reset(&mut self)
        ensures
            final(self).blocked() == 0,
            final(self).allowed() == 0,
            final(self).domains().len() == 0,
            final(self).types().len() == 0,
    {
        self.blocked_requests = 0;
        self.allowed_requests = 0;
        self.blocked_by_domain.clear();
        self.blocked_by_type.clear();
    }

    /// A text report of the statistics: totals, the blocked share, the ten
    /// most blocked domains and the blocked requests per resource type.
    pub fn generate_report(&self) -> (r: String)
        requires
            self.blocked() + self.allowed() <= u64::MAX,
        ensures
            exists|top: Seq<(Seq<char>, u64)>, types: Seq<(Seq<char>, u64)>|
                is_top(top, self.domains(), 10) && is_ranking(types, self.types()) && r@
                    == #[trigger] report_text(self.blocked(), self.allowed(), top, types),
            self.types().len() > 0 ==> exists|types: Seq<(Seq<char>, u64)>|
                is_ranking(types, self.types()) && #[trigger] ends_with(
                    r@,
                    "Blocages par type de ressource:\n"@ + type_lines(types),
                ),
    {
        let blocked = self.blocked_requests;
        let allowed = self.allowed_requests;
        let top = self.get_top_blocked_domains(10);
        let types = self.blocked_by_type.ranked();
        let mut out: Vec<char> = Vec::new();
        push_str(&mut out, "=== Statistiques AdBlock ===\n\n");
        push_str(&mut out, "Requêtes bloquées: ");
        push_decimal(&mut out, blocked);
        push_str(&mut out, "\n");
        push_str(&mut out, "Requêtes autorisées: ");
        push_decimal(&mut out, allowed);
        push_str(&mut out, "\n");
        push_str(&mut out, "Pourcentage bloqué: ");
        push_percent(&mut out, blocked, blocked + allowed);
        push_str(&mut out, "%\n\n");
        let ghost head = out@;
        if top.len() > 0 {
            push_str(&mut out, "Top 10 des domaines bloqués:\n");
            push_domain_lines(&mut out, &top);
            push_str(&mut out, "\n");
        }
        let ghost middle = out@;
        if types.len() > 0 {
            push_str(&mut out, "Blocages par type de ressource:\n");
            push_type_lines(&mut out, &types);
        }
        proof {
            let tv = entries_view(top@);
            let yv = entries_view(types@);
            assert(out@ =~= report_text(blocked, allowed, tv, yv));
            law_report_ends_with_types(blocked, allowed, tv, yv);
        }
        string_from_chars(&out)
    }
}

impl Default for AdBlockStats {
    fn default() -> (r: Self)
        ensures
            r.blocked() == 0,
            r.allowed() == 0,
            r.domains().len() == 0,
            r.types().len() == 0,
    {
        Self::new()
    }
}

/// The blocked share in percent, written with two decimals.
pub open spec fn percent_text(blocked: nat, total: nat) -> Seq<char> {
    let h = percent_hundredths(blocked, total);
    decimal(h / 100) + seq!['.', digit_char((h % 100) / 10), digit_char(h % 10)]
}

/// The report line for the `rank`-th most blocked domain.
pub open spec fn domain_line(rank: nat, e: (Seq<char>, u64)) -> Seq<char> {
    "  "@ + decimal(rank) + ". "@ + e.0 + " - "@ + decimal(e.1 as nat) + " requêtes\n"@
}

/// The report lines for the domains of `top`, numbered from one.
pub open spec fn domain_lines(top: Seq<(Seq<char>, u64)>) -> Seq<char>
    decreases top.len(),
{
    if top.len() == 0 {
        Seq::empty()
    } else {
        domain_lines(top.drop_last()) + domain_line(top.len(), top.last())
    }
}

/// The report line for a resource type.
pub open spec fn type_line(e: (Seq<char>, u64)) -> Seq<char> {
    "  "@ + e.0 + ": "@ + decimal(e.1 as nat) + "\n"@
}

/// The report lines for the resource types of `types`.
pub open spec fn type_lines(types: Seq<(Seq<char>, u64)>) -> Seq<char>
    decreases types.len(),
{
    if types.len() == 0 {
        Seq::empty()
    } else {
        type_lines(types.drop_last()) + type_line(types.last())
    }
}

/// The statistics report for the given totals, most blocked domains and
/// ranked resource types.
pub open spec fn report_text(
    blocked: u64,
    allowed: u64,
    top: Seq<(Seq<char>, u64)>,
    types: Seq<(Seq<char>, u64)>,
) -> Seq<char> {
    "=== Statistiques AdBlock ===\n\n"@ + "Requêtes bloquées: "@ + decimal(blocked as nat) + "\n"@
        + "Requêtes autorisées: "@ + decimal(allowed as nat) + "\n"@ + "Pourcentage bloqué: "@
        + percent_text(blocked as nat, (blocked + allowed) as nat) + "%\n\n"@ + if top.len() > 0 {
        "Top 10 des domaines bloqués:\n"@ + domain_lines(top) + "\n"@
    } else {
        Seq::empty()
    } + if types.len() > 0 {
        "Blocages par type de ressource:\n"@ + type_lines(types)
    } else {
        Seq::empty()
    }
}

/// `s` ends with `t`.
pub open spec fn ends_with(s: Seq<char>, t: Seq<char>) -> bool {
    t.len() <= s.len() && s.subrange(s.len() - t.len(), s.len() as int) == t
}

/// Whenever some resource type was blocked, the report ends with the
/// heading `Blocages par type de ressource:` and then one line per type,
/// `  <type>: <count>`, in the order of `types`.
pub proof fn law_report_ends_with_types(
    blocked: u64,
    allowed: u64,
    top: Seq<(Seq<char>, u64)>,
    types: Seq<(Seq<char>, u64)>,
)
    ensures
        types.len() > 0 ==> ends_with(
            report_text(blocked, allowed, top, types),
            "Blocages par type de ressource:\n"@ + type_lines(types),
        ),
{
    if types.len() > 0 {
        let r = report_text(blocked, allowed, top, types);
        let t = "Blocages par type de ressource:\n"@ + type_lines(types);
        assert(r.subrange(r.len() - t.len(), r.len() as int) =~= t);
    }
}

/// The type lines hold one line `  <type>: <count>` for each entry, in order:
/// the lines for a longer ranking extend those for its prefix by the next line.
pub proof fn law_type_lines_one_per_type(types: Seq<(Seq<char>, u64)>, i: int)
    requires
        0 <= i < types.len(),
    ensures
        type_lines(types.take(i + 1)) == type_lines(types.take(i)) + "  "@ + types[i].0 + ": "@
            + decimal(types[i].1 as nat) + "\n"@,
{
    assert(types.take(i + 1).drop_last() =~= types.take(i));
}

fn push_percent(out: &mut Vec<char>, blocked: u64, total: u64)
    requires
        blocked <= total,
    ensures
        final(out)@ == old(out)@ + percent_text(blocked as nat, total as nat),
{
    let h = percent_hundredths_of(blocked, total);
    push_decimal(out, h / 100);
    out.push('.');
    out.push(digit((h % 100) / 10));
    out.push(digit(h % 10));
}

fn push_domain_lines(out: &mut Vec<char>, top: &Vec<(String, u64)>)
    ensures
        final(out)@ == old(out)@ + domain_lines(entries_view(top@)),
{
    let ghost start = out@;
    let ghost tv = entries_view(top@);
    let mut i: usize = 0;
    while i < top.len()
        invariant
            i <= top@.len(),
            tv == entries_view(top@),
            out@ == start + domain_lines(tv.take(i as int)),
        decreases top@.len() - i,
    {
        let ghost before = out@;
        push_str(out, "  ");
        push_decimal(out, (i + 1) as u64);
        push_str(out, ". ");
        push_str(out, top[i].0.as_str());
        push_str(out, " - ");
        push_decimal(out, top[i].1);
        push_str(out, " requêtes\n");
        proof {
            assert(tv.take(i + 1).drop_last() =~= tv.take(i as int));
            assert(tv[i as int] == entry_view(top@[i as int]));
            assert(out@ =~= before + domain_line((i + 1) as nat, tv[i as int]));
        }
        i = i + 1;
    }
    assert(tv.take(i as int) =~= tv);
}

fn push_type_lines(out: &mut Vec<char>, types: &Vec<(String, u64)>)
    ensures
        final(out)@ == old(out)@ + type_lines(entries_view(types@)),
{
    let ghost start = out@;
    let ghost tv = entries_view(types@);
    let mut i: usize = 0;
    while i < types.len()
        invariant
            i <= types@.len(),
            tv == entries_view(types@),
            out@ == start + type_lines(tv.take(i as int)),
        decreases types@.len() - i,
    {
        let ghost before = out@;
        push_str(out, "  ");
        push_str(out, types[i].0.as_str());
        push_str(out, ": ");
        push_decimal(out, types[i].1);
        push_str(out, "\n");
        proof {
            assert(tv.take(i + 1).drop_last() =~= tv.take(i as int));
            assert(tv[i as int] == entry_view(types@[i as int]));
            assert(out@ =~= before + type_line(tv[i as int]));
        }
        i = i + 1;
    }
    assert(tv.take(i as int) =~= tv);
}

// ---------------------------------------------------------------------------
// Domains
// ---------------------------------------------------------------------------

/// `s` up to the first `c`, or all of `s` when it holds no `c`.
pub open spec fn cut_at(s: Seq<char>, c: char) -> Seq<char> {
    match find_from(s, seq![c], 0) {
        Some(i) => s.subrange(0, i),
        None => s,
    }
}

/// The text after the first `"://"` of `u`, or all of `u` when it has none.
pub open spec fn after_scheme(u: Seq<char>) -> Seq<char> {
    match find_from(u, seq![':', '/', '/'], 0) {
        Some(i) => u.subrange(i + 3, u.len() as int),
        None => u,
    }
}

/// The host part of `url`: the trimmed text after the first `"://"` (if
/// any), up to the first `'/'`, the first `'?'`, the first `'#'` and the
/// first `':'`; none when that is empty.
pub open spec fn domain_of(url: Seq<char>) -> Option<Seq<char>> {
    let d = cut_at(cut_at(cut_at(cut_at(after_scheme(trim(url)), '/'), '?'), '#'), ':');
    if d.len() == 0 {
        None
    } else {
        Some(d)
    }
}

/// A cut is a prefix that holds no `c`, and leaves alone a text without `c`.
proof fn lemma_cut_at(s: Seq<char>, c: char)
    ensures
        cut_at(s, c).len() <= s.len(),
        cut_at(s, c) == s.subrange(0, cut_at(s, c).len() as int),
        !cut_at(s, c).contains(c),
        !s.contains(c) ==> cut_at(s, c) == s,
{
    lemma_find_from_some(s, seq![c], 0);
    match find_from(s, seq![c], 0) {
        Some(i) => {
            let t = s.subrange(0, i);
            if t.contains(c) {
                let k = choose|k: int| 0 <= k < t.len() && t[k] == c;
                assert(s.subrange(k, k + 1) =~= seq![c]);
                assert(occurs_at(s, seq![c], k));
            }
            assert(s.subrange(i, i + 1)[0] == s[i]);
            assert(s.contains(c));
        },
        None => {
            if s.contains(c) {
                let k = choose|k: int| 0 <= k < s.len() && s[k] == c;
                assert(s.subrange(k, k + 1) =~= seq![c]);
                assert(occurs_at(s, seq![c], k));
            }
            assert(s.subrange(0, s.len() as int) =~= s);
        },
    }
}

/// What follows the scheme is a suffix of the text, and a text without `:`
/// has no scheme.
proof fn lemma_after_scheme(u: Seq<char>)
    ensures
        after_scheme(u).len() <= u.len(),
        after_scheme(u) == u.subrange(u.len() - after_scheme(u).len(), u.len() as int),
        !u.contains(':') ==> after_scheme(u) == u,
{
    let scheme = seq![':', '/', '/'];
    lemma_find_from_some(u, scheme, 0);
    match find_from(u, scheme, 0) {
        Some(i) => {
            assert(u.subrange(i, i + 3)[0] == u[i]);
            assert(u.contains(':'));
        },
        None => {
            assert(u.subrange(0, u.len() as int) =~= u);
        },
    }
}

/// Keeps `v` up to the first `c`.
fn cut_before(v: Vec<char>, c: char) -> (r: Vec<char>)
    ensures
        r@ == cut_at(v@, c),
{
    let pat = vec![c];
    assert(pat@ =~= seq![c]);
    proof {
        lemma_find_from_some(v@, pat@, 0);
    }
    match find_in(&v, &pat, 0) {
        Some(i) => slice_chars(&v, 0, i),
        None => v,
    }
}

/// Extracts the domain of a URL.
pub fn extract_domain(url: &str) -> (r: Option<String>)
    ensures
        r matches Some(d) ==> domain_of(url@) == Some(d@),
        r is None ==> domain_of(url@) is None,
{
    let all = chars_of(url);
    let (a, b) = trim_range(&all, 0, all.len());
    assert(all@.subrange(0, all@.len() as int) =~= all@);
    let u = slice_chars(&all, a, b);
    let scheme = vec![':', '/', '/'];
    assert(scheme@ =~= seq![':', '/', '/']);
    proof {
        lemma_find_from_some(u@, scheme@, 0);
    }
    let rest = match find_in(&u, &scheme, 0) {
        Some(i) => slice_chars(&u, i + 3, u.len()),
        None => u,
    };
    let d = cut_before(cut_before(cut_before(cut_before(rest, '/'), '?'), '#'), ':');
    if d.len() == 0 {
        None
    } else {
        Some(string_from_chars(&d))
    }
}

/// One more occurrence of `k` raises its count by one, keeps every other
/// count, and keeps each key counted once.
pub proof fn law_bump_counts(s: Seq<(Seq<char>, u64)>, k: Seq<char>, other: Seq<char>)
    requires
        keys_distinct(s),
        count_or_zero(s, k) < u64::MAX,
    ensures
        keys_distinct(bumped(s, k)),
        count_of(bumped(s, k), k) == Some((count_or_zero(s, k) + 1) as u64),
        other != k ==> count_of(bumped(s, k), other) == count_of(s, other),
{
    let b = bumped(s, k);
    if has_key(s, k) {
        let i = key_index(s, k);
        assert(b[i].0 == k);
        assert(has_key(b, k));
        let bi = key_index(b, k);
        if bi != i {
            assert(b[bi].0 == s[bi].0);
            if bi < i {
                assert(s[bi].0 != s[i].0);
            } else {
                assert(s[i].0 != s[bi].0);
            }
        }
        if other != k {
            if has_key(s, other) {
                let j = key_index(s, other);
                assert(b[j] == s[j]);
                assert(has_key(b, other));
                let bj = key_index(b, other);
                if bj != j {
                    assert(b[bj] == s[bj]);
                    if bj < j {
                        assert(s[bj].0 != s[j].0);
                    } else {
                        assert(s[j].0 != s[bj].0);
                    }
                }
            } else {
                if has_key(b, other) {
                    let bj = key_index(b, other);
                    assert(s[bj].0 == other);
                }
            }
        }
    } else {
        let n = s.len() as int;
        assert(b[n].0 == k);
        assert(has_key(b, k));
        let bi = key_index(b, k);
        if bi != n {
            assert(s[bi].0 == k);
        }
        if other != k {
            if has_key(s, other) {
                let j = key_index(s, other);
                assert(b[j] == s[j]);
                assert(has_key(b, other));
                let bj = key_index(b, other);
                if bj != j {
                    assert(b[bj] == s[bj]);
                    if bj < j {
                        assert(s[bj].0 != s[j].0);
                    } else {
                        assert(s[j].0 != s[bj].0);
                    }
                }
            } else {
                if has_key(b, other) {
                    let bj = key_index(b, other);
                    assert(s[bj].0 == other);
                }
            }
        }
    }
}

/// The first of the top entries has the largest count of all.
pub proof fn law_top_first_is_max(r: Seq<(Seq<char>, u64)>, s: Seq<(Seq<char>, u64)>, limit: nat)
    requires
        is_top(r, s, limit),
        r.len() > 0,
    ensures
        forall|j: int| 0 <= j < s.len() ==> s[j].1 <= r[0].1,
{
    assert forall|j: int| 0 <= j < s.len() implies s[j].1 <= r[0].1 by {
        if r.contains(s[j]) {
            let m = choose|m: int| 0 <= m < r.len() && r[m] == s[j];
            assert(r[0].1 >= r[m].1);
        } else {
            assert(s[j].1 <= r[0].1);
        }
    }
}

/// An extracted domain is never empty, holds none of `/`, `?`, `#` and
/// `:`, is a piece of the URL, and is its own domain when it has no white
/// space at its ends.
pub proof fn law_domain_shape(url: Seq<char>)
    ensures
        domain_of(url) matches Some(d) ==> {
            &&& d.len() > 0
            &&& !d.contains('/') && !d.contains('?') && !d.contains('#') && !d.contains(':')
            &&& exists|i: int| occurs_at(url, d, i)
            &&& trim(d) == d ==> domain_of(d) == Some(d)
        },
{
    let u = trim(url);
    let a = lemma_trim_offset(url);
    let r0 = after_scheme(u);
    lemma_after_scheme(u);
    let r1 = cut_at(r0, '/');
    let r2 = cut_at(r1, '?');
    let r3 = cut_at(r2, '#');
    let d = cut_at(r3, ':');
    lemma_cut_at(r0, '/');
    lemma_cut_at(r1, '?');
    lemma_cut_at(r2, '#');
    lemma_cut_at(r3, ':');
    if d.len() > 0 {
        // d is a prefix of each earlier stage.
        assert(!d.contains('/')) by {
            if d.contains('/') {
                let k = choose|k: int| 0 <= k < d.len() && d[k] == '/';
                assert(r3[k] == d[k]);
                assert(r2[k] == r3[k]);
                assert(r1[k] == r2[k]);
            }
        }
        assert(!d.contains('?')) by {
            if d.contains('?') {
                let k = choose|k: int| 0 <= k < d.len() && d[k] == '?';
                assert(r3[k] == d[k]);
                assert(r2[k] == r3[k]);
            }
        }
        assert(!d.contains('#')) by {
            if d.contains('#') {
                let k = choose|k: int| 0 <= k < d.len() && d[k] == '#';
                assert(r3[k] == d[k]);
            }
        }
        let start = a + (u.len() - r0.len());
        assert(url.subrange(start, start + d.len()) =~= d) by {
            assert forall|k: int| 0 <= k < d.len() implies url.subrange(start, start + d.len())[k]
                == d[k] by {
                assert(r3[k] == d[k]);
                assert(r2[k] == r3[k]);
                assert(r1[k] == r2[k]);
                assert(r0[k] == r1[k]);
                assert(r0[k] == u[u.len() - r0.len() + k]);
                assert(u[u.len() - r0.len() + k] == url[a + u.len() - r0.len() + k]);
            }
        }
        assert(occurs_at(url, d, start));
        if trim(d) == d {
            lemma_after_scheme(d);
            lemma_cut_at(d, '/');
            lemma_cut_at(d, '?');
            lemma_cut_at(d, '#');
            lemma_cut_at(d, ':');
        }
    }
}

/// The sum of the counts of `s`.
pub open spec fn total_count(s: Seq<(Seq<char>, u64)>) -> int
    decreases s.len(),
{
    if s.len() == 0 {
        0
    } else {
        total_count(s.drop_last()) + s.last().1
    }
}

/// Replacing one entry changes the sum by the change in its count.
proof fn lemma_total_update(s: Seq<(Seq<char>, u64)>, i: int, e: (Seq<char>, u64))
    requires
        0 <= i < s.len(),
    ensures
        total_count(s.update(i, e)) == total_count(s) - s[i].1 + e.1,
    decreases s.len(),
{
    let t = s.update(i, e);
    if i < s.len() - 1 {
        assert(t.drop_last() =~= s.drop_last().update(i, e));
        lemma_total_update(s.drop_last(), i, e);
    } else {
        assert(t.drop_last() =~= s.drop_last());
    }
}

/// One more occurrence of a key raises the sum of the counts by one.
proof fn lemma_total_bumped(s: Seq<(Seq<char>, u64)>, k: Seq<char>)
    requires
        count_or_zero(s, k) < u64::MAX,
    ensures
        total_count(bumped(s, k)) == total_count(s) + 1,
{
    if has_key(s, k) {
        let i = key_index(s, k);
        lemma_total_update(s, i, (k, (s[i].1 + 1) as u64));
    } else {
        assert(s.push((k, 1u64)).drop_last() =~= s);
    }
}

/// The blocked requests counted per domain are no more than those counted
/// per type, which are no more than all blocked requests.
pub open spec fn totals_ordered(
    blocked: u64,
    domains: Seq<(Seq<char>, u64)>,
    types: Seq<(Seq<char>, u64)>,
) -> bool {
    total_count(domains) <= total_count(types) <= blocked
}

/// New or reset statistics have their totals in order, and counting a
/// blocked request, with or without its domain and type, keeps them in order
/// as long as the blocked total does not wrap around.
pub proof fn law_totals_stay_ordered(
    blocked: u64,
    domains: Seq<(Seq<char>, u64)>,
    types: Seq<(Seq<char>, u64)>,
    url: Seq<char>,
    request_type: Seq<char>,
)
    requires
        totals_ordered(blocked, domains, types),
        blocked < u64::MAX,
        domain_of(url) matches Some(d) ==> count_or_zero(domains, d) < u64::MAX,
        count_or_zero(types, request_type) < u64::MAX,
    ensures
        totals_ordered(0, Seq::empty(), Seq::empty()),
        totals_ordered((blocked + 1) as u64, domains, types),
        totals_ordered(
            (blocked + 1) as u64,
            match domain_of(url) {
                Some(d) => bumped(domains, d),
                None => domains,
            },
            bumped(types, request_type),
        ),
{
    lemma_total_bumped(types, request_type);
    if let Some(d) = domain_of(url) {
        lemma_total_bumped(domains, d);
    }
}

} // verus!
