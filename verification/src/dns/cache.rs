//! The answer cache of the DNS proxy, keyed by name and query type.
use vstd::prelude::*;
use crate::dns::DnsBlocker;
use crate::dns::packet::spec_cache_ttl;
use crate::text::{chars_of, eq_chars};

verus! {

/// One cached answer: the name and type it answers, the answer bytes, when it was
/// stored (milliseconds on a monotonic clock) and how many seconds it stays valid.
pub struct CacheEntry {
    pub name: Vec<char>,
    pub qtype: u16,
    pub resp: Vec<u8>,
    pub inserted: u64,
    pub ttl: u32,
}

/// The abstract form of an entry: name, type, answer, time stored, TTL.
pub type EntryView = (Seq<char>, u16, Seq<u8>, u64, u32);

/// The abstract form of an entry.
pub open spec fn entry_view(e: CacheEntry) -> EntryView {
    (e.name@, e.qtype, e.resp@, e.inserted, e.ttl)
}

/// The abstract forms of a list of entries.
pub open spec fn views(s: Seq<CacheEntry>) -> Seq<EntryView> {
    s.map_values(|e: CacheEntry| entry_view(e))
}

/// The entry answers `name` and `qtype`.
pub open spec fn key_is(e: EntryView, name: Seq<char>, qtype: u16) -> bool {
    e.0 == name && e.1 == qtype
}

/// No two entries answer the same name and type.
pub open spec fn keys_distinct(v: Seq<EntryView>) -> bool {
    forall|i: int, j: int|
        0 <= i < v.len() && 0 <= j < v.len() && i != j ==> !key_is(#[trigger] v[i], (#[trigger] v[j]).0, v[j].1)
}

/// Milliseconds from `since` to `now`; zero when the clock reads earlier.
pub open spec fn elapsed_ms(now: u64, since: u64) -> int {
    if now >= since {
        now - since
    } else {
        0
    }
}

/// An entry stored at `inserted` with a TTL of `ttl` seconds is still valid at `now`.
pub open spec fn is_fresh(now: u64, inserted: u64, ttl: u32) -> bool {
    elapsed_ms(now, inserted) < ttl as int * 1000
}

/// The test of the clean-up: fresh, counting a TTL of zero as one second.
pub open spec fn kept_by_cleanup(now: u64, e: EntryView) -> bool {
    is_fresh(now, e.3, if e.4 >= 1 { e.4 } else { 1 })
}

/// How many of the entries pass the clean-up test.
pub open spec fn fresh_count(v: Seq<EntryView>, now: u64) -> nat
    decreases v.len(),
{
    if v.len() == 0 {
        0
    } else {
        fresh_count(v.drop_last(), now) + if kept_by_cleanup(now, v.last()) {
            1nat
        } else {
            0nat
        }
    }
}

/// The cache keeps entries while it holds at most this many.
pub const CACHE_SOFT_LIMIT: usize = 5000;

/// After a clean-up that still finds too many entries, this many are kept.
pub const CACHE_TRIM_TARGET: usize = 4000;

/// The answer cache.
pub struct DnsCache {
    pub entries: Vec<CacheEntry>,
}

impl DnsCache {
    /// The entries in their abstract form.
    pub open spec fn items(&self) -> Seq<EntryView> {
        views(self.entries@)
    }

    /// No two entries answer the same name and type.
    pub open spec fn wf(&self) -> bool {
        keys_distinct(self.items())
    }

    /// The entry for `name` and `qtype`, if any.
    pub open spec fn lookup(&self, name: Seq<char>, qtype: u16) -> Option<EntryView> {
        if exists|i: int| 0 <= i < self.items().len() && key_is(#[trigger] self.items()[i], name, qtype) {
            let i = choose|i: int| 0 <= i < self.items().len() && key_is(#[trigger] self.items()[i], name, qtype);
            Some(self.items()[i])
        } else {
            None
        }
    }

    /// An empty cache.
    pub fn new() -> (r: Self)
        ensures
            r.wf(),
            r.items().len() == 0,
    {
        DnsCache { entries: Vec::new() }
    }
}

/// With distinct keys, the entry found at `i` is the one `lookup` gives.
proof fn lemma_lookup_at(c: &DnsCache, i: int, name: Seq<char>, qtype: u16)
    requires
        c.wf(),
        0 <= i < c.items().len(),
        key_is(c.items()[i], name, qtype),
    ensures
        c.lookup(name, qtype) == Some(c.items()[i]),
{
    let k = choose|k: int| 0 <= k < c.items().len() && key_is(#[trigger] c.items()[k], name, qtype);
    if k != i {
        assert(!key_is(c.items()[k], c.items()[i].0, c.items()[i].1));
    }
}

/// Index of the entry for `name` and `qtype`, if any.
fn find_entry(entries: &Vec<CacheEntry>, name: &[char], qtype: u16) -> (r: Option<usize>)
    ensures
        match r {
            Some(i) => i < entries@.len() && key_is(views(entries@)[i as int], name@, qtype),
            None => forall|k: int| 0 <= k < entries@.len() ==> !key_is(#[trigger] views(entries@)[k], name@, qtype),
        },
{
    let mut i: usize = 0;
    while i < entries.len()
        invariant
            i <= entries@.len(),
            forall|k: int| 0 <= k < i ==> !key_is(#[trigger] views(entries@)[k], name@, qtype),
        decreases entries@.len() - i,
    {
        if entries[i].qtype == qtype && eq_chars(entries[i].name.as_slice(), name) {
            return Some(i);
        }
        i += 1;
    }
    None
}

/// Whether the cache answers `name`/`qtype` at `now`: an entry exists, is fresh and
/// holds at least a header.
pub open spec fn cache_hit(cache: &DnsCache, name: Seq<char>, qtype: u16, now: u64) -> bool {
    match cache.lookup(name, qtype) {
        Some(e) => is_fresh(now, e.3, e.4) && e.2.len() >= 12,
        None => false,
    }
}

/// The cached answer for a query, carrying the query's id.
pub open spec fn spec_cached_response(
    cache: &DnsCache,
    name: Seq<char>,
    qtype: u16,
    pkt: Seq<u8>,
    now: u64,
) -> Option<Seq<u8>> {
    if cache_hit(cache, name, qtype, now) {
        let e = cache.lookup(name, qtype)->0;
        Some(seq![pkt[0], pkt[1]] + e.2.subrange(2, e.2.len() as int))
    } else {
        None
    }
}

/// Index of the entry stored earliest.
fn oldest_index(entries: &Vec<CacheEntry>) -> (r: usize)
    requires
        entries@.len() > 0,
    ensures
        r < entries@.len(),
        forall|j: int| 0 <= j < entries@.len() ==> entries@[r as int].inserted <= #[trigger] entries@[j].inserted,
{
    let mut best: usize = 0;
    let mut i: usize = 1;
    while i < entries.len()
        invariant
            1 <= i <= entries@.len(),
            best < i,
            forall|j: int| 0 <= j < i ==> entries@[best as int].inserted <= #[trigger] entries@[j].inserted,
        decreases entries@.len() - i,
    {
        if entries[i].inserted < entries[best].inserted {
            best = i;
        }
        i += 1;
    }
    best
}

/// Removing an entry keeps the keys distinct.
proof fn lemma_distinct_remove(v: Seq<EntryView>, i: int)
    requires
        keys_distinct(v),
        0 <= i < v.len(),
    ensures
        keys_distinct(v.remove(i)),
        forall|k: int| 0 <= k < v.remove(i).len() ==> v.contains(#[trigger] v.remove(i)[k]),
        forall|x: EntryView| v.contains(x) && x != v[i] ==> #[trigger] v.remove(i).contains(x),
{
    let w = v.remove(i);
    assert forall|a: int, b: int| 0 <= a < w.len() && 0 <= b < w.len() && a != b implies !key_is(
        #[trigger] w[a],
        (#[trigger] w[b]).0,
        w[b].1,
    ) by {
        let a1 = if a < i { a } else { a + 1 };
        let b1 = if b < i { b } else { b + 1 };
        assert(w[a] == v[a1] && w[b] == v[b1]);
        assert(!key_is(v[a1], v[b1].0, v[b1].1));
    }
    assert forall|k: int| 0 <= k < w.len() implies v.contains(#[trigger] w[k]) by {
        let k1 = if k < i { k } else { k + 1 };
        assert(w[k] == v[k1]);
    }
    assert forall|x: EntryView| v.contains(x) && x != v[i] implies #[trigger] w.contains(x) by {
        let m = choose|m: int| 0 <= m < v.len() && v[m] == x;
        let m1 = if m < i { m } else { m - 1 };
        assert(w[m1] == x);
    }
}

/// Adding an entry under a new key keeps the keys distinct.
proof fn lemma_distinct_push(v: Seq<EntryView>, e: EntryView)
    requires
        keys_distinct(v),
        forall|k: int| 0 <= k < v.len() ==> !key_is(#[trigger] v[k], e.0, e.1),
    ensures
        keys_distinct(v.push(e)),
{
    let w = v.push(e);
    assert forall|a: int, b: int| 0 <= a < w.len() && 0 <= b < w.len() && a != b implies !key_is(
        #[trigger] w[a],
        (#[trigger] w[b]).0,
        w[b].1,
    ) by {
        if a == v.len() {
            assert(!key_is(v[b], e.0, e.1));
        } else if b == v.len() {
            assert(!key_is(v[a], e.0, e.1));
        } else {
            assert(w[a] == v[a] && w[b] == v[b]);
        }
    }
}

/// Keeps the entries that pass the clean-up test at `now`.
fn retain_fresh(entries: Vec<CacheEntry>, now: u64) -> (r: Vec<CacheEntry>)
    requires
        keys_distinct(views(entries@)),
    ensures
        keys_distinct(views(r@)),
        r@.len() == fresh_count(views(entries@), now),
        forall|i: int| 0 <= i < r@.len() ==> views(entries@).contains(#[trigger] views(r@)[i]),
        forall|i: int| 0 <= i < r@.len() ==> kept_by_cleanup(now, #[trigger] views(r@)[i]),
        forall|i: int|
            0 <= i < entries@.len() && kept_by_cleanup(now, #[trigger] views(entries@)[i]) ==> views(
                r@,
            ).contains(views(entries@)[i]),
{
    let ghost orig = views(entries@);
    let mut entries = entries;
    let mut r: Vec<CacheEntry> = Vec::new();
    let ghost mut idx: Seq<int> = Seq::empty();
    assert(orig.subrange(0, orig.len() as int) =~= orig);
    while entries.len() > 0
        invariant
            keys_distinct(orig),
            entries@.len() <= orig.len(),
            views(entries@) == orig.subrange(0, entries@.len() as int),
            idx.len() == r@.len(),
            forall|k: int|
                0 <= k < r@.len() ==> entries@.len() <= #[trigger] idx[k] < orig.len() && views(r@)[k]
                    == orig[idx[k]],
            forall|k: int| 0 <= k < r@.len() ==> kept_by_cleanup(now, #[trigger] views(r@)[k]),
            forall|m: int|
                entries@.len() <= m < orig.len() && kept_by_cleanup(now, #[trigger] orig[m]) ==> views(
                    r@,
                ).contains(orig[m]),
            keys_distinct(views(r@)),
            r@.len() + fresh_count(orig.subrange(0, entries@.len() as int), now) == fresh_count(
                orig,
                now,
            ),
        decreases entries@.len(),
    {
        let ghost n = entries@.len() as int;
        let ghost rv = views(r@);
        let e = entries.pop().unwrap();
        proof {
            assert(views(entries@) =~= orig.subrange(0, n - 1));
            assert(orig.subrange(0, n).drop_last() =~= orig.subrange(0, n - 1));
            assert(orig.subrange(0, n).last() == orig[n - 1]);
        }
        let t: u32 = if e.ttl >= 1 {
            e.ttl
        } else {
            1
        };
        let el: u64 = if now >= e.inserted {
            now - e.inserted
        } else {
            0
        };
        if (el as u128) < (t as u128) * 1000 {
            r.push(e);
            proof {
                assert(views(r@) =~= rv.push(entry_view(e)));
                assert forall|k: int| 0 <= k < rv.len() implies !key_is(#[trigger] rv[k], orig[n - 1].0, orig[n - 1].1) by {
                    assert(rv[k] == orig[idx[k]]);
                    assert(idx[k] != n - 1);
                }
                lemma_distinct_push(rv, entry_view(e));
                idx = idx.push(n - 1);
                assert forall|m: int|
                    n - 1 <= m < orig.len() && kept_by_cleanup(now, #[trigger] orig[m]) implies views(
                    r@,
                ).contains(orig[m]) by {
                    if m == n - 1 {
                        assert(views(r@)[rv.len() as int] == orig[m]);
                    } else {
                        let w = choose|w: int| 0 <= w < rv.len() && rv[w] == orig[m];
                        assert(views(r@)[w] == orig[m]);
                    }
                }
            }
        } else {
            proof {
                assert(views(r@) == rv);
            }
        }
    }
    proof {
        assert forall|i: int| 0 <= i < r@.len() implies orig.contains(#[trigger] views(r@)[i]) by {
            assert(views(r@)[i] == orig[idx[i]]);
        }
    }
    r
}

/// Drops the entries stored earliest until `target` remain.
fn evict_oldest(kept: &mut Vec<CacheEntry>, target: usize)
    requires
        keys_distinct(views(old(kept)@)),
        target <= old(kept)@.len(),
    ensures
        final(kept)@.len() == target,
        keys_distinct(views(final(kept)@)),
        forall|i: int| 0 <= i < final(kept)@.len() ==> views(old(kept)@).contains(#[trigger] views(final(kept)@)[i]),
        forall|i: int|
            0 <= i < old(kept)@.len() && !views(final(kept)@).contains(#[trigger] views(old(kept)@)[i])
                ==> forall|k: int| 0 <= k < final(kept)@.len() ==> views(old(kept)@)[i].3 <= (#[trigger] views(final(kept)@)[k]).3,
{
    let ghost base = views(kept@);
    let ghost mut gone: Seq<EntryView> = Seq::empty();
    while kept.len() > target
        invariant
            target <= kept@.len(),
            keys_distinct(views(kept@)),
            forall|i: int| 0 <= i < kept@.len() ==> base.contains(#[trigger] views(kept@)[i]),
            forall|i: int| 0 <= i < base.len() ==> views(kept@).contains(#[trigger] base[i]) || gone.contains(base[i]),
            forall|g: int, k: int|
                0 <= g < gone.len() && 0 <= k < kept@.len() ==> (#[trigger] gone[g]).3 <= (#[trigger] views(kept@)[k]).3,
        decreases kept@.len(),
    {
        let i = oldest_index(kept);
        let ghost kv = views(kept@);
        let ghost x = kv[i as int];
        kept.remove(i);
        proof {
            assert(views(kept@) =~= kv.remove(i as int));
            lemma_distinct_remove(kv, i as int);
            let g0 = gone;
            gone = gone.push(x);
            assert forall|b: int| 0 <= b < base.len() implies views(kept@).contains(#[trigger] base[b]) || gone.contains(base[b]) by {
                if kv.contains(base[b]) {
                    if base[b] == x {
                        assert(gone[g0.len() as int] == x);
                    }
                } else {
                    let w = choose|w: int| 0 <= w < g0.len() && g0[w] == base[b];
                    assert(gone[w] == base[b]);
                }
            }
            assert forall|g: int, k: int|
                0 <= g < gone.len() && 0 <= k < views(kept@).len() implies (#[trigger] gone[g]).3 <= (#[trigger] views(kept@)[k]).3 by {
                let k1 = if k < i { k } else { k + 1 };
                assert(views(kept@)[k] == kv[k1]);
                if g < g0.len() {
                    assert(gone[g] == g0[g]);
                } else {
                    assert(kv[k1].3 == kept@[k].inserted) by {
                        assert(kv[k1] == views(kept@)[k]);
                    }
                }
            }
        }
    }
    proof {
        assert forall|b: int|
            0 <= b < base.len() && !views(kept@).contains(#[trigger] base[b]) implies forall|k: int|
            0 <= k < kept@.len() ==> base[b].3 <= (#[trigger] views(kept@)[k]).3 by {
            let w = choose|w: int| 0 <= w < gone.len() && gone[w] == base[b];
            assert forall|k: int| 0 <= k < kept@.len() implies base[b].3 <= (#[trigger] views(kept@)[k]).3 by {
                assert(gone[w].3 <= views(kept@)[k].3);
            }
        }
    }
}

impl DnsBlocker {
    /// The cached answer for `name`/`qtype`, carrying the id of `pkt`, while the entry
    /// is fresh at `now` (milliseconds).
    pub fn cached_response_for(&self, name: &str, qtype: u16, pkt: &[u8], now: u64) -> (r: Option<
        Vec<u8>,
    >)
        requires
            self.wf(),
            cache_hit(self.cache(), name@, qtype, now) ==> pkt@.len() >= 2,
        ensures
            match r {
                Some(v) => spec_cached_response(self.cache(), name@, qtype, pkt@, now) == Some(v@),
                None => spec_cached_response(self.cache(), name@, qtype, pkt@, now) is None,
            },
    {
        let n = chars_of(name);
        let i = match find_entry(&self.dns_cache.entries, n.as_slice(), qtype) {
            Some(i) => i,
            None => {
                return None;
            },
        };
        proof {
            lemma_lookup_at(&self.dns_cache, i as int, name@, qtype);
        }
        let e = &self.dns_cache.entries[i];
        assert(entry_view(*e) == self.dns_cache.items()[i as int]);
        let el: u64 = if now >= e.inserted {
            now - e.inserted
        } else {
            0
        };
        if (el as u128) < (e.ttl as u128) * 1000 && e.resp.len() >= 12 {
            let mut r = e.resp.clone();
            r.set(0, pkt[0]);
            r.set(1, pkt[1]);
            assert(r@ =~= seq![pkt@[0], pkt@[1]] + e.resp@.subrange(2, e.resp@.len() as int));
            Some(r)
        } else {
            None
        }
    }

    /// Stores an answer for `name`/`qtype` at `now` (milliseconds), valid for its cache
    /// TTL, replacing any earlier answer for them. While more than 5000 entries are
    /// held, the clean-up first drops the expired ones (a TTL of zero counting as one
    /// second) and then, if still more than 5000 remain, the earliest stored until
    /// 4000 remain.
    pub fn store_cache_response(&mut self, name: &str, qtype: u16, resp: &[u8], now: u64)
        requires
            old(self).wf(),
        ensures
            final(self).wf(),
            final(self).cache().lookup(name@, qtype) == Some(
                (name@, qtype, resp@, now, spec_cache_ttl(resp@) as u32),
            ),
            final(self).cache().items().len() <= 5001,
            forall|i: int|
                0 <= i < final(self).cache().items().len() && !key_is(
                    #[trigger] final(self).cache().items()[i],
                    name@,
                    qtype,
                ) ==> old(self).cache().items().contains(final(self).cache().items()[i]),
            old(self).cache().items().len() <= 5000 ==> forall|i: int|
                0 <= i < old(self).cache().items().len() && !key_is(
                    #[trigger] old(self).cache().items()[i],
                    name@,
                    qtype,
                ) ==> final(self).cache().items().contains(old(self).cache().items()[i]),
            old(self).cache().items().len() > 5000 ==> forall|i: int|
                0 <= i < final(self).cache().items().len() && !key_is(
                    #[trigger] final(self).cache().items()[i],
                    name@,
                    qtype,
                ) ==> kept_by_cleanup(now, final(self).cache().items()[i]),
            old(self).cache().items().len() > 5000 && fresh_count(old(self).cache().items(), now)
                <= 5000 ==> forall|i: int|
                0 <= i < old(self).cache().items().len() && !key_is(
                    #[trigger] old(self).cache().items()[i],
                    name@,
                    qtype,
                ) && kept_by_cleanup(now, old(self).cache().items()[i]) ==> final(self).cache().items().contains(old(self).cache().items()[i]),
            old(self).cache().items().len() > 5000 && fresh_count(old(self).cache().items(), now)
                > 5000 ==> final(self).cache().items().len() <= 4001,
            old(self).cache().items().len() > 5000 && fresh_count(old(self).cache().items(), now)
                > 5000 ==> forall|i: int, k: int|
                0 <= i < old(self).cache().items().len() && !key_is(
                    #[trigger] old(self).cache().items()[i],
                    name@,
                    qtype,
                ) && kept_by_cleanup(now, old(self).cache().items()[i]) && !final(self).cache().items().contains(old(self).cache().items()[i]) && 0 <= k < final(self).cache().items().len() && !key_is(#[trigger] final(self).cache().items()[k], name@, qtype)
                    ==> old(self).cache().items()[i].3 <= final(self).cache().items()[k].3,
            final(self).blocked_set() == old(self).blocked_set(),
            final(self).allowed_set() == old(self).allowed_set(),
            final(self).custom_blocked_set() == old(self).custom_blocked_set(),
            final(self).custom_allowed_set() == old(self).custom_allowed_set(),
            final(self).queries_seen() == old(self).queries_seen(),
            final(self).queries_blocked() == old(self).queries_blocked(),
            final(self).sinkhole_on() == old(self).sinkhole_on(),
    {
        let ghost o = self.dns_cache.items();
        let mut entries: Vec<CacheEntry> = Vec::new();
        std::mem::swap(&mut entries, &mut self.dns_cache.entries);
        assert(views(entries@) == o);
        if entries.len() > CACHE_SOFT_LIMIT {
            let mut kept = retain_fresh(entries, now);
            let ghost r1 = views(kept@);
            if kept.len() > CACHE_SOFT_LIMIT {
                evict_oldest(&mut kept, CACHE_TRIM_TARGET);
                proof {
                    let mid = views(kept@);
                    assert forall|i: int|
                        0 <= i < o.len() && kept_by_cleanup(now, #[trigger] o[i]) && !mid.contains(o[i])
                            implies forall|k: int| 0 <= k < mid.len() ==> o[i].3 <= (#[trigger] mid[k]).3 by {
                        let w = choose|w: int| 0 <= w < r1.len() && r1[w] == o[i];
                        assert(!mid.contains(r1[w]));
                    }
                    assert forall|k: int| 0 <= k < mid.len() implies o.contains(#[trigger] mid[k]) by {
                        let w = choose|w: int| 0 <= w < r1.len() && r1[w] == mid[k];
                        assert(o.contains(r1[w]));
                    }
                    assert forall|k: int| 0 <= k < mid.len() implies kept_by_cleanup(now, #[trigger] mid[k]) by {
                        let w = choose|w: int| 0 <= w < r1.len() && r1[w] == mid[k];
                        assert(kept_by_cleanup(now, r1[w]));
                    }
                }
            }
            entries = kept;
        }
        let ghost mid = views(entries@);
        assert(keys_distinct(mid));
        assert(forall|k: int| 0 <= k < mid.len() ==> o.contains(#[trigger] mid[k]));
        assert(mid.len() <= 5000);
        let n = chars_of(name);
        let found = find_entry(&entries, n.as_slice(), qtype);
        match found {
            Some(i) => {
                entries.remove(i);
                proof {
                    assert(views(entries@) =~= mid.remove(i as int));
                    lemma_distinct_remove(mid, i as int);
                }
            },
            None => {},
        }
        let ghost mid2 = views(entries@);
        assert(forall|k: int| 0 <= k < mid2.len() ==> !key_is(#[trigger] mid2[k], name@, qtype)) by {
            match found {
                Some(i) => {
                    assert forall|k: int| 0 <= k < mid2.len() implies !key_is(#[trigger] mid2[k], name@, qtype) by {
                        let k1 = if k < i { k } else { k + 1 };
                        assert(mid2[k] == mid[k1]);
                        assert(!key_is(mid[k1], mid[i as int].0, mid[i as int].1));
                    }
                },
                None => {},
            }
        }
        assert(forall|x: EntryView| mid.contains(x) && !key_is(x, name@, qtype) ==> #[trigger] mid2.contains(x));
        let ttl = Self::cache_ttl_seconds(resp) as u32;
        let mut copy: Vec<u8> = Vec::new();
        let mut j: usize = 0;
        while j < resp.len()
            invariant
                j <= resp.len(),
                copy@ == resp@.subrange(0, j as int),
            decreases resp.len() - j,
        {
            copy.push(resp[j]);
            j += 1;
        }
        assert(copy@ =~= resp@);
        let e = CacheEntry { name: n, qtype, resp: copy, inserted: now, ttl };
        let ghost ev = entry_view(e);
        entries.push(e);
        self.dns_cache.entries = entries;
        proof {
            let f = self.dns_cache.items();
            assert(f =~= mid2.push(ev));
            lemma_distinct_push(mid2, ev);
            lemma_lookup_at(&self.dns_cache, mid2.len() as int, name@, qtype);
            assert forall|x: EntryView| mid2.contains(x) implies #[trigger] f.contains(x) by {
                let w = choose|w: int| 0 <= w < mid2.len() && mid2[w] == x;
                assert(f[w] == x);
            }
            assert forall|i: int| 0 <= i < f.len() && !key_is(#[trigger] f[i], name@, qtype) implies o.contains(f[i]) by {
                assert(f[i] == mid2[i]);
                let w = choose|w: int| 0 <= w < mid.len() && mid[w] == mid2[i];
                assert(o.contains(mid[w]));
            }
        }
    }
}

/// Read after write: once an answer is stored for a name and type, a query for them
/// is answered from the cache with the stored bytes under the new query's id, for as
/// long as the stored TTL has not run out and the answer holds a header; within the
/// first second it is always answered.
pub proof fn lemma_cache_read_after_write(
    b: &DnsBlocker,
    name: Seq<char>,
    qtype: u16,
    resp: Seq<u8>,
    stored_at: u64,
    pkt: Seq<u8>,
    now: u64,
)
    requires
        b.cache().lookup(name, qtype) == Some((name, qtype, resp, stored_at, spec_cache_ttl(resp) as u32)),
    ensures
        spec_cached_response(b.cache(), name, qtype, pkt, now) == if is_fresh(
            now,
            stored_at,
            spec_cache_ttl(resp) as u32,
        ) && resp.len() >= 12 {
            Some(seq![pkt[0], pkt[1]] + resp.subrange(2, resp.len() as int))
        } else {
            None
        },
        elapsed_ms(now, stored_at) < 1000 && resp.len() >= 12 ==> spec_cached_response(
            b.cache(),
            name,
            qtype,
            pkt,
            now,
        ) is Some,
{
}

} // verus!
