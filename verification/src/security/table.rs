//! Tables keyed by a text key (an IP address), each key held once.
use vstd::prelude::*;
use crate::text::eq_chars;

verus! {

/// A table from text keys to values; a key is held at most once.
pub struct KeyTable<V> {
    pub entries: Vec<(Vec<char>, V)>,
}

/// The key of the `i`-th entry.
pub open spec fn key_at<V>(s: Seq<(Vec<char>, V)>, i: int) -> Seq<char> {
    s[i].0@
}

/// No key occurs twice.
pub open spec fn keys_unique<V>(s: Seq<(Vec<char>, V)>) -> bool {
    forall|i: int, j: int| 0 <= i < s.len() && 0 <= j < s.len() && i != j ==> #[trigger] key_at(s, i) != #[trigger] key_at(s, j)
}

/// The value held under `k`, if any.
pub open spec fn seq_lookup<V>(s: Seq<(Vec<char>, V)>, k: Seq<char>) -> Option<V> {
    if exists|i: int| 0 <= i < s.len() && #[trigger] key_at(s, i) == k {
        let i = choose|i: int| 0 <= i < s.len() && #[trigger] key_at(s, i) == k;
        Some(s[i].1)
    } else {
        None
    }
}

/// With unique keys, the entry at `i` is what its key looks up.
pub proof fn lemma_lookup_index<V>(s: Seq<(Vec<char>, V)>, i: int)
    requires
        keys_unique(s),
        0 <= i < s.len(),
    ensures
        seq_lookup(s, key_at(s, i)) == Some(s[i].1),
{
    let k = key_at(s, i);
    let j = choose|j: int| 0 <= j < s.len() && #[trigger] key_at(s, j) == k;
    if j != i {
        assert(key_at(s, i) != key_at(s, j));
    }
}

/// A key that no entry carries looks up nothing.
pub proof fn lemma_lookup_absent<V>(s: Seq<(Vec<char>, V)>, k: Seq<char>)
    requires
        forall|i: int| 0 <= i < s.len() ==> #[trigger] key_at(s, i) != k,
    ensures
        seq_lookup(s, k) is None,
{
}

/// Removing the entry at `i` removes its key and keeps every other lookup.
pub proof fn lemma_remove_index<V>(s: Seq<(Vec<char>, V)>, i: int)
    requires
        keys_unique(s),
        0 <= i < s.len(),
    ensures
        keys_unique(s.remove(i)),
        seq_lookup(s.remove(i), key_at(s, i)) is None,
        forall|k: Seq<char>| k != key_at(s, i) ==> #[trigger] seq_lookup(s.remove(i), k) == seq_lookup(s, k),
{
    let t = s.remove(i);
    assert forall|a: int, b: int| 0 <= a < t.len() && 0 <= b < t.len() && a != b implies #[trigger] key_at(t, a)
        != #[trigger] key_at(t, b) by {
        let a1 = if a < i { a } else { a + 1 };
        let b1 = if b < i { b } else { b + 1 };
        assert(key_at(t, a) == key_at(s, a1));
        assert(key_at(t, b) == key_at(s, b1));
    }
    assert forall|a: int| 0 <= a < t.len() implies #[trigger] key_at(t, a) != key_at(s, i) by {
        let a1 = if a < i { a } else { a + 1 };
        assert(key_at(t, a) == key_at(s, a1));
    }
    assert forall|k: Seq<char>| k != key_at(s, i) implies #[trigger] seq_lookup(t, k) == seq_lookup(s, k) by {
        if exists|j: int| 0 <= j < s.len() && #[trigger] key_at(s, j) == k {
            let j = choose|j: int| 0 <= j < s.len() && #[trigger] key_at(s, j) == k;
            let j1 = if j < i { j } else { j - 1 };
            assert(key_at(t, j1) == k);
            lemma_lookup_index(s, j);
            lemma_lookup_index(t, j1);
        } else {
            assert forall|a: int| 0 <= a < t.len() implies #[trigger] key_at(t, a) != k by {
                let a1 = if a < i { a } else { a + 1 };
                assert(key_at(t, a) == key_at(s, a1));
            }
        }
    }
}

/// Appending an entry under a new key adds exactly that key.
pub proof fn lemma_push_new<V>(s: Seq<(Vec<char>, V)>, e: (Vec<char>, V))
    requires
        keys_unique(s),
        seq_lookup(s, e.0@) is None,
    ensures
        keys_unique(s.push(e)),
        seq_lookup(s.push(e), e.0@) == Some(e.1),
        forall|k: Seq<char>| k != e.0@ ==> #[trigger] seq_lookup(s.push(e), k) == seq_lookup(s, k),
{
    let t = s.push(e);
    assert forall|a: int| 0 <= a < s.len() implies #[trigger] key_at(s, a) != e.0@ by {
        if key_at(s, a) == e.0@ {
            assert(exists|j: int| 0 <= j < s.len() && #[trigger] key_at(s, j) == e.0@);
        }
    }
    assert forall|a: int, b: int| 0 <= a < t.len() && 0 <= b < t.len() && a != b implies #[trigger] key_at(t, a)
        != #[trigger] key_at(t, b) by {
        if a < s.len() {
            assert(key_at(t, a) == key_at(s, a));
        }
        if b < s.len() {
            assert(key_at(t, b) == key_at(s, b));
        }
    }
    lemma_lookup_index(t, s.len() as int);
    assert forall|k: Seq<char>| k != e.0@ implies #[trigger] seq_lookup(t, k) == seq_lookup(s, k) by {
        if exists|j: int| 0 <= j < s.len() && #[trigger] key_at(s, j) == k {
            let j = choose|j: int| 0 <= j < s.len() && #[trigger] key_at(s, j) == k;
            assert(key_at(t, j) == k);
            lemma_lookup_index(s, j);
            lemma_lookup_index(t, j);
        } else {
            assert forall|a: int| 0 <= a < t.len() implies #[trigger] key_at(t, a) != k by {
                if a < s.len() {
                    assert(key_at(t, a) == key_at(s, a));
                }
            }
        }
    }
}

/// Replacing the value at `i` changes only the lookup of its key.
pub proof fn lemma_update_index<V>(s: Seq<(Vec<char>, V)>, i: int, e: (Vec<char>, V))
    requires
        keys_unique(s),
        0 <= i < s.len(),
        e.0@ == key_at(s, i),
    ensures
        keys_unique(s.update(i, e)),
        seq_lookup(s.update(i, e), e.0@) == Some(e.1),
        forall|k: Seq<char>| k != e.0@ ==> #[trigger] seq_lookup(s.update(i, e), k) == seq_lookup(s, k),
{
    let t = s.update(i, e);
    assert forall|a: int, b: int| 0 <= a < t.len() && 0 <= b < t.len() && a != b implies #[trigger] key_at(t, a)
        != #[trigger] key_at(t, b) by {
        assert(key_at(t, a) == key_at(s, a));
        assert(key_at(t, b) == key_at(s, b));
    }
    lemma_lookup_index(t, i);
    assert forall|k: Seq<char>| k != e.0@ implies #[trigger] seq_lookup(t, k) == seq_lookup(s, k) by {
        if exists|j: int| 0 <= j < s.len() && #[trigger] key_at(s, j) == k {
            let j = choose|j: int| 0 <= j < s.len() && #[trigger] key_at(s, j) == k;
            assert(key_at(t, j) == k);
            lemma_lookup_index(s, j);
            lemma_lookup_index(t, j);
        } else {
            assert forall|a: int| 0 <= a < t.len() implies #[trigger] key_at(t, a) != k by {
                assert(key_at(t, a) == key_at(s, a));
            }
        }
    }
}

impl<V> KeyTable<V> {
    /// Each key is held once.
    pub open spec fn wf(&self) -> bool {
        keys_unique(self.entries@)
    }

    /// The value held under `k`, if any.
    pub open spec fn lookup(&self, k: Seq<char>) -> Option<V> {
        seq_lookup(self.entries@, k)
    }

    /// Number of keys held.
    pub open spec fn size(&self) -> nat {
        self.entries@.len()
    }

    /// An empty table.
    pub fn new() -> (r: Self)
        ensures
            r.wf(),
            r.size() == 0,
            forall|k: Seq<char>| #[trigger] r.lookup(k) is None,
    {
        KeyTable { entries: Vec::new() }
    }

    /// Number of keys held.
    pub fn len(&self) -> (r: usize)
        ensures
            r == self.size(),
    {
        self.entries.len()
    }

    /// Position of `k`, if held.
    pub fn find(&self, k: &[char]) -> (r: Option<usize>)
        requires
            self.wf(),
        ensures
            match r {
                Some(i) => i < self.size() && key_at(self.entries@, i as int) == k@ && self.lookup(k@) == Some(
                    self.entries@[i as int].1,
                ),
                None => self.lookup(k@) is None,
            },
    {
        let mut i: usize = 0;
        while i < self.entries.len()
            invariant
                i <= self.entries@.len(),
                keys_unique(self.entries@),
                forall|j: int| 0 <= j < i ==> #[trigger] key_at(self.entries@, j) != k@,
            decreases self.entries@.len() - i,
        {
            if eq_chars(self.entries[i].0.as_slice(), k) {
                proof {
                    lemma_lookup_index(self.entries@, i as int);
                }
                return Some(i);
            }
            i += 1;
        }
        None
    }

    /// The value held under `k`, if any.
    pub fn get(&self, k: &[char]) -> (r: Option<&V>)
        requires
            self.wf(),
        ensures
            match r {
                Some(v) => self.lookup(k@) == Some(*v),
                None => self.lookup(k@) is None,
            },
    {
        match self.find(k) {
            Some(i) => Some(&self.entries[i].1),
            None => None,
        }
    }

    /// Whether `k` is held.
    pub fn contains_key(&self, k: &[char]) -> (r: bool)
        requires
            self.wf(),
        ensures
            r == self.lookup(k@) is Some,
    {
        self.find(k).is_some()
    }

    /// Sets the value under `k`.
    pub fn insert(&mut self, k: Vec<char>, v: V)
        requires
            old(self).wf(),
        ensures
            final(self).wf(),
            final(self).lookup(k@) == Some(v),
            forall|q: Seq<char>| q != k@ ==> #[trigger] final(self).lookup(q) == old(self).lookup(q),
            final(self).size() == old(self).size() + if old(self).lookup(k@) is Some { 0int } else { 1int },
    {
        match self.find(k.as_slice()) {
            Some(i) => {
                let ghost s = self.entries@;
                let ghost kv = k@;
                let ghost e = (k, v);
                self.entries.set(i, (k, v));
                proof {
                    lemma_update_index(s, i as int, e);
                }
            },
            None => {
                let ghost s = self.entries@;
                let ghost e = (k, v);
                self.entries.push((k, v));
                proof {
                    lemma_push_new(s, e);
                }
            },
        }
    }

    /// Removes `k`, if held.
    pub fn remove(&mut self, k: &[char])
        requires
            old(self).wf(),
        ensures
            final(self).wf(),
            final(self).lookup(k@) is None,
            forall|q: Seq<char>| q != k@ ==> #[trigger] final(self).lookup(q) == old(self).lookup(q),
            final(self).size() == old(self).size() - if old(self).lookup(k@) is Some { 1int } else { 0int },
    {
        match self.find(k) {
            Some(i) => {
                let ghost s = self.entries@;
                self.entries.remove(i);
                proof {
                    lemma_remove_index(s, i as int);
                }
            },
            None => {},
        }
    }

    /// Removes every entry.
    pub fn clear(&mut self)
        ensures
            final(self).wf(),
            final(self).size() == 0,
            forall|k: Seq<char>| #[trigger] final(self).lookup(k) is None,
    {
        self.entries = Vec::new();
    }
}


impl<V> KeyTable<V> {
    /// Keeps the entries whose key and value pass `keep`, which decides as `pred` says.
    pub fn retain_where<F: Fn(&Vec<char>, &V) -> bool>(
        &mut self,
        keep: F,
        Ghost(pred): Ghost<spec_fn(Seq<char>, V) -> bool>,
    )
        requires
            old(self).wf(),
            forall|k: Vec<char>, v: V| #[trigger] keep.requires((&k, &v)),
            forall|k: Vec<char>, v: V, b: bool| keep.ensures((&k, &v), b) ==> b == pred(k@, v),
        ensures
            final(self).wf(),
            forall|q: Seq<char>|
                #[trigger] final(self).lookup(q) == match old(self).lookup(q) {
                    Some(v) => if pred(q, v) {
                        Some(v)
                    } else {
                        None
                    },
                    None => None,
                },
            final(self).size() <= old(self).size(),
    {
        let ghost orig = self.entries@;
        let mut rest: Vec<(Vec<char>, V)> = Vec::new();
        std::mem::swap(&mut rest, &mut self.entries);
        let mut kept: Vec<(Vec<char>, V)> = Vec::new();
        let ghost mut idx: Seq<int> = Seq::empty();
        assert(orig.subrange(0, orig.len() as int) =~= orig);
        while rest.len() > 0
            invariant
                keys_unique(orig),
                rest@.len() <= orig.len(),
                rest@ == orig.subrange(0, rest@.len() as int),
                idx.len() == kept@.len(),
                kept@.len() + rest@.len() <= orig.len(),
                forall|k: int|
                    0 <= k < kept@.len() ==> rest@.len() <= #[trigger] idx[k] < orig.len() && kept@[k] == orig[idx[k]]
                        && pred(key_at(orig, idx[k]), orig[idx[k]].1),
                forall|m: int|
                    rest@.len() <= m < orig.len() && pred(key_at(orig, m), #[trigger] orig[m].1) ==> exists|k: int|
                        0 <= k < kept@.len() && idx[k] == m,
                keys_unique(kept@),
                forall|k: Vec<char>, v: V| #[trigger] keep.requires((&k, &v)),
                forall|k: Vec<char>, v: V, b: bool| keep.ensures((&k, &v), b) ==> b == pred(k@, v),
            decreases rest@.len(),
        {
            let ghost n = rest@.len() as int;
            let ghost kv = kept@;
            let ghost ki = idx;
            let e = rest.pop().unwrap();
            proof {
                assert(rest@ =~= orig.subrange(0, n - 1));
                assert(e == orig[n - 1]);
            }
            if keep(&e.0, &e.1) {
                kept.push(e);
                proof {
                    idx = idx.push(n - 1);
                    assert forall|a: int, b: int|
                        0 <= a < kept@.len() && 0 <= b < kept@.len() && a != b implies #[trigger] key_at(kept@, a)
                        != #[trigger] key_at(kept@, b) by {
                        assert(kept@[a] == orig[idx[a]]);
                        assert(kept@[b] == orig[idx[b]]);
                        assert(key_at(kept@, a) == key_at(orig, idx[a]));
                        assert(key_at(kept@, b) == key_at(orig, idx[b]));
                        if a < kv.len() && b < kv.len() {
                            assert(kept@[a] == kv[a] && kept@[b] == kv[b]);
                            assert(key_at(kv, a) != key_at(kv, b));
                        } else {
                            assert(idx[a] != idx[b]);
                        }
                    }
                    assert forall|m: int| n - 1 <= m < orig.len() && pred(key_at(orig, m), #[trigger] orig[m].1) implies exists|k: int|
                        0 <= k < kept@.len() && idx[k] == m by {
                        if m == n - 1 {
                            assert(idx[kv.len() as int] == m);
                        } else {
                            let k = choose|k: int| 0 <= k < kv.len() && ki[k] == m;
                            assert(idx[k] == m);
                        }
                    }
                }
            }
        }
        proof {
            assert forall|q: Seq<char>|
                #[trigger] seq_lookup(kept@, q) == match seq_lookup(orig, q) {
                    Some(v) => if pred(q, v) {
                        Some(v)
                    } else {
                        None
                    },
                    None => None,
                } by {
                if exists|m: int| 0 <= m < orig.len() && #[trigger] key_at(orig, m) == q {
                    let m = choose|m: int| 0 <= m < orig.len() && #[trigger] key_at(orig, m) == q;
                    lemma_lookup_index(orig, m);
                    if pred(key_at(orig, m), orig[m].1) {
                        let k = choose|k: int| 0 <= k < kept@.len() && idx[k] == m;
                        assert(key_at(kept@, k) == q);
                        lemma_lookup_index(kept@, k);
                    } else {
                        assert forall|k: int| 0 <= k < kept@.len() implies #[trigger] key_at(kept@, k) != q by {
                            assert(kept@[k] == orig[idx[k]]);
                            if idx[k] != m {
                                assert(key_at(orig, idx[k]) != key_at(orig, m));
                            }
                        }
                    }
                } else {
                    assert forall|k: int| 0 <= k < kept@.len() implies #[trigger] key_at(kept@, k) != q by {
                        assert(kept@[k] == orig[idx[k]]);
                        assert(key_at(kept@, k) == key_at(orig, idx[k]));
                    }
                }
            }
        }
        self.entries = kept;
    }
}


impl<V> KeyTable<V> {
    /// Index of an entry whose value ranks lowest.
    fn lowest_index<F: Fn(&V) -> i128>(&self, rank: &F, Ghost(r): Ghost<spec_fn(V) -> int>) -> (res: usize)
        requires
            self.size() > 0,
            forall|v: V| #[trigger] rank.requires((&v,)),
            forall|v: V, x: i128| rank.ensures((&v,), x) ==> x == r(v),
        ensures
            res < self.size(),
            forall|j: int| 0 <= j < self.size() ==> r(self.entries@[res as int].1) <= r(#[trigger] self.entries@[j].1),
    {
        let mut best: usize = 0;
        let mut best_rank: i128 = rank(&self.entries[0].1);
        let mut i: usize = 1;
        while i < self.entries.len()
            invariant
                1 <= i <= self.entries@.len(),
                best < i,
                best_rank == r(self.entries@[best as int].1),
                forall|v: V| #[trigger] rank.requires((&v,)),
                forall|v: V, x: i128| rank.ensures((&v,), x) ==> x == r(v),
                forall|j: int| 0 <= j < i ==> best_rank <= r(#[trigger] self.entries@[j].1),
            decreases self.entries@.len() - i,
        {
            let x = rank(&self.entries[i].1);
            if x < best_rank {
                best = i;
                best_rank = x;
            }
            i += 1;
        }
        best
    }

    /// When more than `count` keys are held, drops the `count` whose values rank
    /// lowest; otherwise leaves the table as it is.
    pub fn evict_lowest<F: Fn(&V) -> i128>(&mut self, count: usize, rank: F, Ghost(r): Ghost<spec_fn(V) -> int>)
        requires
            old(self).wf(),
            forall|v: V| #[trigger] rank.requires((&v,)),
            forall|v: V, x: i128| rank.ensures((&v,), x) ==> x == r(v),
        ensures
            final(self).wf(),
            old(self).size() <= count ==> final(self).entries@ == old(self).entries@,
            old(self).size() > count ==> final(self).size() == old(self).size() - count,
            forall|q: Seq<char>| #[trigger] final(self).lookup(q) is Some ==> final(self).lookup(q) == old(self).lookup(q),
            forall|q: Seq<char>, p: Seq<char>|
                #[trigger] old(self).lookup(q) is Some && final(self).lookup(q) is None && #[trigger] final(self).lookup(p) is Some
                    ==> r(old(self).lookup(q)->0) <= r(final(self).lookup(p)->0),
    {
        if self.entries.len() <= count {
            return;
        }
        let ghost orig = self.entries@;
        let target = self.entries.len() - count;
        while self.entries.len() > target
            invariant
                target <= self.entries@.len(),
                target == orig.len() - count,
                keys_unique(self.entries@),
                keys_unique(orig),
                forall|v: V| #[trigger] rank.requires((&v,)),
                forall|v: V, x: i128| rank.ensures((&v,), x) ==> x == r(v),
                forall|q: Seq<char>| #[trigger] seq_lookup(self.entries@, q) is Some ==> seq_lookup(self.entries@, q) == seq_lookup(orig, q),
                forall|q: Seq<char>, j: int|
                    #[trigger] seq_lookup(orig, q) is Some && seq_lookup(self.entries@, q) is None && 0 <= j < self.entries@.len()
                        ==> r(seq_lookup(orig, q)->0) <= r(#[trigger] self.entries@[j].1),
            decreases self.entries@.len(),
        {
            let i = self.lowest_index(&rank, Ghost(r));
            let ghost cur = self.entries@;
            let ghost x = cur[i as int];
            self.entries.remove(i);
            proof {
                lemma_remove_index(cur, i as int);
                lemma_lookup_index(cur, i as int);
                let nxt = self.entries@;
                assert(nxt == cur.remove(i as int));
                assert forall|q: Seq<char>, j: int|
                    #[trigger] seq_lookup(orig, q) is Some && seq_lookup(nxt, q) is None && 0 <= j < nxt.len()
                        implies r(seq_lookup(orig, q)->0) <= r(#[trigger] nxt[j].1) by {
                    let j1 = if j < i { j } else { j + 1 };
                    assert(nxt[j] == cur[j1]);
                    if q == key_at(cur, i as int) {
                        assert(seq_lookup(cur, q) == Some(x.1));
                    }
                }
            }
        }
        proof {
            let fin = self.entries@;
            assert forall|q: Seq<char>, p: Seq<char>|
                #[trigger] seq_lookup(orig, q) is Some && seq_lookup(fin, q) is None && #[trigger] seq_lookup(fin, p) is Some
                    implies r(seq_lookup(orig, q)->0) <= r(seq_lookup(fin, p)->0) by {
                let j = choose|j: int| 0 <= j < fin.len() && #[trigger] key_at(fin, j) == p;
                lemma_lookup_index(fin, j);
            }
        }
    }
}

} // verus!
