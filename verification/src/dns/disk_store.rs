//! The compact blocklist store: the domain hash, the direct-mapped result cache, and
//! the on-disk index format.
use vstd::prelude::*;

verus! {

/// The FNV-1a 64-bit offset basis.
pub const FNV_OFFSET: u64 = 0xcbf29ce484222325;

/// The FNV-1a 64-bit prime.
pub const FNV_PRIME: u64 = 0x100000001b3;

/// ASCII upper-case letters lowered; every other byte unchanged.
pub open spec fn lower_byte(b: u8) -> u8 {
    if 65 <= b <= 90 {
        (b + 32) as u8
    } else {
        b
    }
}

/// FNV-1a over the bytes, each ASCII letter lowered first.
pub open spec fn fnv_lower(bytes: Seq<u8>) -> u64
    decreases bytes.len(),
{
    if bytes.len() == 0 {
        FNV_OFFSET
    } else {
        (fnv_lower(bytes.drop_last()) ^ (lower_byte(bytes.last()) as u64)).wrapping_mul(FNV_PRIME)
    }
}

/// The case-insensitive FNV-1a hash of a domain's UTF-8 bytes.
pub open spec fn spec_hash_domain(domain: Seq<char>) -> u64 {
    fnv_lower(vstd::utf8::encode_utf8(domain))
}

/// The FNV-1a 64-bit hash of `domain`'s bytes with ASCII letters lowered, so that
/// names differing only in ASCII case hash alike.
pub fn hash_domain(domain: &str) -> (r: u64)
    ensures
        r == spec_hash_domain(domain@),
{
    let bytes = domain.as_bytes();
    let mut h: u64 = FNV_OFFSET;
    let mut i: usize = 0;
    assert(bytes@.subrange(0, 0) =~= Seq::<u8>::empty());
    while i < bytes.len()
        invariant
            i <= bytes@.len(),
            bytes@ == vstd::utf8::encode_utf8(domain@),
            h == fnv_lower(bytes@.subrange(0, i as int)),
        decreases bytes@.len() - i,
    {
        proof {
            assert(bytes@.subrange(0, i + 1).drop_last() =~= bytes@.subrange(0, i as int));
        }
        let b = bytes[i];
        let lower: u8 = if 65 <= b && b <= 90 {
            b + 32
        } else {
            b
        };
        h = (h ^ (lower as u64)).wrapping_mul(FNV_PRIME);
        i += 1;
    }
    assert(bytes@.subrange(0, bytes@.len() as int) =~= bytes@);
    h
}

/// Number of slots of the fast cache.
pub const FAST_CACHE_SLOTS: usize = 4096;

/// The slot a hash maps to.
pub open spec fn slot_of(hash: u64) -> int {
    (hash % 4096) as int
}

/// A direct-mapped cache of lookup results: each hash owns one of 4096 slots, a newer
/// hash evicts the older one, and hash 0 is never stored.
pub struct FastDomainCache {
    entries: Vec<(u64, bool)>,
}

impl FastDomainCache {
    /// The slots, as (hash, result) pairs.
    pub closed spec fn slots(&self) -> Seq<(u64, bool)> {
        self.entries@
    }

    /// Always 4096 slots.
    pub closed spec fn wf(&self) -> bool {
        self.entries@.len() == 4096
    }

    /// The cached result for `hash`: its slot's result when the slot holds that hash.
    pub open spec fn cached(&self, hash: u64) -> Option<bool> {
        if hash != 0 && self.slots()[slot_of(hash)].0 == hash {
            Some(self.slots()[slot_of(hash)].1)
        } else {
            None
        }
    }

    /// An empty cache: every slot empty.
    pub fn new() -> (r: Self)
        ensures
            r.wf(),
            forall|h: u64| #[trigger] r.cached(h) is None,
    {
        let mut entries: Vec<(u64, bool)> = Vec::new();
        let mut i: usize = 0;
        while i < FAST_CACHE_SLOTS
            invariant
                i <= 4096,
                entries@.len() == i,
                forall|j: int| 0 <= j < i ==> #[trigger] entries@[j] == (0u64, false),
            decreases 4096 - i,
        {
            entries.push((0, false));
            i += 1;
        }
        let r = FastDomainCache { entries };
        assert forall|h: u64| #[trigger] r.cached(h) is None by {
            if h != 0 {
                assert(r.slots()[slot_of(h)] == (0u64, false));
            }
        }
        r
    }

    fn slot_index(hash: u64) -> (r: usize)
        ensures
            r == slot_of(hash),
            r < 4096,
    {
        let v: u64 = hash & 4095;
        assert(hash & 4095 == hash % 4096) by (bit_vector);
        v as usize
    }

    /// The cached result for `hash`, if its slot holds it.
    pub fn get(&self, hash: u64) -> (r: Option<bool>)
        requires
            self.wf(),
        ensures
            r == self.cached(hash),
    {
        if hash == 0 {
            return None;
        }
        let idx = Self::slot_index(hash);
        let (h, blocked) = self.entries[idx];
        if h == hash {
            Some(blocked)
        } else {
            None
        }
    }

    /// Caches `blocked` for `hash` in its slot, evicting what was there; hash 0 is
    /// ignored.
    pub fn insert(&mut self, hash: u64, blocked: bool)
        requires
            old(self).wf(),
        ensures
            final(self).wf(),
            hash != 0 ==> final(self).slots() == old(self).slots().update(slot_of(hash), (hash, blocked)),
            hash == 0 ==> final(self).slots() == old(self).slots(),
    {
        if hash == 0 {
            return;
        }
        let idx = Self::slot_index(hash);
        self.entries.set(idx, (hash, blocked));
    }

    /// Empties every slot.
    pub fn clear(&mut self)
        requires
            old(self).wf(),
        ensures
            final(self).wf(),
            forall|h: u64| #[trigger] final(self).cached(h) is None,
    {
        let fresh = Self::new();
        self.entries = fresh.entries;
        assert forall|h: u64| #[trigger] self.cached(h) is None by {
            assert(fresh.cached(h) is None);
        }
    }
}

/// What the cache answers after an insert: the inserted result for that hash, and
/// for any other hash what it answered before unless the two share a slot, in which
/// case the other is evicted.
pub proof fn lemma_fast_cache_read_after_write(c0: FastDomainCache, c1: FastDomainCache, hash: u64, blocked: bool, other: u64)
    requires
        c0.wf(),
        hash != 0,
        c1.slots() == c0.slots().update(slot_of(hash), (hash, blocked)),
        c1.wf(),
    ensures
        c1.cached(hash) == Some(blocked),
        other != hash && slot_of(other) != slot_of(hash) ==> c1.cached(other) == c0.cached(other),
        other != hash && slot_of(other) == slot_of(hash) ==> c1.cached(other) is None,
{
    assert(0 <= slot_of(hash) < 4096);
    assert(0 <= slot_of(other) < 4096);
}

} // verus!
