//! The on-disk blocklist index: a 4096-byte header naming 256 hash buckets, 14-byte
//! records (hash, name offset, name length) sorted by domain hash, then the names.
use vstd::prelude::*;
use crate::dns::disk_store::{hash_domain, lower_byte, spec_hash_domain};

verus! {

/// Size of the index header in bytes.
pub const INDEX_HEADER_SIZE: usize = 4096;

/// Number of hash buckets (one per top byte of the hash).
pub const INDEX_BUCKETS: usize = 256;

/// Size of one index record in bytes.
pub const INDEX_RECORD_SIZE: usize = 14;

/// The little-endian 16-bit number at `o`.
pub open spec fn le16_at(b: Seq<u8>, o: int) -> int {
    b[o] + 256 * b[o + 1]
}

/// The little-endian 32-bit number at `o`.
pub open spec fn le32_at(b: Seq<u8>, o: int) -> int {
    le16_at(b, o) + 65536 * le16_at(b, o + 2)
}

/// The little-endian 64-bit number at `o`.
pub open spec fn le64_at(b: Seq<u8>, o: int) -> int {
    le32_at(b, o) + 4294967296 * le32_at(b, o + 4)
}

fn read_le16(b: &[u8], o: usize) -> (r: u16)
    requires
        o + 2 <= b@.len(),
    ensures
        r == le16_at(b@, o as int),
{
    let n = b.len();
    b[o] as u16 + (b[o + 1] as u16) * 256
}

fn read_le32(b: &[u8], o: usize) -> (r: u32)
    requires
        o + 4 <= b@.len(),
    ensures
        r == le32_at(b@, o as int),
{
    let n = b.len();
    let lo = read_le16(b, o);
    let hi = read_le16(b, o + 2);
    lo as u32 + (hi as u32) * 65536
}

fn read_le64(b: &[u8], o: usize) -> (r: u64)
    requires
        o + 8 <= b@.len(),
    ensures
        r == le64_at(b@, o as int),
{
    let n = b.len();
    let lo = read_le32(b, o);
    let hi = read_le32(b, o + 4);
    lo as u64 + (hi as u64) * 4294967296
}

/// The header starts with the magic `SGBL`.
pub open spec fn magic_ok(h: Seq<u8>) -> bool {
    h[0] == 0x53u8 && h[1] == 0x47u8 && h[2] == 0x42u8 && h[3] == 0x4cu8
}

/// Why a header is refused: a wrong magic, then a version other than 1.
pub open spec fn header_error(h: Seq<u8>) -> Option<Seq<char>> {
    if !magic_ok(h) {
        Some("invalid magic bytes"@)
    } else if le32_at(h, 4) != 1 {
        Some("unsupported version"@)
    } else {
        None
    }
}

/// The bucket `b` a header names: the offset of its first record and its number of
/// records.
pub open spec fn header_bucket(h: Seq<u8>, b: int) -> (u32, u32) {
    (le32_at(h, 16 + 8 * b) as u32, le32_at(h, 20 + 8 * b) as u32)
}

/// The bucket of a hash: its top byte.
pub open spec fn bucket_of(h: u64) -> int {
    (h >> 56u64) as int
}

/// An opened index: the number of names, the 256 buckets and where the names start.
pub struct DiskBlocklist {
    file_path: String,
    total_domains: usize,
    buckets: Vec<(u32, u32)>,
    strings_base_offset: u64,
}

impl DiskBlocklist {
    /// The file the index was read from.
    pub closed spec fn path(&self) -> Seq<char> {
        self.file_path@
    }

    /// Number of names in the index.
    pub closed spec fn total(&self) -> nat {
        self.total_domains as nat
    }

    /// Bucket `b`: offset of its first record and number of records.
    pub closed spec fn bucket(&self, b: int) -> (u32, u32) {
        self.buckets@[b]
    }

    /// Where the names section starts: after the header and every record.
    pub closed spec fn strings_base(&self) -> int {
        self.strings_base_offset as int
    }

    /// 256 buckets, fewer than 2^32 names, names after the records.
    pub closed spec fn wf(&self) -> bool {
        &&& self.buckets@.len() == 256
        &&& self.total_domains < 0x1_0000_0000
        &&& self.strings_base_offset == 4096 + 14 * self.total_domains
    }

    /// The index as the header `h` describes it.
    pub open spec fn read_from(&self, h: Seq<u8>) -> bool {
        &&& self.wf()
        &&& self.total() == le32_at(h, 8)
        &&& forall|b: int| 0 <= b < 256 ==> #[trigger] self.bucket(b) == header_bucket(h, b)
    }

    /// Opens the index whose 4096-byte header is `header`, read from `path`: the magic
    /// must be `SGBL` and the version 1.
    pub fn from_header(path: &str, header: &[u8]) -> (r: Result<DiskBlocklist, String>)
        requires
            header@.len() == 4096,
        ensures
            match r {
                Ok(d) => header_error(header@) is None && d.read_from(header@) && d.path() == path@,
                Err(e) => header_error(header@) == Some(e@),
            },
    {
        if !(header[0] == 0x53 && header[1] == 0x47 && header[2] == 0x42 && header[3] == 0x4c) {
            return Err(String::from_str("invalid magic bytes"));
        }
        let version = read_le32(header, 4);
        if version != 1 {
            return Err(String::from_str("unsupported version"));
        }
        let total = read_le32(header, 8);
        let mut buckets: Vec<(u32, u32)> = Vec::new();
        let mut b: usize = 0;
        while b < 256
            invariant
                b <= 256,
                header@.len() == 4096,
                buckets@.len() == b,
                forall|k: int| 0 <= k < b ==> #[trigger] buckets@[k] == header_bucket(header@, k),
            decreases 256 - b,
        {
            let off = read_le32(header, 16 + 8 * b);
            let count = read_le32(header, 20 + 8 * b);
            buckets.push((off, count));
            b += 1;
        }
        let d = DiskBlocklist {
            file_path: String::from_str(path),
            total_domains: total as usize,
            buckets,
            strings_base_offset: 4096 + 14 * (total as u64),
        };
        assert(forall|k: int| 0 <= k < 256 ==> #[trigger] d.bucket(k) == header_bucket(header@, k));
        Ok(d)
    }

    /// The file the index was read from.
    pub fn file_path(&self) -> (r: &str)
        ensures
            r@ == self.path(),
    {
        self.file_path.as_str()
    }

    /// Number of names in the index.
    pub fn total_domains(&self) -> (r: usize)
        ensures
            r == self.total(),
    {
        self.total_domains
    }

    /// The bucket to read for `domain`: its hash with the bucket's offset and count;
    /// none when the index is empty, the name is empty or the bucket has no record.
    pub open spec fn spec_lookup_bucket(&self, domain: Seq<char>) -> Option<(u64, u32, u32)> {
        let h = spec_hash_domain(domain);
        let bk = self.bucket(bucket_of(h));
        if self.total() == 0 || domain.len() == 0 || bk.1 == 0 {
            None
        } else {
            Some((h, bk.0, bk.1))
        }
    }

    /// Where to look for `domain`: its hash, and the offset and count of the records
    /// of its bucket.
    pub fn lookup_bucket(&self, domain: &str) -> (r: Option<(u64, u32, u32)>)
        requires
            self.wf(),
        ensures
            r == self.spec_lookup_bucket(domain@),
    {
        if self.total_domains == 0 || domain.as_bytes().len() == 0 {
            proof {
                if domain@.len() > 0 {
                    assert(vstd::utf8::encode_utf8(domain@).len() >= 1);
                }
            }
            return None;
        }
        proof {
            if domain@.len() == 0 {
                assert(vstd::utf8::encode_utf8(domain@) =~= Seq::<u8>::empty());
            }
        }
        let h = hash_domain(domain);
        let b = (h >> 56) as usize;
        assert(h >> 56u64 < 256) by (bit_vector);
        let bk = self.buckets[b];
        if bk.1 == 0 {
            None
        } else {
            Some((h, bk.0, bk.1))
        }
    }

    /// Where the name of record `i` of `records` lies in the file: its absolute offset
    /// and its length.
    pub open spec fn spec_record_name(&self, records: Seq<u8>, i: int) -> (u64, u16) {
        ((self.strings_base() + le32_at(records, 14 * i + 8)) as u64, le16_at(records, 14 * i + 12) as u16)
    }

    /// The file offset and length of the name of record `i`.
    pub fn record_name(&self, records: &[u8], i: usize) -> (r: (u64, u16))
        requires
            self.wf(),
            14 * i + 14 <= records@.len(),
        ensures
            r == self.spec_record_name(records@, i as int),
    {
        let n = records.len();
        let off = read_le32(records, 14 * i + 8);
        let len = read_le16(records, 14 * i + 12);
        (self.strings_base_offset + off as u64, len)
    }
}

proof fn lemma_record_in_bounds(len: int, i: int)
    requires
        0 <= i < len / 14,
    ensures
        14 * i + 14 <= len,
{
    assert(14 * i + 14 <= len) by (nonlinear_arith)
        requires
            0 <= i < len / 14,
            0 <= len,
    {
        assert(14 * (len / 14) <= len);
    }
}

/// The hash of record `i`.
pub open spec fn rec_hash(records: Seq<u8>, i: int) -> int {
    le64_at(records, 14 * i)
}

/// Binary search for a record with hash `t` among records `low..high`.
pub open spec fn bsearch(records: Seq<u8>, t: u64, low: int, high: int) -> Option<int>
    decreases high - low,
{
    if low >= high {
        None
    } else {
        let mid = low + (high - low) / 2;
        if rec_hash(records, mid) == t {
            Some(mid)
        } else if rec_hash(records, mid) < t {
            bsearch(records, t, mid + 1, high)
        } else {
            bsearch(records, t, low, mid)
        }
    }
}

/// The first index of the run of hash `t` that ends at `i`.
pub open spec fn run_start(records: Seq<u8>, t: u64, i: int) -> int
    decreases i,
{
    if i > 0 && rec_hash(records, i - 1) == t {
        run_start(records, t, i - 1)
    } else {
        i
    }
}

/// The end of the run of hash `t` that continues at `j`, among `n` records.
pub open spec fn run_end(records: Seq<u8>, t: u64, j: int, n: int) -> int
    decreases n - j,
{
    if j < n && rec_hash(records, j) == t {
        run_end(records, t, j + 1, n)
    } else {
        j
    }
}

/// The records a lookup of hash `t` checks: the run of equal hashes around the one
/// the binary search finds, empty when it finds none.
pub open spec fn spec_hash_run(records: Seq<u8>, t: u64) -> (int, int) {
    let n: int = (records.len() / 14) as int;
    match bsearch(records, t, 0, n) {
        Some(idx) => (run_start(records, t, idx), run_end(records, t, idx + 1, n)),
        None => (0, 0),
    }
}

/// The records are sorted by hash.
#[verifier::opaque]
pub open spec fn hashes_sorted(records: Seq<u8>) -> bool {
    forall|i: int, j: int| 0 <= i <= j < records.len() / 14 ==> rec_hash(records, i) <= rec_hash(records, j)
}

proof fn lemma_bsearch_range(records: Seq<u8>, t: u64, low: int, high: int)
    requires
        0 <= low,
    ensures
        bsearch(records, t, low, high) matches Some(k) ==> low <= k < high && rec_hash(records, k) == t,
    decreases high - low,
{
    if low < high {
        let mid = low + (high - low) / 2;
        if rec_hash(records, mid) != t {
            if rec_hash(records, mid) < t {
                lemma_bsearch_range(records, t, mid + 1, high);
            } else {
                lemma_bsearch_range(records, t, low, mid);
            }
        }
    }
}

proof fn lemma_bsearch_finds(records: Seq<u8>, t: u64, low: int, high: int, k: int)
    requires
        hashes_sorted(records),
        0 <= low <= k < high <= records.len() / 14,
        rec_hash(records, k) == t,
    ensures
        bsearch(records, t, low, high) is Some,
    decreases high - low,
{
    reveal(hashes_sorted);
    let mid = low + (high - low) / 2;
    if rec_hash(records, mid) != t {
        if rec_hash(records, mid) < t {
            if k <= mid {
                assert(rec_hash(records, k) <= rec_hash(records, mid));
            }
            lemma_bsearch_finds(records, t, mid + 1, high, k);
        } else {
            if k >= mid {
                assert(rec_hash(records, mid) <= rec_hash(records, k));
            }
            lemma_bsearch_finds(records, t, low, mid, k);
        }
    }
}

proof fn lemma_run_start(records: Seq<u8>, t: u64, i: int)
    requires
        0 <= i,
    ensures
        0 <= run_start(records, t, i) <= i,
        forall|k: int| run_start(records, t, i) <= k < i ==> rec_hash(records, k) == t,
        run_start(records, t, i) > 0 ==> rec_hash(records, run_start(records, t, i) - 1) != t,
    decreases i,
{
    if i > 0 && rec_hash(records, i - 1) == t {
        lemma_run_start(records, t, i - 1);
    }
}

proof fn lemma_run_end(records: Seq<u8>, t: u64, j: int, n: int)
    requires
        j <= n,
    ensures
        j <= run_end(records, t, j, n) <= n,
        forall|k: int| j <= k < run_end(records, t, j, n) ==> rec_hash(records, k) == t,
        run_end(records, t, j, n) < n ==> rec_hash(records, run_end(records, t, j, n)) != t,
    decreases n - j,
{
    if j < n && rec_hash(records, j) == t {
        lemma_run_end(records, t, j + 1, n);
    }
}

/// What the run of a lookup holds: only records of the hash looked up, and, when the
/// records are sorted by hash, every one of them.
pub proof fn lemma_hash_run(records: Seq<u8>, t: u64)
    ensures
        0 <= spec_hash_run(records, t).0 <= spec_hash_run(records, t).1 <= records.len() / 14,
        forall|k: int|
            spec_hash_run(records, t).0 <= k < spec_hash_run(records, t).1 ==> rec_hash(records, k) == t,
        hashes_sorted(records) ==> forall|k: int|
            0 <= k < records.len() / 14 && rec_hash(records, k) == t ==> spec_hash_run(records, t).0 <= k
                < spec_hash_run(records, t).1,
{
    reveal(hashes_sorted);
    let n: int = (records.len() / 14) as int;
    lemma_bsearch_range(records, t, 0, n);
    match bsearch(records, t, 0, n) {
        Some(idx) => {
            lemma_run_start(records, t, idx);
            lemma_run_end(records, t, idx + 1, n);
            let lo = run_start(records, t, idx);
            let hi = run_end(records, t, idx + 1, n);
            if hashes_sorted(records) {
                assert forall|k: int| 0 <= k < n && rec_hash(records, k) == t implies lo <= k < hi by {
                    if k < lo {
                        assert(rec_hash(records, k) <= rec_hash(records, lo - 1));
                        assert(rec_hash(records, lo - 1) <= rec_hash(records, idx));
                    }
                    if k >= hi {
                        assert(rec_hash(records, idx) <= rec_hash(records, hi));
                        assert(rec_hash(records, hi) <= rec_hash(records, k));
                    }
                }
            }
        },
        None => {
            if hashes_sorted(records) {
                assert forall|k: int| 0 <= k < n && rec_hash(records, k) == t implies false by {
                    lemma_bsearch_finds(records, t, 0, n, k);
                }
            }
        },
    }
}

/// The records a lookup of hash `target` checks, as a half-open range of record
/// indices: the run of equal hashes around the record the binary search finds.
pub fn hash_run(records: &[u8], target: u64) -> (r: (usize, usize))
    ensures
        (r.0 as int, r.1 as int) == spec_hash_run(records@, target),
{
    let rl = records.len();
    let n: usize = rl / 14;
    let mut low: usize = 0;
    let mut high: usize = n;
    let mut found: Option<usize> = None;
    while low < high
        invariant_except_break
            high <= n,
            n == records@.len() / 14,
                    rl == records@.len(),
            bsearch(records@, target, 0, n as int) == bsearch(records@, target, low as int, high as int),
            found is None,
        ensures
            n == records@.len() / 14,
                    rl == records@.len(),
            match found {
                Some(i) => bsearch(records@, target, 0, n as int) == Some(i as int),
                None => bsearch(records@, target, 0, n as int) is None,
            },
        decreases high - low,
    {
        let mid = low + (high - low) / 2;
        proof {
            lemma_record_in_bounds(records@.len() as int, mid as int);
        }
        let h = read_le64(records, 14 * mid);
        if h == target {
            found = Some(mid);
            break;
        } else if h < target {
            low = mid + 1;
        } else {
            high = mid;
        }
    }
    match found {
        None => (0, 0),
        Some(idx) => {
            proof {
                lemma_bsearch_range(records@, target, 0, n as int);
            }
            let mut lo: usize = idx;
            loop
                invariant
                    lo <= idx < n,
                    n == records@.len() / 14,
                    rl == records@.len(),
                    run_start(records@, target, idx as int) == run_start(records@, target, lo as int),
                ensures
                    lo <= idx,
                    run_start(records@, target, idx as int) == lo as int,
                decreases lo,
            {
                if lo == 0 {
                    break;
                }
                proof {
                    lemma_record_in_bounds(records@.len() as int, lo - 1);
                }
                if read_le64(records, 14 * (lo - 1)) != target {
                    break;
                }
                lo -= 1;
            }
            let mut hi: usize = idx + 1;
            loop
                invariant
                    idx < hi <= n,
                    n == records@.len() / 14,
                    rl == records@.len(),
                    run_end(records@, target, idx + 1, n as int) == run_end(records@, target, hi as int, n as int),
                ensures
                    hi <= n,
                    run_end(records@, target, idx + 1, n as int) == hi as int,
                decreases n - hi,
            {
                if hi >= n {
                    break;
                }
                proof {
                    lemma_record_in_bounds(records@.len() as int, hi as int);
                }
                if read_le64(records, 14 * hi) != target {
                    break;
                }
                hi += 1;
            }
            (lo, hi)
        },
    }
}

/// `stored` spells `name` up to ASCII case.
pub open spec fn bytes_match_ignoring_case(stored: Seq<u8>, name: Seq<u8>) -> bool {
    stored.len() == name.len() && forall|i: int| 0 <= i < stored.len() ==> lower_byte(#[trigger] stored[i]) == lower_byte(name[i])
}

/// Whether a stored name spells `domain` up to ASCII case.
pub fn name_matches(stored: &[u8], domain: &str) -> (r: bool)
    ensures
        r == bytes_match_ignoring_case(stored@, vstd::utf8::encode_utf8(domain@)),
{
    let d = domain.as_bytes();
    if stored.len() != d.len() {
        return false;
    }
    let mut i: usize = 0;
    while i < stored.len()
        invariant
            i <= stored@.len(),
            stored@.len() == d@.len(),
            d@ == vstd::utf8::encode_utf8(domain@),
            forall|k: int| 0 <= k < i ==> lower_byte(#[trigger] stored@[k]) == lower_byte(d@[k]),
        decreases stored@.len() - i,
    {
        let a = stored[i];
        let b = d[i];
        let la: u8 = if 65 <= a && a <= 90 {
            a + 32
        } else {
            a
        };
        let lb: u8 = if 65 <= b && b <= 90 {
            b + 32
        } else {
            b
        };
        if la != lb {
            return false;
        }
        i += 1;
    }
    true
}

/// The UTF-8 bytes of a name.
pub open spec fn name_bytes(d: Seq<char>) -> Seq<u8> {
    vstd::utf8::encode_utf8(d)
}

/// Byte strings in lexicographic order, a proper prefix first.
pub open spec fn bytes_lt(a: Seq<u8>, b: Seq<u8>) -> bool
    decreases a.len(),
{
    if a.len() == 0 {
        b.len() > 0
    } else if b.len() == 0 {
        false
    } else if a[0] != b[0] {
        a[0] < b[0]
    } else {
        bytes_lt(a.drop_first(), b.drop_first())
    }
}

/// The order of (hash, name) entries: by hash, then by the name's bytes.
pub open spec fn entry_le(a: (u64, Seq<char>), b: (u64, Seq<char>)) -> bool {
    a.0 < b.0 || (a.0 == b.0 && !bytes_lt(name_bytes(b.1), name_bytes(a.1)))
}

/// The views of (hash, name) entries.
pub open spec fn entries_view(v: Seq<(u64, String)>) -> Seq<(u64, Seq<char>)> {
    Seq::new(v.len(), |i: int| (v[i].0, v[i].1@))
}

/// Sorts (hash, name) pairs in place with `slice::sort_unstable`, which orders
/// tuples lexicographically and strings by their bytes; equal pairs may come in any
/// order.
#[verifier::external_body]
fn sort_entries(v: &mut Vec<(u64, String)>)
    ensures
        entries_view(final(v)@).to_multiset() == entries_view(old(v)@).to_multiset(),
        final(v)@.len() == old(v)@.len(),
        forall|i: int, j: int|
            0 <= i < j < final(v)@.len() ==> entry_le(
                #[trigger] entries_view(final(v)@)[i],
                #[trigger] entries_view(final(v)@)[j],
            ),
{
    v.sort_unstable();
}

/// The names of an index, in record order: sorted by hash then bytes, none twice.
pub open spec fn index_order(names: Seq<Seq<char>>) -> bool {
    &&& forall|i: int, j: int|
        0 <= i < j < names.len() ==> entry_le(
            (spec_hash_domain(names[i]), names[i]),
            (spec_hash_domain(names[j]), names[j]),
        )
    &&& names.no_duplicates()
}

/// The first name from `i` on whose hash falls in bucket `b` or a later one.
pub open spec fn bucket_start_from(names: Seq<Seq<char>>, b: int, i: int) -> int
    decreases names.len() - i,
{
    if i >= names.len() || i < 0 {
        if i < 0 { 0 } else { names.len() as int }
    } else if bucket_of(spec_hash_domain(names[i])) >= b {
        i
    } else {
        bucket_start_from(names, b, i + 1)
    }
}

/// Index of the first name of bucket `b` (of names sorted by hash).
pub open spec fn bucket_start(names: Seq<Seq<char>>, b: int) -> int {
    bucket_start_from(names, b, 0)
}

/// The little-endian bytes of a 16-bit number.
pub open spec fn le16_bytes(x: u16) -> Seq<u8> {
    seq![(x % 256) as u8, (x / 256) as u8]
}

/// The little-endian bytes of a 32-bit number.
pub open spec fn le32_bytes(x: u32) -> Seq<u8> {
    seq![(x % 256) as u8, ((x / 256) % 256) as u8, ((x / 65536) % 256) as u8, (x / 16777216) as u8]
}

/// The little-endian bytes of a 64-bit number.
pub open spec fn le64_bytes(x: u64) -> Seq<u8> {
    le32_bytes((x % 0x1_0000_0000) as u32) + le32_bytes((x / 0x1_0000_0000) as u32)
}

/// The bucket table of the first `m` buckets: record offset and record count each.
pub open spec fn bucket_table(names: Seq<Seq<char>>, m: int) -> Seq<u8>
    decreases m,
{
    if m <= 0 {
        Seq::empty()
    } else {
        bucket_table(names, m - 1) + le32_bytes((4096 + 14 * bucket_start(names, m - 1)) as u32) + le32_bytes(
            (bucket_start(names, m) - bucket_start(names, m - 1)) as u32,
        )
    }
}

/// The header of the index of `names`: magic, version 1, the number of names, the
/// number of buckets, the bucket table, zeros up to 4096 bytes.
pub open spec fn index_header(names: Seq<Seq<char>>) -> Seq<u8> {
    seq![0x53u8, 0x47u8, 0x42u8, 0x4cu8] + le32_bytes(1) + le32_bytes(names.len() as u32) + le32_bytes(256)
        + bucket_table(names, 256) + Seq::new(2032, |k: int| 0u8)
}

/// The names section of the first `m` names.
pub open spec fn index_strings(names: Seq<Seq<char>>, m: int) -> Seq<u8>
    decreases m,
{
    if m <= 0 {
        Seq::empty()
    } else {
        index_strings(names, m - 1) + name_bytes(names[m - 1])
    }
}

/// The record of name `i`: its hash, the offset and the length of its bytes.
pub open spec fn index_record(names: Seq<Seq<char>>, i: int) -> Seq<u8> {
    le64_bytes(spec_hash_domain(names[i])) + le32_bytes(index_strings(names, i).len() as u32) + le16_bytes(
        name_bytes(names[i]).len() as u16,
    )
}

/// The records of the first `m` names.
pub open spec fn index_records(names: Seq<Seq<char>>, m: int) -> Seq<u8>
    decreases m,
{
    if m <= 0 {
        Seq::empty()
    } else {
        index_records(names, m - 1) + index_record(names, m - 1)
    }
}

/// The index file of `names`: header, records, names.
#[verifier::opaque]
pub open spec fn spec_index_image(names: Seq<Seq<char>>) -> Seq<u8> {
    index_header(names) + index_records(names, names.len() as int) + index_strings(names, names.len() as int)
}

fn push_le16(out: &mut Vec<u8>, x: u16)
    ensures
        final(out)@ == old(out)@ + le16_bytes(x),
{
    out.push((x % 256) as u8);
    out.push((x / 256) as u8);
    assert(final(out)@ =~= old(out)@ + le16_bytes(x));
}

fn push_le32(out: &mut Vec<u8>, x: u32)
    ensures
        final(out)@ == old(out)@ + le32_bytes(x),
{
    out.push((x % 256) as u8);
    out.push(((x / 256) % 256) as u8);
    out.push(((x / 65536) % 256) as u8);
    out.push((x / 16777216) as u8);
    assert(final(out)@ =~= old(out)@ + le32_bytes(x));
}

fn push_le64(out: &mut Vec<u8>, x: u64)
    ensures
        final(out)@ == old(out)@ + le64_bytes(x),
{
    push_le32(out, (x % 0x1_0000_0000) as u32);
    push_le32(out, (x / 0x1_0000_0000) as u32);
    assert(final(out)@ =~= old(out)@ + le64_bytes(x));
}

/// The entries of a list of names: each name's hash with the name.
pub open spec fn entries_of(names: Seq<Seq<char>>) -> Seq<(u64, Seq<char>)> {
    Seq::new(names.len(), |i: int| (spec_hash_domain(names[i]), names[i]))
}

proof fn lemma_multiset_preserves_hashes(a: Seq<(u64, Seq<char>)>, b: Seq<(u64, Seq<char>)>)
    requires
        a.to_multiset() == b.to_multiset(),
        forall|k: int| 0 <= k < b.len() ==> (#[trigger] b[k]).0 == spec_hash_domain(b[k].1),
    ensures
        forall|k: int| 0 <= k < a.len() ==> (#[trigger] a[k]).0 == spec_hash_domain(a[k].1),
        forall|x: (u64, Seq<char>)| a.contains(x) <==> b.contains(x),
{
    broadcast use vstd::seq_lib::group_to_multiset_ensures;
    assert forall|x: (u64, Seq<char>)| a.contains(x) <==> b.contains(x) by {
        assert(a.contains(x) <==> a.to_multiset().count(x) > 0);
        assert(b.contains(x) <==> b.to_multiset().count(x) > 0);
    }
    assert forall|k: int| 0 <= k < a.len() implies (#[trigger] a[k]).0 == spec_hash_domain(a[k].1) by {
        assert(a.contains(a[k]));
        assert(b.contains(a[k]));
        let j = choose|j: int| 0 <= j < b.len() && b[j] == a[k];
        assert(b[j].0 == spec_hash_domain(b[j].1));
    }
}

/// The kept names with their hashes, as entries.
pub open spec fn kept_entries(names: Seq<String>, hashes: Seq<u64>) -> Seq<(u64, Seq<char>)> {
    Seq::new(names.len(), |a: int| (hashes[a], names[a]@))
}

proof fn lemma_push_keeps_order(old_names: Seq<String>, names: Seq<String>, x: Seq<char>, bound: u64)
    requires
        index_order(crate::config::texts(old_names)),
        names == old_names.push(names.last()),
        names.last()@ == x,
        forall|a: int| 0 <= a < old_names.len() ==> entry_le(
            (spec_hash_domain(#[trigger] old_names[a]@), old_names[a]@),
            (spec_hash_domain(x), x),
        ),
        forall|a: int| 0 <= a < old_names.len() ==> #[trigger] old_names[a]@ != x,
    ensures
        index_order(crate::config::texts(names)),
{
    let tv = crate::config::texts(names);
    let ov = crate::config::texts(old_names);
    assert forall|p: int, q: int| 0 <= p < q < tv.len() implies entry_le(
        (spec_hash_domain(tv[p]), tv[p]),
        (spec_hash_domain(tv[q]), tv[q]),
    ) by {
        assert(tv[p] == names[p]@);
        assert(tv[q] == names[q]@);
        if q < old_names.len() {
            assert(tv[p] == ov[p] && tv[q] == ov[q]);
        } else {
            assert(names[p] == old_names[p]);
        }
    }
    assert forall|p: int, q: int| 0 <= p < tv.len() && 0 <= q < tv.len() && p != q implies tv[p] != tv[q] by {
        assert(tv[p] == names[p]@);
        assert(tv[q] == names[q]@);
        if p < old_names.len() && q < old_names.len() {
            assert(tv[p] == ov[p] && tv[q] == ov[q]);
        } else if p < old_names.len() {
            assert(names[p] == old_names[p]);
        } else {
            assert(names[q] == old_names[q]);
        }
    }
}

/// Whether `name` is among the kept names, looking back only through the run of
/// names with hash `h` at the end (the kept names are sorted by hash, none above `h`).
fn kept_in_run(names: &Vec<String>, hashes: &Vec<u64>, h: u64, name: &String) -> (r: bool)
    requires
        hashes@.len() == names@.len(),
        h == spec_hash_domain(name@),
        forall|a: int| 0 <= a < hashes@.len() ==> #[trigger] hashes@[a] == spec_hash_domain(names@[a]@),
        forall|a: int| 0 <= a < hashes@.len() ==> #[trigger] hashes@[a] <= h,
        index_order(crate::config::texts(names@)),
    ensures
        r == exists|a: int| 0 <= a < names@.len() && #[trigger] names@[a]@ == name@,
{
    let mut k: usize = names.len();
    loop
        invariant
            k <= names@.len(),
            hashes@.len() == names@.len(),
            h == spec_hash_domain(name@),
            forall|a: int| 0 <= a < hashes@.len() ==> #[trigger] hashes@[a] == spec_hash_domain(names@[a]@),
            forall|a: int| 0 <= a < hashes@.len() ==> #[trigger] hashes@[a] <= h,
            index_order(crate::config::texts(names@)),
            forall|a: int| k <= a < names@.len() ==> #[trigger] names@[a]@ != name@,
        decreases k,
    {
        if k == 0 {
            return false;
        }
        if hashes[k - 1] != h {
            proof {
                let tv = crate::config::texts(names@);
                assert forall|a: int| 0 <= a < names@.len() implies #[trigger] names@[a]@ != name@ by {
                    if a < k - 1 && names@[a]@ == name@ {
                        assert(tv[a] == names@[a]@);
                        assert(tv[k - 1] == names@[k - 1]@);
                        assert(entry_le((spec_hash_domain(tv[a]), tv[a]), (spec_hash_domain(tv[k - 1]), tv[k - 1])));
                        assert(hashes@[k - 1] <= h);
                    }
                }
            }
            return false;
        }
        let same = crate::text::eq_chars(
            crate::text::chars_of(names[k - 1].as_str()).as_slice(),
            crate::text::chars_of(name.as_str()).as_slice(),
        );
        if same {
            assert(names@[k - 1]@ == name@);
            return true;
        }
        k -= 1;
    }
}

/// The distinct names of sorted entries, in order, each with its hash.
#[verifier::rlimit(30)]
fn distinct_entries(entries: &Vec<(u64, String)>) -> (r: (Vec<String>, Vec<u64>))
    requires
        forall|k: int| 0 <= k < entries@.len() ==> (#[trigger] entries@[k]).0 == spec_hash_domain(entries@[k].1@),
        forall|a: int, b: int|
            0 <= a < b < entries@.len() ==> entry_le(
                #[trigger] entries_view(entries@)[a],
                #[trigger] entries_view(entries@)[b],
            ),
    ensures
        index_order(crate::config::texts(r.0@)),
        r.1@.len() == r.0@.len(),
        r.0@.len() <= entries@.len(),
        forall|a: int| 0 <= a < r.1@.len() ==> #[trigger] r.1@[a] == spec_hash_domain(r.0@[a]@),
        forall|x: (u64, Seq<char>)| kept_entries(r.0@, r.1@).contains(x) <==> entries_view(entries@).contains(x),
{
    let ghost e = entries_view(entries@);
    let mut names: Vec<String> = Vec::new();
    let mut hashes: Vec<u64> = Vec::new();
    let ghost mut from: Seq<int> = Seq::empty();
    let ghost mut to: Seq<int> = Seq::empty();
    let mut i: usize = 0;
    while i < entries.len()
        invariant
            i <= entries@.len(),
            e == entries_view(entries@),
            forall|k: int| 0 <= k < entries@.len() ==> (#[trigger] entries@[k]).0 == spec_hash_domain(entries@[k].1@),
            forall|a: int, b: int| 0 <= a < b < entries@.len() ==> entry_le(#[trigger] e[a], #[trigger] e[b]),
            hashes@.len() == names@.len(),
            names@.len() <= i,
            forall|a: int| 0 <= a < hashes@.len() ==> #[trigger] hashes@[a] == spec_hash_domain(names@[a]@),
            index_order(crate::config::texts(names@)),
            from.len() == names@.len(),
            forall|a: int| 0 <= a < names@.len() ==> 0 <= #[trigger] from[a] < i && e[from[a]] == (hashes@[a], names@[a]@),
            to.len() == i,
            forall|j: int| 0 <= j < i ==> 0 <= #[trigger] to[j] < names@.len() && e[j] == (hashes@[to[j]], names@[to[j]]@),
        decreases entries@.len() - i,
    {
        let h = entries[i].0;
        proof {
            assert forall|a: int| 0 <= a < names@.len() implies #[trigger] hashes@[a] <= h by {
                let j = from[a];
                assert(entry_le(e[j], e[i as int]));
            }
        }
        let dup = kept_in_run(&names, &hashes, h, &entries[i].1);
        if dup {
            proof {
                let a = choose|a: int| 0 <= a < names@.len() && #[trigger] names@[a]@ == entries@[i as int].1@;
                to = to.push(a);
            }
        } else {
            let ghost old_names = names@;
            let ghost old_hashes = hashes@;
            names.push(entries[i].1.clone());
            hashes.push(h);
            proof {
                assert forall|a: int| 0 <= a < old_names.len() implies entry_le(
                    (spec_hash_domain(#[trigger] old_names[a]@), old_names[a]@),
                    (spec_hash_domain(entries@[i as int].1@), entries@[i as int].1@),
                ) by {
                    let j = from[a];
                    assert(entry_le(e[j], e[i as int]));
                    assert(old_hashes[a] == spec_hash_domain(old_names[a]@));
                }
                lemma_push_keeps_order(old_names, names@, entries@[i as int].1@, h);
                from = from.push(i as int);
                to = to.push(old_names.len() as int);
            }
        }
        i += 1;
    }
    proof {
        let kv = kept_entries(names@, hashes@);
        assert forall|x: (u64, Seq<char>)| kv.contains(x) <==> e.contains(x) by {
            if kv.contains(x) {
                let a = choose|a: int| 0 <= a < kv.len() && kv[a] == x;
                assert(e[from[a]] == x);
            }
            if e.contains(x) {
                let j = choose|j: int| 0 <= j < e.len() && e[j] == x;
                assert(kv[to[j]] == x);
            }
        }
    }
    (names, hashes)
}

/// The distinct names of `domains` in index order, each with its hash.
fn sorted_distinct_names(domains: Vec<String>) -> (r: (Vec<String>, Vec<u64>))
    ensures
        index_order(crate::config::texts(r.0@)),
        crate::config::texts(r.0@).to_set() == crate::config::texts(domains@).to_set(),
        r.1@.len() == r.0@.len(),
        r.0@.len() <= domains@.len(),
        forall|a: int| 0 <= a < r.1@.len() ==> #[trigger] r.1@[a] == spec_hash_domain(r.0@[a]@),
{
    let ghost dv = crate::config::texts(domains@);
    let mut entries: Vec<(u64, String)> = Vec::new();
    let mut i: usize = 0;
    while i < domains.len()
        invariant
            i <= domains@.len(),
            dv == crate::config::texts(domains@),
            entries_view(entries@) == entries_of(dv.subrange(0, i as int)),
            entries@.len() == i,
        decreases domains@.len() - i,
    {
        let h = hash_domain(domains[i].as_str());
        let d = domains[i].clone();
        let ghost old_entries = entries@;
        entries.push((h, d));
        proof {
            assert(dv[i as int] == domains@[i as int]@);
            assert forall|k: int| 0 <= k < i + 1 implies #[trigger] entries_view(entries@)[k] == entries_of(
                dv.subrange(0, i + 1),
            )[k] by {
                if k < i {
                    assert(entries@[k] == old_entries[k]);
                    assert(entries_view(old_entries)[k] == entries_of(dv.subrange(0, i as int))[k]);
                }
            }
        }
        i += 1;
        assert(entries_view(entries@) =~= entries_of(dv.subrange(0, i as int)));
    }
    assert(dv.subrange(0, dv.len() as int) =~= dv);
    let ghost before = entries_view(entries@);
    sort_entries(&mut entries);
    let ghost e = entries_view(entries@);
    proof {
        assert forall|k: int| 0 <= k < before.len() implies (#[trigger] before[k]).0 == spec_hash_domain(before[k].1) by {
            assert(before[k] == entries_of(dv)[k]);
        }
        lemma_multiset_preserves_hashes(e, before);
        assert forall|k: int| 0 <= k < entries@.len() implies (#[trigger] entries@[k]).0 == spec_hash_domain(entries@[k].1@) by {
            assert(e[k] == (entries@[k].0, entries@[k].1@));
        }
    }
    let (names, hashes) = distinct_entries(&entries);
    proof {
        let tv = crate::config::texts(names@);
        let kv = kept_entries(names@, hashes@);
        assert forall|d: Seq<char>| tv.to_set().contains(d) <==> dv.to_set().contains(d) by {
            if tv.to_set().contains(d) {
                let a = choose|a: int| 0 <= a < tv.len() && tv[a] == d;
                assert(kv[a] == (hashes@[a], d));
                assert(kv.contains(kv[a]));
                assert(before.contains(kv[a]));
                let m = choose|m: int| 0 <= m < before.len() && before[m] == kv[a];
                assert(before[m] == entries_of(dv)[m]);
                assert(dv[m] == d);
            }
            if dv.to_set().contains(d) {
                let m = choose|m: int| 0 <= m < dv.len() && dv[m] == d;
                assert(before[m] == entries_of(dv)[m]);
                assert(before.contains(before[m]));
                assert(kv.contains(before[m]));
                let a = choose|a: int| 0 <= a < kv.len() && kv[a] == before[m];
                assert(tv[a] == names@[a]@);
            }
        }
        assert(tv.to_set() =~= dv.to_set());
    }
    (names, hashes)
}

proof fn lemma_bucket_start_from(names: Seq<Seq<char>>, b: int, i: int)
    requires
        0 <= i <= names.len(),
    ensures
        i <= bucket_start_from(names, b, i) <= names.len(),
        forall|k: int| i <= k < bucket_start_from(names, b, i) ==> bucket_of(spec_hash_domain(#[trigger] names[k])) < b,
        bucket_start_from(names, b, i) < names.len() ==> bucket_of(
            spec_hash_domain(names[bucket_start_from(names, b, i)]),
        ) >= b,
    decreases names.len() - i,
{
    if i < names.len() && bucket_of(spec_hash_domain(names[i])) < b {
        lemma_bucket_start_from(names, b, i + 1);
    }
}

proof fn lemma_bucket_start_skip(names: Seq<Seq<char>>, b: int, j: int, i: int)
    requires
        0 <= j <= i <= names.len(),
        forall|k: int| j <= k < i ==> bucket_of(spec_hash_domain(#[trigger] names[k])) < b,
    ensures
        bucket_start_from(names, b, j) == bucket_start_from(names, b, i),
    decreases i - j,
{
    if j < i {
        lemma_bucket_start_skip(names, b, j + 1, i);
    }
}

/// Where each bucket starts, and where the last one ends, among names sorted by hash.
fn bucket_starts(names: &Vec<String>, hashes: &Vec<u64>) -> (r: Vec<usize>)
    requires
        hashes@.len() == names@.len(),
        forall|a: int| 0 <= a < hashes@.len() ==> #[trigger] hashes@[a] == spec_hash_domain(names@[a]@),
    ensures
        r@.len() == 257,
        forall|b: int| 0 <= b <= 256 ==> #[trigger] r@[b] == bucket_start(crate::config::texts(names@), b),
        forall|b: int| 0 <= b <= 256 ==> #[trigger] r@[b] <= names@.len(),
{
    let ghost tv = crate::config::texts(names@);
    let n = names.len();
    let mut starts: Vec<usize> = Vec::new();
    let mut i: usize = 0;
    let mut b: u64 = 0;
    while b <= 256
        invariant
            b <= 257,
            n == names@.len(),
            tv == crate::config::texts(names@),
            hashes@.len() == n,
            forall|a: int| 0 <= a < hashes@.len() ==> #[trigger] hashes@[a] == spec_hash_domain(names@[a]@),
            starts@.len() == b,
            forall|c: int| 0 <= c < b ==> #[trigger] starts@[c] == bucket_start(tv, c),
            forall|c: int| 0 <= c < b ==> #[trigger] starts@[c] <= n,
            i <= n,
            i == if b == 0 { 0 } else { bucket_start(tv, b - 1) },
        decreases 257 - b,
    {
        proof {
            if b > 0 {
                lemma_bucket_start_from(tv, b - 1, 0);
            }
            assert forall|k: int| 0 <= k < i implies bucket_of(spec_hash_domain(#[trigger] tv[k])) < b by {}
            lemma_bucket_start_skip(tv, b as int, 0, i as int);
        }
        while i < n && (hashes[i] >> 56) < b
            invariant
                i <= n,
                n == names@.len(),
                tv == crate::config::texts(names@),
                hashes@.len() == n,
                forall|a: int| 0 <= a < hashes@.len() ==> #[trigger] hashes@[a] == spec_hash_domain(names@[a]@),
                bucket_start_from(tv, b as int, i as int) == bucket_start(tv, b as int),
            decreases n - i,
        {
            assert(tv[i as int] == names@[i as int]@);
            i += 1;
        }
        proof {
            if i < n {
                assert(tv[i as int] == names@[i as int]@);
            }
            lemma_bucket_start_from(tv, b as int, 0);
        }
        starts.push(i);
        b += 1;
    }
    starts
}

/// The index file of names sorted and deduplicated, with their hashes and bucket
/// starts.
fn index_image_bytes(names: &Vec<String>, hashes: &Vec<u64>, starts: &Vec<usize>) -> (r: Vec<u8>)
    requires
        hashes@.len() == names@.len(),
        forall|a: int| 0 <= a < hashes@.len() ==> #[trigger] hashes@[a] == spec_hash_domain(names@[a]@),
        starts@.len() == 257,
        forall|b: int| 0 <= b <= 256 ==> #[trigger] starts@[b] == bucket_start(crate::config::texts(names@), b),
        forall|b: int| 0 <= b <= 256 ==> #[trigger] starts@[b] <= names@.len(),
        4096 + 14 * names@.len() <= u32::MAX,
    ensures
        r@ == spec_index_image(crate::config::texts(names@)),
{
    let ghost tv = crate::config::texts(names@);
    let n = names.len();
    let mut img: Vec<u8> = Vec::new();
    img.push(0x53);
    img.push(0x47);
    img.push(0x42);
    img.push(0x4c);
    push_le32(&mut img, 1);
    push_le32(&mut img, n as u32);
    push_le32(&mut img, 256);
    let ghost pre = img@;
    assert(pre =~= seq![0x53u8, 0x47u8, 0x42u8, 0x4cu8] + le32_bytes(1) + le32_bytes(tv.len() as u32) + le32_bytes(256));
    let mut b: usize = 0;
    while b < 256
        invariant
            b <= 256,
            starts@.len() == 257,
            tv == crate::config::texts(names@),
            n == names@.len(),
            4096 + 14 * n <= u32::MAX,
            forall|c: int| 0 <= c <= 256 ==> #[trigger] starts@[c] == bucket_start(tv, c),
            forall|c: int| 0 <= c <= 256 ==> #[trigger] starts@[c] <= n,
            img@ == pre + bucket_table(tv, b as int),
        decreases 256 - b,
    {
        proof {
            lemma_bucket_start_from(tv, b as int, 0);
            assert forall|k: int| 0 <= k < starts@[b as int] implies bucket_of(spec_hash_domain(#[trigger] tv[k])) < b + 1 by {}
            lemma_bucket_start_skip(tv, b + 1, 0, starts@[b as int] as int);
            lemma_bucket_start_from(tv, b + 1, starts@[b as int] as int);
        }
        let lo = starts[b];
        let hi = starts[b + 1];
        push_le32(&mut img, (4096 + 14 * lo) as u32);
        push_le32(&mut img, (hi - lo) as u32);
        b += 1;
        assert(img@ =~= pre + bucket_table(tv, b as int));
    }
    let ghost hdr = img@;
    let mut z: usize = 0;
    while z < 2032
        invariant
            z <= 2032,
            img@ == hdr + Seq::new(z as nat, |k: int| 0u8),
        decreases 2032 - z,
    {
        img.push(0);
        z += 1;
        assert(img@ =~= hdr + Seq::new(z as nat, |k: int| 0u8));
    }
    assert(img@ =~= index_header(tv));
    let ghost head = img@;
    let mut strs: Vec<u8> = Vec::new();
    let mut i: usize = 0;
    while i < n
        invariant
            i <= n,
            n == names@.len(),
            tv == crate::config::texts(names@),
            hashes@.len() == n,
            forall|a: int| 0 <= a < hashes@.len() ==> #[trigger] hashes@[a] == spec_hash_domain(names@[a]@),
            img@ == head + index_records(tv, i as int),
            strs@ == index_strings(tv, i as int),
        decreases n - i,
    {
        let bytes = names[i].as_str().as_bytes();
        assert(tv[i as int] == names@[i as int]@);
        let off = strs.len() as u32;
        push_le64(&mut img, hashes[i]);
        push_le32(&mut img, off);
        push_le16(&mut img, bytes.len() as u16);
        crate::backup::push_bytes(&mut strs, bytes);
        i += 1;
        assert(img@ =~= head + index_records(tv, i as int));
        assert(strs@ =~= index_strings(tv, i as int));
    }
    crate::backup::push_bytes(&mut img, strs.as_slice());
    proof {
        reveal(spec_index_image);
    }
    assert(img@ =~= spec_index_image(tv));
    img
}

/// The index file of the blocklist `domains` and the number of distinct names it
/// holds: the names are deduplicated and sorted by hash, then by their bytes, and
/// laid out as header, records and names.
pub fn build_index_image(domains: Vec<String>) -> (r: (Vec<u8>, usize))
    requires
        4096 + 14 * domains@.len() <= u32::MAX,
    ensures
        exists|names: Seq<Seq<char>>|
            {
                &&& index_order(names)
                &&& names.to_set() == crate::config::texts(domains@).to_set()
                &&& r.0@ == spec_index_image(names)
                &&& r.1 == names.len()
            },
{
    let ghost dl = domains@.len();
    let ghost dv = crate::config::texts(domains@);
    let (names, hashes) = sorted_distinct_names(domains);
    let starts = bucket_starts(&names, &hashes);
    let img = index_image_bytes(&names, &hashes, &starts);
    let count = names.len();
    assert(index_order(crate::config::texts(names@)) && crate::config::texts(names@).to_set() == dv.to_set());
    (img, count)
}

proof fn lemma_le16_decode(s: Seq<u8>, o: int, x: u16)
    requires
        0 <= o,
        o + 2 <= s.len(),
        s.subrange(o, o + 2) == le16_bytes(x),
    ensures
        le16_at(s, o) == x,
{
    assert(s[o] == s.subrange(o, o + 2)[0]);
    assert(s[o + 1] == s.subrange(o, o + 2)[1]);
    assert(x % 256 + 256 * (x / 256) == x) by (bit_vector);
}

proof fn lemma_le32_decode(s: Seq<u8>, o: int, x: u32)
    requires
        0 <= o,
        o + 4 <= s.len(),
        s.subrange(o, o + 4) == le32_bytes(x),
    ensures
        le32_at(s, o) == x,
{
    let w = s.subrange(o, o + 4);
    assert(s[o] == w[0] && s[o + 1] == w[1] && s[o + 2] == w[2] && s[o + 3] == w[3]);
    assert(x % 256 + 256 * ((x / 256) % 256) + 65536 * ((x / 65536) % 256) + 16777216 * (x / 16777216) == x)
        by (bit_vector);
}

proof fn lemma_le64_decode(s: Seq<u8>, o: int, x: u64)
    requires
        0 <= o,
        o + 8 <= s.len(),
        s.subrange(o, o + 8) == le64_bytes(x),
    ensures
        le64_at(s, o) == x,
{
    let lo = (x % 0x1_0000_0000) as u32;
    let hi = (x / 0x1_0000_0000) as u32;
    assert(s.subrange(o, o + 4) =~= s.subrange(o, o + 8).subrange(0, 4));
    assert(s.subrange(o + 4, o + 8) =~= s.subrange(o, o + 8).subrange(4, 8));
    assert(le64_bytes(x).subrange(0, 4) =~= le32_bytes(lo));
    assert(le64_bytes(x).subrange(4, 8) =~= le32_bytes(hi));
    lemma_le32_decode(s, o, lo);
    lemma_le32_decode(s, o + 4, hi);
    assert(x % 0x1_0000_0000 + 0x1_0000_0000 * (x / 0x1_0000_0000) == x) by (bit_vector);
}

/// Bucket `b`'s entry in the header: offset of its first record and its count.
pub open spec fn bucket_entry(names: Seq<Seq<char>>, b: int) -> Seq<u8> {
    le32_bytes((4096 + 14 * bucket_start(names, b)) as u32) + le32_bytes(
        (bucket_start(names, b + 1) - bucket_start(names, b)) as u32,
    )
}

proof fn lemma_bucket_table(names: Seq<Seq<char>>, m: int, b: int)
    requires
        0 <= b < m,
    ensures
        bucket_table(names, m).len() == 8 * m,
        bucket_table(names, m).subrange(8 * b, 8 * b + 8) == bucket_entry(names, b),
    decreases m,
{
    lemma_bucket_table_len(names, m);
    if b < m - 1 {
        lemma_bucket_table(names, m - 1, b);
        lemma_bucket_table_len(names, m - 1);
        assert(bucket_table(names, m).subrange(8 * b, 8 * b + 8) =~= bucket_table(names, m - 1).subrange(
            8 * b,
            8 * b + 8,
        ));
    } else {
        lemma_bucket_table_len(names, m - 1);
        assert(bucket_table(names, m).subrange(8 * b, 8 * b + 8) =~= bucket_entry(names, b));
    }
}

proof fn lemma_bucket_table_len(names: Seq<Seq<char>>, m: int)
    ensures
        bucket_table(names, m).len() == if m <= 0 { 0 } else { 8 * m },
    decreases m,
{
    if m > 0 {
        lemma_bucket_table_len(names, m - 1);
    }
}

proof fn lemma_records(names: Seq<Seq<char>>, m: int, i: int)
    requires
        0 <= i < m,
    ensures
        index_records(names, m).len() == 14 * m,
        index_records(names, m).subrange(14 * i, 14 * i + 14) == index_record(names, i),
    decreases m,
{
    lemma_records_len(names, m);
    lemma_records_len(names, m - 1);
    if i < m - 1 {
        lemma_records(names, m - 1, i);
        assert(index_records(names, m).subrange(14 * i, 14 * i + 14) =~= index_records(names, m - 1).subrange(
            14 * i,
            14 * i + 14,
        ));
    } else {
        assert(index_records(names, m).subrange(14 * i, 14 * i + 14) =~= index_record(names, i));
    }
}

proof fn lemma_records_len(names: Seq<Seq<char>>, m: int)
    ensures
        index_records(names, m).len() == if m <= 0 { 0 } else { 14 * m },
    decreases m,
{
    if m > 0 {
        lemma_records_len(names, m - 1);
        assert(index_record(names, m - 1).len() == 14);
    }
}

proof fn lemma_strings(names: Seq<Seq<char>>, m: int, i: int)
    requires
        0 <= i < m,
    ensures
        index_strings(names, i).len() + name_bytes(names[i]).len() <= index_strings(names, m).len(),
        index_strings(names, m).subrange(
            index_strings(names, i).len() as int,
            (index_strings(names, i).len() + name_bytes(names[i]).len()) as int,
        ) == name_bytes(names[i]),
    decreases m,
{
    if i < m - 1 {
        lemma_strings(names, m - 1, i);
        let a = index_strings(names, i).len() as int;
        let l = name_bytes(names[i]).len() as int;
        assert(index_strings(names, m).subrange(a, a + l) =~= index_strings(names, m - 1).subrange(a, a + l));
    } else {
        let a = index_strings(names, i).len() as int;
        let l = name_bytes(names[i]).len() as int;
        assert(index_strings(names, m).subrange(a, a + l) =~= name_bytes(names[i]));
    }
}

proof fn lemma_strings_monotone(names: Seq<Seq<char>>, i: int, m: int)
    requires
        0 <= i <= m,
    ensures
        index_strings(names, i).len() <= index_strings(names, m).len(),
    decreases m - i,
{
    if i < m {
        lemma_strings_monotone(names, i, m - 1);
    }
}

proof fn lemma_bucket_of_monotone(h1: u64, h2: u64)
    requires
        h1 <= h2,
    ensures
        bucket_of(h1) <= bucket_of(h2),
        bucket_of(h1) < 256,
{
    assert(h1 >> 56u64 <= h2 >> 56u64) by (bit_vector)
        requires
            h1 <= h2,
    ;
    assert(h1 >> 56u64 < 256) by (bit_vector);
}

proof fn lemma_match_same_hash(a: Seq<u8>, b: Seq<u8>)
    requires
        bytes_match_ignoring_case(a, b),
    ensures
        crate::dns::disk_store::fnv_lower(a) == crate::dns::disk_store::fnv_lower(b),
    decreases a.len(),
{
    if a.len() > 0 {
        assert(bytes_match_ignoring_case(a.drop_last(), b.drop_last())) by {
            assert forall|i: int| 0 <= i < a.drop_last().len() implies lower_byte(#[trigger] a.drop_last()[i])
                == lower_byte(b.drop_last()[i]) by {
                assert(lower_byte(a[i]) == lower_byte(b[i]));
            }
        }
        lemma_match_same_hash(a.drop_last(), b.drop_last());
        assert(lower_byte(a[a.len() - 1]) == lower_byte(b[b.len() - 1]));
    }
}

/// Record `j` of the bucket `recs` names `q`: its stored length is that of `q`, its
/// name lies inside the file `img`, and spells `q` up to ASCII case.
pub open spec fn record_names(d: DiskBlocklist, img: Seq<u8>, recs: Seq<u8>, j: int, q: Seq<char>) -> bool {
    let nm = d.spec_record_name(recs, j);
    &&& nm.1 == name_bytes(q).len()
    &&& nm.0 + nm.1 <= img.len()
    &&& bytes_match_ignoring_case(img.subrange(nm.0 as int, nm.0 + nm.1), name_bytes(q))
}

/// What a lookup of `q` answers on the index file `img` opened as `d`: the bucket of
/// its hash is read, then every record of the run of its hash whose stored length is
/// that of `q`, and some such record's name spells `q` up to ASCII case. Reads past
/// the end of the file find nothing.
#[verifier::opaque]
pub open spec fn spec_index_lookup(d: DiskBlocklist, img: Seq<u8>, q: Seq<char>) -> bool {
    match d.spec_lookup_bucket(q) {
        None => false,
        Some(plan) => {
            let off = plan.1 as int;
            let cnt = plan.2 as int;
            &&& off + 14 * cnt <= img.len()
            &&& {
                let recs = img.subrange(off, off + 14 * cnt);
                let run = spec_hash_run(recs, plan.0);
                exists|j: int| run.0 <= j < run.1 && #[trigger] record_names(d, img, recs, j, q)
            }
        },
    }
}

proof fn lemma_image_header(names: Seq<Seq<char>>)
    requires
        4096 + 14 * names.len() <= u32::MAX,
    ensures
        spec_index_image(names).len() >= 4096,
        header_error(spec_index_image(names).subrange(0, 4096)) is None,
        le32_at(spec_index_image(names).subrange(0, 4096), 8) == names.len(),
        forall|b: int|
            0 <= b < 256 ==> #[trigger] header_bucket(spec_index_image(names).subrange(0, 4096), b) == (
                (4096 + 14 * bucket_start(names, b)) as u32,
                (bucket_start(names, b + 1) - bucket_start(names, b)) as u32,
            ),
{
    reveal(spec_index_image);
    let img = spec_index_image(names);
    let hd = index_header(names);
    lemma_bucket_table_len(names, 256);
    assert(hd.len() == 4096);
    let h = img.subrange(0, 4096);
    assert(h =~= hd);
    assert(h.subrange(4, 8) =~= le32_bytes(1));
    lemma_le32_decode(h, 4, 1);
    assert(h.subrange(8, 12) =~= le32_bytes(names.len() as u32));
    lemma_le32_decode(h, 8, names.len() as u32);
    assert forall|b: int| 0 <= b < 256 implies #[trigger] header_bucket(h, b) == (
        (4096 + 14 * bucket_start(names, b)) as u32,
        (bucket_start(names, b + 1) - bucket_start(names, b)) as u32,
    ) by {
        lemma_bucket_table(names, 256, b);
        let e = bucket_entry(names, b);
        let t = bucket_table(names, 256);
        assert(h.subrange(16 + 8 * b, 24 + 8 * b) =~= t.subrange(8 * b, 8 * b + 8));
        assert(h.subrange(16 + 8 * b, 20 + 8 * b) =~= e.subrange(0, 4));
        assert(h.subrange(20 + 8 * b, 24 + 8 * b) =~= e.subrange(4, 8));
        assert(e.subrange(0, 4) =~= le32_bytes((4096 + 14 * bucket_start(names, b)) as u32));
        assert(e.subrange(4, 8) =~= le32_bytes((bucket_start(names, b + 1) - bucket_start(names, b)) as u32));
        lemma_le32_decode(h, 16 + 8 * b, (4096 + 14 * bucket_start(names, b)) as u32);
        lemma_le32_decode(h, 20 + 8 * b, (bucket_start(names, b + 1) - bucket_start(names, b)) as u32);
    }
}

proof fn lemma_sorted_hashes(names: Seq<Seq<char>>, i: int, j: int)
    requires
        index_order(names),
        0 <= i <= j < names.len(),
    ensures
        spec_hash_domain(names[i]) <= spec_hash_domain(names[j]),
        bucket_of(spec_hash_domain(names[i])) <= bucket_of(spec_hash_domain(names[j])),
{
    if i < j {
        assert(entry_le((spec_hash_domain(names[i]), names[i]), (spec_hash_domain(names[j]), names[j])));
    }
    lemma_bucket_of_monotone(spec_hash_domain(names[i]), spec_hash_domain(names[j]));
}

proof fn lemma_bucket_range(names: Seq<Seq<char>>, i: int)
    requires
        index_order(names),
        0 <= i < names.len(),
    ensures
        ({
            let b = bucket_of(spec_hash_domain(names[i]));
            &&& 0 <= b < 256
            &&& bucket_start(names, b) <= i < bucket_start(names, b + 1)
        }),
{
    let b = bucket_of(spec_hash_domain(names[i]));
    lemma_bucket_of_monotone(spec_hash_domain(names[i]), spec_hash_domain(names[i]));
    assert(0 <= b) by {
        let h = spec_hash_domain(names[i]);
        assert(h >> 56u64 >= 0) by (bit_vector);
    }
    lemma_bucket_start_from(names, b, 0);
    lemma_bucket_start_from(names, b + 1, 0);
    let e = bucket_start(names, b + 1);
    if e <= i {
        lemma_sorted_hashes(names, e, i);
    }
}

proof fn lemma_bucket_bounds(names: Seq<Seq<char>>, b: int)
    requires
        0 <= b,
    ensures
        0 <= bucket_start(names, b) <= bucket_start(names, b + 1) <= names.len(),
{
    lemma_bucket_start_from(names, b, 0);
    lemma_bucket_start_from(names, b + 1, 0);
    assert forall|k: int| 0 <= k < bucket_start(names, b) implies bucket_of(spec_hash_domain(#[trigger] names[k]))
        < b + 1 by {}
    lemma_bucket_start_skip(names, b + 1, 0, bucket_start(names, b));
    lemma_bucket_start_from(names, b + 1, bucket_start(names, b));
}

#[verifier::rlimit(60)]
proof fn lemma_bucket_records(names: Seq<Seq<char>>, b: int, j: int)
    requires
        index_order(names),
        4096 + 14 * names.len() <= u32::MAX,
        index_strings(names, names.len() as int).len() <= u32::MAX,
        forall|k: int| 0 <= k < names.len() ==> name_bytes(#[trigger] names[k]).len() < 65536,
        0 <= b,
        0 <= j < bucket_start(names, b + 1) - bucket_start(names, b),
    ensures
        ({
            let s = bucket_start(names, b);
            let e = bucket_start(names, b + 1);
            let img = spec_index_image(names);
            let recs = img.subrange(4096 + 14 * s, 4096 + 14 * e);
            &&& 4096 + 14 * e <= img.len()
            &&& recs.len() == 14 * (e - s)
            &&& rec_hash(recs, j) == spec_hash_domain(names[s + j])
            &&& le32_at(recs, 14 * j + 8) == index_strings(names, s + j).len()
            &&& le16_at(recs, 14 * j + 12) == name_bytes(names[s + j]).len()
        }),
{
    reveal(spec_index_image);
    let n = names.len() as int;
    let s = bucket_start(names, b);
    let e = bucket_start(names, b + 1);
    lemma_bucket_bounds(names, b);
    let img = spec_index_image(names);
    lemma_bucket_table_len(names, 256);
    lemma_records_len(names, n);
    let hd = index_header(names);
    let rs = index_records(names, n);
    assert(hd.len() == 4096);
    assert(img.subrange(4096, 4096 + 14 * n) =~= rs);
    let recs = img.subrange(4096 + 14 * s, 4096 + 14 * e);
    assert(recs =~= rs.subrange(14 * s, 14 * e));
    let i = s + j;
    lemma_records(names, n, i);
    let r = index_record(names, i);
    assert(recs.subrange(14 * j, 14 * j + 14) =~= rs.subrange(14 * i, 14 * i + 14));
    assert(recs.subrange(14 * j, 14 * j + 8) =~= r.subrange(0, 8));
    assert(recs.subrange(14 * j + 8, 14 * j + 12) =~= r.subrange(8, 12));
    assert(recs.subrange(14 * j + 12, 14 * j + 14) =~= r.subrange(12, 14));
    assert(r.subrange(0, 8) =~= le64_bytes(spec_hash_domain(names[i])));
    assert(recs.subrange(14 * j, 14 * j + 8) =~= le64_bytes(spec_hash_domain(names[i])));
    lemma_le64_decode(recs, 14 * j, spec_hash_domain(names[i]));
    lemma_strings_monotone(names, i, n);
    let off = index_strings(names, i).len();
    assert(recs.subrange(14 * j + 8, 14 * j + 12) =~= le32_bytes(off as u32));
    lemma_le32_decode(recs, 14 * j + 8, off as u32);
    assert(recs.subrange(14 * j + 12, 14 * j + 14) =~= le16_bytes(name_bytes(names[i]).len() as u16));
    lemma_le16_decode(recs, 14 * j + 12, name_bytes(names[i]).len() as u16);
}

proof fn lemma_stored_name(names: Seq<Seq<char>>, i: int)
    requires
        0 <= i < names.len(),
    ensures
        ({
            let img = spec_index_image(names);
            let off: int = (4096 + 14 * names.len() + index_strings(names, i).len()) as int;
            let l: int = name_bytes(names[i]).len() as int;
            &&& off + l <= img.len()
            &&& img.subrange(off, off + l) == name_bytes(names[i])
        }),
{
    reveal(spec_index_image);
    let n = names.len() as int;
    lemma_bucket_table_len(names, 256);
    lemma_records_len(names, n);
    lemma_strings(names, n, i);
    let img = spec_index_image(names);
    let st = index_strings(names, n);
    let a = index_strings(names, i).len() as int;
    let l = name_bytes(names[i]).len() as int;
    let base = 4096 + 14 * n;
    assert(img.subrange(base + a, base + a + l) =~= st.subrange(a, a + l));
}

proof fn lemma_bucket_facts(names: Seq<Seq<char>>, b: int)
    requires
        index_order(names),
        4096 + 14 * names.len() <= u32::MAX,
        index_strings(names, names.len() as int).len() <= u32::MAX,
        forall|k: int| 0 <= k < names.len() ==> name_bytes(#[trigger] names[k]).len() < 65536,
        0 <= b,
    ensures
        ({
            let s = bucket_start(names, b);
            let e = bucket_start(names, b + 1);
            let recs = spec_index_image(names).subrange(4096 + 14 * s, 4096 + 14 * e);
            &&& 0 <= s <= e <= names.len()
            &&& 4096 + 14 * e <= spec_index_image(names).len()
            &&& recs.len() / 14 == e - s
            &&& hashes_sorted(recs)
            &&& forall|j: int| 0 <= j < e - s ==> #[trigger] rec_hash(recs, j) == spec_hash_domain(names[s + j])
        }),
{
    reveal(hashes_sorted);
    let s = bucket_start(names, b);
    let e = bucket_start(names, b + 1);
    lemma_bucket_bounds(names, b);
    let recs = spec_index_image(names).subrange(4096 + 14 * s, 4096 + 14 * e);
    if s < e {
        lemma_bucket_records(names, b, 0);
    } else {
        reveal(spec_index_image);
        lemma_bucket_table_len(names, 256);
        lemma_records_len(names, names.len() as int);
    }
    assert(recs.len() == 14 * (e - s));
    assert(recs.len() / 14 == e - s);
    assert forall|j: int| 0 <= j < e - s implies #[trigger] rec_hash(recs, j) == spec_hash_domain(names[s + j]) by {
        lemma_bucket_records(names, b, j);
    }
    assert forall|i: int, j: int| 0 <= i <= j < recs.len() / 14 implies rec_hash(recs, i) <= rec_hash(recs, j) by {
        assert(rec_hash(recs, i) == spec_hash_domain(names[s + i]));
        assert(rec_hash(recs, j) == spec_hash_domain(names[s + j]));
        lemma_sorted_hashes(names, s + i, s + j);
    }
}

proof fn lemma_lookup_plan(names: Seq<Seq<char>>, d: DiskBlocklist, q: Seq<char>)
    requires
        4096 + 14 * names.len() <= u32::MAX,
        d.read_from(spec_index_image(names).subrange(0, 4096)),
    ensures
        header_error(spec_index_image(names).subrange(0, 4096)) is None,
        d.total() == names.len(),
        d.strings_base() == 4096 + 14 * names.len(),
        0 <= bucket_of(spec_hash_domain(q)) < 256,
        d.bucket(bucket_of(spec_hash_domain(q))) == (
            (4096 + 14 * bucket_start(names, bucket_of(spec_hash_domain(q)))) as u32,
            (bucket_start(names, bucket_of(spec_hash_domain(q)) + 1) - bucket_start(
                names,
                bucket_of(spec_hash_domain(q)),
            )) as u32,
        ),
{
    lemma_image_header(names);
    let hq = spec_hash_domain(q);
    lemma_bucket_of_monotone(hq, hq);
    assert(hq >> 56u64 >= 0) by (bit_vector);
    let h = spec_index_image(names).subrange(0, 4096);
    assert(d.bucket(bucket_of(hq)) == header_bucket(h, bucket_of(hq)));
}

proof fn lemma_lookup_sound(names: Seq<Seq<char>>, d: DiskBlocklist, q: Seq<char>)
    requires
        index_order(names),
        4096 + 14 * names.len() <= u32::MAX,
        index_strings(names, names.len() as int).len() <= u32::MAX,
        forall|k: int| 0 <= k < names.len() ==> name_bytes(#[trigger] names[k]).len() < 65536,
        d.read_from(spec_index_image(names).subrange(0, 4096)),
        spec_index_lookup(d, spec_index_image(names), q),
    ensures
        q.len() > 0,
        exists|i: int| 0 <= i < names.len() && #[trigger] bytes_match_ignoring_case(name_bytes(names[i]), name_bytes(q)),
{
    reveal(spec_index_lookup);
    let img = spec_index_image(names);
    lemma_lookup_plan(names, d, q);
    let hq = spec_hash_domain(q);
    let bq = bucket_of(hq);
    lemma_bucket_facts(names, bq);
    let s = bucket_start(names, bq);
    let e = bucket_start(names, bq + 1);
    let recs = img.subrange(4096 + 14 * s, 4096 + 14 * e);
    lemma_hash_run(recs, hq);
    let run = spec_hash_run(recs, hq);
    let j = choose|j: int| run.0 <= j < run.1 && #[trigger] record_names(d, img, recs, j, q);
    let i = s + j;
    lemma_bucket_records(names, bq, j);
    lemma_stored_name(names, i);
    lemma_strings_monotone(names, i, names.len() as int);
    assert(bytes_match_ignoring_case(name_bytes(names[i]), name_bytes(q)));
}

proof fn lemma_record_names_at(names: Seq<Seq<char>>, d: DiskBlocklist, q: Seq<char>, b: int, i: int)
    requires
        index_order(names),
        4096 + 14 * names.len() <= u32::MAX,
        index_strings(names, names.len() as int).len() <= u32::MAX,
        forall|k: int| 0 <= k < names.len() ==> name_bytes(#[trigger] names[k]).len() < 65536,
        d.wf(),
        d.strings_base() == 4096 + 14 * names.len(),
        0 <= b,
        bucket_start(names, b) <= i < bucket_start(names, b + 1),
        bytes_match_ignoring_case(name_bytes(names[i]), name_bytes(q)),
    ensures
        record_names(
            d,
            spec_index_image(names),
            spec_index_image(names).subrange(
                4096 + 14 * bucket_start(names, b),
                4096 + 14 * bucket_start(names, b + 1),
            ),
            i - bucket_start(names, b),
            q,
        ),
{
    let img = spec_index_image(names);
    let s = bucket_start(names, b);
    let e = bucket_start(names, b + 1);
    lemma_bucket_bounds(names, b);
    let recs = img.subrange(4096 + 14 * s, 4096 + 14 * e);
    let j = i - s;
    lemma_bucket_records(names, b, j);
    lemma_stored_name(names, i);
    lemma_strings_monotone(names, i, names.len() as int);
    let nm = d.spec_record_name(recs, j);
    assert(nm.1 == name_bytes(names[i]).len());
    assert(nm.0 == 4096 + 14 * names.len() + index_strings(names, i).len());
}

proof fn lemma_in_bucket_run(names: Seq<Seq<char>>, b: int, i: int)
    requires
        index_order(names),
        4096 + 14 * names.len() <= u32::MAX,
        index_strings(names, names.len() as int).len() <= u32::MAX,
        forall|k: int| 0 <= k < names.len() ==> name_bytes(#[trigger] names[k]).len() < 65536,
        0 <= b,
        bucket_start(names, b) <= i < bucket_start(names, b + 1),
    ensures
        ({
            let s = bucket_start(names, b);
            let e = bucket_start(names, b + 1);
            let recs = spec_index_image(names).subrange(4096 + 14 * s, 4096 + 14 * e);
            let run = spec_hash_run(recs, spec_hash_domain(names[i]));
            &&& 4096 + 14 * e <= spec_index_image(names).len()
            &&& run.0 <= i - s < run.1
        }),
{
    let s = bucket_start(names, b);
    let e = bucket_start(names, b + 1);
    let recs = spec_index_image(names).subrange(4096 + 14 * s, 4096 + 14 * e);
    lemma_bucket_facts(names, b);
    assert(rec_hash(recs, i - s) == spec_hash_domain(names[s + (i - s)]));
    lemma_hash_run(recs, spec_hash_domain(names[i]));
}

proof fn lemma_lookup_complete(names: Seq<Seq<char>>, d: DiskBlocklist, q: Seq<char>, i: int)
    requires
        index_order(names),
        4096 + 14 * names.len() <= u32::MAX,
        index_strings(names, names.len() as int).len() <= u32::MAX,
        forall|k: int| 0 <= k < names.len() ==> name_bytes(#[trigger] names[k]).len() < 65536,
        d.read_from(spec_index_image(names).subrange(0, 4096)),
        q.len() > 0,
        0 <= i < names.len(),
        bytes_match_ignoring_case(name_bytes(names[i]), name_bytes(q)),
    ensures
        spec_index_lookup(d, spec_index_image(names), q),
{
    let img = spec_index_image(names);
    lemma_lookup_plan(names, d, q);
    let hq = spec_hash_domain(q);
    let bq = bucket_of(hq);
    assert(spec_hash_domain(names[i]) == hq) by {
        lemma_match_same_hash(name_bytes(names[i]), name_bytes(q));
    }
    let s = bucket_start(names, bq);
    let e = bucket_start(names, bq + 1);
    assert(s <= i < e) by {
        lemma_bucket_range(names, i);
    }
    let recs = img.subrange(4096 + 14 * s, 4096 + 14 * e);
    let j = i - s;
    lemma_in_bucket_run(names, bq, i);
    lemma_record_names_at(names, d, q, bq, i);
    lemma_bucket_bounds(names, bq);
    assert(d.total() == names.len());
    assert(0 <= s < e <= names.len());
    assert(d.bucket(bucket_of(spec_hash_domain(q))) == ((4096 + 14 * s) as u32, (e - s) as u32));
    assert(4096 + 14 * e <= img.len());
    assert(spec_hash_run(img.subrange(4096 + 14 * s, 4096 + 14 * e), spec_hash_domain(q)).0 <= j);
    assert(j < spec_hash_run(img.subrange(4096 + 14 * s, 4096 + 14 * e), spec_hash_domain(q)).1);
    assert(record_names(d, img, img.subrange(4096 + 14 * s, 4096 + 14 * e), j, q));
    lemma_complete_tail(d, img, q, names.len() as int, s, e, j);
    assert(spec_index_lookup(d, img, q));
}

proof fn lemma_complete_tail(d: DiskBlocklist, img: Seq<u8>, q: Seq<char>, n: int, s: int, e: int, j: int)
    requires
        d.total() == n,
        q.len() > 0,
        0 <= s < e <= n,
        4096 + 14 * n <= u32::MAX,
        d.bucket(bucket_of(spec_hash_domain(q))) == ((4096 + 14 * s) as u32, (e - s) as u32),
        4096 + 14 * e <= img.len(),
        spec_hash_run(img.subrange(4096 + 14 * s, 4096 + 14 * e), spec_hash_domain(q)).0 <= j,
        j < spec_hash_run(img.subrange(4096 + 14 * s, 4096 + 14 * e), spec_hash_domain(q)).1,
        record_names(d, img, img.subrange(4096 + 14 * s, 4096 + 14 * e), j, q),
    ensures
        spec_index_lookup(d, img, q),
{
    let hq = spec_hash_domain(q);
    let off = (4096 + 14 * s) as u32;
    let cnt = (e - s) as u32;
    lemma_plan_for(d, q, n, s, e);
    let recs = img.subrange(4096 + 14 * s, 4096 + 14 * e);
    assert(img.subrange(off as int, off as int + 14 * (cnt as int)) == recs);
    lemma_lookup_witness(d, img, q, (hq, off, cnt), recs, j);
}

proof fn lemma_plan_for(d: DiskBlocklist, q: Seq<char>, n: int, s: int, e: int)
    requires
        d.total() == n,
        q.len() > 0,
        0 <= s < e <= n,
        4096 + 14 * n <= u32::MAX,
        d.bucket(bucket_of(spec_hash_domain(q))) == ((4096 + 14 * s) as u32, (e - s) as u32),
    ensures
        ((4096 + 14 * s) as u32) as int == 4096 + 14 * s,
        ((e - s) as u32) as int == e - s,
        d.spec_lookup_bucket(q) == Some((spec_hash_domain(q), (4096 + 14 * s) as u32, (e - s) as u32)),
{
}

proof fn lemma_lookup_witness(d: DiskBlocklist, img: Seq<u8>, q: Seq<char>, plan: (u64, u32, u32), recs: Seq<u8>, j: int)
    requires
        d.spec_lookup_bucket(q) == Some(plan),
        plan.1 + 14 * plan.2 <= img.len(),
        recs == img.subrange(plan.1 as int, plan.1 + 14 * plan.2),
        spec_hash_run(recs, plan.0).0 <= j < spec_hash_run(recs, plan.0).1,
        record_names(d, img, recs, j, q),
    ensures
        spec_index_lookup(d, img, q),
{
    reveal(spec_index_lookup);
}

/// A lookup in a built index finds exactly the names that were put in: opened from its
/// header, the index of `names` (sorted and distinct, within the format's 32-bit
/// offsets and 16-bit name lengths) has as many entries as names, and the lookup of
/// a non-empty `q` succeeds if and only if some name spells `q` up to ASCII case.
pub proof fn lemma_index_lookup(names: Seq<Seq<char>>, d: DiskBlocklist, q: Seq<char>)
    requires
        index_order(names),
        4096 + 14 * names.len() <= u32::MAX,
        index_strings(names, names.len() as int).len() <= u32::MAX,
        forall|k: int| 0 <= k < names.len() ==> name_bytes(#[trigger] names[k]).len() < 65536,
        d.read_from(spec_index_image(names).subrange(0, 4096)),
    ensures
        header_error(spec_index_image(names).subrange(0, 4096)) is None,
        d.total() == names.len(),
        spec_index_lookup(d, spec_index_image(names), q) <==> (q.len() > 0 && exists|i: int|
            0 <= i < names.len() && #[trigger] bytes_match_ignoring_case(name_bytes(names[i]), name_bytes(q))),
{
    lemma_lookup_plan(names, d, q);
    if spec_index_lookup(d, spec_index_image(names), q) {
        lemma_lookup_sound(names, d, q);
    }
    if q.len() > 0 && exists|i: int|
        0 <= i < names.len() && #[trigger] bytes_match_ignoring_case(name_bytes(names[i]), name_bytes(q)) {
        let i = choose|i: int|
            0 <= i < names.len() && #[trigger] bytes_match_ignoring_case(name_bytes(names[i]), name_bytes(q));
        lemma_lookup_complete(names, d, q, i);
    }
}

impl DiskBlocklist {
    /// Whether record `j` of the bucket `recs` names `domain` in the file `image`.
    fn record_matches(&self, image: &[u8], recs: &[u8], j: usize, domain: &str) -> (r: bool)
        requires
            self.wf(),
            j < recs@.len() / 14,
        ensures
            r == record_names(*self, image@, recs@, j as int, domain@),
    {
        proof {
            lemma_record_in_bounds(recs@.len() as int, j as int);
        }
        let il = image.len();
        let qlen = domain.as_bytes().len();
        let (abs, len) = self.record_name(recs, j);
        if len as usize == qlen && abs <= il as u64 && (len as u64) <= il as u64 - abs {
            let stored: &[u8] = &image[abs as usize..abs as usize + len as usize];
            name_matches(stored, domain)
        } else {
            false
        }
    }

    /// Whether the index file `image`, opened as `self`, lists `domain` (up to ASCII
    /// case): the same steps as a lookup that reads the file piece by piece.
    #[verifier::rlimit(30)]
    pub fn contains_in(&self, image: &[u8], domain: &str) -> (r: bool)
        requires
            self.wf(),
        ensures
            r == spec_index_lookup(*self, image@, domain@),
    {
        proof {
            reveal(spec_index_lookup);
        }
        let plan = self.lookup_bucket(domain);
        let (h, off, cnt) = match plan {
            None => {
                return false;
            },
            Some(p) => p,
        };
        let il = image.len();
        let start = off as usize;
        if cnt as u64 * 14 > (il as u64) || start > il - (cnt as usize) * 14 {
            return false;
        }
        let recs: &[u8] = &image[start..start + (cnt as usize) * 14];
        let (lo, hi) = hash_run(recs, h);
        proof {
            lemma_hash_run(recs@, h);
        }
        assert(recs@ == image@.subrange(off as int, off + 14 * cnt));
        let mut j: usize = lo;
        while j < hi
            invariant
                lo <= j <= hi,
                hi <= recs@.len() / 14,
                self.wf(),
                forall|k: int| lo <= k < j ==> !#[trigger] record_names(*self, image@, recs@, k, domain@),
                self.spec_lookup_bucket(domain@) == Some((h, off, cnt)),
                off + 14 * cnt <= image@.len(),
                recs@ == image@.subrange(off as int, off + 14 * cnt),
                (lo as int, hi as int) == spec_hash_run(recs@, h),
            decreases hi - j,
        {
            if self.record_matches(image, recs, j, domain) {
                proof {
                    reveal(spec_index_lookup);
                }
                return true;
            }
            j += 1;
        }
        proof {
            reveal(spec_index_lookup);
        }
        false
    }
}

} // verus!
