//! Query-rate limits, temporary address blocks and inbound port-scan detection.
use vstd::prelude::*;
use crate::dns::cache::elapsed_ms;
use crate::i18n::{spec_tr4_with, tr4_with, EN, RU, ZH};
use crate::security::table::{key_at, KeyTable};
use crate::security::{incident_texts, log_after, same_detection_state, SecurityEngine, SecurityIncident};
use crate::security::heuristics::{dga_shape, is_dga_domain, spec_is_darknet, is_darknet_pseudo_tld, utf8_len, utf8_len_of, DgaShape};
use crate::text::{chars_of, decimal, eq_str, names_of, spec_decimal, split_on, split_vec, string_from_chars};

verus! {

/// The timestamps of `v` within `window` milliseconds before `now`, in order.
pub open spec fn recent(v: Seq<u64>, now: u64, window: u64) -> Seq<u64>
    decreases v.len(),
{
    if v.len() == 0 {
        v
    } else if elapsed_ms(now, v.last()) < window {
        recent(v.drop_last(), now, window).push(v.last())
    } else {
        recent(v.drop_last(), now, window)
    }
}

/// Some timestamp of `v` lies within `window` milliseconds before `now`.
pub open spec fn any_recent(v: Seq<u64>, now: u64, window: u64) -> bool {
    exists|i: int| 0 <= i < v.len() && elapsed_ms(now, #[trigger] v[i]) < window
}

/// The latest timestamp of `v`, or -1 when it has none.
pub open spec fn last_seen(v: Seq<u64>) -> int
    decreases v.len(),
{
    if v.len() == 0 {
        -1
    } else {
        let m = last_seen(v.drop_last());
        if v.last() as int > m {
            v.last() as int
        } else {
            m
        }
    }
}

/// The last ten entries of `v` when it is over `limit` and longer than ten; else `v`.
pub open spec fn trim_history(v: Seq<u64>, limit: int) -> Seq<u64> {
    if v.len() > limit && v.len() > 10 {
        v.subrange(v.len() - 10, v.len() as int)
    } else {
        v
    }
}

/// The loopback addresses as the engine spells them.
pub open spec fn is_loopback_text(ip: Seq<char>) -> bool {
    ip == "127.0.0.1"@ || ip == "::1"@
}

/// The timestamps held for `ip`, or none.
pub open spec fn times_of(t: KeyTable<Vec<u64>>, ip: Seq<char>) -> Seq<u64> {
    match t.lookup(ip) {
        Some(v) => v@,
        None => Seq::empty(),
    }
}

/// The entry of `q` after dropping the sources with no query in the last two seconds.
pub open spec fn still_active(a: KeyTable<Vec<u64>>, q: Seq<char>, now: u64) -> Option<Vec<u64>> {
    match a.lookup(q) {
        Some(v) => if any_recent(v@, now, 2000) {
            Some(v)
        } else {
            None
        },
        None => None,
    }
}

/// The 256 longest-silent sources of `m` (by their latest query) are gone in `c`, and
/// every other source stays as it was; which of equally silent ones go is left open.
pub open spec fn evicted_longest_silent(m: KeyTable<Vec<u64>>, c: KeyTable<Vec<u64>>) -> bool {
    &&& c.wf()
    &&& c.size() == m.size() - 256
    &&& forall|q: Seq<char>| #[trigger] c.lookup(q) is Some ==> c.lookup(q) == m.lookup(q)
    &&& forall|q: Seq<char>, p: Seq<char>|
        #[trigger] m.lookup(q) is Some && c.lookup(q) is None && #[trigger] c.lookup(p) is Some
            ==> last_seen(m.lookup(q)->0@) <= last_seen(c.lookup(p)->0@)
}

/// The clean-up of a query history at `now`, giving `c`: a table of at most 1000
/// sources stays; a larger one keeps the sources with a query in the last two seconds
/// (`m`) and, when more than 1000 of them remain, drops the 256 longest silent.
pub open spec fn history_cleanup(a: KeyTable<Vec<u64>>, c: KeyTable<Vec<u64>>, now: u64) -> bool {
    if a.size() <= 1000 {
        c == a
    } else {
        exists|m: KeyTable<Vec<u64>>|
            #![trigger m.size(), m.wf()]
            m.wf() && (forall|q: Seq<char>| #[trigger] m.lookup(q) == still_active(a, q, now)) && if m.size() <= 1000 {
                c == m
            } else {
                evicted_longest_silent(m, c)
            }
    }
}

/// A query history after recording a query from `ip` at `now` against `limit`: the
/// history is first cleaned up (`history_cleanup`, giving `c`); `kept` tells whether
/// the source's own earlier recent times survived that clean-up (its entry stayed, or
/// it had none). The other sources are as the clean-up left them; the source's recent
/// times plus this query are kept, cut to the last ten when over the limit.
pub open spec fn history_after(
    a: KeyTable<Vec<u64>>,
    b: KeyTable<Vec<u64>>,
    ip: Seq<char>,
    now: u64,
    limit: int,
    kept: bool,
) -> bool {
    let x = (if kept { recent(times_of(a, ip), now, 2000) } else { Seq::empty() }).push(now);
    &&& b.wf()
    &&& b.lookup(ip) is Some
    &&& b.lookup(ip)->0@ == trim_history(x, limit)
    &&& forall|q: Seq<char>| q != ip && #[trigger] b.lookup(q) is Some ==> b.lookup(q) == a.lookup(q)
    &&& a.size() <= 1000 ==> forall|q: Seq<char>| q != ip ==> #[trigger] b.lookup(q) == a.lookup(q)
    &&& a.size() <= 1000 ==> kept
    &&& b.size() <= if a.size() > 1001 { a.size() } else { 1001 }
    &&& exists|c: KeyTable<Vec<u64>>|
        #[trigger] history_cleanup(a, c, now) && (kept <==> (c.lookup(ip) is Some || recent(times_of(a, ip), now, 2000).len()
            == 0)) && forall|q: Seq<char>| q != ip ==> #[trigger] b.lookup(q) == c.lookup(q)
}

/// The number of a source's queries counted at `now`: its recent ones (if they
/// survived the clean-up) and this one.
pub open spec fn query_count(a: KeyTable<Vec<u64>>, ip: Seq<char>, now: u64, kept: bool) -> int {
    (if kept { recent(times_of(a, ip), now, 2000).len() as int } else { 0 }) + 1
}

/// A cooldown table after noting an alert for `ip` at `now` (entries older than
/// `window` dropped first when it held more than `cap`).
pub open spec fn cooldown_after(a: KeyTable<u64>, b: KeyTable<u64>, ip: Seq<char>, now: u64, window: u64, cap: int) -> bool {
    &&& b.wf()
    &&& b.lookup(ip) == Some(now)
    &&& forall|q: Seq<char>|
        q != ip ==> #[trigger] b.lookup(q) == if a.size() > cap {
            match a.lookup(q) {
                Some(t) => if t + window > now {
                    Some(t)
                } else {
                    None
                },
                None => None,
            }
        } else {
            a.lookup(q)
        }
}

/// The block table after blocking `ip` for `dur` milliseconds at `now`: loopback is
/// never blocked; otherwise, when more than 500 blocks are held the expired ones go,
/// and `ip` is blocked until `now + dur`.
pub open spec fn blocks_after(a: KeyTable<u64>, b: KeyTable<u64>, ip: Seq<char>, dur: u64, now: u64) -> bool {
    if is_loopback_text(ip) {
        b == a
    } else {
        &&& b.wf()
        &&& b.lookup(ip) == Some((now + dur) as u64)
        &&& forall|q: Seq<char>|
            q != ip ==> #[trigger] b.lookup(q) == if a.size() > 500 {
                match a.lookup(q) {
                    Some(t) => if now < t {
                        Some(t)
                    } else {
                        None
                    },
                    None => None,
                }
            } else {
                a.lookup(q)
            }
    }
}

/// Whether a cooldown entry for `ip` still silences alerts at `now`.
pub open spec fn cooling(t: KeyTable<u64>, ip: Seq<char>, now: u64, window: u64) -> bool {
    t.lookup(ip) is Some && elapsed_ms(now, t.lookup(ip)->0) < window
}

/// The hard query limit of a source: ten times the flood threshold held to 200..=2000
/// for loopback, four times it but at least 200 for others (products saturate).
pub open spec fn hard_limit_for(ip: Seq<char>, base: u32) -> int {
    if is_loopback_text(ip) {
        let m = if base * 10 > u32::MAX { u32::MAX as int } else { base * 10 };
        if m < 200 {
            200
        } else if m > 2000 {
            2000
        } else {
            m
        }
    } else {
        let m = if base * 4 > u32::MAX { u32::MAX as int } else { base * 4 };
        if m < 200 {
            200
        } else {
            m
        }
    }
}

/// Whether `ip` is one of the loopback spellings.
pub fn is_loopback(ip: &[char]) -> (r: bool)
    ensures
        r == is_loopback_text(ip@),
{
    eq_str(ip, "127.0.0.1") || eq_str(ip, "::1")
}

/// The timestamps of `v` within `window` milliseconds before `now`.
fn recent_times(v: &Vec<u64>, now: u64, window: u64) -> (r: Vec<u64>)
    ensures
        r@ == recent(v@, now, window),
{
    let mut out: Vec<u64> = Vec::new();
    let mut i: usize = 0;
    while i < v.len()
        invariant
            i <= v@.len(),
            out@ == recent(v@.subrange(0, i as int), now, window),
        decreases v@.len() - i,
    {
        proof {
            assert(v@.subrange(0, i + 1).drop_last() =~= v@.subrange(0, i as int));
        }
        let t = v[i];
        let el: u64 = if now >= t {
            now - t
        } else {
            0
        };
        if el < window {
            out.push(t);
        }
        i += 1;
    }
    assert(v@.subrange(0, v@.len() as int) =~= v@);
    out
}

/// Whether some timestamp of `v` lies within `window` milliseconds before `now`.
fn has_recent(v: &Vec<u64>, now: u64, window: u64) -> (r: bool)
    ensures
        r == any_recent(v@, now, window),
{
    let mut i: usize = 0;
    while i < v.len()
        invariant
            i <= v@.len(),
            forall|j: int| 0 <= j < i ==> !(elapsed_ms(now, #[trigger] v@[j]) < window),
        decreases v@.len() - i,
    {
        let t = v[i];
        let el: u64 = if now >= t {
            now - t
        } else {
            0
        };
        if el < window {
            return true;
        }
        i += 1;
    }
    false
}

/// The latest timestamp of `v`, or -1.
fn latest(v: &Vec<u64>) -> (r: i128)
    ensures
        r == last_seen(v@),
{
    let mut m: i128 = -1;
    let mut i: usize = 0;
    while i < v.len()
        invariant
            i <= v@.len(),
            m == last_seen(v@.subrange(0, i as int)),
            -1 <= m <= u64::MAX,
        decreases v@.len() - i,
    {
        proof {
            assert(v@.subrange(0, i + 1).drop_last() =~= v@.subrange(0, i as int));
        }
        if v[i] as i128 > m {
            m = v[i] as i128;
        }
        i += 1;
    }
    assert(v@.subrange(0, v@.len() as int) =~= v@);
    m
}

fn copy_chars(v: &[char]) -> (r: Vec<char>)
    ensures
        r@ == v@,
{
    let r = crate::text::slice_vec(v, 0, v.len());
    assert(v@.subrange(0, v@.len() as int) =~= v@);
    r
}

/// Records a query from `ip` at `now` in a history table and returns how many of the
/// source's queries the last two seconds hold, this one included.
fn note_query(t: &mut KeyTable<Vec<u64>>, ip: &[char], now: u64, limit: usize) -> (res: (usize, Ghost<bool>))
    requires
        old(t).wf(),
    ensures
        history_after(*old(t), *final(t), ip@, now, limit as int, res.1@),
        res.0 == query_count(*old(t), ip@, now, res.1@),
        !res.1@ ==> old(t).size() > 1000,
{
    let ghost a = *t;
    let ghost mut m = *t;
    if t.len() > 1000 {
        let keep = |k: &Vec<char>, v: &Vec<u64>| -> (b: bool)
            ensures
                b == any_recent(v@, now, 2000),
        { has_recent(v, now, 2000) };
        t.retain_where(keep, Ghost(|k: Seq<char>, v: Vec<u64>| any_recent(v@, now, 2000)));
        proof {
            m = *t;
        }
        if t.len() > 1000 {
            let rank = |v: &Vec<u64>| -> (x: i128)
                ensures
                    x == last_seen(v@),
            { latest(v) };
            t.evict_lowest(256, rank, Ghost(|v: Vec<u64>| last_seen(v@)));
        }
    }
    let ghost c = *t;
    proof {
        if a.size() > 1000 {
            assert(forall|q: Seq<char>| #[trigger] m.lookup(q) == still_active(a, q, now));
            assert(m.wf());
            if m.size() <= 1000 {
                assert(c == m);
            } else {
                assert(evicted_longest_silent(m, c));
            }
        }
        assert(history_cleanup(a, c, now));
    }
    let prior: Vec<u64> = match t.find(ip) {
        Some(i) => recent_times(&t.entries[i].1, now, 2000),
        None => Vec::new(),
    };
    let ghost kept = c.lookup(ip@) is Some || recent(times_of(a, ip@), now, 2000).len() == 0;
    proof {
        if c.lookup(ip@) is Some {
            assert(c.lookup(ip@) == a.lookup(ip@));
        }
        if a.size() <= 1000 {
            assert(c == a);
            if c.lookup(ip@) is None {
                assert(times_of(a, ip@) =~= Seq::<u64>::empty());
            }
        }
        if kept && c.lookup(ip@) is None {
            assert(recent(times_of(a, ip@), now, 2000) =~= Seq::<u64>::empty());
        }
        assert(prior@ == (if kept { recent(times_of(a, ip@), now, 2000) } else { Seq::<u64>::empty() }));
        assert(forall|q: Seq<char>| #[trigger] c.lookup(q) is Some ==> c.lookup(q) == a.lookup(q));
        assert(c.size() <= a.size());
    }
    let mut times = prior;
    times.push(now);
    let count = times.len();
    if count > limit && count > 10 {
        let mut last: Vec<u64> = Vec::new();
        let mut j: usize = count - 10;
        while j < count
            invariant
                count - 10 <= j <= count,
                count > 10,
                count == times@.len(),
                last@ == times@.subrange(count - 10, j as int),
            decreases count - j,
        {
            last.push(times[j]);
            j += 1;
            assert(last@ =~= times@.subrange(count - 10, j as int));
        }
        times = last;
    }
    t.insert(copy_chars(ip), times);
    proof {
        assert(forall|q: Seq<char>| q != ip@ ==> #[trigger] t.lookup(q) == c.lookup(q));
        assert(history_cleanup(a, c, now) && (kept <==> (c.lookup(ip@) is Some || recent(times_of(a, ip@), now, 2000).len()
            == 0)));
    }
    (count, Ghost(kept))
}


/// The state outside the block table agrees.
pub open spec fn same_but_blocks(a: &SecurityEngine, b: &SecurityEngine) -> bool {
    &&& crate::security::same_switches(a, b)
    &&& crate::security::same_cooldowns(a, b)
    &&& crate::security::same_log(a, b)
    &&& a.hard_drops() == b.hard_drops()
    &&& a.query_history() == b.query_history()
    &&& a.hard_history() == b.hard_history()
    &&& a.probes() == b.probes()
    &&& a.gateway_seen() == b.gateway_seen()
    &&& a.quarantine_state() == b.quarantine_state()
}

/// Notes an alert for `ip` at `now` in a cooldown table.
fn touch_cooldown(t: &mut KeyTable<u64>, ip: &[char], now: u64, window: u64, cap: usize)
    requires
        old(t).wf(),
    ensures
        cooldown_after(*old(t), *final(t), ip@, now, window, cap as int),
{
    if t.len() > cap {
        let keep = |k: &Vec<char>, v: &u64| -> (b: bool)
            ensures
                b == (*v + window > now),
        { (*v as u128) + (window as u128) > (now as u128) };
        t.retain_where(keep, Ghost(|k: Seq<char>, v: u64| v + window > now));
    }
    t.insert(copy_chars(ip), now);
}

/// Whether the cooldown entry of `ip` silences alerts at `now`.
fn is_cooling(t: &KeyTable<u64>, ip: &[char], now: u64, window: u64) -> (r: bool)
    requires
        t.wf(),
    ensures
        r == cooling(*t, ip@, now, window),
{
    match t.find(ip) {
        Some(i) => {
            let last = t.entries[i].1;
            let el: u64 = if now >= last {
                now - last
            } else {
                0
            };
            el < window
        },
        None => false,
    }
}

/// The effect of `is_ip_temporarily_blocked(ip, now)` taking `a` to `b` with result
/// `r`: blocked while the block's end lies after `now`; an expired block is dropped.
pub open spec fn block_check_step(a: &SecurityEngine, b: &SecurityEngine, ip: Seq<char>, now: u64, r: bool) -> bool {
    &&& b.wf()
    &&& r == (a.blocks().lookup(ip) is Some && now < a.blocks().lookup(ip)->0)
    &&& (a.blocks().lookup(ip) is Some && !r ==> b.blocks().lookup(ip) is None)
    &&& forall|q: Seq<char>|
        (q != ip || r || a.blocks().lookup(ip) is None) ==> #[trigger] b.blocks().lookup(q) == a.blocks().lookup(q)
    &&& same_but_blocks(b, a)
}

impl SecurityEngine {
    /// Blocks `ip` for `duration_ms` from `now`; loopback is never blocked. With more
    /// than 500 blocks held, the expired ones are dropped first.
    pub fn block_ip_temporarily(&mut self, ip: &str, duration_ms: u64, now: u64)
        requires
            old(self).wf(),
            now + duration_ms <= u64::MAX,
        ensures
            final(self).wf(),
            blocks_after(old(self).blocks(), final(self).blocks(), ip@, duration_ms, now),
            same_but_blocks(&*final(self), &*old(self)),
    {
        let c = chars_of(ip);
        if is_loopback(c.as_slice()) {
            return;
        }
        if self.blocked_ips.len() > 500 {
            let keep = |k: &Vec<char>, v: &u64| -> (b: bool)
                ensures
                    b == (now < *v),
            { now < *v };
            self.blocked_ips.retain_where(keep, Ghost(|k: Seq<char>, v: u64| now < v));
        }
        self.blocked_ips.insert(c, now + duration_ms);
    }

    /// Whether `ip` is blocked at `now`; an expired block is dropped.
    pub fn is_ip_temporarily_blocked(&mut self, ip: &str, now: u64) -> (r: bool)
        requires
            old(self).wf(),
        ensures
            final(self).wf(),
            r == (old(self).blocks().lookup(ip@) is Some && now < old(self).blocks().lookup(ip@)->0),
            old(self).blocks().lookup(ip@) is Some && !r ==> final(self).blocks().lookup(ip@) is None,
            forall|q: Seq<char>|
                (q != ip@ || r || old(self).blocks().lookup(ip@) is None) ==> #[trigger] final(self).blocks().lookup(q)
                    == old(self).blocks().lookup(q),
            same_but_blocks(&*final(self), &*old(self)),
            block_check_step(&*old(self), &*final(self), ip@, now, r),
    {
        let c = chars_of(ip);
        match self.blocked_ips.find(c.as_slice()) {
            Some(i) => {
                let exp = self.blocked_ips.entries[i].1;
                if now < exp {
                    true
                } else {
                    self.blocked_ips.remove(c.as_slice());
                    false
                }
            },
            None => false,
        }
    }

    /// Lifts the block of `ip`, if any.
    pub fn unblock_ip(&mut self, ip: &str)
        requires
            old(self).wf(),
        ensures
            final(self).wf(),
            final(self).blocks().lookup(ip@) is None,
            forall|q: Seq<char>| q != ip@ ==> #[trigger] final(self).blocks().lookup(q) == old(self).blocks().lookup(q),
            same_but_blocks(&*final(self), &*old(self)),
    {
        let c = chars_of(ip);
        self.blocked_ips.remove(c.as_slice());
    }
}

/// The effect of `enforce_hard_rate_limit(ip, now)` taking `a` to `b` with result `r`,
/// where `kept` tells whether the source's earlier times survived the clean-up.
pub open spec fn hard_limit_step(a: &SecurityEngine, b: &SecurityEngine, ip: Seq<char>, now: u64, kept: bool, r: bool) -> bool {
    let hl = hard_limit_for(ip, a.flood_limit());
    &&& b.wf()
    &&& r == (query_count(a.hard_history(), ip, now, kept) > hl)
    &&& history_after(a.hard_history(), b.hard_history(), ip, now, hl, kept)
    &&& b.hard_drops() == if r { a.hard_drops().wrapping_add(1) } else { a.hard_drops() }
    &&& if r && !cooling(a.hard_cooldown(), ip, now, 60000) {
        cooldown_after(a.hard_cooldown(), b.hard_cooldown(), ip, now, 60000, 1024) && blocks_after(
            a.blocks(),
            b.blocks(),
            ip,
            60000,
            now,
        )
    } else {
        b.hard_cooldown() == a.hard_cooldown() && b.blocks() == a.blocks()
    }
    &&& crate::security::same_switches(b, a)
    &&& crate::security::same_log(b, a)
    &&& b.query_history() == a.query_history()
    &&& b.probes() == a.probes()
    &&& b.scan_cooldown() == a.scan_cooldown()
    &&& b.flood_cooldown_table() == a.flood_cooldown_table()
    &&& b.gateway_seen() == a.gateway_seen()
    &&& b.quarantine_state() == a.quarantine_state()
}

impl SecurityEngine {
    /// The hard per-source query limit, applied whether or not detection is on: counts
    /// the source's queries over the last two seconds and reports `true` (drop the
    /// query) when they exceed its hard limit. An over-limit source adds to the drop
    /// count and, unless alerted about in the last minute, is blocked for a minute.
    pub fn enforce_hard_rate_limit(&mut self, source_ip: &str, now: u64) -> (r: bool)
        requires
            old(self).wf(),
            now + 60000 <= u64::MAX,
        ensures
            hard_limit_step(&*old(self), &*final(self), source_ip@, now, true, r) || hard_limit_step(
                &*old(self),
                &*final(self),
                source_ip@,
                now,
                false,
                r,
            ),
    {
        let ghost a = *self;
        let base = self.flood_limit;
        let c = chars_of(source_ip);
        let lb = is_loopback(c.as_slice());
        let hard_limit: usize = if lb {
            let p: u64 = (base as u64) * 10;
            let m: u64 = if p > 0xffff_ffff {
                0xffff_ffff
            } else {
                p
            };
            if m < 200 {
                200
            } else if m > 2000 {
                2000
            } else {
                m as usize
            }
        } else {
            let p: u64 = (base as u64) * 4;
            let m: u64 = if p > 0xffff_ffff {
                0xffff_ffff
            } else {
                p
            };
            if m < 200 {
                200
            } else {
                m as usize
            }
        };
        let (count, Ghost(kept)) = note_query(&mut self.hard_query_history, c.as_slice(), now, hard_limit);
        let exceeded = count > hard_limit;
        if exceeded {
            self.hard_drops = self.hard_drops.wrapping_add(1);
            let quiet = is_cooling(&self.hard_flood_cooldown, c.as_slice(), now, 60000);
            if !quiet {
                touch_cooldown(&mut self.hard_flood_cooldown, c.as_slice(), now, 60000, 1024);
                self.block_ip_temporarily(source_ip, 60000, now);
            }
        }
        proof {
            assert(hard_limit == hard_limit_for(source_ip@, a.flood_limit()));
        }
        exceeded
    }
}


/// The kind of finding a DNS query raised.
pub enum DnsFinding {
    /// The source exceeded the flood threshold with this many queries.
    Flood(nat),
    /// The label at this index carries an encoded payload.
    Tunnel(int),
    /// The name looks algorithmically generated.
    Dga,
    /// The name is under a darknet pseudo-TLD.
    Darknet,
}

/// Texts of a flood incident.
pub open spec fn flood_texts(lang: u8, ip: Seq<char>, count: nat, limit: nat, auto: bool) -> (Seq<char>, Seq<char>, Seq<char>, Seq<char>, Seq<char>) {
    let c = spec_decimal(count);
    let l = spec_decimal(limit);
    (
        spec_tr4_with(
            lang,
            "Tấn công từ chối dịch vụ (DNS Flood / DoS)"@,
            "Denial-of-Service attack (DNS Flood / DoS)"@,
            "拒绝服务攻击 (DNS Flood / DoS)"@,
            "DoS-атака (DNS Flood / DoS)"@,
        ),
        ip,
        if lang == EN {
            "Abnormal query rate: "@ + c + " req/2s (threshold "@ + l + "/s)"@
        } else if lang == ZH {
            "异常查询频率："@ + c + " 次/2秒（超过阈值 "@ + l + "/s）"@
        } else if lang == RU {
            "Аномальная частота запросов: "@ + c + " за 2 с (порог "@ + l + "/с)"@
        } else {
            "Tần suất truy vấn bất thường: "@ + c + " yêu cầu/2s (vượt ngưỡng "@ + l + "/s)"@
        },
        "CRITICAL"@,
        if auto {
            spec_tr4_with(
                lang,
                "Đã tự động khóa IP nguồn trong 5 phút (IPS Mitigation)"@,
                "Source IP auto-blocked for 5 minutes (IPS Mitigation)"@,
                "已自动封锁源 IP 5 分钟 (IPS 处置)"@,
                "IP-источник автоматически заблокирован на 5 минут (IPS)"@,
            )
        } else {
            spec_tr4_with(
                lang,
                "Cảnh báo bảo mật (Auto-block chưa kích hoạt)"@,
                "Security alert (Auto-block not enabled)"@,
                "安全告警 (未启用自动封锁)"@,
                "Оповещение безопасности (автоблокировка выключена)"@,
            )
        },
    )
}

/// Texts of a tunneling incident for the label `sub`, whose entropy reads `ent`.
pub open spec fn tunnel_texts(lang: u8, ip: Seq<char>, sub: Seq<char>, ent: Seq<char>, auto: bool) -> (Seq<char>, Seq<char>, Seq<char>, Seq<char>, Seq<char>) {
    let n = spec_decimal(utf8_len(sub));
    (
        spec_tr4_with(
            lang,
            "Phát hiện DNS Tunneling / Rò rỉ dữ liệu"@,
            "DNS Tunneling / Data Exfiltration detected"@,
            "检测到 DNS 隧道 / 数据泄露"@,
            "Обнаружен DNS-туннель / утечка данных"@,
        ),
        ip,
        if lang == EN {
            "Suspicious subdomain carries encoded payload: '"@ + sub + "' (Entropy: "@ + ent + ", Length: "@ + n + ")"@
        } else if lang == ZH {
            "可疑子域名包含编码负载：'"@ + sub + "'（熵："@ + ent + "，长度："@ + n + "）"@
        } else if lang == RU {
            "Подозрительный поддомен с закодированной нагрузкой: '"@ + sub + "' (энтропия "@ + ent + ", длина "@ + n + ")"@
        } else {
            "Subdomain nghi vấn chứa payload mã hóa: '"@ + sub + "' (Entropy: "@ + ent + ", Độ dài: "@ + n + ")"@
        },
        "HIGH"@,
        if auto {
            spec_tr4_with(
                lang,
                "Đã hủy gói tin & cô lập kết nối nguồn 3 phút"@,
                "Packets dropped & source isolated for 3 minutes"@,
                "已丢弃数据包并隔离源连接 3 分钟"@,
                "Пакеты отброшены; источник изолирован на 3 минуты"@,
            )
        } else {
            spec_tr4_with(
                lang,
                "Đã ghi nhận mối nguy rò rỉ dữ liệu"@,
                "Data-exfiltration risk logged"@,
                "已记录数据泄露风险"@,
                "Риск утечки данных зарегистрирован"@,
            )
        },
    )
}

/// Texts of a generated-domain incident.
pub open spec fn dga_texts(lang: u8, ip: Seq<char>, domain: Seq<char>, auto: bool) -> (Seq<char>, Seq<char>, Seq<char>, Seq<char>, Seq<char>) {
    (
        spec_tr4_with(
            lang,
            "Phát hiện tên miền Botnet DGA (Algorithmically Generated Domain)"@,
            "Botnet DGA Domain Detected"@,
            "检测到僵尸网络 DGA 域名"@,
            "Обнаружен DGA-домен ботнета"@,
        ),
        ip,
        spec_tr4_with(
            lang,
            "Tên miền có đặc tính sinh tự động từ Botnet DGA"@,
            "Domain matches Botnet DGA characteristics"@,
            "域名符合僵尸网络 DGA 特征"@,
            "Домен соответствует признакам DGA-ботнета"@,
        ) + ": '"@ + domain + "'"@,
        "HIGH"@,
        if auto {
            spec_tr4_with(
                lang,
                "Đã hủy gói tin & cô lập IP kết nối botnet"@,
                "Dropped query & isolated botnet communication"@,
                "已丢弃查询并隔离僵尸网络通信"@,
                "Запрос отброшен; связь с ботнетом изолирована"@,
            )
        } else {
            spec_tr4_with(
                lang,
                "Đã ghi nhận cảnh báo tên miền DGA"@,
                "DGA domain alert logged"@,
                "已记录 DGA 域名告警"@,
                "Тревога DGA-домена зарегистрирована"@,
            )
        },
    )
}

/// Texts of a darknet incident.
pub open spec fn darknet_texts(lang: u8, ip: Seq<char>, domain: Seq<char>) -> (Seq<char>, Seq<char>, Seq<char>, Seq<char>, Seq<char>) {
    (
        spec_tr4_with(
            lang,
            "Máy chủ điều khiển Botnet / C2 độc hại"@,
            "Botnet / Malicious C2 Server"@,
            "僵尸网络 / 恶意 C2 控制服务器"@,
            "Сервер управления ботнетом / вредоносный C2"@,
        ),
        ip,
        if lang == EN {
            "Query to botnet underground domain detected: "@ + domain
        } else if lang == ZH {
            "检测到访问僵尸网络隐蔽域名的查询："@ + domain
        } else if lang == RU {
            "Обнаружен запрос к подпольному домену ботнета: "@ + domain
        } else {
            "Phát hiện truy vấn domain thuộc mạng lưới ngầm botnet: "@ + domain
        },
        "HIGH"@,
        spec_tr4_with(
            lang,
            "Đã tự động cách ly tên miền độc hại (NXDOMAIN Drop)"@,
            "Malicious domain auto-isolated (NXDOMAIN Drop)"@,
            "已自动隔离恶意域名 (NXDOMAIN 丢弃)"@,
            "Вредоносный домен изолирован (NXDOMAIN Drop)"@,
        ),
    )
}

/// The first label, before the last two, that is at least 28 bytes long and whose
/// entropy reading is given, searching from index `i`.
pub open spec fn first_tunnel_from(parts: Seq<Seq<char>>, ent: Seq<Option<String>>, i: int) -> Option<int>
    decreases parts.len() - i,
{
    if i < 0 || i >= parts.len() - 2 {
        None
    } else if utf8_len(parts[i]) >= 28 && i < ent.len() && ent[i] is Some {
        Some(i)
    } else {
        first_tunnel_from(parts, ent, i + 1)
    }
}

proof fn lemma_first_tunnel(parts: Seq<Seq<char>>, ent: Seq<Option<String>>, i: int)
    requires
        0 <= i,
    ensures
        first_tunnel_from(parts, ent, i) matches Some(j) ==> i <= j < parts.len() - 2 && utf8_len(parts[j]) >= 28
            && j < ent.len() && ent[j] is Some,
    decreases parts.len() - i,
{
    if i < parts.len() - 2 && !(utf8_len(parts[i]) >= 28 && i < ent.len() && ent[i] is Some) {
        lemma_first_tunnel(parts, ent, i + 1);
    }
}

/// The tunneling label of `domain`, if any.
pub open spec fn tunnel_label(domain: Seq<char>, ent: Seq<Option<String>>) -> Option<int> {
    let parts = split_on(domain, '.');
    if parts.len() >= 3 {
        first_tunnel_from(parts, ent, 0)
    } else {
        None
    }
}

/// An incident with the given texts was logged in going from `a` to `b` and returned as
/// `r`; with `block` set, the source was blocked for that long, else blocks are kept.
pub open spec fn logged(
    a: &SecurityEngine,
    b: &SecurityEngine,
    r: Option<SecurityIncident>,
    texts: (Seq<char>, Seq<char>, Seq<char>, Seq<char>, Seq<char>),
    block: Option<u64>,
    ip: Seq<char>,
    now: u64,
) -> bool {
    &&& r is Some
    &&& incident_texts(r->0) == texts
    &&& r->0.id == a.next_incident_id()
    &&& b.incident_log() == log_after(a.incident_log(), r->0)
    &&& b.next_incident_id() == a.next_incident_id().wrapping_add(1)
    &&& match block {
        Some(d) => blocks_after(a.blocks(), b.blocks(), ip, d, now),
        None => b.blocks() == a.blocks(),
    }
}

/// The effect of `inspect_dns_query` taking `a` to `b` with result `r`, where `kept`
/// tells whether the source's earlier query times survived the history clean-up.
pub open spec fn dns_inspection_step(
    a: &SecurityEngine,
    b: &SecurityEngine,
    ip: Seq<char>,
    domain: Seq<char>,
    now: u64,
    lang: u8,
    ent: Seq<Option<String>>,
    dga_high: bool,
    kept: bool,
    r: Option<SecurityIncident>,
) -> bool {
    let auto = a.auto_block_on();
    let count = query_count(a.query_history(), ip, now, kept);
    let limit = a.flood_limit();
    &&& b.wf()
    &&& crate::security::same_switches(b, a)
    &&& b.hard_drops() == a.hard_drops()
    &&& b.hard_history() == a.hard_history()
    &&& b.probes() == a.probes()
    &&& b.scan_cooldown() == a.scan_cooldown()
    &&& b.hard_cooldown() == a.hard_cooldown()
    &&& b.gateway_seen() == a.gateway_seen()
    &&& b.quarantine_state() == a.quarantine_state()
    &&& if !a.detection_on() {
        r is None && b.query_history() == a.query_history() && b.flood_cooldown_table() == a.flood_cooldown_table()
            && b.blocks() == a.blocks() && crate::security::same_log(b, a)
    } else {
        &&& history_after(a.query_history(), b.query_history(), ip, now, limit as int, kept)
        &&& if count > limit {
            if !auto && cooling(a.flood_cooldown_table(), ip, now, 60000) {
                r is None && b.flood_cooldown_table() == a.flood_cooldown_table() && b.blocks() == a.blocks()
                    && crate::security::same_log(b, a)
            } else {
                &&& cooldown_after(a.flood_cooldown_table(), b.flood_cooldown_table(), ip, now, 60000, 1024)
                &&& logged(a, b, r, flood_texts(lang, ip, count as nat, limit as nat, auto), if auto { Some(300000u64) } else { None }, ip, now)
            }
        } else {
            &&& b.flood_cooldown_table() == a.flood_cooldown_table()
            &&& match tunnel_label(domain, ent) {
                Some(i) => logged(
                    a,
                    b,
                    r,
                    tunnel_texts(lang, ip, split_on(domain, '.')[i], ent[i]->0@, auto),
                    if auto { Some(180000u64) } else { None },
                    ip,
                    now,
                ),
                None => if is_dga_verdict(domain, dga_high) {
                    logged(a, b, r, dga_texts(lang, ip, domain, auto), if auto { Some(120000u64) } else { None }, ip, now)
                } else if spec_is_darknet(domain) {
                    logged(a, b, r, darknet_texts(lang, ip, domain), None, ip, now)
                } else {
                    r is None && b.blocks() == a.blocks() && crate::security::same_log(b, a)
                },
            }
        }
    }
}

/// The generated-domain verdict given the entropy reading of the second-level label.
pub open spec fn is_dga_verdict(domain: Seq<char>, dga_high: bool) -> bool {
    match dga_shape(domain) {
        DgaShape::Generated => true,
        DgaShape::EntropyDecides => dga_high,
        DgaShape::Ordinary => false,
    }
}

fn pick4(lang: u8, vi: &str, en: &str, zh: &str, ru: &str) -> (r: String)
    ensures
        r@ == if lang == EN {
            en@
        } else if lang == ZH {
            zh@
        } else if lang == RU {
            ru@
        } else {
            vi@
        },
{
    if lang == EN {
        String::from_str(en)
    } else if lang == ZH {
        String::from_str(zh)
    } else if lang == RU {
        String::from_str(ru)
    } else {
        String::from_str(vi)
    }
}

/// `a`, then `x`, then `b`, then `y`, then `c`.
fn join5(a: &str, x: &str, b: &str, y: &str, c: &str) -> (r: String)
    ensures
        r@ == a@ + x@ + b@ + y@ + c@,
{
    let mut s = String::from_str(a);
    s.append(x);
    s.append(b);
    s.append(y);
    s.append(c);
    s
}

/// The index of the first tunneling label of `parts` from `i`.
fn find_tunnel(parts: &Vec<Vec<char>>, ent: &[Option<String>], i: usize) -> (r: Option<usize>)
    requires
        parts@.len() >= 3,
        i <= parts@.len() - 2,
    ensures
        match r {
            Some(j) => first_tunnel_from(names_of(parts@), ent@, i as int) == Some(j as int),
            None => first_tunnel_from(names_of(parts@), ent@, i as int) is None,
        },
    decreases parts@.len() - i,
{
    if i >= parts.len() - 2 {
        return None;
    }
    let n = utf8_len_of(parts[i].as_slice());
    assert(names_of(parts@)[i as int] == parts@[i as int]@);
    if n >= 28 && i < ent.len() && ent[i].is_some() {
        Some(i)
    } else {
        find_tunnel(parts, ent, i + 1)
    }
}

impl SecurityEngine {
    fn log_with_block(
        &mut self,
        texts: (String, String, String, &str, String),
        ip: &str,
        block: Option<u64>,
        now: u64,
    ) -> (r: Option<SecurityIncident>)
        requires
            old(self).wf(),
            block matches Some(d) ==> now + d <= u64::MAX,
        ensures
            final(self).wf(),
            logged(&*old(self), &*final(self), r, (texts.0@, texts.1@, texts.2@, texts.3@, texts.4@), block, ip@, now),
            crate::security::same_switches(&*final(self), &*old(self)),
            final(self).hard_drops() == old(self).hard_drops(),
            final(self).hard_history() == old(self).hard_history(),
            final(self).query_history() == old(self).query_history(),
            final(self).probes() == old(self).probes(),
            crate::security::same_cooldowns(&*final(self), &*old(self)),
            final(self).gateway_seen() == old(self).gateway_seen(),
            final(self).quarantine_state() == old(self).quarantine_state(),
    {
        match block {
            Some(d) => {
                self.block_ip_temporarily(ip, d, now);
            },
            None => {},
        }
        let inc = self.record_incident(
            texts.0.as_str(),
            texts.1.as_str(),
            texts.2.as_str(),
            texts.3,
            texts.4.as_str(),
        );
        Some(inc)
    }

    /// Inspects a DNS query from `source_ip` for `domain` at `now` when detection is
    /// on: a source over the flood threshold within two seconds raises a flood incident
    /// (repeated alerts within a minute are silenced when auto-block is off); otherwise
    /// a long label before the last two with a high entropy (`label_entropy[i]` holds
    /// the two-decimal reading of label `i` when it reaches 3.85 bits) raises a
    /// tunneling incident, a generated-looking name (`sld_entropy_high`: the entropy of
    /// the second-level label reaches 3.55 bits) a DGA incident, and a darknet
    /// pseudo-TLD a C2 incident. With auto-block on, the source is blocked for 5, 3 or 2
    /// minutes on the first three.
    pub fn inspect_dns_query(
        &mut self,
        source_ip: &str,
        domain: &str,
        now: u64,
        lang: u8,
        label_entropy: &[Option<String>],
        sld_entropy_high: bool,
    ) -> (r: Option<SecurityIncident>)
        requires
            old(self).wf(),
            now + 300000 <= u64::MAX,
        ensures
            dns_inspection_step(&*old(self), &*final(self), source_ip@, domain@, now, lang, label_entropy@, sld_entropy_high, true, r)
                || dns_inspection_step(
                &*old(self),
                &*final(self),
                source_ip@,
                domain@,
                now,
                lang,
                label_entropy@,
                sld_entropy_high,
                false,
                r,
            ),
    {
        if !self.detection {
            return None;
        }
        let ghost a = *self;
        let auto = self.auto_block;
        let limit = self.flood_limit;
        let c = chars_of(source_ip);
        let (count, Ghost(kept)) = note_query(&mut self.ip_query_history, c.as_slice(), now, limit as usize);
        if count > limit as usize {
            if !auto {
                if is_cooling(&self.flood_cooldown, c.as_slice(), now, 60000) {
                    return None;
                }
            }
            touch_cooldown(&mut self.flood_cooldown, c.as_slice(), now, 60000, 1024);
            let cs = decimal(count as u128);
            let ls = decimal(limit as u128);
            let details = if lang == EN {
                join5("Abnormal query rate: ", cs.as_str(), " req/2s (threshold ", ls.as_str(), "/s)")
            } else if lang == ZH {
                join5("异常查询频率：", cs.as_str(), " 次/2秒（超过阈值 ", ls.as_str(), "/s）")
            } else if lang == RU {
                join5("Аномальная частота запросов: ", cs.as_str(), " за 2 с (порог ", ls.as_str(), "/с)")
            } else {
                join5("Tần suất truy vấn bất thường: ", cs.as_str(), " yêu cầu/2s (vượt ngưỡng ", ls.as_str(), "/s)")
            };
            let kind = pick4(
                lang,
                "Tấn công từ chối dịch vụ (DNS Flood / DoS)",
                "Denial-of-Service attack (DNS Flood / DoS)",
                "拒绝服务攻击 (DNS Flood / DoS)",
                "DoS-атака (DNS Flood / DoS)",
            );
            let mitigation = if auto {
                pick4(
                    lang,
                    "Đã tự động khóa IP nguồn trong 5 phút (IPS Mitigation)",
                    "Source IP auto-blocked for 5 minutes (IPS Mitigation)",
                    "已自动封锁源 IP 5 分钟 (IPS 处置)",
                    "IP-источник автоматически заблокирован на 5 минут (IPS)",
                )
            } else {
                pick4(
                    lang,
                    "Cảnh báo bảo mật (Auto-block chưa kích hoạt)",
                    "Security alert (Auto-block not enabled)",
                    "安全告警 (未启用自动封锁)",
                    "Оповещение безопасности (автоблокировка выключена)",
                )
            };
            let block = if auto {
                Some(300000u64)
            } else {
                None
            };
            return self.log_with_block((kind, String::from_str(source_ip), details, "CRITICAL", mitigation), source_ip, block, now);
        }
        let dc = chars_of(domain);
        let parts = split_vec(dc.as_slice(), '.');
        let tunnel = if parts.len() >= 3 {
            find_tunnel(&parts, label_entropy, 0)
        } else {
            None
        };
        match tunnel {
            Some(i) => {
                proof {
                    lemma_first_tunnel(names_of(parts@), label_entropy@, 0);
                }
                let sub = string_from_chars(parts[i].as_slice());
                assert(sub@ == split_on(domain@, '.')[i as int]);
                let ent = match &label_entropy[i] {
                    Some(e) => e.clone(),
                    None => String::new(),
                };
                let n = decimal(utf8_len_of(parts[i].as_slice()));
                let details = if lang == EN {
                    let mut d = join5("Suspicious subdomain carries encoded payload: '", sub.as_str(), "' (Entropy: ", ent.as_str(), ", Length: ");
                    d.append(n.as_str());
                    d.append(")");
                    d
                } else if lang == ZH {
                    let mut d = join5("可疑子域名包含编码负载：'", sub.as_str(), "'（熵：", ent.as_str(), "，长度：");
                    d.append(n.as_str());
                    d.append("）");
                    d
                } else if lang == RU {
                    let mut d = join5("Подозрительный поддомен с закодированной нагрузкой: '", sub.as_str(), "' (энтропия ", ent.as_str(), ", длина ");
                    d.append(n.as_str());
                    d.append(")");
                    d
                } else {
                    let mut d = join5("Subdomain nghi vấn chứa payload mã hóa: '", sub.as_str(), "' (Entropy: ", ent.as_str(), ", Độ dài: ");
                    d.append(n.as_str());
                    d.append(")");
                    d
                };
                let kind = pick4(
                    lang,
                    "Phát hiện DNS Tunneling / Rò rỉ dữ liệu",
                    "DNS Tunneling / Data Exfiltration detected",
                    "检测到 DNS 隧道 / 数据泄露",
                    "Обнаружен DNS-туннель / утечка данных",
                );
                let mitigation = if auto {
                    pick4(
                        lang,
                        "Đã hủy gói tin & cô lập kết nối nguồn 3 phút",
                        "Packets dropped & source isolated for 3 minutes",
                        "已丢弃数据包并隔离源连接 3 分钟",
                        "Пакеты отброшены; источник изолирован на 3 минуты",
                    )
                } else {
                    pick4(
                        lang,
                        "Đã ghi nhận mối nguy rò rỉ dữ liệu",
                        "Data-exfiltration risk logged",
                        "已记录数据泄露风险",
                        "Риск утечки данных зарегистрирован",
                    )
                };
                let block = if auto {
                    Some(180000u64)
                } else {
                    None
                };
                return self.log_with_block((kind, String::from_str(source_ip), details, "HIGH", mitigation), source_ip, block, now);
            },
            None => {},
        }
        if is_dga_domain(domain, sld_entropy_high) {
            let mut details = pick4(
                lang,
                "Tên miền có đặc tính sinh tự động từ Botnet DGA",
                "Domain matches Botnet DGA characteristics",
                "域名符合僵尸网络 DGA 特征",
                "Домен соответствует признакам DGA-ботнета",
            );
            details.append(": '");
            details.append(domain);
            details.append("'");
            let kind = pick4(
                lang,
                "Phát hiện tên miền Botnet DGA (Algorithmically Generated Domain)",
                "Botnet DGA Domain Detected",
                "检测到僵尸网络 DGA 域名",
                "Обнаружен DGA-домен ботнета",
            );
            let mitigation = if auto {
                pick4(
                    lang,
                    "Đã hủy gói tin & cô lập IP kết nối botnet",
                    "Dropped query & isolated botnet communication",
                    "已丢弃查询并隔离僵尸网络通信",
                    "Запрос отброшен; связь с ботнетом изолирована",
                )
            } else {
                pick4(
                    lang,
                    "Đã ghi nhận cảnh báo tên miền DGA",
                    "DGA domain alert logged",
                    "已记录 DGA 域名告警",
                    "Тревога DGA-домена зарегистрирована",
                )
            };
            let block = if auto {
                Some(120000u64)
            } else {
                None
            };
            return self.log_with_block((kind, String::from_str(source_ip), details, "HIGH", mitigation), source_ip, block, now);
        }
        if is_darknet_pseudo_tld(domain) {
            let mut details = pick4(
                lang,
                "Phát hiện truy vấn domain thuộc mạng lưới ngầm botnet: ",
                "Query to botnet underground domain detected: ",
                "检测到访问僵尸网络隐蔽域名的查询：",
                "Обнаружен запрос к подпольному домену ботнета: ",
            );
            details.append(domain);
            let kind = pick4(
                lang,
                "Máy chủ điều khiển Botnet / C2 độc hại",
                "Botnet / Malicious C2 Server",
                "僵尸网络 / 恶意 C2 控制服务器",
                "Сервер управления ботнетом / вредоносный C2",
            );
            let mitigation = pick4(
                lang,
                "Đã tự động cách ly tên miền độc hại (NXDOMAIN Drop)",
                "Malicious domain auto-isolated (NXDOMAIN Drop)",
                "已自动隔离恶意域名 (NXDOMAIN 丢弃)",
                "Вредоносный домен изолирован (NXDOMAIN Drop)",
            );
            return self.log_with_block((kind, String::from_str(source_ip), details, "HIGH", mitigation), source_ip, None, now);
        }
        None
    }
}


/// The probes of `v` within `window` milliseconds before `now`, in order.
pub open spec fn recent_probes(v: Seq<(u16, u64)>, now: u64, window: u64) -> Seq<(u16, u64)>
    decreases v.len(),
{
    if v.len() == 0 {
        v
    } else if elapsed_ms(now, v.last().1) < window {
        recent_probes(v.drop_last(), now, window).push(v.last())
    } else {
        recent_probes(v.drop_last(), now, window)
    }
}

/// Some probe of `v` lies within `window` milliseconds before `now`.
pub open spec fn any_recent_probe(v: Seq<(u16, u64)>, now: u64, window: u64) -> bool {
    exists|i: int| 0 <= i < v.len() && elapsed_ms(now, (#[trigger] v[i]).1) < window
}

/// The probes held for `ip`, or none.
pub open spec fn probes_of(t: KeyTable<Vec<(u16, u64)>>, ip: Seq<char>) -> Seq<(u16, u64)> {
    match t.lookup(ip) {
        Some(v) => v@,
        None => Seq::empty(),
    }
}

/// Some probe of `v` hit `port`.
pub open spec fn has_port(v: Seq<(u16, u64)>, port: u16) -> bool {
    exists|i: int| 0 <= i < v.len() && (#[trigger] v[i]).0 == port
}

/// The probes of `ip` in the last minute after a probe of `port` at `now`: a port
/// already probed in that minute is not added again.
pub open spec fn probe_list_after(a: KeyTable<Vec<(u16, u64)>>, ip: Seq<char>, port: u16, now: u64) -> Seq<(u16, u64)> {
    let p = recent_probes(probes_of(a, ip), now, 60000);
    if has_port(p, port) {
        p
    } else {
        p.push((port, now))
    }
}

/// The probe table after a probe from `ip`: when it held more than 512 sources, those
/// without a probe in the last minute went.
pub open spec fn probe_table_after(a: KeyTable<Vec<(u16, u64)>>, b: KeyTable<Vec<(u16, u64)>>, ip: Seq<char>, port: u16, now: u64) -> bool {
    &&& b.wf()
    &&& b.lookup(ip) is Some
    &&& b.lookup(ip)->0@ == probe_list_after(a, ip, port, now)
    &&& forall|q: Seq<char>|
        q != ip ==> #[trigger] b.lookup(q) == if a.size() > 512 {
            match a.lookup(q) {
                Some(v) => if any_recent_probe(v@, now, 60000) {
                    Some(v)
                } else {
                    None
                },
                None => None,
            }
        } else {
            a.lookup(q)
        }
}

/// The scan-alert cooldown after an alert for `ip`: when it held more than 500 entries,
/// those older than ten minutes went and then, if still too many, the 128 oldest.
pub open spec fn scan_cooldown_after(a: KeyTable<u64>, b: KeyTable<u64>, ip: Seq<char>, now: u64) -> bool {
    &&& b.wf()
    &&& b.lookup(ip) == Some(now)
    &&& forall|q: Seq<char>| q != ip && #[trigger] b.lookup(q) is Some ==> b.lookup(q) == a.lookup(q)
    &&& a.size() <= 500 ==> forall|q: Seq<char>| q != ip ==> #[trigger] b.lookup(q) == a.lookup(q)
    &&& a.size() > 500 ==> forall|q: Seq<char>|
        q != ip && #[trigger] b.lookup(q) is Some ==> elapsed_ms(now, b.lookup(q)->0) < 600000
}

/// Texts of a port-scan incident.
pub open spec fn port_scan_texts(lang: u8, ip: Seq<char>, n: nat, port: u16, auto: bool) -> (Seq<char>, Seq<char>, Seq<char>, Seq<char>, Seq<char>) {
    let d = spec_decimal(n);
    let p = spec_decimal(port as nat);
    (
        spec_tr4_with(
            lang,
            "Phát hiện quét cổng hàng loạt (Inbound Port Scan)"@,
            "Mass port scanning detected (Inbound Port Scan)"@,
            "检测到批量端口扫描 (Inbound Port Scan)"@,
            "Обнаружено массовое сканирование портов"@,
        ),
        ip,
        if lang == EN {
            d + " distinct local ports probed from this host within 60s (latest: port "@ + p + ")"@
        } else if lang == ZH {
            "该主机在 60 秒内被探测了 "@ + d + " 个不同的本机端口（最近：端口 "@ + p + "）"@
        } else if lang == RU {
            "С этого хоста за 60 с просканировано "@ + d + " различных локальных портов (последний: "@ + p + ")"@
        } else {
            "Phát hiện "@ + d + " cổng cục bộ khác nhau bị dò từ máy này trong 60s (mới nhất: cổng "@ + p + ")"@
        },
        "HIGH"@,
        if auto {
            spec_tr4_with(
                lang,
                "Đã tự động cô lập IP quét cổng trong 10 phút (IPS Mitigation)"@,
                "Port-scanning IP auto-isolated for 10 minutes (IPS Mitigation)"@,
                "已自动隔离端口扫描 IP 10 分钟 (IPS 处置)"@,
                "IP сканера портов изолирован на 10 минут (IPS)"@,
            )
        } else {
            spec_tr4_with(
                lang,
                "Cảnh báo quét cổng (Auto-block chưa kích hoạt)"@,
                "Port-scan alert (Auto-block not enabled)"@,
                "端口扫描告警 (未启用自动封锁)"@,
                "Тревога сканирования портов (автоблокировка выключена)"@,
            )
        },
    )
}

/// The effect of `record_inbound_port_probe(ip, port, now, lang)` taking `a` to `b`.
pub open spec fn port_probe_step(a: &SecurityEngine, b: &SecurityEngine, ip: Seq<char>, port: u16, now: u64, lang: u8, r: Option<SecurityIncident>) -> bool {
    if !a.detection_on() || ip.len() == 0 || ip == "127.0.0.1"@ || ip == "::1"@ || ip == "0.0.0.0"@ {
        r is None && *b == *a
    } else {
        let n = probe_list_after(a.probes(), ip, port, now).len();
        &&& b.wf()
        &&& probe_table_after(a.probes(), b.probes(), ip, port, now)
        &&& crate::security::same_switches(b, a)
        &&& b.hard_drops() == a.hard_drops()
        &&& b.hard_history() == a.hard_history()
        &&& b.query_history() == a.query_history()
        &&& b.hard_cooldown() == a.hard_cooldown()
        &&& b.flood_cooldown_table() == a.flood_cooldown_table()
        &&& b.gateway_seen() == a.gateway_seen()
        &&& b.quarantine_state() == a.quarantine_state()
        &&& if n < 10 || cooling(a.scan_cooldown(), ip, now, 600000) {
            r is None && b.scan_cooldown() == a.scan_cooldown() && b.blocks() == a.blocks() && crate::security::same_log(b, a)
        } else {
            &&& scan_cooldown_after(a.scan_cooldown(), b.scan_cooldown(), ip, now)
            &&& logged(a, b, r, port_scan_texts(lang, ip, n, port, a.auto_block_on()), if a.auto_block_on() { Some(600000u64) } else { None }, ip, now)
        }
    }
}

fn has_recent_probe(v: &Vec<(u16, u64)>, now: u64, window: u64) -> (r: bool)
    ensures
        r == any_recent_probe(v@, now, window),
{
    let mut i: usize = 0;
    while i < v.len()
        invariant
            i <= v@.len(),
            forall|j: int| 0 <= j < i ==> !(elapsed_ms(now, (#[trigger] v@[j]).1) < window),
        decreases v@.len() - i,
    {
        let t = v[i].1;
        let el: u64 = if now >= t {
            now - t
        } else {
            0
        };
        if el < window {
            return true;
        }
        i += 1;
    }
    false
}

fn recent_probe_list(v: &Vec<(u16, u64)>, now: u64, window: u64) -> (r: Vec<(u16, u64)>)
    ensures
        r@ == recent_probes(v@, now, window),
{
    let mut out: Vec<(u16, u64)> = Vec::new();
    let mut i: usize = 0;
    while i < v.len()
        invariant
            i <= v@.len(),
            out@ == recent_probes(v@.subrange(0, i as int), now, window),
        decreases v@.len() - i,
    {
        proof {
            assert(v@.subrange(0, i + 1).drop_last() =~= v@.subrange(0, i as int));
        }
        let e = v[i];
        let el: u64 = if now >= e.1 {
            now - e.1
        } else {
            0
        };
        if el < window {
            out.push(e);
        }
        i += 1;
    }
    assert(v@.subrange(0, v@.len() as int) =~= v@);
    out
}

fn contains_port(v: &Vec<(u16, u64)>, port: u16) -> (r: bool)
    ensures
        r == has_port(v@, port),
{
    let mut i: usize = 0;
    while i < v.len()
        invariant
            i <= v@.len(),
            forall|j: int| 0 <= j < i ==> (#[trigger] v@[j]).0 != port,
        decreases v@.len() - i,
    {
        if v[i].0 == port {
            return true;
        }
        i += 1;
    }
    false
}

/// Records a probe of `port` from `ip` at `now` and returns the distinct ports the
/// source probed in the last minute.
fn note_probe(t: &mut KeyTable<Vec<(u16, u64)>>, ip: &[char], port: u16, now: u64) -> (n: usize)
    requires
        old(t).wf(),
    ensures
        probe_table_after(*old(t), *final(t), ip@, port, now),
        n == probe_list_after(*old(t), ip@, port, now).len(),
{
    let ghost a = *t;
    if t.len() > 512 {
        let keep = |k: &Vec<char>, v: &Vec<(u16, u64)>| -> (b: bool)
            ensures
                b == any_recent_probe(v@, now, 60000),
        { has_recent_probe(v, now, 60000) };
        t.retain_where(keep, Ghost(|k: Seq<char>, v: Vec<(u16, u64)>| any_recent_probe(v@, now, 60000)));
    }
    let ghost c = *t;
    let mut list: Vec<(u16, u64)> = match t.find(ip) {
        Some(i) => recent_probe_list(&t.entries[i].1, now, 60000),
        None => Vec::new(),
    };
    proof {
        if c.lookup(ip@) is Some {
            assert(c.lookup(ip@) == a.lookup(ip@));
        } else if a.lookup(ip@) is Some {
            let v = a.lookup(ip@)->0;
            assert(!any_recent_probe(v@, now, 60000));
            lemma_no_recent_probes(v@, now, 60000);
        } else {
            assert(probes_of(a, ip@) =~= Seq::<(u16, u64)>::empty());
        }
        assert(list@ == recent_probes(probes_of(a, ip@), now, 60000));
    }
    if !contains_port(&list, port) {
        list.push((port, now));
    }
    let n = list.len();
    t.insert(copy_chars(ip), list);
    n
}

proof fn lemma_no_recent_probes(v: Seq<(u16, u64)>, now: u64, window: u64)
    requires
        !any_recent_probe(v, now, window),
    ensures
        recent_probes(v, now, window) =~= Seq::<(u16, u64)>::empty(),
    decreases v.len(),
{
    if v.len() > 0 {
        assert(!(elapsed_ms(now, v[v.len() - 1].1) < window));
        assert forall|i: int| 0 <= i < v.drop_last().len() implies !(elapsed_ms(now, (#[trigger] v.drop_last()[i]).1) < window) by {
            assert(v.drop_last()[i] == v[i]);
        }
        lemma_no_recent_probes(v.drop_last(), now, window);
    }
}

/// Notes a scan alert for `ip` at `now`.
fn touch_scan_cooldown(t: &mut KeyTable<u64>, ip: &[char], now: u64)
    requires
        old(t).wf(),
    ensures
        scan_cooldown_after(*old(t), *final(t), ip@, now),
{
    let ghost a = *t;
    if t.len() > 500 {
        let keep = |k: &Vec<char>, v: &u64| -> (b: bool)
            ensures
                b == (elapsed_ms(now, *v) < 600000),
        {
            let el: u64 = if now >= *v {
                now - *v
            } else {
                0
            };
            el < 600000
        };
        t.retain_where(keep, Ghost(|k: Seq<char>, v: u64| elapsed_ms(now, v) < 600000));
        if t.len() > 500 {
            let rank = |v: &u64| -> (x: i128)
                ensures
                    x == *v as int,
            { *v as i128 };
            t.evict_lowest(128, rank, Ghost(|v: u64| v as int));
        }
    }
    t.insert(copy_chars(ip), now);
}

impl SecurityEngine {
    /// Records an inbound connection attempt from `remote_ip` to `local_port` at `now`
    /// while detection is on (loopback and unspecified sources excepted). A source that
    /// probed ten or more distinct local ports within a minute raises a port-scan
    /// incident, at most once per ten minutes; with auto-block on it is blocked for ten
    /// minutes.
    pub fn record_inbound_port_probe(&mut self, remote_ip: &str, local_port: u16, now: u64, lang: u8) -> (r: Option<
        SecurityIncident,
    >)
        requires
            old(self).wf(),
            now + 600000 <= u64::MAX,
        ensures
            port_probe_step(&*old(self), &*final(self), remote_ip@, local_port, now, lang, r),
    {
        let c = chars_of(remote_ip);
        if !self.detection || c.len() == 0 {
            return None;
        }
        if eq_str(c.as_slice(), "127.0.0.1") || eq_str(c.as_slice(), "::1") || eq_str(c.as_slice(), "0.0.0.0") {
            return None;
        }
        let n = note_probe(&mut self.port_probes, c.as_slice(), local_port, now);
        if n < 10 {
            return None;
        }
        if is_cooling(&self.port_scan_cooldown, c.as_slice(), now, 600000) {
            return None;
        }
        touch_scan_cooldown(&mut self.port_scan_cooldown, c.as_slice(), now);
        let auto = self.auto_block;
        let d = decimal(n as u128);
        let p = decimal(local_port as u128);
        let details = if lang == EN {
            join5("", d.as_str(), " distinct local ports probed from this host within 60s (latest: port ", p.as_str(), ")")
        } else if lang == ZH {
            join5("该主机在 60 秒内被探测了 ", d.as_str(), " 个不同的本机端口（最近：端口 ", p.as_str(), "）")
        } else if lang == RU {
            join5("С этого хоста за 60 с просканировано ", d.as_str(), " различных локальных портов (последний: ", p.as_str(), ")")
        } else {
            join5("Phát hiện ", d.as_str(), " cổng cục bộ khác nhau bị dò từ máy này trong 60s (mới nhất: cổng ", p.as_str(), ")")
        };
        proof {
            reveal_strlit("");
        }
        let kind = pick4(
            lang,
            "Phát hiện quét cổng hàng loạt (Inbound Port Scan)",
            "Mass port scanning detected (Inbound Port Scan)",
            "检测到批量端口扫描 (Inbound Port Scan)",
            "Обнаружено массовое сканирование портов",
        );
        let mitigation = if auto {
            pick4(
                lang,
                "Đã tự động cô lập IP quét cổng trong 10 phút (IPS Mitigation)",
                "Port-scanning IP auto-isolated for 10 minutes (IPS Mitigation)",
                "已自动隔离端口扫描 IP 10 分钟 (IPS 处置)",
                "IP сканера портов изолирован на 10 минут (IPS)",
            )
        } else {
            pick4(
                lang,
                "Cảnh báo quét cổng (Auto-block chưa kích hoạt)",
                "Port-scan alert (Auto-block not enabled)",
                "端口扫描告警 (未启用自动封锁)",
                "Тревога сканирования портов (автоблокировка выключена)",
            )
        };
        let block = if auto {
            Some(600000u64)
        } else {
            None
        };
        self.log_with_block((kind, String::from_str(remote_ip), details, "HIGH", mitigation), remote_ip, block, now)
    }
}


/// Whether the block table holds a block of `ip` still running at `t`.
pub open spec fn blocked_at(t: KeyTable<u64>, ip: Seq<char>, at: u64) -> bool {
    t.lookup(ip) is Some && at < t.lookup(ip)->0
}

/// Loopback is never blocked: blocking a loopback address leaves the block table as
/// it was.
pub proof fn lemma_loopback_never_blocked(a: KeyTable<u64>, b: KeyTable<u64>, ip: Seq<char>, dur: u64, now: u64)
    requires
        blocks_after(a, b, ip, dur, now),
        is_loopback_text(ip),
    ensures
        b == a,
{
}

/// A block lasts exactly its duration: after blocking `ip` for `dur` at `now`, the
/// address counts as blocked at any later time `t` exactly while `t < now + dur`.
pub proof fn lemma_block_lasts_its_duration(a: KeyTable<u64>, b: KeyTable<u64>, ip: Seq<char>, dur: u64, now: u64, t: u64)
    requires
        blocks_after(a, b, ip, dur, now),
        !is_loopback_text(ip),
        now + dur <= u64::MAX,
    ensures
        blocked_at(b, ip, t) == (t < now + dur),
{
}

/// The hard limit is never below 200 queries per two seconds, so a source that sent
/// at most 200 in that span is never dropped.
pub proof fn lemma_hard_limit_floor(a: &SecurityEngine, b: &SecurityEngine, ip: Seq<char>, now: u64, kept: bool, r: bool)
    requires
        hard_limit_step(a, b, ip, now, kept, r),
        query_count(a.hard_history(), ip, now, kept) <= 200,
    ensures
        !r,
        hard_limit_for(ip, a.flood_limit()) >= 200,
        b.hard_drops() == a.hard_drops(),
{
}

/// A history table never grows past 1001 sources unless it already held more.
pub proof fn lemma_history_bounded(a: KeyTable<Vec<u64>>, b: KeyTable<Vec<u64>>, ip: Seq<char>, now: u64, limit: int, kept: bool)
    requires
        history_after(a, b, ip, now, limit, kept),
    ensures
        b.size() <= if a.size() > 1001 { a.size() } else { 1001 },
        a.size() <= 1001 ==> b.size() <= 1001,
{
}

/// The effect of the hard limit, whichever way the clean-up went for the source.
pub open spec fn hard_limit_effect(a: &SecurityEngine, b: &SecurityEngine, ip: Seq<char>, now: u64, r: bool) -> bool {
    hard_limit_step(a, b, ip, now, true, r) || hard_limit_step(a, b, ip, now, false, r)
}

/// The effect of the query inspection, whichever way the clean-up went for the source.
pub open spec fn inspection_effect(
    a: &SecurityEngine,
    b: &SecurityEngine,
    ip: Seq<char>,
    domain: Seq<char>,
    now: u64,
    lang: u8,
    ent: Seq<Option<String>>,
    dga_high: bool,
    r: Option<SecurityIncident>,
) -> bool {
    dns_inspection_step(a, b, ip, domain, now, lang, ent, dga_high, true, r) || dns_inspection_step(
        a,
        b,
        ip,
        domain,
        now,
        lang,
        ent,
        dga_high,
        false,
        r,
    )
}

/// What becomes of a DNS query once its source has been checked.
pub enum QueryAdmission {
    /// Dropped without an answer: over the hard limit, or temporarily blocked.
    Drop,
    /// Refused with NXDOMAIN: the inspection raised an incident while auto-block is on,
    /// or the name lies under a darknet pseudo-TLD (refused whatever the switches say);
    /// with the incident the inspection raised, if any.
    Refuse(Option<SecurityIncident>),
    /// Answered as usual, with the incident the inspection raised, if any.
    Proceed(Option<SecurityIncident>),
}

/// The checks of a query from `ip` for `domain` at `now`, taking `a` to `b` with
/// outcome `r`, in order: the hard limit (over it: drop), the temporary block (blocked:
/// drop), then the inspection, whose incident refuses the query under auto-block; a
/// name under `.onion`, `.bit` or `.bazar` is refused in any case.
pub open spec fn admission_step(
    a: &SecurityEngine,
    b: &SecurityEngine,
    ip: Seq<char>,
    domain: Seq<char>,
    now: u64,
    lang: u8,
    ent: Seq<Option<String>>,
    dga_high: bool,
    r: QueryAdmission,
) -> bool {
    exists|m: SecurityEngine, hard: bool|
        #[trigger] hard_limit_effect(a, &m, ip, now, hard) && if hard {
            r is Drop && *b == m
        } else {
            exists|m2: SecurityEngine, blocked: bool|
                #[trigger] block_check_step(&m, &m2, ip, now, blocked) && if blocked {
                    r is Drop && *b == m2
                } else {
                    exists|inc: Option<SecurityIncident>|
                        #[trigger] inspection_effect(&m2, b, ip, domain, now, lang, ent, dga_high, inc) && r == if (inc is Some
                            && m2.auto_block_on()) || spec_is_darknet(domain) {
                            QueryAdmission::Refuse(inc)
                        } else {
                            QueryAdmission::Proceed(inc)
                        }
                }
        }
}

impl SecurityEngine {
    /// Checks a DNS query from `src_ip` for `name` at `now` before it is answered: the
    /// hard per-source limit, then the temporary block, then the inspection (given the
    /// entropy readings of its labels and of its second-level label). A darknet
    /// pseudo-TLD is always refused with NXDOMAIN, even with auto-block off.
    pub fn admit_query(
        &mut self,
        src_ip: &str,
        name: &str,
        now: u64,
        lang: u8,
        labels: &[Option<String>],
        sld_high: bool,
    ) -> (r: QueryAdmission)
        requires
            old(self).wf(),
            now + 300000 <= u64::MAX,
        ensures
            final(self).wf(),
            admission_step(&*old(self), &*final(self), src_ip@, name@, now, lang, labels@, sld_high, r),
    {
        let ghost a = *self;
        let hard = self.enforce_hard_rate_limit(src_ip, now);
        let ghost m = *self;
        assert(hard_limit_effect(&a, &m, src_ip@, now, hard));
        if hard {
            return QueryAdmission::Drop;
        }
        let blocked = self.is_ip_temporarily_blocked(src_ip, now);
        let ghost m2 = *self;
        assert(block_check_step(&m, &m2, src_ip@, now, blocked));
        if blocked {
            return QueryAdmission::Drop;
        }
        let auto = self.is_auto_block_enabled();
        let inc = self.inspect_dns_query(src_ip, name, now, lang, labels, sld_high);
        assert(inspection_effect(&m2, &*self, src_ip@, name@, now, lang, labels@, sld_high, inc));
        if (inc.is_some() && auto) || is_darknet_pseudo_tld(name) {
            QueryAdmission::Refuse(inc)
        } else {
            QueryAdmission::Proceed(inc)
        }
    }
}

} // verus!
