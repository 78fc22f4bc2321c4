//! The MAC-bound DNS quarantine and the passive ARP inventory it binds against.
use vstd::prelude::*;
use crate::dns::cache::elapsed_ms;
use crate::dns::sets::DomainSet;
use crate::security::address::{
    ipv4_text, ipv4_to_text, is_reserved_ipv4, is_reserved_v4, normalize_ip, normalize_mac,
    parse_ipv4, spec_ipv4, spec_normalize_ip, spec_normalize_mac,
};
use crate::security::table::{key_at, KeyTable};
use crate::security::{log_after, same_detection_state, QuarantineRejection, SecurityEngine, SecurityIncident, incident_texts};
use crate::text::{chars_of, slice_vec, string_from_chars, trim, trim_vec};

verus! {

/// At most this many addresses are quarantined at once.
pub const MAX_QUARANTINE_ENTRIES: usize = 256;

/// How long an inventory stays usable, in milliseconds.
pub const QUARANTINE_INVENTORY_TTL_MS: u64 = 300000;

/// The quarantine: addresses bound to the MAC seen for them when quarantined, and the
/// inventory it draws on (observed address to MAC, this machine's addresses, the
/// gateways, and when it was taken).
pub struct QuarantineInventory {
    entries: KeyTable<Vec<char>>,
    inventory: KeyTable<Vec<char>>,
    self_ips: DomainSet,
    gateways: DomainSet,
    observed_at: Option<u64>,
}

/// The text of an optional character vector.
pub open spec fn opt_text(o: Option<Vec<char>>) -> Option<Seq<char>> {
    match o {
        Some(v) => Some(v@),
        None => None,
    }
}

impl QuarantineInventory {
    /// The MAC that a quarantined address is bound to.
    pub closed spec fn bound(&self, ip: Seq<char>) -> Option<Seq<char>> {
        opt_text(self.entries.lookup(ip))
    }

    /// Number of quarantined addresses.
    pub closed spec fn bound_count(&self) -> nat {
        self.entries.size()
    }

    /// The MAC observed for an address.
    pub closed spec fn observed(&self, ip: Seq<char>) -> Option<Seq<char>> {
        opt_text(self.inventory.lookup(ip))
    }

    /// This machine's own addresses.
    pub closed spec fn own_ips(&self) -> Set<Seq<char>> {
        self.self_ips@
    }

    /// The gateway addresses.
    pub closed spec fn gateway_ips(&self) -> Set<Seq<char>> {
        self.gateways@
    }

    /// When the inventory was taken.
    pub closed spec fn observed_time(&self) -> Option<u64> {
        self.observed_at
    }

    /// Nothing quarantined and no inventory taken.
    pub closed spec fn is_empty(&self) -> bool {
        &&& self.entries.size() == 0
        &&& self.inventory.size() == 0
        &&& self.self_ips@ == Set::<Seq<char>>::empty()
        &&& self.gateways@ == Set::<Seq<char>>::empty()
        &&& self.observed_at is None
    }

    /// Internal consistency.
    pub closed spec fn wf(&self) -> bool {
        &&& self.entries.wf()
        &&& self.inventory.wf()
        &&& self.self_ips.wf()
        &&& self.gateways.wf()
    }

    /// Nothing quarantined, no inventory.
    pub fn new() -> (r: Self)
        ensures
            r.wf(),
            r.is_empty(),
    {
        QuarantineInventory {
            entries: KeyTable::new(),
            inventory: KeyTable::new(),
            self_ips: DomainSet::new(),
            gateways: DomainSet::new(),
            observed_at: None,
        }
    }
}

/// The MAC that the observations give for `k`: the last observation whose address and
/// MAC are both well formed and whose address normalizes to `k`.
pub open spec fn obs_lookup(obs: Seq<(String, String)>, k: Seq<char>) -> Option<Seq<char>>
    decreases obs.len(),
{
    if obs.len() == 0 {
        None
    } else {
        let last = obs.last();
        match (spec_normalize_ip(last.0@), spec_normalize_mac(last.1@)) {
            (Some(i), Some(m)) => if i == k {
                Some(m)
            } else {
                obs_lookup(obs.drop_last(), k)
            },
            _ => obs_lookup(obs.drop_last(), k),
        }
    }
}

/// The normalized IPv4 addresses among `list`.
pub open spec fn normalized_set(list: Seq<String>) -> Set<Seq<char>> {
    Set::new(|k: Seq<char>| exists|i: int| 0 <= i < list.len() && spec_normalize_ip(#[trigger] list[i]@) == Some(k))
}

/// How many of the observations are taken in: the first 4096.
pub open spec fn observations_taken(obs: Seq<(String, String)>) -> Seq<(String, String)> {
    if obs.len() <= 4096 {
        obs
    } else {
        obs.subrange(0, 4096)
    }
}

/// The quarantine binding of `k` after an inventory update: kept unless a different
/// MAC is now observed for it, or it is now one of this machine's addresses or a
/// gateway.
pub open spec fn binding_after_update(
    before: Option<Seq<char>>,
    k: Seq<char>,
    observed: Option<Seq<char>>,
    own: Set<Seq<char>>,
    gateways: Set<Seq<char>>,
) -> Option<Seq<char>> {
    match before {
        Some(m) => if (observed is Some && observed->0 != m) || own.contains(k) || gateways.contains(k) {
            None
        } else {
            Some(m)
        },
        None => None,
    }
}

/// The decision on a quarantine request for `ip` at `now`: refused with a reason, or
/// accepted, telling whether it adds a new binding.
pub open spec fn quarantine_decision(q: QuarantineInventory, ip: Seq<char>, now: u64) -> Result<bool, QuarantineRejection> {
    match spec_ipv4(trim(ip)) {
        None => Err(QuarantineRejection::InvalidAddress),
        Some(o) => if is_reserved_v4(o) {
            Err(QuarantineRejection::ReservedAddress)
        } else {
            let key = ipv4_text(o);
            if q.own_ips().contains(key) {
                Err(QuarantineRejection::SelfAddress)
            } else if q.gateway_ips().contains(key) {
                Err(QuarantineRejection::GatewayAddress)
            } else if q.observed_time() is None || elapsed_ms(now, q.observed_time()->0) > 300000
                || q.own_ips().len() == 0 || q.gateway_ips().len() == 0 {
                Err(QuarantineRejection::InventoryUnavailable)
            } else if q.observed(key) is None {
                Err(QuarantineRejection::IdentityUnknown)
            } else if q.bound(key) is Some {
                Ok(false)
            } else if q.bound_count() >= 256 {
                Err(QuarantineRejection::CapacityReached)
            } else {
                Ok(true)
            }
        },
    }
}

/// Whether `ip` is quarantined in `e`.
pub open spec fn spec_is_quarantined(e: &SecurityEngine, ip: Seq<char>) -> bool {
    match spec_normalize_ip(ip) {
        Some(k) => e.quarantine_state().bound(k) is Some,
        None => false,
    }
}

/// The incident texts of a new quarantine of `key`.
pub open spec fn quarantine_incident_texts(key: Seq<char>) -> (Seq<char>, Seq<char>, Seq<char>, Seq<char>, Seq<char>) {
    (
        "DNS quarantine"@,
        key,
        "Administrator requested MAC-bound DNS blocking"@,
        "HIGH"@,
        "Only DNS through ShieldGhita blocked; other Internet access is unaffected"@,
    )
}

/// The effect of `quarantine_ip(ip, now)` taking `a` to `b` with result `r`.
pub open spec fn quarantine_step(
    a: &SecurityEngine,
    b: &SecurityEngine,
    ip: Seq<char>,
    now: u64,
    r: Result<(), QuarantineRejection>,
) -> bool {
    let d = quarantine_decision(a.quarantine_state(), ip, now);
    &&& b.wf()
    &&& same_detection_state(b, a)
    &&& match d {
        Err(e) => r == Err::<(), QuarantineRejection>(e) && b.quarantine_state() == a.quarantine_state()
            && b.incident_log() == a.incident_log() && b.next_incident_id() == a.next_incident_id(),
        Ok(false) => r is Ok && b.quarantine_state() == a.quarantine_state() && b.incident_log()
            == a.incident_log() && b.next_incident_id() == a.next_incident_id(),
        Ok(true) => {
            let key = spec_normalize_ip(ip)->0;
            &&& r is Ok
            &&& b.quarantine_state().bound(key) == a.quarantine_state().observed(key)
            &&& forall|k: Seq<char>| k != key ==> #[trigger] b.quarantine_state().bound(k) == a.quarantine_state().bound(k)
            &&& b.quarantine_state().bound_count() == a.quarantine_state().bound_count() + 1
            &&& forall|k: Seq<char>| #[trigger] b.quarantine_state().observed(k) == a.quarantine_state().observed(k)
            &&& b.quarantine_state().own_ips() == a.quarantine_state().own_ips()
            &&& b.quarantine_state().gateway_ips() == a.quarantine_state().gateway_ips()
            &&& b.quarantine_state().observed_time() == a.quarantine_state().observed_time()
            &&& b.incident_log().len() > 0
            &&& b.incident_log() == log_after(a.incident_log(), b.incident_log()[0])
            &&& incident_texts(b.incident_log()[0]) == quarantine_incident_texts(key)
            &&& b.incident_log()[0].id == a.next_incident_id()
            &&& b.next_incident_id() == a.next_incident_id().wrapping_add(1)
        },
    }
}

fn copy_chars(v: &Vec<char>) -> (r: Vec<char>)
    ensures
        r@ == v@,
{
    let r = slice_vec(v.as_slice(), 0, v.len());
    assert(v@.subrange(0, v@.len() as int) =~= v@);
    r
}

/// The normalized addresses of a list, as a set.
fn normalized_ip_set(list: &[String]) -> (r: DomainSet)
    ensures
        r.wf(),
        r@ == normalized_set(list@),
{
    let mut r = DomainSet::new();
    let mut i: usize = 0;
    while i < list.len()
        invariant
            i <= list@.len(),
            r.wf(),
            r@ == normalized_set(list@.subrange(0, i as int)),
        decreases list@.len() - i,
    {
        let ghost before = r@;
        match normalize_ip(list[i].as_str()) {
            Some(k) => {
                r.insert(chars_of(k.as_str()));
            },
            None => {},
        }
        proof {
            let a = list@.subrange(0, i as int);
            let b = list@.subrange(0, i + 1);
            assert forall|x: Seq<char>| normalized_set(b).contains(x) == r@.contains(x) by {
                if normalized_set(b).contains(x) {
                    let k = choose|k: int| 0 <= k < b.len() && spec_normalize_ip(#[trigger] b[k]@) == Some(x);
                    if k < i {
                        assert(a[k] == b[k]);
                        assert(normalized_set(a).contains(x));
                    }
                }
                if before.contains(x) {
                    let k = choose|k: int| 0 <= k < a.len() && spec_normalize_ip(#[trigger] a[k]@) == Some(x);
                    assert(b[k] == a[k]);
                }
                if r@.contains(x) && !before.contains(x) {
                    assert(b[i as int] == list@[i as int]);
                }
            }
            assert(normalized_set(b) =~= r@);
        }
        i += 1;
    }
    assert(list@.subrange(0, list@.len() as int) =~= list@);
    r
}

impl SecurityEngine {
    /// Replaces the inventory: this machine's addresses, the gateways and the observed
    /// address-to-MAC pairs (the first 4096; the last well-formed observation of an
    /// address wins), taken at `now`. A quarantine is released when its address now
    /// answers with a different MAC, or has become this machine's or a gateway; an
    /// address that is simply not observed stays quarantined.
    pub fn update_quarantine_inventory(
        &mut self,
        observations: &[(String, String)],
        self_ips: &[String],
        gateways: &[String],
        now: u64,
    )
        requires
            old(self).wf(),
        ensures
            final(self).wf(),
            same_detection_state(&*final(self), &*old(self)),
            final(self).incident_log() == old(self).incident_log(),
            final(self).next_incident_id() == old(self).next_incident_id(),
            forall|k: Seq<char>| #[trigger] final(self).quarantine_state().observed(k) == obs_lookup(
                observations_taken(observations@),
                k,
            ),
            final(self).quarantine_state().own_ips() == normalized_set(self_ips@),
            final(self).quarantine_state().gateway_ips() == normalized_set(gateways@),
            final(self).quarantine_state().observed_time() == Some(now),
            forall|k: Seq<char>|
                #[trigger] final(self).quarantine_state().bound(k) == binding_after_update(
                    old(self).quarantine_state().bound(k),
                    k,
                    obs_lookup(observations_taken(observations@), k),
                    normalized_set(self_ips@),
                    normalized_set(gateways@),
                ),
    {
        let ghost taken = observations_taken(observations@);
        self.quarantine.self_ips = normalized_ip_set(self_ips);
        self.quarantine.gateways = normalized_ip_set(gateways);
        let n: usize = if observations.len() <= 4096 {
            observations.len()
        } else {
            4096
        };
        let mut inv: KeyTable<Vec<char>> = KeyTable::new();
        let mut i: usize = 0;
        while i < n
            invariant
                i <= n,
                n <= observations@.len(),
                taken == observations_taken(observations@),
                taken.len() == n,
                inv.wf(),
                forall|k: Seq<char>| #[trigger] opt_text(inv.lookup(k)) == obs_lookup(taken.subrange(0, i as int), k),
            decreases n - i,
        {
            let ghost pre = taken.subrange(0, i as int);
            let ghost nxt = taken.subrange(0, i + 1);
            proof {
                assert(nxt.drop_last() =~= pre);
                assert(nxt.last() == observations@[i as int]);
            }
            let nip = normalize_ip(observations[i].0.as_str());
            let nmac = normalize_mac(observations[i].1.as_str());
            match (nip, nmac) {
                (Some(a), Some(m)) => {
                    let ka = chars_of(a.as_str());
                    let ghost kv = ka@;
                    let mv = chars_of(m.as_str());
                    proof {
                        assert(spec_normalize_ip(nxt.last().0@) == Some(kv));
                        assert(spec_normalize_mac(nxt.last().1@) == Some(mv@));
                        assert(obs_lookup(nxt, kv) == Some(mv@));
                    }
                    inv.insert(ka, mv);
                    proof {
                        assert forall|k: Seq<char>| #[trigger] opt_text(inv.lookup(k)) == obs_lookup(nxt, k) by {
                            if k != kv {
                                assert(obs_lookup(nxt, k) == obs_lookup(pre, k));
                            }
                        }
                    }
                },
                _ => {
                    proof {
                        assert forall|k: Seq<char>| #[trigger] opt_text(inv.lookup(k)) == obs_lookup(nxt, k) by {
                            assert(obs_lookup(nxt, k) == obs_lookup(pre, k));
                        }
                    }
                },
            }
            i += 1;
        }
        proof {
            assert(taken.subrange(0, n as int) =~= taken);
        }
        self.quarantine.inventory = inv;
        self.quarantine.observed_at = Some(now);
        let ghost before = self.quarantine.entries;
        let inv = &self.quarantine.inventory;
        let own = &self.quarantine.self_ips;
        let gws = &self.quarantine.gateways;
        let ghost pred = |k: Seq<char>, m: Vec<char>|
            !((opt_text(inv.lookup(k)) is Some && opt_text(inv.lookup(k))->0 != m@) || own@.contains(k) || gws@.contains(k));
        let keep = |k: &Vec<char>, m: &Vec<char>| -> (b: bool)
            requires
                inv.wf(),
            ensures
                b == !((opt_text(inv.lookup(k@)) is Some && opt_text(inv.lookup(k@))->0 != m@) || own@.contains(k@)
                    || gws@.contains(k@)),
        {
            let changed = match inv.find(k.as_slice()) {
                Some(j) => !crate::text::eq_chars(inv.entries[j].1.as_slice(), m.as_slice()),
                None => false,
            };
            !(changed || own.contains(k.as_slice()) || gws.contains(k.as_slice()))
        };
        self.quarantine.entries.retain_where(keep, Ghost(pred));
    }

    /// Quarantines `ip`: an IPv4 address that is not reserved, not this machine's, not
    /// a gateway, with a fresh inventory (taken at most five minutes before `now`) that
    /// has observed a MAC for it, is bound to that MAC and an incident is logged. An
    /// address already quarantined is accepted again with nothing logged.
    pub fn quarantine_ip(&mut self, ip: &str, now: u64) -> (r: Result<(), QuarantineRejection>)
        requires
            old(self).wf(),
        ensures
            quarantine_step(&*old(self), &*final(self), ip@, now, r),
    {
        let c = chars_of(ip);
        let t = trim_vec(c.as_slice());
        let o = match parse_ipv4(t.as_slice()) {
            Some(o) => o,
            None => {
                return Err(QuarantineRejection::InvalidAddress);
            },
        };
        if is_reserved_ipv4(&o) {
            return Err(QuarantineRejection::ReservedAddress);
        }
        let clean = ipv4_to_text(&o);
        let key = chars_of(clean.as_str());
        if self.quarantine.self_ips.contains(key.as_slice()) {
            return Err(QuarantineRejection::SelfAddress);
        }
        if self.quarantine.gateways.contains(key.as_slice()) {
            return Err(QuarantineRejection::GatewayAddress);
        }
        let stale = match self.quarantine.observed_at {
            None => true,
            Some(t0) => {
                let el: u64 = if now >= t0 {
                    now - t0
                } else {
                    0
                };
                el > QUARANTINE_INVENTORY_TTL_MS
            },
        };
        if stale || self.quarantine.self_ips.len() == 0 || self.quarantine.gateways.len() == 0 {
            return Err(QuarantineRejection::InventoryUnavailable);
        }
        let mac = match self.quarantine.inventory.find(key.as_slice()) {
            Some(j) => copy_chars(&self.quarantine.inventory.entries[j].1),
            None => {
                return Err(QuarantineRejection::IdentityUnknown);
            },
        };
        if self.quarantine.entries.contains_key(key.as_slice()) {
            return Ok(());
        }
        if self.quarantine.entries.len() >= MAX_QUARANTINE_ENTRIES {
            return Err(QuarantineRejection::CapacityReached);
        }
        self.quarantine.entries.insert(key, mac);
        let ghost mid = *self;
        let inc = self.record_incident(
            "DNS quarantine",
            clean.as_str(),
            "Administrator requested MAC-bound DNS blocking",
            "HIGH",
            "Only DNS through ShieldGhita blocked; other Internet access is unaffected",
        );
        proof {
            reveal_strlit("DNS quarantine");
            reveal_strlit("Administrator requested MAC-bound DNS blocking");
            reveal_strlit("HIGH");
            reveal_strlit("Only DNS through ShieldGhita blocked; other Internet access is unaffected");
        }
        Ok(())
    }

    /// Lifts the quarantine of `ip`, if any.
    pub fn unquarantine_ip(&mut self, ip: &str)
        requires
            old(self).wf(),
        ensures
            final(self).wf(),
            !spec_is_quarantined(&*final(self), ip@),
            same_detection_state(&*final(self), &*old(self)),
            final(self).incident_log() == old(self).incident_log(),
            final(self).next_incident_id() == old(self).next_incident_id(),
            forall|k: Seq<char>|
                spec_normalize_ip(ip@) != Some(k) ==> #[trigger] final(self).quarantine_state().bound(k)
                    == old(self).quarantine_state().bound(k),
            forall|k: Seq<char>| #[trigger] final(self).quarantine_state().observed(k) == old(self).quarantine_state().observed(k),
            final(self).quarantine_state().own_ips() == old(self).quarantine_state().own_ips(),
            final(self).quarantine_state().gateway_ips() == old(self).quarantine_state().gateway_ips(),
            final(self).quarantine_state().observed_time() == old(self).quarantine_state().observed_time(),
    {
        match normalize_ip(ip) {
            Some(k) => {
                let kc = chars_of(k.as_str());
                self.quarantine.entries.remove(kc.as_slice());
            },
            None => {},
        }
    }

    /// Whether `ip` is quarantined.
    pub fn is_quarantined(&self, ip: &str) -> (r: bool)
        requires
            self.wf(),
        ensures
            r == spec_is_quarantined(self, ip@),
    {
        match normalize_ip(ip) {
            Some(k) => {
                let kc = chars_of(k.as_str());
                self.quarantine.entries.contains_key(kc.as_slice())
            },
            None => false,
        }
    }

    /// The quarantined addresses.
    pub fn get_quarantined_ips(&self) -> (r: Vec<String>)
        requires
            self.wf(),
        ensures
            r@.len() == self.quarantine_state().bound_count(),
            forall|i: int| 0 <= i < r@.len() ==> #[trigger] self.quarantine_state().bound(r@[i]@) is Some,
            forall|k: Seq<char>| #[trigger] self.quarantine_state().bound(k) is Some ==> exists|i: int| 0 <= i < r@.len() && r@[i]@ == k,
    {
        let mut out: Vec<String> = Vec::new();
        let mut i: usize = 0;
        while i < self.quarantine.entries.entries.len()
            invariant
                i <= self.quarantine.entries.entries@.len(),
                self.quarantine.entries.wf(),
                out@.len() == i,
                forall|j: int| 0 <= j < i ==> (#[trigger] out@[j])@ == key_at(self.quarantine.entries.entries@, j),
            decreases self.quarantine.entries.entries@.len() - i,
        {
            out.push(string_from_chars(self.quarantine.entries.entries[i].0.as_slice()));
            i += 1;
        }
        proof {
            let s = self.quarantine.entries.entries@;
            assert forall|j: int| 0 <= j < out@.len() implies #[trigger] self.quarantine_state().bound(out@[j]@) is Some by {
                crate::security::table::lemma_lookup_index(s, j);
            }
            assert forall|k: Seq<char>| #[trigger] self.quarantine_state().bound(k) is Some implies exists|j: int|
                0 <= j < out@.len() && out@[j]@ == k by {
                let j = choose|j: int| 0 <= j < s.len() && #[trigger] key_at(s, j) == k;
                assert(out@[j]@ == k);
            }
        }
        out
    }
}

/// A granted quarantine holds: after `quarantine_ip` accepts an address, it is
/// quarantined.
pub proof fn lemma_quarantine_then_quarantined(
    a: &SecurityEngine,
    b: &SecurityEngine,
    ip: Seq<char>,
    now: u64,
    r: Result<(), QuarantineRejection>,
)
    requires
        quarantine_step(a, b, ip, now, r),
        r is Ok,
    ensures
        spec_is_quarantined(b, ip),
{
    let d = quarantine_decision(a.quarantine_state(), ip, now);
    let o = spec_ipv4(trim(ip))->0;
    assert(spec_normalize_ip(ip) == Some(ipv4_text(o)));
}

/// A repeated quarantine of an address already quarantined is accepted and logs
/// nothing.
pub proof fn lemma_quarantine_idempotent(
    a: &SecurityEngine,
    b: &SecurityEngine,
    ip: Seq<char>,
    now: u64,
    r: Result<(), QuarantineRejection>,
)
    requires
        spec_is_quarantined(a, ip),
        quarantine_decision(a.quarantine_state(), ip, now) is Ok,
        quarantine_step(a, b, ip, now, r),
    ensures
        r is Ok,
        b.incident_log() == a.incident_log(),
        b.quarantine_state() == a.quarantine_state(),
{
    let o = spec_ipv4(trim(ip))->0;
    assert(spec_normalize_ip(ip) == Some(ipv4_text(o)));
}

/// Absence of evidence never releases: an inventory update that observes no MAC for a
/// quarantined address, which is neither this machine's nor a gateway, keeps it
/// bound to the same MAC; observing a different MAC releases it.
pub proof fn lemma_release_needs_evidence(
    before: Option<Seq<char>>,
    k: Seq<char>,
    observed: Option<Seq<char>>,
    own: Set<Seq<char>>,
    gateways: Set<Seq<char>>,
)
    requires
        before is Some,
        !own.contains(k),
        !gateways.contains(k),
    ensures
        observed is None ==> binding_after_update(before, k, observed, own, gateways) == before,
        observed is Some && observed != before ==> binding_after_update(before, k, observed, own, gateways) is None,
{
}

} // verus!
