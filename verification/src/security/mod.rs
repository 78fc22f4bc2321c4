//! The intrusion detection and prevention engine: flood and scan detection, DNS
//! heuristics, temporary IP blocks, the MAC-bound DNS quarantine and the incident log.
use vstd::prelude::*;
use crate::i18n::spec_tr4_with;
use crate::i18n::tr4_with;
use crate::security::quarantine::QuarantineInventory;
use crate::security::table::KeyTable;
use crate::text::{chars_of, string_from_chars};

pub mod address;
pub mod file_analyzer;
pub mod heuristics;
pub mod location_scan;
pub mod network;
pub mod quarantine;
pub mod rate;
pub mod table;

verus! {

/// One detected security event.
#[derive(Clone, Debug)]
pub struct SecurityIncident {
    pub id: u64,
    pub time: String,
    pub incident_type: String,
    pub source_ip: String,
    pub details: String,
    pub severity: String,
    pub mitigation: String,
}

/// The texts of an incident other than its time: type, source, details, severity,
/// mitigation.
pub open spec fn incident_texts(i: SecurityIncident) -> (Seq<char>, Seq<char>, Seq<char>, Seq<char>, Seq<char>) {
    (i.incident_type@, i.source_ip@, i.details@, i.severity@, i.mitigation@)
}

/// A field-by-field copy of an incident.
pub fn copy_incident(i: &SecurityIncident) -> (r: SecurityIncident)
    ensures
        r == *i,
{
    SecurityIncident {
        id: i.id,
        time: i.time.clone(),
        incident_type: i.incident_type.clone(),
        source_ip: i.source_ip.clone(),
        details: i.details.clone(),
        severity: i.severity.clone(),
        mitigation: i.mitigation.clone(),
    }
}

/// Why a quarantine request was refused.
#[derive(Clone, Copy, Debug, PartialEq, Eq, Structural)]
pub enum QuarantineRejection {
    /// The text is not an IPv4 address.
    InvalidAddress,
    /// Loopback, unspecified, multicast or broadcast.
    ReservedAddress,
    /// One of this machine's own addresses.
    SelfAddress,
    /// The default gateway.
    GatewayAddress,
    /// No MAC has been observed for the address.
    IdentityUnknown,
    /// The network inventory is missing or older than five minutes.
    InventoryUnavailable,
    /// The quarantine already holds its maximum of entries.
    CapacityReached,
}

/// The localized reason for a quarantine refusal.
pub open spec fn rejection_text(r: QuarantineRejection, lang: u8) -> Seq<char> {
    match r {
        QuarantineRejection::InventoryUnavailable => spec_tr4_with(
            lang,
            "Thông tin mạng chưa có hoặc đã cũ; chờ cập nhật kiểm kê"@,
            "Network inventory unavailable or stale; wait for inventory refresh"@,
            "网络清单不可用或已过期；请等待刷新"@,
            "Сетевые данные недоступны или устарели; дождитесь обновления"@,
        ),
        QuarantineRejection::CapacityReached => spec_tr4_with(
            lang,
            "Đã đạt giới hạn cách ly"@,
            "Quarantine capacity reached"@,
            "已达到隔离数量上限"@,
            "Достигнут лимит карантина"@,
        ),
        QuarantineRejection::InvalidAddress => spec_tr4_with(
            lang,
            "Địa chỉ IP không hợp lệ, không thể cách ly"@,
            "Invalid IP address; quarantine refused"@,
            "IP 地址无效，无法隔离"@,
            "Недопустимый IP-адрес; карантин отклонён"@,
        ),
        QuarantineRejection::ReservedAddress => spec_tr4_with(
            lang,
            "Địa chỉ dành riêng (loopback/multicast/broadcast), không thể cách ly"@,
            "Reserved address (loopback/multicast/broadcast); quarantine refused"@,
            "保留地址（环回/组播/广播），无法隔离"@,
            "Зарезервированный адрес (loopback/multicast/broadcast); карантин отклонён"@,
        ),
        QuarantineRejection::SelfAddress => spec_tr4_with(
            lang,
            "Không thể cách ly chính máy này"@,
            "Cannot quarantine this machine itself"@,
            "无法隔离本机自身"@,
            "Нельзя поместить в карантин эту машину"@,
        ),
        QuarantineRejection::GatewayAddress => spec_tr4_with(
            lang,
            "Không thể cách ly gateway hệ thống"@,
            "Cannot quarantine the OS default gateway"@,
            "无法隔离系统默认网关"@,
            "Нельзя поместить в карантин системный шлюз"@,
        ),
        QuarantineRejection::IdentityUnknown => spec_tr4_with(
            lang,
            "Chưa có bằng chứng MAC thụ động cho IP này; không cách ly mù"@,
            "No passive MAC evidence for this IP yet; refusing blind quarantine"@,
            "尚未观测到该 IP 的被动 MAC 证据；拒绝盲目隔离"@,
            "Нет пассивных MAC-данных по этому IP; слепой карантин запрещён"@,
        ),
    }
}

impl QuarantineRejection {
    /// The localized one-line reason for the refusal.
    pub fn message(self, lang: u8) -> (r: String)
        ensures
            r@ == rejection_text(self, lang),
    {
        let t = match self {
            QuarantineRejection::InventoryUnavailable => tr4_with(
                lang,
                "Thông tin mạng chưa có hoặc đã cũ; chờ cập nhật kiểm kê",
                "Network inventory unavailable or stale; wait for inventory refresh",
                "网络清单不可用或已过期；请等待刷新",
                "Сетевые данные недоступны или устарели; дождитесь обновления",
            ),
            QuarantineRejection::CapacityReached => tr4_with(
                lang,
                "Đã đạt giới hạn cách ly",
                "Quarantine capacity reached",
                "已达到隔离数量上限",
                "Достигнут лимит карантина",
            ),
            QuarantineRejection::InvalidAddress => tr4_with(
                lang,
                "Địa chỉ IP không hợp lệ, không thể cách ly",
                "Invalid IP address; quarantine refused",
                "IP 地址无效，无法隔离",
                "Недопустимый IP-адрес; карантин отклонён",
            ),
            QuarantineRejection::ReservedAddress => tr4_with(
                lang,
                "Địa chỉ dành riêng (loopback/multicast/broadcast), không thể cách ly",
                "Reserved address (loopback/multicast/broadcast); quarantine refused",
                "保留地址（环回/组播/广播），无法隔离",
                "Зарезервированный адрес (loopback/multicast/broadcast); карантин отклонён",
            ),
            QuarantineRejection::SelfAddress => tr4_with(
                lang,
                "Không thể cách ly chính máy này",
                "Cannot quarantine this machine itself",
                "无法隔离本机自身",
                "Нельзя поместить в карантин эту машину",
            ),
            QuarantineRejection::GatewayAddress => tr4_with(
                lang,
                "Không thể cách ly gateway hệ thống",
                "Cannot quarantine the OS default gateway",
                "无法隔离系统默认网关",
                "Нельзя поместить в карантин системный шлюз",
            ),
            QuarantineRejection::IdentityUnknown => tr4_with(
                lang,
                "Chưa có bằng chứng MAC thụ động cho IP này; không cách ly mù",
                "No passive MAC evidence for this IP yet; refusing blind quarantine",
                "尚未观测到该 IP 的被动 MAC 证据；拒绝盲目隔离",
                "Нет пассивных MAC-данных по этому IP; слепой карантин запрещён",
            ),
        };
        String::from_str(t)
    }
}

/// At most this many incidents are kept, newest first.
pub const MAX_INCIDENTS: usize = 500;

/// The wall-clock time of day as `HH:MM:SS`.
/// Calls `chrono::Local::now` and formats it with `%H:%M:%S`. The contract states
/// the one fact that holds of every reading: the text is eight characters long (two
/// zero-padded digits each for hour, minute and second, and two colons); which time it
/// shows depends on the clock and is left unsaid.
#[verifier::external_body]
pub(crate) fn local_clock_text() -> (r: String)
    ensures
        r@.len() == 8,
{
    chrono::Local::now().format("%H:%M:%S").to_string()
}

/// The detection engine's state. Times are milliseconds on a monotonic clock.
pub struct SecurityEngine {
    detection: bool,
    auto_block: bool,
    arp_detection: bool,
    flood_limit: u32,
    ip_query_history: KeyTable<Vec<u64>>,
    hard_query_history: KeyTable<Vec<u64>>,
    hard_drops: u64,
    blocked_ips: KeyTable<u64>,
    incidents: Vec<SecurityIncident>,
    next_id: u64,
    last_gateway: Option<(String, String)>,
    quarantine: QuarantineInventory,
    port_probes: KeyTable<Vec<(u16, u64)>>,
    port_scan_cooldown: KeyTable<u64>,
    hard_flood_cooldown: KeyTable<u64>,
    flood_cooldown: KeyTable<u64>,
}

impl SecurityEngine {
    /// Whether attack detection (IDS) is on.
    pub closed spec fn detection_on(&self) -> bool {
        self.detection
    }

    /// Whether automatic blocking (IPS) is on.
    pub closed spec fn auto_block_on(&self) -> bool {
        self.auto_block
    }

    /// Whether the ARP spoofing watcher is on.
    pub closed spec fn arp_on(&self) -> bool {
        self.arp_detection
    }

    /// Queries per two seconds above which a source floods.
    pub closed spec fn flood_limit(&self) -> u32 {
        self.flood_limit
    }

    /// Queries dropped by the hard rate limit.
    pub closed spec fn hard_drops(&self) -> u64 {
        self.hard_drops
    }

    /// Expiry of the temporary block of each address.
    pub closed spec fn blocks(&self) -> KeyTable<u64> {
        self.blocked_ips
    }

    /// Recent query times of each source, for flood detection.
    pub closed spec fn query_history(&self) -> KeyTable<Vec<u64>> {
        self.ip_query_history
    }

    /// Recent query times of each source, for the hard rate limit.
    pub closed spec fn hard_history(&self) -> KeyTable<Vec<u64>> {
        self.hard_query_history
    }

    /// Recent inbound probes (local port, time) of each remote address.
    pub closed spec fn probes(&self) -> KeyTable<Vec<(u16, u64)>> {
        self.port_probes
    }

    /// Last port-scan alert of each address.
    pub closed spec fn scan_cooldown(&self) -> KeyTable<u64> {
        self.port_scan_cooldown
    }

    /// Last hard-limit alert of each address.
    pub closed spec fn hard_cooldown(&self) -> KeyTable<u64> {
        self.hard_flood_cooldown
    }

    /// Last flood alert of each address.
    pub closed spec fn flood_cooldown_table(&self) -> KeyTable<u64> {
        self.flood_cooldown
    }

    /// The incident log, newest first.
    pub closed spec fn incident_log(&self) -> Seq<SecurityIncident> {
        self.incidents@
    }

    /// The id the next incident gets.
    pub closed spec fn next_incident_id(&self) -> u64 {
        self.next_id
    }

    /// The gateway address and MAC last seen.
    pub closed spec fn gateway_seen(&self) -> Option<(Seq<char>, Seq<char>)> {
        match self.last_gateway {
            Some(g) => Some((g.0@, g.1@)),
            None => None,
        }
    }

    /// The quarantine and its inventory.
    pub closed spec fn quarantine_state(&self) -> QuarantineInventory {
        self.quarantine
    }

    /// Internal consistency of every table.
    pub closed spec fn wf(&self) -> bool {
        &&& self.ip_query_history.wf()
        &&& self.hard_query_history.wf()
        &&& self.blocked_ips.wf()
        &&& self.port_probes.wf()
        &&& self.port_scan_cooldown.wf()
        &&& self.hard_flood_cooldown.wf()
        &&& self.flood_cooldown.wf()
        &&& self.quarantine.wf()
        &&& self.incidents@.len() <= 500
    }

    /// An engine with detection, auto-block and the ARP watcher off, a flood limit of
    /// 80 queries, empty tables and log, and incident ids starting at 1.
    pub fn new() -> (r: Self)
        ensures
            r.wf(),
            !r.detection_on(),
            !r.auto_block_on(),
            !r.arp_on(),
            r.flood_limit() == 80,
            r.hard_drops() == 0,
            r.incident_log().len() == 0,
            r.next_incident_id() == 1,
            r.gateway_seen() is None,
            r.blocks().size() == 0,
            r.quarantine_state().is_empty(),
    {
        SecurityEngine {
            detection: false,
            auto_block: false,
            arp_detection: false,
            flood_limit: 80,
            ip_query_history: KeyTable::new(),
            hard_query_history: KeyTable::new(),
            hard_drops: 0,
            blocked_ips: KeyTable::new(),
            incidents: Vec::new(),
            next_id: 1,
            last_gateway: None,
            quarantine: QuarantineInventory::new(),
            port_probes: KeyTable::new(),
            port_scan_cooldown: KeyTable::new(),
            hard_flood_cooldown: KeyTable::new(),
            flood_cooldown: KeyTable::new(),
        }
    }

    /// Whether attack detection is on.
    pub fn is_detection_enabled(&self) -> (r: bool)
        ensures
            r == self.detection_on(),
    {
        self.detection
    }

    /// Whether automatic blocking is on.
    pub fn is_auto_block_enabled(&self) -> (r: bool)
        ensures
            r == self.auto_block_on(),
    {
        self.auto_block
    }

    /// Whether the ARP spoofing watcher is on.
    pub fn is_arp_detection_enabled(&self) -> (r: bool)
        ensures
            r == self.arp_on(),
    {
        self.arp_detection
    }

    /// Turns attack detection on or off.
    pub fn set_detection_enabled(&mut self, enabled: bool)
        ensures
            final(self).detection_on() == enabled,
            final(self).auto_block_on() == old(self).auto_block_on(),
            final(self).arp_on() == old(self).arp_on(),
            final(self).wf() == old(self).wf(),
            final(self).incident_log() == old(self).incident_log(),
            final(self).blocks() == old(self).blocks(),
            final(self).quarantine_state() == old(self).quarantine_state(),
    {
        self.detection = enabled;
    }

    /// Turns automatic blocking on or off.
    pub fn set_auto_block(&mut self, enabled: bool)
        ensures
            final(self).auto_block_on() == enabled,
            final(self).detection_on() == old(self).detection_on(),
            final(self).arp_on() == old(self).arp_on(),
            final(self).wf() == old(self).wf(),
            final(self).incident_log() == old(self).incident_log(),
            final(self).blocks() == old(self).blocks(),
            final(self).quarantine_state() == old(self).quarantine_state(),
    {
        self.auto_block = enabled;
    }

    /// Turns the ARP spoofing watcher on or off.
    pub fn set_arp_detection(&mut self, enabled: bool)
        ensures
            final(self).arp_on() == enabled,
            final(self).detection_on() == old(self).detection_on(),
            final(self).auto_block_on() == old(self).auto_block_on(),
            final(self).wf() == old(self).wf(),
            final(self).incident_log() == old(self).incident_log(),
            final(self).blocks() == old(self).blocks(),
            final(self).quarantine_state() == old(self).quarantine_state(),
    {
        self.arp_detection = enabled;
    }

    /// The flood threshold in queries per two seconds.
    pub fn dns_flood_rate_limit(&self) -> (r: u32)
        ensures
            r == self.flood_limit(),
    {
        self.flood_limit
    }

    /// Sets the flood threshold.
    pub fn set_dns_flood_rate_limit(&mut self, limit: u32)
        ensures
            final(self).flood_limit() == limit,
            final(self).detection_on() == old(self).detection_on(),
            final(self).auto_block_on() == old(self).auto_block_on(),
            final(self).arp_on() == old(self).arp_on(),
            final(self).wf() == old(self).wf(),
            final(self).incident_log() == old(self).incident_log(),
            final(self).blocks() == old(self).blocks(),
            final(self).quarantine_state() == old(self).quarantine_state(),
    {
        self.flood_limit = limit;
    }

    /// Queries dropped by the hard rate limit so far.
    pub fn hard_drop_count(&self) -> (r: u64)
        ensures
            r == self.hard_drops(),
    {
        self.hard_drops
    }

    /// Logs an incident that happened at the wall-clock `time`: it gets the next id and
    /// goes first in the log, which keeps its newest 500 entries.
    pub fn record_incident_at(
        &mut self,
        time: String,
        incident_type: &str,
        source_ip: &str,
        details: &str,
        severity: &str,
        mitigation: &str,
    ) -> (r: SecurityIncident)
        requires
            old(self).wf(),
        ensures
            final(self).wf(),
            r.id == old(self).next_incident_id(),
            r.time@ == time@,
            incident_texts(r) == (incident_type@, source_ip@, details@, severity@, mitigation@),
            final(self).next_incident_id() == old(self).next_incident_id().wrapping_add(1),
            final(self).incident_log() == log_after(old(self).incident_log(), r),
            same_detection_state(&*final(self), &*old(self)),
            final(self).quarantine_state() == old(self).quarantine_state(),
    {
        let id = self.next_id;
        self.next_id = self.next_id.wrapping_add(1);
        let incident = SecurityIncident {
            id,
            time,
            incident_type: String::from_str(incident_type),
            source_ip: String::from_str(source_ip),
            details: String::from_str(details),
            severity: String::from_str(severity),
            mitigation: String::from_str(mitigation),
        };
        let ghost before = self.incidents@;
        let copy = copy_incident(&incident);
        self.incidents.insert(0, incident);
        if self.incidents.len() > MAX_INCIDENTS {
            self.incidents.truncate(MAX_INCIDENTS);
        }
        assert(self.incidents@ =~= if before.len() < 500 {
            seq![copy] + before
        } else {
            seq![copy] + before.subrange(0, 499)
        });
        copy
    }

    /// Logs an incident at the current wall-clock time.
    pub fn record_incident(
        &mut self,
        incident_type: &str,
        source_ip: &str,
        details: &str,
        severity: &str,
        mitigation: &str,
    ) -> (r: SecurityIncident)
        requires
            old(self).wf(),
        ensures
            final(self).wf(),
            r.id == old(self).next_incident_id(),
            r.time@.len() == 8,
            incident_texts(r) == (incident_type@, source_ip@, details@, severity@, mitigation@),
            final(self).next_incident_id() == old(self).next_incident_id().wrapping_add(1),
            final(self).incident_log() == log_after(old(self).incident_log(), r),
            same_detection_state(&*final(self), &*old(self)),
            final(self).quarantine_state() == old(self).quarantine_state(),
    {
        let time = local_clock_text();
        self.record_incident_at(time, incident_type, source_ip, details, severity, mitigation)
    }

    /// A copy of the incident log, newest first.
    pub fn get_incidents(&self) -> (r: Vec<SecurityIncident>)
        ensures
            r@ == self.incident_log(),
    {
        let mut out: Vec<SecurityIncident> = Vec::new();
        let mut i: usize = 0;
        while i < self.incidents.len()
            invariant
                i <= self.incidents@.len(),
                out@ == self.incidents@.subrange(0, i as int),
            decreases self.incidents@.len() - i,
        {
            out.push(copy_incident(&self.incidents[i]));
            i += 1;
            assert(out@ =~= self.incidents@.subrange(0, i as int));
        }
        assert(self.incidents@.subrange(0, self.incidents@.len() as int) =~= self.incidents@);
        out
    }

    /// Number of logged incidents.
    pub fn incidents_count(&self) -> (r: usize)
        ensures
            r == self.incident_log().len(),
    {
        self.incidents.len()
    }

    /// Empties the incident log.
    pub fn clear_incidents(&mut self)
        requires
            old(self).wf(),
        ensures
            final(self).wf(),
            final(self).incident_log().len() == 0,
            final(self).next_incident_id() == old(self).next_incident_id(),
            final(self).detection_on() == old(self).detection_on(),
            final(self).auto_block_on() == old(self).auto_block_on(),
            final(self).blocks() == old(self).blocks(),
            final(self).quarantine_state() == old(self).quarantine_state(),
    {
        self.incidents.clear();
    }

    /// The security score: 100, less 25 with detection off, less 15 with auto-block
    /// off, less 5 per logged incident, held to 10..=100.
    pub fn get_security_score(&self) -> (r: i32)
        requires
            self.wf(),
        ensures
            r == spec_security_score(self.incident_log().len() as int, self.detection_on(), self.auto_block_on()),
            10 <= r <= 100,
    {
        let count = self.incidents.len();
        let mut base: i32 = 100;
        if !self.detection {
            base -= 25;
        }
        if !self.auto_block {
            base -= 15;
        }
        let penalty: i32 = (count as i32) * 5;
        let v = base - penalty;
        if v < 10 {
            10
        } else if v > 100 {
            100
        } else {
            v
        }
    }

    /// The incident log as CSV: a header line, then one line per incident, newest first.
    pub fn incidents_csv(&self) -> (r: String)
        ensures
            r@ == incidents_csv_text(self.incident_log()),
    {
        let mut out = String::from_str("time,severity,incident_type,source_ip,details,mitigation\n");
        let ghost header = "time,severity,incident_type,source_ip,details,mitigation\n"@;
        let mut i: usize = 0;
        while i < self.incidents.len()
            invariant
                i <= self.incidents@.len(),
                out@ == header + csv_rows(self.incidents@.subrange(0, i as int)),
                header == "time,severity,incident_type,source_ip,details,mitigation\n"@,
            decreases self.incidents@.len() - i,
        {
            let inc = &self.incidents[i];
            let line = csv_line(inc);
            proof {
                let s = self.incidents@.subrange(0, i + 1);
                assert(s.drop_last() =~= self.incidents@.subrange(0, i as int));
            }
            out.append(line.as_str());
            i += 1;
            assert(out@ =~= header + csv_rows(self.incidents@.subrange(0, i as int)));
        }
        assert(self.incidents@.subrange(0, self.incidents@.len() as int) =~= self.incidents@);
        out
    }
}

/// The switches and the flood threshold agree.
pub open spec fn same_switches(a: &SecurityEngine, b: &SecurityEngine) -> bool {
    &&& a.detection_on() == b.detection_on()
    &&& a.auto_block_on() == b.auto_block_on()
    &&& a.arp_on() == b.arp_on()
    &&& a.flood_limit() == b.flood_limit()
}

/// The three cooldown tables agree.
pub open spec fn same_cooldowns(a: &SecurityEngine, b: &SecurityEngine) -> bool {
    &&& a.scan_cooldown() == b.scan_cooldown()
    &&& a.hard_cooldown() == b.hard_cooldown()
    &&& a.flood_cooldown_table() == b.flood_cooldown_table()
}

/// The incident log and the next id agree.
pub open spec fn same_log(a: &SecurityEngine, b: &SecurityEngine) -> bool {
    &&& a.incident_log() == b.incident_log()
    &&& a.next_incident_id() == b.next_incident_id()
}

/// Everything but the incident log and the quarantine is the same in `a` and `b`.
pub open spec fn same_detection_state(a: &SecurityEngine, b: &SecurityEngine) -> bool {
    &&& a.detection_on() == b.detection_on()
    &&& a.auto_block_on() == b.auto_block_on()
    &&& a.arp_on() == b.arp_on()
    &&& a.flood_limit() == b.flood_limit()
    &&& a.hard_drops() == b.hard_drops()
    &&& a.blocks() == b.blocks()
    &&& a.query_history() == b.query_history()
    &&& a.hard_history() == b.hard_history()
    &&& a.probes() == b.probes()
    &&& a.scan_cooldown() == b.scan_cooldown()
    &&& a.hard_cooldown() == b.hard_cooldown()
    &&& a.flood_cooldown_table() == b.flood_cooldown_table()
    &&& a.gateway_seen() == b.gateway_seen()
}

/// The incident log after logging `r`: `r` first, then the newest earlier entries,
/// 500 at most in all.
pub open spec fn log_after(log: Seq<SecurityIncident>, r: SecurityIncident) -> Seq<SecurityIncident> {
    if log.len() < 500 {
        seq![r] + log
    } else {
        seq![r] + log.subrange(0, 499)
    }
}

/// The score for a log of `count` incidents and the two switches.
pub open spec fn spec_security_score(count: int, detection: bool, auto_block: bool) -> int {
    let base = 100 - (if detection { 0int } else { 25int }) - (if auto_block { 0int } else { 15int });
    let v = base - count * 5;
    if v < 10 {
        10
    } else if v > 100 {
        100
    } else {
        v
    }
}

/// A field that starts with `=`, `+`, `-`, `@`, tab or carriage return, which a
/// spreadsheet would take for a formula.
pub open spec fn csv_risky(f: Seq<char>) -> bool {
    f.len() > 0 && (f[0] == '=' || f[0] == '+' || f[0] == '-' || f[0] == '@' || f[0] == '\t' || f[0]
        == '\r')
}

/// `f` with each double quote doubled.
pub open spec fn double_quotes(f: Seq<char>) -> Seq<char>
    decreases f.len(),
{
    if f.len() == 0 {
        f
    } else if f.last() == '"' {
        double_quotes(f.drop_last()) + seq!['"', '"']
    } else {
        double_quotes(f.drop_last()).push(f.last())
    }
}

/// A CSV field: quoted, inner quotes doubled, and prefixed with `'` when risky.
pub open spec fn csv_field(f: Seq<char>) -> Seq<char> {
    seq!['"'] + (if csv_risky(f) { seq!['\''] } else { Seq::empty() }) + double_quotes(f) + seq!['"']
}

/// One CSV line of an incident: time, severity, type, source, details, mitigation.
pub open spec fn csv_line_text(i: SecurityIncident) -> Seq<char> {
    csv_field(i.time@) + seq![','] + csv_field(i.severity@) + seq![','] + csv_field(i.incident_type@)
        + seq![','] + csv_field(i.source_ip@) + seq![','] + csv_field(i.details@) + seq![',']
        + csv_field(i.mitigation@) + seq!['\n']
}

/// The CSV lines of a list of incidents, in order.
pub open spec fn csv_rows(s: Seq<SecurityIncident>) -> Seq<char>
    decreases s.len(),
{
    if s.len() == 0 {
        Seq::empty()
    } else {
        csv_rows(s.drop_last()) + csv_line_text(s.last())
    }
}

/// The CSV export of an incident log.
pub open spec fn incidents_csv_text(s: Seq<SecurityIncident>) -> Seq<char> {
    "time,severity,incident_type,source_ip,details,mitigation\n"@ + csv_rows(s)
}

/// A field quoted for CSV.
pub fn csv_escape(field: &str) -> (r: String)
    ensures
        r@ == csv_field(field@),
{
    let c = chars_of(field);
    let risky = c.len() > 0 && (c[0] == '=' || c[0] == '+' || c[0] == '-' || c[0] == '@' || c[0] == '\t'
        || c[0] == '\r');
    let mut out: Vec<char> = Vec::new();
    out.push('"');
    if risky {
        out.push('\'');
    }
    let ghost pre = out@;
    let mut i: usize = 0;
    while i < c.len()
        invariant
            i <= c@.len(),
            out@ == pre + double_quotes(c@.subrange(0, i as int)),
        decreases c@.len() - i,
    {
        proof {
            assert(c@.subrange(0, i + 1).drop_last() =~= c@.subrange(0, i as int));
        }
        if c[i] == '"' {
            out.push('"');
            out.push('"');
        } else {
            out.push(c[i]);
        }
        i += 1;
        assert(out@ =~= pre + double_quotes(c@.subrange(0, i as int)));
    }
    out.push('"');
    assert(c@.subrange(0, c@.len() as int) =~= c@);
    assert(out@ =~= csv_field(field@));
    string_from_chars(out.as_slice())
}

fn csv_line(i: &SecurityIncident) -> (r: String)
    ensures
        r@ == csv_line_text(*i),
{
    let mut s = csv_escape(i.time.as_str());
    s.append(",");
    let a = csv_escape(i.severity.as_str());
    s.append(a.as_str());
    s.append(",");
    let b = csv_escape(i.incident_type.as_str());
    s.append(b.as_str());
    s.append(",");
    let c = csv_escape(i.source_ip.as_str());
    s.append(c.as_str());
    s.append(",");
    let d = csv_escape(i.details.as_str());
    s.append(d.as_str());
    s.append(",");
    let e = csv_escape(i.mitigation.as_str());
    s.append(e.as_str());
    s.append("\n");
    proof {
        reveal_strlit(",");
        reveal_strlit("\n");
    }
    assert(s@ =~= csv_line_text(*i));
    s
}

/// The score never leaves 10..=100, whatever the log and switches.
pub proof fn lemma_security_score_bounds(count: int, detection: bool, auto_block: bool)
    ensures
        10 <= spec_security_score(count, detection, auto_block) <= 100,
{
}

/// The incident log stays bounded and newest-first: after logging `r`, `r` comes first,
/// at most 500 entries remain, and the earlier entries keep their order.
pub proof fn lemma_log_after_shape(log: Seq<SecurityIncident>, r: SecurityIncident)
    requires
        log.len() <= 500,
    ensures
        log_after(log, r).len() <= 500,
        log_after(log, r)[0] == r,
        forall|i: int| 0 <= i < log_after(log, r).len() - 1 ==> #[trigger] log_after(log, r)[i + 1] == log[i],
{
}

} // verus!
