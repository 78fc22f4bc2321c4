//! The decisions of a LAN sweep: which service answered first, what a NetBIOS reply
//! names, which ARP-table lines count, how probe and table results merge, and how a
//! device record is built from what was learned.
use vstd::prelude::*;
use crate::i18n::{spec_tr_with, tr_with};
use crate::monitor::discovery::DiscoveryHint;
use crate::monitor::lan::{spec_classify, spec_estimate_os, LanDevice, LanScanner};
use crate::monitor::oui::spec_lookup_vendor;
use crate::monitor::ports::{
    highest_risk, max_rank, spec_worst_advice, worst_port_advice, OpenPort, PortRisk,
};
use crate::security::table::KeyTable;
use crate::text::{
    lex_lt, lex_lt_exec, lemma_lex_irreflexive, lemma_lex_total, lemma_lex_transitive,
    chars_of, contains_seq, contains_str, ends_with, ends_with_str, eq_str, names_of, slice_vec,
    spec_unicode_uppercase, spec_utf8_lossy, starts_with, starts_with_str, string_from_chars,
    trim, trim_vec, unicode_uppercase, utf8_lossy, ws_tokens, ws_tokens_vec,
};

verus! {

/// TCP ports probed to recognise a device, in order of precedence, with the device
/// class an open port suggests in Vietnamese, English and Chinese.
pub const SERVICE_PROBES: [(u16, &'static str, &'static str, &'static str); 18] = [
    (554, "📷 Camera an ninh (RTSP/CCTV)", "📷 Security Camera (RTSP/CCTV)", "📷 安防摄像机 (IP Camera / RTSP)"),
    (8000, "📷 Camera Hikvision / DVR", "📷 Hikvision Camera / DVR", "📷 海康威视摄像机 (Hikvision Camera / DVR)"),
    (37777, "📷 Camera Dahua / KBVision", "📷 Dahua / KBVision Camera", "📷 大华摄像机 (Dahua / KBVision Camera)"),
    (8899, "📷 Camera ONVIF IP", "📷 ONVIF IP Camera", "📷 ONVIF 网络摄像机 (ONVIF IP Camera)"),
    (9100, "🖨️ Máy in mạng (Printer - RAW/JetDirect)", "🖨️ Network Printer (RAW/JetDirect)", "🖨️ 网络打印机 (Printer - RAW/JetDirect)"),
    (631, "🖨️ Máy in mạng (Printer - IPP)", "🖨️ Network Printer (IPP)", "🖨️ 网络打印机 (Printer - IPP)"),
    (8008, "📺 Smart TV / Google Cast", "📺 Smart TV / Google Cast", "📺 智能电视 (Smart TV / Google Cast)"),
    (8009, "📺 Smart TV / Chromecast", "📺 Smart TV / Chromecast", "📺 智能电视 (Smart TV / Chromecast)"),
    (7000, "📺 Smart TV / AirPlay", "📺 Smart TV / AirPlay", "📺 智能电视 (Smart TV / AirPlay)"),
    (445, "💻 Máy tính (Windows PC)", "💻 Computer (Windows PC)", "💻 电脑 (Windows PC)"),
    (139, "💻 Máy tính (PC - NetBIOS)", "💻 Computer (PC - NetBIOS)", "💻 电脑 (PC - NetBIOS)"),
    (3389, "💻 Máy tính (PC - Remote Desktop)", "💻 Computer (PC - Remote Desktop)", "💻 电脑 (PC - 远程桌面)"),
    (22, "🖥️ Máy chủ / Server (Linux/Mac)", "🖥️ Computer / Server (Linux/Mac)", "🖥️ 电脑 / 服务器 (Server - Linux/Mac)"),
    (62078, "📱 iPhone / iPad (Apple iOS)", "📱 iPhone / iPad (Apple iOS)", "📱 iPhone / iPad (苹果 iOS)"),
    (5555, "📱 Điện thoại Android (ADB)", "📱 Android Phone (ADB)", "📱 安卓手机 (Android Phone - ADB)"),
    (80, "🌐 Thiết bị mạng / Web", "🌐 Network Device / Web", "🌐 网络设备 / Web"),
    (443, "🌐 Thiết bị mạng (HTTPS)", "🌐 Network Device (HTTPS)", "🌐 网络设备 (HTTPS)"),
    (8080, "🌐 Thiết bị thông minh (Web Port)", "🌐 Smart Device (Web Port)", "🌐 智能设备 (Web Port)"),
];

/// The ports to probe, in order of precedence.
pub fn service_probe_ports() -> (r: Vec<u16>)
    ensures
        r@.len() == 18,
        forall|i: int| 0 <= i < 18 ==> #[trigger] r@[i] == SERVICE_PROBES@[i].0,
{
    let mut out: Vec<u16> = Vec::new();
    let mut i: usize = 0;
    while i < 18
        invariant
            i <= 18,
            out@.len() == i,
            forall|j: int| 0 <= j < i ==> #[trigger] out@[j] == SERVICE_PROBES@[j].0,
        decreases 18 - i,
    {
        out.push(SERVICE_PROBES[i].0);
        i += 1;
    }
    out
}

/// Position of `port` among the probes from `i` on, or 18 when it is not probed.
pub open spec fn probe_pos(port: u16, i: int) -> int
    decreases 18 - i,
{
    if i < 0 || i >= 18 {
        18
    } else if SERVICE_PROBES@[i].0 == port {
        i
    } else {
        probe_pos(port, i + 1)
    }
}

/// Among the first `n` answers, the index of the earliest one of highest precedence.
pub open spec fn best_upto(hits: Seq<(u16, u128)>, n: int) -> int
    decreases n,
{
    if n <= 1 {
        0
    } else {
        let b = best_upto(hits, n - 1);
        if probe_pos(hits[n - 1].0, 0) < probe_pos(hits[b].0, 0) {
            n - 1
        } else {
            b
        }
    }
}

/// The answers from probed ports, in the order they came.
pub open spec fn known_hits(hits: Seq<(u16, u128)>) -> Seq<(u16, u128)>
    decreases hits.len(),
{
    if hits.len() == 0 {
        hits
    } else if probe_pos(hits.last().0, 0) < 18 {
        known_hits(hits.drop_last()).push(hits.last())
    } else {
        known_hits(hits.drop_last())
    }
}

/// The device class and latency that the answering ports suggest: the answer of
/// highest precedence wins (the earliest among equals), its latency is the time it
/// took, at least 1 ms; answers from ports that are not probed are ignored.
pub open spec fn spec_best_service(hits: Seq<(u16, u128)>, lang: u8) -> (Option<Seq<char>>, Option<i32>) {
    let k = known_hits(hits);
    if k.len() == 0 {
        (None, None)
    } else {
        let h = k[best_upto(k, k.len() as int)];
        let e = SERVICE_PROBES@[probe_pos(h.0, 0)];
        (Some(spec_tr_with(lang, e.1@, e.2@, e.3@)), Some(if h.1 == 0 { 1i32 } else { h.1 as i32 }))
    }
}

proof fn lemma_best_upto_bound(hits: Seq<(u16, u128)>, n: int)
    requires
        1 <= n,
    ensures
        0 <= best_upto(hits, n) < n,
    decreases n,
{
    if n > 1 {
        lemma_best_upto_bound(hits, n - 1);
    }
}

fn probe_pos_exec(port: u16) -> (r: usize)
    ensures
        r == probe_pos(port, 0),
        r <= 18,
{
    let mut i: usize = 0;
    while i < 18
        invariant
            i <= 18,
            probe_pos(port, 0) == probe_pos(port, i as int),
        decreases 18 - i,
    {
        if SERVICE_PROBES[i].0 == port {
            return i;
        }
        i += 1;
    }
    18
}

/// The device class and latency from the ports that accepted a connection, each with
/// the milliseconds from the start of probing until it answered.
pub fn best_service_hit(hits: &[(u16, u128)], lang: u8) -> (r: (Option<&'static str>, Option<i32>))
    ensures
        (match r.0 {
            Some(s) => Some(s@),
            None => None,
        }, r.1) == spec_best_service(hits@, lang),
{
    let mut known: Vec<(u16, u128)> = Vec::new();
    let mut i: usize = 0;
    assert(hits@.subrange(0, 0) =~= Seq::<(u16, u128)>::empty());
    while i < hits.len()
        invariant
            i <= hits@.len(),
            known@ == known_hits(hits@.subrange(0, i as int)),
            forall|k: int| 0 <= k < known@.len() ==> probe_pos(#[trigger] known@[k].0, 0) < 18,
        decreases hits@.len() - i,
    {
        proof {
            assert(hits@.subrange(0, i + 1).drop_last() =~= hits@.subrange(0, i as int));
        }
        if probe_pos_exec(hits[i].0) < 18 {
            known.push(hits[i]);
        }
        i += 1;
    }
    assert(hits@.subrange(0, hits@.len() as int) =~= hits@);
    if known.len() == 0 {
        return (None, None);
    }
    let mut best: usize = 0;
    let mut best_pos: usize = probe_pos_exec(known[0].0);
    let mut j: usize = 1;
    while j < known.len()
        invariant
            1 <= j <= known@.len(),
            best == best_upto(known@, j as int),
            best < j,
            best_pos == probe_pos(known@[best as int].0, 0),
            forall|k: int| 0 <= k < known@.len() ==> probe_pos(#[trigger] known@[k].0, 0) < 18,
        decreases known@.len() - j,
    {
        let p = probe_pos_exec(known[j].0);
        if p < best_pos {
            best = j;
            best_pos = p;
        }
        j += 1;
    }
    let h = known[best];
    let pos = best_pos;
    assert(probe_pos(known@[best as int].0, 0) < 18);
    let e = SERVICE_PROBES[pos];
    let label = tr_with(lang, e.1, e.2, e.3);
    let latency: i32 = if h.1 == 0 {
        1
    } else {
        h.1 as i32
    };
    (Some(label), Some(latency))
}

/// A NetBIOS node-status request for the wildcard name `*`.
pub const NETBIOS_NAME_QUERY: [u8; 50] = [
    0x80, 0x00, 0x00, 0x00, 0x00, 0x01, 0x00, 0x00, 0x00, 0x00, 0x00, 0x00, 0x20, 0x43, 0x4B,
    0x41, 0x41, 0x41, 0x41, 0x41, 0x41, 0x41, 0x41, 0x41, 0x41, 0x41, 0x41, 0x41, 0x41, 0x41,
    0x41, 0x41, 0x41, 0x41, 0x41, 0x41, 0x41, 0x41, 0x41, 0x41, 0x41, 0x41, 0x41, 0x41, 0x41,
    0x00, 0x00, 0x21, 0x00, 0x01,
];

/// The NetBIOS node-status request, as bytes to send to UDP port 137.
pub fn netbios_query_packet() -> (r: Vec<u8>)
    ensures
        r@ == NETBIOS_NAME_QUERY@,
{
    let mut out: Vec<u8> = Vec::new();
    let mut i: usize = 0;
    while i < 50
        invariant
            i <= 50,
            out@ == NETBIOS_NAME_QUERY@.subrange(0, i as int),
        decreases 50 - i,
    {
        out.push(NETBIOS_NAME_QUERY[i]);
        i += 1;
        assert(out@ =~= NETBIOS_NAME_QUERY@.subrange(0, i as int));
    }
    assert(NETBIOS_NAME_QUERY@.subrange(0, 50) =~= NETBIOS_NAME_QUERY@);
    out
}

/// The name of the 18-byte entry at `off`, if it is a unique workstation name: the
/// first 15 bytes decoded and trimmed, the type byte 0, the group flag clear, and the
/// name neither empty nor `IS~`.
pub open spec fn nb_entry_name(buf: Seq<u8>, off: int) -> Option<Seq<char>> {
    let name = trim(spec_utf8_lossy(buf.subrange(off, off + 15)));
    if buf[off + 15] == 0 && buf[off + 16] < 0x80 && name.len() > 0 && name != "IS~"@ {
        Some(name)
    } else {
        None
    }
}

/// The first workstation name among the entries `k..n` of a node-status reply; the
/// entries stop at the first one that does not fit.
pub open spec fn nb_scan(buf: Seq<u8>, k: int, n: int) -> Option<Seq<char>>
    decreases n - k,
{
    if k < 0 || k >= n || 57 + 18 * k + 18 > buf.len() {
        None
    } else {
        match nb_entry_name(buf, 57 + 18 * k) {
            Some(x) => Some(x),
            None => nb_scan(buf, k + 1, n),
        }
    }
}

/// The workstation name a NetBIOS node-status reply gives, if any.
pub open spec fn spec_netbios_name(buf: Seq<u8>) -> Option<Seq<char>> {
    if buf.len() > 56 {
        nb_scan(buf, 0, buf[56] as int)
    } else {
        None
    }
}

/// The workstation name in a NetBIOS node-status reply `buf` (the bytes received).
pub fn parse_netbios_name(buf: &[u8]) -> (r: Option<String>)
    ensures
        match r {
            Some(s) => spec_netbios_name(buf@) == Some(s@),
            None => spec_netbios_name(buf@) is None,
        },
{
    if buf.len() <= 56 {
        return None;
    }
    let n: usize = buf[56] as usize;
    let mut k: usize = 0;
    while k < n
        invariant
            buf@.len() > 56,
            n == buf@[56] as int,
            n < 256,
            k <= n,
            spec_netbios_name(buf@) == nb_scan(buf@, k as int, n as int),
        decreases n - k,
    {
        let off: usize = 57 + 18 * k;
        if off + 18 > buf.len() {
            return None;
        }
        let raw = vstd::slice::slice_subrange(buf, off, off + 15);
        let lossy = utf8_lossy(raw);
        let lc = chars_of(lossy.as_str());
        let name = trim_vec(lc.as_slice());
        if buf[off + 15] == 0 && buf[off + 16] < 0x80 && name.len() > 0 && !eq_str(name.as_slice(), "IS~") {
            return Some(string_from_chars(name.as_slice()));
        }
        k += 1;
    }
    None
}

/// `s` with every `-` written as `:`.
pub open spec fn dash_to_colon(s: Seq<char>) -> Seq<char> {
    Seq::new(s.len(), |i: int| if s[i] == '-' { ':' } else { s[i] })
}

/// The address and normalized MAC of a line of the system ARP table: the first two
/// of at least three whitespace-separated fields, the MAC with `-` written as `:` and
/// upper-cased; broadcast and null MACs and broadcast or multicast addresses are
/// skipped. Whether the address parses is left to the caller.
pub open spec fn spec_arp_fields(line: Seq<char>) -> Option<(Seq<char>, Seq<char>)> {
    let toks = ws_tokens(trim(line));
    if toks.len() >= 3 {
        let ip = toks[0];
        let mac = spec_unicode_uppercase(dash_to_colon(toks[1]));
        if mac == "FF:FF:FF:FF:FF:FF"@ || mac == "00:00:00:00:00:00"@ || ends_with(ip, ".255"@)
            || starts_with(ip, "224."@) || starts_with(ip, "239."@) {
            None
        } else {
            Some((ip, mac))
        }
    } else {
        None
    }
}

/// The address and normalized MAC of an ARP-table line, if it names a unicast host.
pub fn arp_line_fields(line: &str) -> (r: Option<(String, String)>)
    ensures
        match r {
            Some(p) => spec_arp_fields(line@) == Some((p.0@, p.1@)),
            None => spec_arp_fields(line@) is None,
        },
{
    let lc = chars_of(line);
    let t = trim_vec(lc.as_slice());
    let toks = ws_tokens_vec(t.as_slice());
    if toks.len() < 3 {
        return None;
    }
    assert(toks@[0]@ == ws_tokens(trim(line@))[0]);
    assert(toks@[1]@ == ws_tokens(trim(line@))[1]);
    let ip = &toks[0];
    let raw = &toks[1];
    let mut dashed: Vec<char> = Vec::new();
    let mut i: usize = 0;
    while i < raw.len()
        invariant
            i <= raw@.len(),
            dashed@.len() == i,
            forall|j: int| 0 <= j < i ==> #[trigger] dashed@[j] == (if raw@[j] == '-' { ':' } else { raw@[j] }),
        decreases raw@.len() - i,
    {
        if raw[i] == '-' {
            dashed.push(':');
        } else {
            dashed.push(raw[i]);
        }
        i += 1;
    }
    assert(dashed@ =~= dash_to_colon(raw@));
    let ds = string_from_chars(dashed.as_slice());
    let mac = unicode_uppercase(ds.as_str());
    let mc = chars_of(mac.as_str());
    if eq_str(mc.as_slice(), "FF:FF:FF:FF:FF:FF") || eq_str(mc.as_slice(), "00:00:00:00:00:00")
        || ends_with_str(ip.as_slice(), ".255") || starts_with_str(ip.as_slice(), "224.")
        || starts_with_str(ip.as_slice(), "239.") {
        return None;
    }
    Some((string_from_chars(ip.as_slice()), mac))
}

/// The MAC the last probe answer for `q` gave, if any.
pub open spec fn last_probe(probed: Seq<(String, String)>, q: Seq<char>) -> Option<Seq<char>>
    decreases probed.len(),
{
    if probed.len() == 0 {
        None
    } else if probed.last().0@ == q {
        Some(probed.last().1@)
    } else {
        last_probe(probed.drop_last(), q)
    }
}

/// The MAC the first ARP-table line for `q` gave, if any.
pub open spec fn first_listed(listed: Seq<(String, String)>, q: Seq<char>) -> Option<Seq<char>>
    decreases listed.len(),
{
    if listed.len() == 0 {
        None
    } else if listed[0].0@ == q {
        Some(listed[0].1@)
    } else {
        first_listed(listed.drop_first(), q)
    }
}

/// The MAC known for `q`: a probe answer (the last one) takes precedence over the ARP
/// table (its first line).
pub open spec fn discovered_mac(probed: Seq<(String, String)>, listed: Seq<(String, String)>, q: Seq<char>) -> Option<Seq<char>> {
    match last_probe(probed, q) {
        Some(m) => Some(m),
        None => first_listed(listed, q),
    }
}

/// The view of an optional text.
pub open spec fn opt_text(o: Option<String>) -> Option<Seq<char>> {
    match o {
        Some(s) => Some(s@),
        None => None,
    }
}

/// Merges the hosts that answered an ARP probe with the lines of the ARP table into
/// one table from address to MAC.
pub fn merge_discovered(probed: &Vec<(String, String)>, listed: &Vec<(String, String)>) -> (r: KeyTable<String>)
    ensures
        r.wf(),
        forall|q: Seq<char>| #[trigger] opt_text(r.lookup(q)) == discovered_mac(probed@, listed@, q),
{
    let mut t: KeyTable<String> = KeyTable::new();
    let mut i: usize = 0;
    assert(probed@.subrange(0, 0) =~= Seq::<(String, String)>::empty());
    while i < probed.len()
        invariant
            i <= probed@.len(),
            t.wf(),
            forall|q: Seq<char>| #[trigger] opt_text(t.lookup(q)) == last_probe(probed@.subrange(0, i as int), q),
        decreases probed@.len() - i,
    {
        proof {
            assert(probed@.subrange(0, i + 1).drop_last() =~= probed@.subrange(0, i as int));
        }
        let k = chars_of(probed[i].0.as_str());
        t.insert(k, probed[i].1.clone());
        i += 1;
    }
    assert(probed@.subrange(0, probed@.len() as int) =~= probed@);
    assert(listed@.subrange(0, listed@.len() as int) =~= listed@);
    let mut j: usize = 0;
    while j < listed.len()
        invariant
            j <= listed@.len(),
            t.wf(),
            forall|q: Seq<char>| discovered_mac(probed@, listed@, q) == match opt_text(#[trigger] t.lookup(q)) {
                Some(m) => Some(m),
                None => first_listed(listed@.subrange(j as int, listed@.len() as int), q),
            },
        decreases listed@.len() - j,
    {
        let ghost rest = listed@.subrange(j as int, listed@.len() as int);
        proof {
            assert(rest.drop_first() =~= listed@.subrange(j + 1, listed@.len() as int));
        }
        let k = chars_of(listed[j].0.as_str());
        if !t.contains_key(k.as_slice()) {
            t.insert(k, listed[j].1.clone());
        }
        j += 1;
    }
    proof {
        assert forall|q: Seq<char>| #[trigger] opt_text(t.lookup(q)) == discovered_mac(probed@, listed@, q) by {
            assert(listed@.subrange(listed@.len() as int, listed@.len() as int) =~= Seq::<(String, String)>::empty());
        }
    }
    t
}

/// The record of this machine: named after its host name, at its outbound address,
/// fully trusted and safe.
pub fn local_device(hostname: &str, local_ip: &str, lang: u8) -> (r: LanDevice)
    ensures
        r.name@ == "💻 "@ + hostname@ + " ("@ + spec_tr_with(lang, "Máy tính này / This PC"@, "This PC"@, "本机"@) + ")"@,
        r.ip@ == local_ip@,
        r.mac@ == spec_tr_with(lang, "Cục bộ (Local Host)"@, "Local Host"@, "本地主机"@),
        r.vendor@ == spec_tr_with(lang, "Hệ thống máy này"@, "This System"@, "本机系统"@),
        r.device_type@ == spec_tr_with(lang, "💻 Máy tính (PC / Laptop)"@, "💻 Computer (PC / Laptop)"@, "💻 电脑 (PC / 笔记本)"@),
        r.is_online,
        r.latency_ms == 0,
        r.traffic@ == spec_tr_with(lang, "Hoạt động"@, "Active"@, "活跃"@),
        r.total_queries == 0 && r.blocked_queries == 0 && r.threats_detected == 0,
        r.last_domain@ == "-"@ && r.last_active@ == "-"@,
        r.risk_level@ == spec_tr_with(lang, "🟢 An toàn"@, "🟢 Safe"@, "🟢 安全"@),
        r.open_ports@.len() == 0,
        r.port_risk@.len() == 0 && r.port_advice@.len() == 0 && r.custom_alias@.len() == 0,
        r.confidence == 100,
        r.os_name@ == "Windows 11 (Host OS)"@,
        !r.is_quarantined,
        r.bandwidth_rate@ == "0 KB/s"@,
{
    let mut name = String::from_str("💻 ");
    name.append(hostname);
    name.append(" (");
    name.append(tr_with(lang, "Máy tính này / This PC", "This PC", "本机"));
    name.append(")");
    LanDevice {
        name,
        ip: String::from_str(local_ip),
        mac: String::from_str(tr_with(lang, "Cục bộ (Local Host)", "Local Host", "本地主机")),
        vendor: String::from_str(tr_with(lang, "Hệ thống máy này", "This System", "本机系统")),
        device_type: String::from_str(
            tr_with(lang, "💻 Máy tính (PC / Laptop)", "💻 Computer (PC / Laptop)", "💻 电脑 (PC / 笔记本)"),
        ),
        is_online: true,
        latency_ms: 0,
        traffic: String::from_str(tr_with(lang, "Hoạt động", "Active", "活跃")),
        total_queries: 0,
        blocked_queries: 0,
        threats_detected: 0,
        last_domain: String::from_str("-"),
        last_active: String::from_str("-"),
        risk_level: String::from_str(tr_with(lang, "🟢 An toàn", "🟢 Safe", "🟢 安全")),
        open_ports: Vec::new(),
        port_risk: String::new(),
        port_advice: String::new(),
        confidence: 100,
        custom_alias: String::new(),
        os_name: String::from_str("Windows 11 (Host OS)"),
        is_quarantined: false,
        bandwidth_rate: String::from_str("0 KB/s"),
    }
}

/// The name of a risk rank, empty when there is none.
pub open spec fn rank_name(k: int) -> Seq<char> {
    if k == 2 {
        "HIGH"@
    } else if k == 1 {
        "MEDIUM"@
    } else if k == 0 {
        "LOW"@
    } else {
        Seq::empty()
    }
}

/// The vendor text marks a vendor that the MAC prefix really identifies.
pub open spec fn vendor_is_known(vendor: Seq<char>, lang: u8) -> bool {
    !contains_seq(vendor, spec_tr_with(lang, "Thiết bị mạng (LAN Host)"@, "LAN Host"@, "局域网主机"@))
        && !contains_seq(vendor, spec_tr_with(lang, "Không xác định"@, "Unknown"@, "未知"@))
        && !contains_seq(vendor, spec_tr_with(lang, "MAC riêng tư"@, "Private MAC"@, "随机 MAC"@))
}

/// The view of an optional static text.
pub open spec fn opt_str(o: Option<&'static str>) -> Option<Seq<char>> {
    match o {
        Some(s) => Some(s@),
        None => None,
    }
}

/// The view of an optional borrowed text.
pub open spec fn opt_ref(o: Option<&str>) -> Option<Seq<char>> {
    match o {
        Some(s) => Some(s@),
        None => None,
    }
}

/// The class hint for a device: the discovery keyword if there is one, else the
/// probed service.
pub open spec fn class_hint(hint: Option<DiscoveryHint>, service: Option<&'static str>) -> Option<Seq<char>> {
    match hint {
        Some(h) => match h.keyword {
            Some(k) => Some(k@),
            None => opt_str(service),
        },
        None => opt_str(service),
    }
}

/// The discovery hint came from the given protocol.
pub open spec fn hint_from(hint: Option<DiscoveryHint>, source: Seq<char>) -> bool {
    match hint {
        Some(h) => h.source@ == source,
        None => false,
    }
}

/// The display name of a discovered device.
pub open spec fn device_name(ip: Seq<char>, vendor: Seq<char>, host: Option<Seq<char>>, label: Seq<char>) -> Seq<char> {
    if ends_with(ip, ".1"@) || ends_with(ip, ".254"@) {
        "📡 Router Wi-Fi / Gateway ("@ + vendor + ")"@
    } else if host is Some {
        host->0 + " - "@ + label
    } else {
        label + " ("@ + ip + ")"@
    }
}

/// The record of a discovered device from what the sweep learned: its MAC vendor,
/// the probed service and latency, its NetBIOS name, its discovery hint and its open
/// ports.
pub fn enrich_device(
    ip: &str,
    mac: &str,
    hint: Option<&DiscoveryHint>,
    service_type: Option<&'static str>,
    latency: Option<i32>,
    netbios_name: Option<&str>,
    open_ports: Vec<OpenPort>,
    lang: u8,
) -> (r: LanDevice)
    ensures
        ({
            let vendor = spec_lookup_vendor(mac@, lang);
            let h = match hint {
                Some(x) => Some(*x),
                None => None,
            };
            let label = spec_classify(ip@, vendor, class_hint(h, service_type), opt_ref(netbios_name), lang).0;
            &&& r.name@ == device_name(ip@, vendor, opt_ref(netbios_name), label)
            &&& r.ip@ == ip@ && r.mac@ == mac@ && r.vendor@ == vendor
            &&& r.device_type@ == label
            &&& r.is_online
            &&& r.latency_ms == match latency {
                Some(l) => l,
                None => -1i32,
            }
            &&& r.traffic@ == spec_tr_with(lang, "Hoạt động"@, "Active"@, "活跃"@)
            &&& r.total_queries == 0 && r.blocked_queries == 0 && r.threats_detected == 0
            &&& r.last_domain@ == "-"@ && r.last_active@ == "-"@
            &&& r.risk_level@ == "🟢 An toàn"@
            &&& r.open_ports@ == open_ports@
            &&& r.port_risk@ == rank_name(max_rank(open_ports@))
            &&& r.port_advice@ == spec_worst_advice(open_ports@)
            &&& r.confidence == crate::monitor::lan::spec_confidence(
                vendor_is_known(vendor, lang),
                service_type is Some,
                netbios_name is Some,
                hint_from(h, "mDNS"@),
                hint_from(h, "SSDP"@),
            )
            &&& r.custom_alias@.len() == 0
            &&& r.os_name@ == spec_estimate_os(vendor, open_ports@, opt_str(service_type), opt_ref(netbios_name))
            &&& !r.is_quarantined
            &&& r.bandwidth_rate@ == "0 KB/s"@
        }),
{
    let vendor = LanScanner::lookup_vendor(mac, lang);
    let vc = chars_of(vendor.as_str());
    let vendor_known = !contains_str(vc.as_slice(), tr_with(lang, "Thiết bị mạng (LAN Host)", "LAN Host", "局域网主机"))
        && !contains_str(vc.as_slice(), tr_with(lang, "Không xác định", "Unknown", "未知"))
        && !contains_str(vc.as_slice(), tr_with(lang, "MAC riêng tư", "Private MAC", "随机 MAC"));
    let (has_mdns, has_ssdp, hint_kw) = match hint {
        Some(h) => {
            let sc = chars_of(h.source);
            (eq_str(sc.as_slice(), "mDNS"), eq_str(sc.as_slice(), "SSDP"), h.keyword)
        },
        None => (false, false, None),
    };
    let confidence = LanScanner::confidence_score(
        vendor_known,
        service_type.is_some(),
        netbios_name.is_some(),
        has_mdns,
        has_ssdp,
    );
    let classify_hint: Option<&str> = match hint_kw {
        Some(k) => Some(k),
        None => service_type,
    };
    let (device_label, _) = LanScanner::classify_final(ip, vendor.as_str(), classify_hint, netbios_name, lang);
    let ipc = chars_of(ip);
    let name = if ends_with_str(ipc.as_slice(), ".1") || ends_with_str(ipc.as_slice(), ".254") {
        let mut n = String::from_str("📡 Router Wi-Fi / Gateway (");
        n.append(vendor.as_str());
        n.append(")");
        n
    } else {
        match netbios_name {
            Some(host) => {
                let mut n = String::from_str(host);
                n.append(" - ");
                n.append(device_label);
                n
            },
            None => {
                let mut n = String::from_str(device_label);
                n.append(" (");
                n.append(ip);
                n.append(")");
                n
            },
        }
    };
    let port_risk = match highest_risk(open_ports.as_slice()) {
        Some(x) => String::from_str(x.as_str()),
        None => String::new(),
    };
    let port_advice = worst_port_advice(open_ports.as_slice());
    let os_name = LanScanner::estimate_os(vendor.as_str(), open_ports.as_slice(), service_type, netbios_name);
    let latency_ms: i32 = match latency {
        Some(l) => l,
        None => -1,
    };
    LanDevice {
        name,
        ip: String::from_str(ip),
        mac: String::from_str(mac),
        vendor,
        device_type: String::from_str(device_label),
        is_online: true,
        latency_ms,
        traffic: String::from_str(tr_with(lang, "Hoạt động", "Active", "活跃")),
        total_queries: 0,
        blocked_queries: 0,
        threats_detected: 0,
        last_domain: String::from_str("-"),
        last_active: String::from_str("-"),
        risk_level: String::from_str("🟢 An toàn"),
        open_ports,
        port_risk,
        port_advice,
        confidence,
        custom_alias: String::new(),
        os_name,
        is_quarantined: false,
        bandwidth_rate: String::from_str("0 KB/s"),
    }
}

/// Where a device goes in the list: the gateway (`.1`) first, this machine next, then
/// the others.
pub open spec fn device_rank(d: LanDevice) -> int {
    if ends_with(d.ip@, ".1"@) {
        0
    } else if contains_seq(d.name@, "This PC"@) {
        1
    } else {
        2
    }
}

/// `a` goes strictly before `b`: by rank, then by address in text order.
pub open spec fn device_before(a: LanDevice, b: LanDevice) -> bool {
    device_rank(a) < device_rank(b) || (device_rank(a) == device_rank(b) && lex_lt(a.ip@, b.ip@))
}

/// No device of `s` goes strictly before one that precedes it.
pub open spec fn devices_ordered(s: Seq<LanDevice>) -> bool {
    forall|i: int, j: int| 0 <= i < j < s.len() ==> !device_before(#[trigger] s[j], #[trigger] s[i])
}

proof fn lemma_before_asym(a: LanDevice, b: LanDevice)
    requires
        device_before(a, b),
    ensures
        !device_before(b, a),
{
    if device_rank(a) == device_rank(b) && lex_lt(b.ip@, a.ip@) {
        lemma_lex_transitive(a.ip@, b.ip@, a.ip@);
        lemma_lex_irreflexive(a.ip@);
    }
}

proof fn lemma_not_before_trans(a: LanDevice, b: LanDevice, c: LanDevice)
    requires
        !device_before(b, a),
        !device_before(c, b),
    ensures
        !device_before(c, a),
{
    if device_before(c, a) {
        if device_rank(a) == device_rank(b) && device_rank(b) == device_rank(c) {
            if a.ip@ != b.ip@ {
                lemma_lex_total(a.ip@, b.ip@);
            }
            if b.ip@ != c.ip@ {
                lemma_lex_total(b.ip@, c.ip@);
            }
            if a.ip@ != b.ip@ && b.ip@ != c.ip@ {
                lemma_lex_transitive(a.ip@, b.ip@, c.ip@);
                lemma_lex_transitive(c.ip@, a.ip@, b.ip@);
            }
        }
    }
}

fn device_rank_exec(d: &LanDevice) -> (r: u8)
    ensures
        r == device_rank(*d),
{
    let ipc = chars_of(d.ip.as_str());
    if ends_with_str(ipc.as_slice(), ".1") {
        0
    } else {
        let nc = chars_of(d.name.as_str());
        if contains_str(nc.as_slice(), "This PC") {
            1
        } else {
            2
        }
    }
}

fn device_before_exec(a: &LanDevice, b: &LanDevice) -> (r: bool)
    ensures
        r == device_before(*a, *b),
{
    let ra = device_rank_exec(a);
    let rb = device_rank_exec(b);
    if ra != rb {
        return ra < rb;
    }
    let ia = chars_of(a.ip.as_str());
    let ib = chars_of(b.ip.as_str());
    lex_lt_exec(ia.as_slice(), ib.as_slice())
}

/// The devices in display order: the gateway first, this machine next, the others by
/// address.
pub fn sort_devices(devices: Vec<LanDevice>) -> (r: Vec<LanDevice>)
    ensures
        devices_ordered(r@),
        r@.to_multiset() == devices@.to_multiset(),
{
    let mut rest = devices;
    let mut sorted: Vec<LanDevice> = Vec::new();
    proof {
        broadcast use vstd::seq_lib::group_to_multiset_ensures;
        assert(sorted@.to_multiset().add(rest@.to_multiset()) =~= devices@.to_multiset());
    }
    while rest.len() > 0
        invariant
            devices_ordered(sorted@),
            sorted@.to_multiset().add(rest@.to_multiset()) == devices@.to_multiset(),
        decreases rest@.len(),
    {
        let ghost rest_before = rest@;
        let x = rest.pop().unwrap();
        let mut k: usize = sorted.len();
        while k > 0 && device_before_exec(&x, &sorted[k - 1])
            invariant
                k <= sorted@.len(),
                devices_ordered(sorted@),
                forall|b: int| k <= b < sorted@.len() ==> device_before(x, #[trigger] sorted@[b]),
            decreases k,
        {
            k -= 1;
        }
        let ghost before = sorted@;
        sorted.insert(k, x);
        proof {
            broadcast use vstd::seq_lib::group_to_multiset_ensures;
            assert(rest_before =~= rest@.push(x));
            assert(sorted@ == before.insert(k as int, x));
            assert forall|a: int, b: int| 0 <= a < b < sorted@.len() implies !device_before(
                #[trigger] sorted@[b],
                #[trigger] sorted@[a],
            ) by {
                if b == k {
                    if a < k - 1 {
                        assert(!device_before(before[k - 1], before[a]));
                        lemma_not_before_trans(before[a], before[k - 1], x);
                    }
                } else if a == k {
                    lemma_before_asym(x, before[b - 1]);
                } else if a < k && b > k {
                    assert(sorted@[a] == before[a]);
                    assert(sorted@[b] == before[b - 1]);
                } else if a > k {
                    assert(sorted@[a] == before[a - 1]);
                    assert(sorted@[b] == before[b - 1]);
                } else {
                    assert(sorted@[a] == before[a]);
                    assert(sorted@[b] == before[b]);
                }
            }
            assert(sorted@.to_multiset() =~= before.to_multiset().insert(x));
            assert(sorted@.to_multiset().add(rest@.to_multiset()) =~= devices@.to_multiset());
        }
    }
    proof {
        broadcast use vstd::seq_lib::group_to_multiset_ensures;
        assert(rest@ =~= Seq::<LanDevice>::empty());
        assert(sorted@.to_multiset().add(rest@.to_multiset()) =~= sorted@.to_multiset());
    }
    sorted
}

/// The index of the device taken for the gateway: the first whose address ends in
/// `.1` or `.254` or whose name says router.
pub open spec fn gateway_index(devs: Seq<LanDevice>, lang: u8, i: int) -> Option<int>
    decreases devs.len() - i,
{
    if i < 0 || i >= devs.len() {
        None
    } else if ends_with(devs[i].ip@, ".1"@) || ends_with(devs[i].ip@, ".254"@) || contains_seq(
        devs[i].name@,
        spec_tr_with(lang, "Router"@, "Router"@, "路由器"@),
    ) {
        Some(i)
    } else {
        gateway_index(devs, lang, i + 1)
    }
}

/// The device whose MAC is checked against the remembered gateway MAC.
pub fn gateway_candidate(devices: &[LanDevice], lang: u8) -> (r: Option<usize>)
    ensures
        match r {
            Some(i) => gateway_index(devices@, lang, 0) == Some(i as int),
            None => gateway_index(devices@, lang, 0) is None,
        },
{
    let mut i: usize = 0;
    while i < devices.len()
        invariant
            i <= devices@.len(),
            gateway_index(devices@, lang, 0) == gateway_index(devices@, lang, i as int),
        decreases devices@.len() - i,
    {
        let ipc = chars_of(devices[i].ip.as_str());
        let nc = chars_of(devices[i].name.as_str());
        if ends_with_str(ipc.as_slice(), ".1") || ends_with_str(ipc.as_slice(), ".254") || contains_str(
            nc.as_slice(),
            tr_with(lang, "Router", "Router", "路由器"),
        ) {
            return Some(i);
        }
        i += 1;
    }
    None
}

} // verus!
