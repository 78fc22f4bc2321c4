//! Watchers over the local network: rogue DHCP servers, the gateway's ARP identity and
//! tampering with the hosts file.
use vstd::prelude::*;
use crate::i18n::{spec_tr4_with, spec_tr_with, tr4_with, tr_with, EN, RU, ZH};
use crate::security::rate::logged;
use crate::security::{incident_texts, log_after, same_cooldowns, same_log, same_switches, SecurityEngine, SecurityIncident};
use crate::text::{
    chars_of, contains_seq, contains_str, ends_with, ends_with_str, eq_chars, eq_str, names_of,
    spec_unicode_lowercase, split_on, split_vec, starts_with, starts_with_str, string_from_chars,
    take_until, take_until_vec, trim, trim_end_char, trim_end_char_vec, trim_vec,
    unicode_lowercase, ws_tokens, ws_tokens_vec,
};

verus! {

/// The state other than the incident log agrees.
pub open spec fn same_but_log(a: &SecurityEngine, b: &SecurityEngine) -> bool {
    &&& same_switches(a, b)
    &&& same_cooldowns(a, b)
    &&& a.hard_drops() == b.hard_drops()
    &&& a.blocks() == b.blocks()
    &&& a.query_history() == b.query_history()
    &&& a.hard_history() == b.hard_history()
    &&& a.probes() == b.probes()
    &&& a.quarantine_state() == b.quarantine_state()
}

/// Texts of a rogue DHCP incident.
pub open spec fn rogue_dhcp_texts(lang: u8, ip: Seq<char>, mac: Seq<char>, gw: Seq<char>) -> (Seq<char>, Seq<char>, Seq<char>, Seq<char>, Seq<char>) {
    (
        spec_tr4_with(
            lang,
            "Máy chủ DHCP giả mạo (Rogue DHCP Server)"@,
            "Rogue DHCP Server Detected"@,
            "非法 DHCP 服务器 (Rogue DHCP)"@,
            "Обнаружен нелегитимный DHCP-сервер"@,
        ),
        ip,
        if lang == EN {
            "Rogue DHCP server detected at IP "@ + ip + " ("@ + mac + ")! Expected authorized gateway DHCP: "@ + gw
        } else if lang == ZH {
            "检测到非法 DHCP 服务器：IP "@ + ip + " ("@ + mac + ")！预期授权网关 DHCP："@ + gw
        } else if lang == RU {
            "Обнаружен нелегитимный DHCP-сервер: IP "@ + ip + " ("@ + mac + ")! Ожидаемый шлюз DHCP: "@ + gw
        } else {
            "Phát hiện máy chủ DHCP giả mạo tại IP "@ + ip + " ("@ + mac + ")! Gateway DHCP chính thức dự kiến: "@ + gw
        },
        "CRITICAL"@,
        spec_tr4_with(
            lang,
            "Cảnh báo: Nguy cơ chiếm quyền cấp phát IP và chuyển hướng mạng"@,
            "Alert: Risk of IP allocation hijacking and traffic redirection"@,
            "告警：存在 IP 分配劫持及流量重定向风险"@,
            "Тревога: риск перехвата выдачи IP и перенаправления трафика"@,
        ),
    )
}

/// Texts of an ARP spoofing incident: the gateway's MAC changed from `old` to `new`.
pub open spec fn arp_spoof_texts(lang: u8, gw: Seq<char>, old: Seq<char>, new: Seq<char>) -> (Seq<char>, Seq<char>, Seq<char>, Seq<char>, Seq<char>) {
    (
        spec_tr_with(
            lang,
            "Tấn công giả mạo địa chỉ ARP (ARP Spoofing / MITM)"@,
            "ARP address spoofing attack (ARP Spoofing / MITM)"@,
            "ARP 地址伪造攻击 (ARP 欺骗 / 中间人)"@,
        ),
        gw,
        if lang == EN {
            "Gateway "@ + gw + " MAC suddenly changed from "@ + old + " to "@ + new + ". A rogue device may be sniffing traffic!"@
        } else if lang == ZH {
            "网关 "@ + gw + " 的 MAC 地址突然从 "@ + old + " 变为 "@ + new + "。疑似存在陌生设备正在窃听流量！"@
        } else {
            "Địa chỉ MAC của Gateway "@ + gw + " bất ngờ bị thay đổi từ "@ + old + " sang "@ + new
                + ". Nghi vấn có thiết bị lạ đang nghe lén dữ liệu!"@
        },
        "CRITICAL"@,
        spec_tr_with(
            lang,
            "Cảnh báo khẩn cấp: Đã phát hiện cuộc tấn công chuyển hướng mạng"@,
            "Emergency alert: Network redirection attack detected"@,
            "紧急告警：检测到网络流量劫持攻击"@,
        ),
    )
}

/// Texts of a gateway-change notice.
pub open spec fn gateway_change_texts(
    lang: u8,
    old_ip: Seq<char>,
    old_mac: Seq<char>,
    gw: Seq<char>,
    mac: Seq<char>,
) -> (Seq<char>, Seq<char>, Seq<char>, Seq<char>, Seq<char>) {
    (
        spec_tr_with(lang, "Gateway thay đổi (Gateway Changed)"@, "Default Gateway Changed"@, "默认网关变更"@),
        gw,
        if lang == EN {
            "Default gateway changed from "@ + old_ip + " ("@ + old_mac + ") to "@ + gw + " ("@ + mac
                + "). Network may have switched; monitoring continues."@
        } else if lang == ZH {
            "默认网关已从 "@ + old_ip + " ("@ + old_mac + ") 变更为 "@ + gw + " ("@ + mac + ")。网络可能已切换；监控继续。"@
        } else {
            "Gateway mặc định đã đổi từ "@ + old_ip + " ("@ + old_mac + ") sang "@ + gw + " ("@ + mac
                + "). Có thể mạng đã chuyển; vẫn tiếp tục giám sát."@
        },
        "INFO"@,
        spec_tr_with(
            lang,
            "Đã cập nhật gateway mới và tiếp tục giám sát"@,
            "Updated to new gateway and continuing monitoring"@,
            "已更新为新网关并继续监控"@,
        ),
    )
}

/// A MAC that identifies a device: not empty and not all zeros.
pub open spec fn real_mac(mac: Seq<char>) -> bool {
    mac.len() > 0 && mac != "00:00:00:00:00:00"@
}

/// The effect of `inspect_arp_gateway(gw, mac, lang)` taking `a` to `b`.
pub open spec fn arp_step(a: &SecurityEngine, b: &SecurityEngine, gw: Seq<char>, mac: Seq<char>, lang: u8, r: Option<SecurityIncident>) -> bool {
    if !a.detection_on() || !a.arp_on() || gw.len() == 0 {
        r is None && *b == *a
    } else {
        &&& b.wf()
        &&& same_but_log(a, b)
        &&& match a.gateway_seen() {
            Some((lip, lmac)) => if lip == gw {
                if lmac != mac && real_mac(mac) {
                    logged(a, b, r, arp_spoof_texts(lang, gw, lmac, mac), None, gw, 0)
                        && b.gateway_seen() == Some((gw, mac))
                } else {
                    r is None && same_log(b, a) && b.gateway_seen() == a.gateway_seen()
                }
            } else {
                logged(a, b, r, gateway_change_texts(lang, lip, lmac, gw, mac), None, gw, 0) && b.gateway_seen()
                    == Some((gw, mac))
            },
            None => r is None && same_log(b, a) && b.gateway_seen() == if real_mac(mac) {
                Some((gw, mac))
            } else {
                None
            },
        }
    }
}

/// The effect of `inspect_rogue_dhcp(ip, mac, gw, lang)` taking `a` to `b`.
pub open spec fn rogue_dhcp_step(a: &SecurityEngine, b: &SecurityEngine, ip: Seq<char>, mac: Seq<char>, gw: Seq<char>, lang: u8, r: Option<SecurityIncident>) -> bool {
    if a.detection_on() && !(ip.len() == 0 || ip == "0.0.0.0"@ || ip == "127.0.0.1"@) && gw.len() > 0 && ip != gw {
        &&& b.wf()
        &&& same_but_log(a, b)
        &&& b.gateway_seen() == a.gateway_seen()
        &&& logged(a, b, r, rogue_dhcp_texts(lang, ip, mac, gw), None, ip, 0)
    } else {
        r is None && *b == *a
    }
}

/// Hosts entries for these names redirect traffic that matters.
pub open spec fn sensitive_targets() -> Seq<Seq<char>> {
    seq![
        "microsoft.com"@,
        "windowsupdate.com"@,
        "google.com"@,
        "bing.com"@,
        "kaspersky"@,
        "bitdefender"@,
        "symantec"@,
        "bank"@,
        "paypal"@,
        "binance"@,
    ]
}

/// A host name covers a target on label boundaries: it is the target, ends in
/// `.target`, starts with `target.` or holds `.target.`.
pub open spec fn host_matches(h: Seq<char>, t: Seq<char>) -> bool {
    ||| h == t
    ||| ends_with(h, seq!['.'] + t)
    ||| starts_with(h, t + seq!['.'])
    ||| contains_seq(h, seq!['.'] + t + seq!['.'])
}

/// The part of a hosts line before any comment, trimmed, unless the line is blank or
/// a comment.
pub open spec fn hosts_payload(line: Seq<char>) -> Option<Seq<char>> {
    let t = trim(line);
    if t.len() == 0 || t[0] == '#' {
        None
    } else {
        let w = trim(take_until(t, '#'));
        if w.len() == 0 {
            None
        } else {
            Some(w)
        }
    }
}

/// The address field of a hosts line, if the line has an entry.
pub open spec fn hosts_address(line: Seq<char>) -> Option<Seq<char>> {
    match hosts_payload(line) {
        Some(w) => Some(ws_tokens(w)[0]),
        None => None,
    }
}

/// How a host name of a hosts entry is compared: trimmed, trailing dots removed,
/// lower-cased.
pub open spec fn host_key(h: Seq<char>) -> Seq<char> {
    spec_unicode_lowercase(trim_end_char(trim(h), '.'))
}

/// One of the host names (the tokens after the first) covers a sensitive target.
pub open spec fn tokens_hit(toks: Seq<Seq<char>>) -> bool {
    exists|i: int, j: int|
        1 <= i < toks.len() && 0 <= j < 10 && host_key(#[trigger] toks[i]).len() > 0 && host_matches(
            host_key(toks[i]),
            spec_unicode_lowercase(#[trigger] sensitive_targets()[j]),
        )
}

/// A hosts line redirects a sensitive name: its address field is an IP address
/// (`addr_ok`) and one of its host names covers a sensitive target.
pub open spec fn line_hits(line: Seq<char>, addr_ok: bool) -> bool {
    match hosts_payload(line) {
        Some(w) => addr_ok && tokens_hit(ws_tokens(w)),
        None => false,
    }
}

/// The first line, from index `i`, that redirects a sensitive name.
pub open spec fn first_hit_from(lines: Seq<Seq<char>>, ok: Seq<bool>, i: int) -> Option<int>
    decreases lines.len() - i,
{
    if i < 0 || i >= lines.len() {
        None
    } else if line_hits(lines[i], i < ok.len() && ok[i]) {
        Some(i)
    } else {
        first_hit_from(lines, ok, i + 1)
    }
}

/// Texts of a hosts-tampering incident for the trimmed line `t`.
pub open spec fn hosts_tamper_texts(lang: u8, t: Seq<char>) -> (Seq<char>, Seq<char>, Seq<char>, Seq<char>, Seq<char>) {
    (
        spec_tr4_with(
            lang,
            "Phát hiện chỉnh sửa độc hại tệp Hosts (Hosts Tamper)"@,
            "Hosts File Tampering / Malicious Hijack Detected"@,
            "检测到恶意篡改 Hosts 文件 (Hosts Tamper)"@,
            "Обнаружена подмена файла hosts"@,
        ),
        "127.0.0.1"@,
        spec_tr4_with(
            lang,
            "Tệp hosts chứa bản ghi chuyển hướng tên miền nhạy cảm"@,
            "Hosts file contains sensitive domain redirection"@,
            "Hosts 文件包含敏感域名重定向记录"@,
            "В hosts есть перенаправления чувствительных доменов"@,
        ) + ": '"@ + t + "'"@,
        "CRITICAL"@,
        spec_tr4_with(
            lang,
            "Đề xuất: Khôi phục tệp hosts về trạng thái mặc định của Windows"@,
            "Recommended: Restore hosts file to default Windows clean state"@,
            "建议：将 hosts 文件恢复为 Windows 默认干净状态"@,
            "Рекомендуется: восстановить hosts к чистому состоянию Windows"@,
        ),
    )
}

/// The lines of a hosts file.
pub fn hosts_lines(content: &str) -> (r: Vec<String>)
    ensures
        r@.len() == split_on(content@, '\n').len(),
        forall|i: int| 0 <= i < r@.len() ==> (#[trigger] r@[i])@ == split_on(content@, '\n')[i],
{
    let c = chars_of(content);
    let parts = split_vec(c.as_slice(), '\n');
    let mut out: Vec<String> = Vec::new();
    let mut i: usize = 0;
    while i < parts.len()
        invariant
            i <= parts@.len(),
            names_of(parts@) == split_on(content@, '\n'),
            out@.len() == i,
            forall|j: int| 0 <= j < i ==> (#[trigger] out@[j])@ == split_on(content@, '\n')[j],
        decreases parts@.len() - i,
    {
        assert(parts@[i as int]@ == names_of(parts@)[i as int]);
        out.push(string_from_chars(parts[i].as_slice()));
        i += 1;
    }
    out
}

fn hosts_payload_exec(line: &[char]) -> (r: Option<Vec<char>>)
    ensures
        match r {
            Some(w) => hosts_payload(line@) == Some(w@),
            None => hosts_payload(line@) is None,
        },
{
    let t = trim_vec(line);
    if t.len() == 0 || t[0] == '#' {
        return None;
    }
    let u = take_until_vec(t.as_slice(), '#');
    let w = trim_vec(u.as_slice());
    if w.len() == 0 {
        None
    } else {
        Some(w)
    }
}

/// The address field of a hosts line, if the line has an entry.
pub fn hosts_line_address(line: &str) -> (r: Option<String>)
    ensures
        match r {
            Some(a) => hosts_address(line@) == Some(a@),
            None => hosts_address(line@) is None,
        },
{
    let c = chars_of(line);
    match hosts_payload_exec(c.as_slice()) {
        Some(w) => {
            let toks = ws_tokens_vec(w.as_slice());
            proof {
                crate::text::lemma_trimmed_has_token(take_until(trim(c@), '#'));
            }
            assert(names_of(toks@).len() > 0);
            assert(toks@[0]@ == names_of(toks@)[0]);
            Some(string_from_chars(toks[0].as_slice()))
        },
        None => None,
    }
}

fn host_matches_exec(h: &[char], t: &[char]) -> (r: bool)
    ensures
        r == host_matches(h@, t@),
{
    let ts = string_from_chars(t);
    let mut dot_t = String::from_str(".");
    dot_t.append(ts.as_str());
    let mut t_dot = string_from_chars(t);
    t_dot.append(".");
    let mut dot_t_dot = String::from_str(".");
    dot_t_dot.append(ts.as_str());
    dot_t_dot.append(".");
    proof {
        reveal_strlit(".");
        assert(dot_t@ =~= seq!['.'] + t@);
        assert(t_dot@ =~= t@ + seq!['.']);
        assert(dot_t_dot@ =~= seq!['.'] + t@ + seq!['.']);
    }
    eq_chars(h, t) || ends_with_str(h, dot_t.as_str()) || starts_with_str(h, t_dot.as_str()) || contains_str(
        h,
        dot_t_dot.as_str(),
    )
}

fn target_list() -> (r: Vec<String>)
    ensures
        r@.len() == 10,
        forall|j: int| 0 <= j < 10 ==> (#[trigger] r@[j])@ == spec_unicode_lowercase(sensitive_targets()[j]),
{
    let list: [&str; 10] = [
        "microsoft.com",
        "windowsupdate.com",
        "google.com",
        "bing.com",
        "kaspersky",
        "bitdefender",
        "symantec",
        "bank",
        "paypal",
        "binance",
    ];
    assert(forall|j: int| 0 <= j < 10 ==> list@[j]@ == #[trigger] sensitive_targets()[j]);
    let mut out: Vec<String> = Vec::new();
    let mut i: usize = 0;
    while i < 10
        invariant
            i <= 10,
            forall|j: int| 0 <= j < 10 ==> list@[j]@ == #[trigger] sensitive_targets()[j],
            out@.len() == i,
            forall|j: int| 0 <= j < i ==> (#[trigger] out@[j])@ == spec_unicode_lowercase(sensitive_targets()[j]),
        decreases 10 - i,
    {
        out.push(unicode_lowercase(list[i]));
        i += 1;
    }
    out
}

/// Whether a hosts line redirects a sensitive name, given whether its address field
/// is an IP address.
fn hosts_line_hits(line: &[char], addr_ok: bool, targets: &Vec<String>) -> (r: bool)
    requires
        targets@.len() == 10,
        forall|j: int| 0 <= j < 10 ==> (#[trigger] targets@[j])@ == spec_unicode_lowercase(sensitive_targets()[j]),
    ensures
        r == line_hits(line@, addr_ok),
{
    let w = match hosts_payload_exec(line) {
        Some(w) => w,
        None => {
            return false;
        },
    };
    if !addr_ok {
        return false;
    }
    let toks = ws_tokens_vec(w.as_slice());
    let ghost ts = ws_tokens(w@);
    let mut i: usize = 1;
    while i < toks.len()
        invariant
            1 <= i,
            names_of(toks@) == ts,
            ts == ws_tokens(w@),
            hosts_payload(line@) == Some(w@),
            addr_ok,
            targets@.len() == 10,
            forall|j: int| 0 <= j < 10 ==> (#[trigger] targets@[j])@ == spec_unicode_lowercase(sensitive_targets()[j]),
            forall|a: int, b: int|
                1 <= a < i && a < ts.len() && 0 <= b < 10 ==> !(host_key(#[trigger] ts[a]).len() > 0 && host_matches(
                    host_key(ts[a]),
                    spec_unicode_lowercase(#[trigger] sensitive_targets()[b]),
                )),
            i <= ts.len() || ts.len() == 0,
        decreases toks@.len() - i,
    {
        assert(toks@[i as int]@ == ts[i as int]);
        let h1 = trim_vec(toks[i].as_slice());
        let h2 = trim_end_char_vec(h1.as_slice(), '.');
        let hs = string_from_chars(h2.as_slice());
        let hl = unicode_lowercase(hs.as_str());
        let h = chars_of(hl.as_str());
        assert(h@ == host_key(ts[i as int]));
        if h.len() > 0 {
            let mut j: usize = 0;
            while j < 10
                invariant
                    j <= 10,
                    1 <= i < ts.len(),
                    ts == ws_tokens(w@),
                    hosts_payload(line@) == Some(w@),
                    addr_ok,
                    h@ == host_key(ts[i as int]),
                    h@.len() > 0,
                    targets@.len() == 10,
                    forall|k: int| 0 <= k < 10 ==> (#[trigger] targets@[k])@ == spec_unicode_lowercase(sensitive_targets()[k]),
                    forall|b: int| 0 <= b < j ==> !host_matches(h@, spec_unicode_lowercase(#[trigger] sensitive_targets()[b])),
                decreases 10 - j,
            {
                let t = chars_of(targets[j].as_str());
                if host_matches_exec(h.as_slice(), t.as_slice()) {
                    assert(host_key(ts[i as int]).len() > 0 && host_matches(
                        host_key(ts[i as int]),
                        spec_unicode_lowercase(sensitive_targets()[j as int]),
                    ));
                    assert(tokens_hit(ts));
                    assert(line_hits(line@, addr_ok));
                    return true;
                }
                j += 1;
            }
        }
        i += 1;
    }
    false
}

impl SecurityEngine {
    /// Checks a DHCP server seen on the network while detection is on: a server other
    /// than the expected gateway (when one is known) is a rogue.
    pub fn inspect_rogue_dhcp(&mut self, server_ip: &str, server_mac: &str, expected_gateway: &str, lang: u8) -> (r:
        Option<SecurityIncident>)
        requires
            old(self).wf(),
        ensures
            rogue_dhcp_step(&*old(self), &*final(self), server_ip@, server_mac@, expected_gateway@, lang, r),
    {
        if !self.detection {
            return None;
        }
        let ip = chars_of(server_ip);
        if ip.len() == 0 || eq_str(ip.as_slice(), "0.0.0.0") || eq_str(ip.as_slice(), "127.0.0.1") {
            return None;
        }
        let gw = chars_of(expected_gateway);
        if gw.len() > 0 && !eq_chars(ip.as_slice(), gw.as_slice()) {
            let mut details = if lang == EN {
                String::from_str("Rogue DHCP server detected at IP ")
            } else if lang == ZH {
                String::from_str("检测到非法 DHCP 服务器：IP ")
            } else if lang == RU {
                String::from_str("Обнаружен нелегитимный DHCP-сервер: IP ")
            } else {
                String::from_str("Phát hiện máy chủ DHCP giả mạo tại IP ")
            };
            details.append(server_ip);
            details.append(" (");
            details.append(server_mac);
            if lang == EN {
                details.append(")! Expected authorized gateway DHCP: ");
            } else if lang == ZH {
                details.append(")！预期授权网关 DHCP：");
            } else if lang == RU {
                details.append(")! Ожидаемый шлюз DHCP: ");
            } else {
                details.append(")! Gateway DHCP chính thức dự kiến: ");
            }
            details.append(expected_gateway);
            let kind = tr4_with(
                lang,
                "Máy chủ DHCP giả mạo (Rogue DHCP Server)",
                "Rogue DHCP Server Detected",
                "非法 DHCP 服务器 (Rogue DHCP)",
                "Обнаружен нелегитимный DHCP-сервер",
            );
            let mitigation = tr4_with(
                lang,
                "Cảnh báo: Nguy cơ chiếm quyền cấp phát IP và chuyển hướng mạng",
                "Alert: Risk of IP allocation hijacking and traffic redirection",
                "告警：存在 IP 分配劫持及流量重定向风险",
                "Тревога: риск перехвата выдачи IP и перенаправления трафика",
            );
            let inc = self.record_incident(kind, server_ip, details.as_str(), "CRITICAL", mitigation);
            return Some(inc);
        }
        None
    }

    /// Watches the gateway's MAC while detection and the ARP watcher are on: a new MAC
    /// for the known gateway address is ARP spoofing; a new gateway address is logged
    /// as a change; either way the new pair becomes the one remembered. The first
    /// usable observation is only remembered.
    pub fn inspect_arp_gateway(&mut self, gateway_ip: &str, current_gateway_mac: &str, lang: u8) -> (r: Option<
        SecurityIncident,
    >)
        requires
            old(self).wf(),
        ensures
            arp_step(&*old(self), &*final(self), gateway_ip@, current_gateway_mac@, lang, r),
    {
        if !self.detection || !self.arp_detection {
            return None;
        }
        let gw = chars_of(gateway_ip);
        if gw.len() == 0 {
            return None;
        }
        let mac = chars_of(current_gateway_mac);
        let usable = mac.len() > 0 && !eq_str(mac.as_slice(), "00:00:00:00:00:00");
        match &self.last_gateway {
            Some((lip, lmac)) => {
                let lip_c = chars_of(lip.as_str());
                let lmac_c = chars_of(lmac.as_str());
                let old_ip = lip.clone();
                let old_mac = lmac.clone();
                if eq_chars(lip_c.as_slice(), gw.as_slice()) {
                    if !eq_chars(lmac_c.as_slice(), mac.as_slice()) && usable {
                        let mut details = if lang == EN {
                            String::from_str("Gateway ")
                        } else if lang == ZH {
                            String::from_str("网关 ")
                        } else {
                            String::from_str("Địa chỉ MAC của Gateway ")
                        };
                        details.append(gateway_ip);
                        if lang == EN {
                            details.append(" MAC suddenly changed from ");
                        } else if lang == ZH {
                            details.append(" 的 MAC 地址突然从 ");
                        } else {
                            details.append(" bất ngờ bị thay đổi từ ");
                        }
                        details.append(old_mac.as_str());
                        if lang == EN {
                            details.append(" to ");
                        } else if lang == ZH {
                            details.append(" 变为 ");
                        } else {
                            details.append(" sang ");
                        }
                        details.append(current_gateway_mac);
                        if lang == EN {
                            details.append(". A rogue device may be sniffing traffic!");
                        } else if lang == ZH {
                            details.append("。疑似存在陌生设备正在窃听流量！");
                        } else {
                            details.append(". Nghi vấn có thiết bị lạ đang nghe lén dữ liệu!");
                        }
                        let kind = tr_with(
                            lang,
                            "Tấn công giả mạo địa chỉ ARP (ARP Spoofing / MITM)",
                            "ARP address spoofing attack (ARP Spoofing / MITM)",
                            "ARP 地址伪造攻击 (ARP 欺骗 / 中间人)",
                        );
                        let mitigation = tr_with(
                            lang,
                            "Cảnh báo khẩn cấp: Đã phát hiện cuộc tấn công chuyển hướng mạng",
                            "Emergency alert: Network redirection attack detected",
                            "紧急告警：检测到网络流量劫持攻击",
                        );
                        let inc = self.record_incident(kind, gateway_ip, details.as_str(), "CRITICAL", mitigation);
                        self.last_gateway = Some((String::from_str(gateway_ip), String::from_str(current_gateway_mac)));
                        return Some(inc);
                    }
                    return None;
                } else {
                    self.last_gateway = Some((String::from_str(gateway_ip), String::from_str(current_gateway_mac)));
                    let mut details = if lang == EN {
                        String::from_str("Default gateway changed from ")
                    } else if lang == ZH {
                        String::from_str("默认网关已从 ")
                    } else {
                        String::from_str("Gateway mặc định đã đổi từ ")
                    };
                    details.append(old_ip.as_str());
                    details.append(" (");
                    details.append(old_mac.as_str());
                    if lang == EN {
                        details.append(") to ");
                    } else if lang == ZH {
                        details.append(") 变更为 ");
                    } else {
                        details.append(") sang ");
                    }
                    details.append(gateway_ip);
                    details.append(" (");
                    details.append(current_gateway_mac);
                    if lang == EN {
                        details.append("). Network may have switched; monitoring continues.");
                    } else if lang == ZH {
                        details.append(")。网络可能已切换；监控继续。");
                    } else {
                        details.append("). Có thể mạng đã chuyển; vẫn tiếp tục giám sát.");
                    }
                    let kind = tr_with(lang, "Gateway thay đổi (Gateway Changed)", "Default Gateway Changed", "默认网关变更");
                    let mitigation = tr_with(
                        lang,
                        "Đã cập nhật gateway mới và tiếp tục giám sát",
                        "Updated to new gateway and continuing monitoring",
                        "已更新为新网关并继续监控",
                    );
                    let inc = self.record_incident(kind, gateway_ip, details.as_str(), "INFO", mitigation);
                    return Some(inc);
                }
            },
            None => {
                if usable {
                    self.last_gateway = Some((String::from_str(gateway_ip), String::from_str(current_gateway_mac)));
                }
                None
            },
        }
    }

    /// Inspects the text of the hosts file: the first entry whose address field is an IP
    /// address (`address_ok[i]` for line `i` of `hosts_lines(content)`) and that
    /// redirects a sensitive name raises a tampering incident.
    pub fn inspect_hosts_content(&mut self, content: &str, address_ok: &[bool], lang: u8) -> (r: Option<SecurityIncident>)
        requires
            old(self).wf(),
        ensures
            match first_hit_from(split_on(content@, '\n'), address_ok@, 0) {
                Some(i) => same_but_log(&*old(self), &*final(self)) && final(self).gateway_seen() == old(self).gateway_seen()
                    && logged(&*old(self), &*final(self), r, hosts_tamper_texts(lang, trim(split_on(content@, '\n')[i])), None, "127.0.0.1"@, 0),
                None => r is None && *final(self) == *old(self),
            },
            final(self).wf(),
    {
        let c = chars_of(content);
        let lines = split_vec(c.as_slice(), '\n');
        let ghost ls = split_on(content@, '\n');
        let targets = target_list();
        let mut i: usize = 0;
        while i < lines.len()
            invariant
                i <= lines@.len(),
                names_of(lines@) == ls,
                ls == split_on(content@, '\n'),
                targets@.len() == 10,
                forall|j: int| 0 <= j < 10 ==> (#[trigger] targets@[j])@ == spec_unicode_lowercase(sensitive_targets()[j]),
                first_hit_from(ls, address_ok@, 0) == first_hit_from(ls, address_ok@, i as int),
                *self == *old(self),
                self.wf(),
            decreases lines@.len() - i,
        {
            assert(lines@[i as int]@ == ls[i as int]);
            let ok = i < address_ok.len() && address_ok[i];
            if hosts_line_hits(lines[i].as_slice(), ok, &targets) {
                assert(first_hit_from(ls, address_ok@, i as int) == Some(i as int));
                let t = trim_vec(lines[i].as_slice());
                let ts = string_from_chars(t.as_slice());
                let mut details = String::from_str(
                    tr4_with(
                        lang,
                        "Tệp hosts chứa bản ghi chuyển hướng tên miền nhạy cảm",
                        "Hosts file contains sensitive domain redirection",
                        "Hosts 文件包含敏感域名重定向记录",
                        "В hosts есть перенаправления чувствительных доменов",
                    ),
                );
                details.append(": '");
                details.append(ts.as_str());
                details.append("'");
                let kind = tr4_with(
                    lang,
                    "Phát hiện chỉnh sửa độc hại tệp Hosts (Hosts Tamper)",
                    "Hosts File Tampering / Malicious Hijack Detected",
                    "检测到恶意篡改 Hosts 文件 (Hosts Tamper)",
                    "Обнаружена подмена файла hosts",
                );
                let mitigation = tr4_with(
                    lang,
                    "Đề xuất: Khôi phục tệp hosts về trạng thái mặc định của Windows",
                    "Recommended: Restore hosts file to default Windows clean state",
                    "建议：将 hosts 文件恢复为 Windows 默认干净状态",
                    "Рекомендуется: восстановить hosts к чистому состоянию Windows",
                );
                let inc = self.record_incident(kind, "127.0.0.1", details.as_str(), "CRITICAL", mitigation);
                assert(incident_texts(inc) == hosts_tamper_texts(lang, trim(ls[i as int])));
                assert(first_hit_from(split_on(content@, '\n'), address_ok@, 0) == Some(i as int));
                return Some(inc);
            }
            i += 1;
        }
        None
    }
}

} // verus!
