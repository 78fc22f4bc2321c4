//! Service discovery on the local network: SSDP and mDNS answers and the device hints
//! they give.
use vstd::prelude::*;
use crate::dns::packet::{be16, join_dot, read_be16};
use crate::i18n::{spec_tr_with, tr_with};
use crate::text::{
    chars_of, contains_seq, contains_str, eq_chars, spec_unicode_lowercase, spec_utf8_lossy,
    split_on, split_vec, starts_with, starts_with_str, string_from_chars, trim, trim_vec,
    unicode_lowercase, utf8_lossy, names_of,
};

verus! {

/// A hint about a device from a discovery answer: its address, the protocol that
/// answered (`SSDP` or `mDNS`) and the device class the answer suggests.
#[derive(Clone, Debug)]
pub struct DiscoveryHint {
    pub ip: String,
    pub source: &'static str,
    pub keyword: Option<&'static str>,
}

/// The class an SSDP `server` text suggests (matched in lower case), if any.
pub open spec fn ssdp_class(l: Seq<char>, lang: u8) -> Option<Seq<char>> {
    if contains_seq(l, "chromecast"@) || contains_seq(l, "googlecast"@) {
        Some(spec_tr_with(lang, "📺 Smart TV / Chromecast"@, "📺 Smart TV / Chromecast"@, "📺 智能电视 (Smart TV / Chromecast)"@))
    } else if contains_seq(l, "bravia"@) || contains_seq(l, "webos"@) || contains_seq(l, "smarttv"@) {
        Some(spec_tr_with(lang, "📺 Smart TV / Thiết bị truyền hình"@, "📺 Smart TV / TV Device"@, "📺 智能电视 (Smart TV / 电视设备)"@))
    } else if contains_seq(l, "printer"@) || contains_seq(l, "ipp"@) || contains_seq(l, "jetdirect"@) {
        Some(spec_tr_with(lang, "🖨️ Máy in mạng (Printer - AirPrint / IPP)"@, "🖨️ Network Printer (AirPrint / IPP)"@, "🖨️ 网络打印机 (Printer - AirPrint / IPP)"@))
    } else if contains_seq(l, "ip-camera"@) || contains_seq(l, "onvif"@) || contains_seq(l, "dvr"@) {
        Some(spec_tr_with(lang, "📷 Camera an ninh (IP Cam)"@, "📷 Security Camera (IP Cam)"@, "📷 安防摄像机 (IP Camera)"@))
    } else if contains_seq(l, "nas"@) || contains_seq(l, "synology"@) {
        Some(spec_tr_with(lang, "💾 Thiết bị lưu trữ (NAS)"@, "💾 Storage Device (NAS)"@, "💾 存储设备 (NAS)"@))
    } else {
        None
    }
}

/// The class an mDNS service name suggests (matched in lower case), if any.
pub open spec fn mdns_class(l: Seq<char>, lang: u8) -> Option<Seq<char>> {
    if contains_seq(l, "googlecast"@) {
        Some(spec_tr_with(lang, "📺 Smart TV / Chromecast"@, "📺 Smart TV / Chromecast"@, "📺 智能电视 (Smart TV / Chromecast)"@))
    } else if contains_seq(l, "airplay"@) || contains_seq(l, "raop"@) {
        Some(spec_tr_with(lang, "📺 Smart TV / AirPlay"@, "📺 Smart TV / AirPlay"@, "📺 智能电视 (Smart TV / AirPlay)"@))
    } else if contains_seq(l, "ipp"@) || contains_seq(l, "printer"@) || contains_seq(l, "scanner"@) {
        Some(spec_tr_with(lang, "🖨️ Máy in mạng (Printer - AirPrint / IPP)"@, "🖨️ Network Printer (AirPrint / IPP)"@, "🖨️ 网络打印机 (Printer - AirPrint / IPP)"@))
    } else if contains_seq(l, "smb"@) {
        Some(spec_tr_with(lang, "💻 Máy tính (PC - File Sharing)"@, "💻 Computer (PC - File Sharing)"@, "💻 电脑 (PC - 文件共享)"@))
    } else if contains_seq(l, "ssh"@) || contains_seq(l, "sftp"@) {
        Some(spec_tr_with(lang, "🖥️ Máy chủ / Server (Linux/Mac)"@, "🖥️ Computer / Server (Linux/Mac)"@, "🖥️ 电脑 / 服务器 (Server - Linux/Mac)"@))
    } else if contains_seq(l, "homekit"@) || contains_seq(l, "companion"@) {
        Some(spec_tr_with(lang, "📱 iPhone / iPad (Apple)"@, "📱 iPhone / iPad (Apple)"@, "📱 iPhone / iPad (苹果设备)"@))
    } else if contains_seq(l, "hue"@) || contains_seq(l, "tuya"@) || contains_seq(l, "matter"@) {
        Some(spec_tr_with(lang, "💡 Thiết bị thông minh (Smart Home)"@, "💡 Smart Device (Smart Home)"@, "💡 智能设备 (智能家居)"@))
    } else {
        None
    }
}

/// The device class an SSDP server string suggests.
pub fn ssdp_keyword(server: &str, lang: u8) -> (r: Option<&'static str>)
    ensures
        match r {
            Some(k) => ssdp_class(spec_unicode_lowercase(server@), lang) == Some(k@),
            None => ssdp_class(spec_unicode_lowercase(server@), lang) is None,
        },
{
    let lw = unicode_lowercase(server);
    let l = chars_of(lw.as_str());
    let s = l.as_slice();
    if contains_str(s, "chromecast") || contains_str(s, "googlecast") {
        Some(tr_with(lang, "📺 Smart TV / Chromecast", "📺 Smart TV / Chromecast", "📺 智能电视 (Smart TV / Chromecast)"))
    } else if contains_str(s, "bravia") || contains_str(s, "webos") || contains_str(s, "smarttv") {
        Some(tr_with(lang, "📺 Smart TV / Thiết bị truyền hình", "📺 Smart TV / TV Device", "📺 智能电视 (Smart TV / 电视设备)"))
    } else if contains_str(s, "printer") || contains_str(s, "ipp") || contains_str(s, "jetdirect") {
        Some(tr_with(lang, "🖨️ Máy in mạng (Printer - AirPrint / IPP)", "🖨️ Network Printer (AirPrint / IPP)", "🖨️ 网络打印机 (Printer - AirPrint / IPP)"))
    } else if contains_str(s, "ip-camera") || contains_str(s, "onvif") || contains_str(s, "dvr") {
        Some(tr_with(lang, "📷 Camera an ninh (IP Cam)", "📷 Security Camera (IP Cam)", "📷 安防摄像机 (IP Camera)"))
    } else if contains_str(s, "nas") || contains_str(s, "synology") {
        Some(tr_with(lang, "💾 Thiết bị lưu trữ (NAS)", "💾 Storage Device (NAS)", "💾 存储设备 (NAS)"))
    } else {
        None
    }
}

/// The device class an mDNS service name suggests.
pub fn mdns_keyword(service: &str, lang: u8) -> (r: Option<&'static str>)
    ensures
        match r {
            Some(k) => mdns_class(spec_unicode_lowercase(service@), lang) == Some(k@),
            None => mdns_class(spec_unicode_lowercase(service@), lang) is None,
        },
{
    let lw = unicode_lowercase(service);
    let l = chars_of(lw.as_str());
    let s = l.as_slice();
    if contains_str(s, "googlecast") {
        Some(tr_with(lang, "📺 Smart TV / Chromecast", "📺 Smart TV / Chromecast", "📺 智能电视 (Smart TV / Chromecast)"))
    } else if contains_str(s, "airplay") || contains_str(s, "raop") {
        Some(tr_with(lang, "📺 Smart TV / AirPlay", "📺 Smart TV / AirPlay", "📺 智能电视 (Smart TV / AirPlay)"))
    } else if contains_str(s, "ipp") || contains_str(s, "printer") || contains_str(s, "scanner") {
        Some(tr_with(lang, "🖨️ Máy in mạng (Printer - AirPrint / IPP)", "🖨️ Network Printer (AirPrint / IPP)", "🖨️ 网络打印机 (Printer - AirPrint / IPP)"))
    } else if contains_str(s, "smb") {
        Some(tr_with(lang, "💻 Máy tính (PC - File Sharing)", "💻 Computer (PC - File Sharing)", "💻 电脑 (PC - 文件共享)"))
    } else if contains_str(s, "ssh") || contains_str(s, "sftp") {
        Some(tr_with(lang, "🖥️ Máy chủ / Server (Linux/Mac)", "🖥️ Computer / Server (Linux/Mac)", "🖥️ 电脑 / 服务器 (Server - Linux/Mac)"))
    } else if contains_str(s, "homekit") || contains_str(s, "companion") {
        Some(tr_with(lang, "📱 iPhone / iPad (Apple)", "📱 iPhone / iPad (Apple)", "📱 iPhone / iPad (苹果设备)"))
    } else if contains_str(s, "hue") || contains_str(s, "tuya") || contains_str(s, "matter") {
        Some(tr_with(lang, "💡 Thiết bị thông minh (Smart Home)", "💡 Smart Device (Smart Home)", "💡 智能设备 (智能家居)"))
    } else {
        None
    }
}

/// Reading a DNS name from `p` with at most `k` more steps: the raw labels (or none
/// when the name is malformed, runs off the buffer or takes too many steps) and the
/// position the reader moves the caller's cursor to (past the name, or past the first
/// compression pointer; none when it does not move it).
pub open spec fn name_walk(buf: Seq<u8>, p: int, k: nat, jumped: bool) -> (Option<Seq<Seq<u8>>>, Option<int>)
    decreases k,
{
    if k == 0 || p < 0 || p >= buf.len() {
        (None, None)
    } else {
        let l = buf[p];
        if l == 0 {
            (Some(Seq::empty()), if jumped { None } else { Some(p + 1) })
        } else if l >= 0xC0 {
            if p + 1 >= buf.len() {
                (None, None)
            } else {
                let ptr = (l - 0xC0) * 256 + buf[p + 1];
                (name_walk(buf, ptr, (k - 1) as nat, true).0, if jumped { None } else { Some(p + 2) })
            }
        } else if p + 1 + l > buf.len() {
            (None, None)
        } else {
            let rest = name_walk(buf, p + 1 + l, (k - 1) as nat, jumped);
            (
                match rest.0 {
                    Some(ls) => Some(seq![buf.subrange(p + 1, p + 1 + l)] + ls),
                    None => None,
                },
                rest.1,
            )
        }
    }
}

/// The texts of a list of strings.
pub open spec fn texts_of(v: Seq<String>) -> Seq<Seq<char>> {
    v.map_values(|x: String| x@)
}

/// The labels decoded as UTF-8 (invalid sequences replaced).
pub open spec fn lossy_labels(ls: Seq<Seq<u8>>) -> Seq<Seq<char>> {
    Seq::new(ls.len(), |i: int| spec_utf8_lossy(ls[i]))
}

/// The dotted name read from `p`, if well formed.
pub open spec fn spec_dns_name(buf: Seq<u8>, p: int) -> Option<Seq<char>> {
    match name_walk(buf, p, 64, false).0 {
        Some(ls) => Some(join_dot(lossy_labels(ls))),
        None => None,
    }
}

/// Where the cursor stands after reading a name from `p`.
pub open spec fn cursor_after(buf: Seq<u8>, p: int) -> int {
    match name_walk(buf, p, 64, false).1 {
        Some(x) => x,
        None => p,
    }
}

proof fn lemma_walk_pos(buf: Seq<u8>, p: int, k: nat, jumped: bool)
    ensures
        name_walk(buf, p, k, jumped).1 matches Some(x) ==> p < x && x <= buf.len() && !jumped,
    decreases k,
{
    if !(k == 0 || p < 0 || p >= buf.len()) {
        let l = buf[p];
        if l != 0 && l < 0xC0 && p + 1 + l <= buf.len() {
            lemma_walk_pos(buf, p + 1 + l, (k - 1) as nat, jumped);
        }
    }
}

/// Reads the DNS name at `*pos`, following compression pointers, and moves `*pos`
/// past it (or past the first pointer followed).
pub fn read_dns_name(buf: &[u8], pos: &mut usize) -> (r: Option<String>)
    ensures
        r matches Some(s) ==> spec_dns_name(buf@, *old(pos) as int) == Some(s@),
        r is None ==> spec_dns_name(buf@, *old(pos) as int) is None,
        *final(pos) as int == cursor_after(buf@, *old(pos) as int),
{
    let ghost start = *pos as int;
    let ghost whole = name_walk(buf@, start, 64, false);
    let mut labels: Vec<String> = Vec::new();
    let ghost mut lab: Seq<Seq<u8>> = Seq::empty();
    let mut jumped = false;
    let mut p: usize = *pos;
    let mut guard: usize = 0;
    proof {
        lemma_walk_pos(buf@, start, 64, false);
        match name_walk(buf@, start, 64, false).0 {
            Some(ls) => {
                assert(lab + ls =~= ls);
            },
            None => {},
        }
    }
    loop
        invariant_except_break
            whole.0 == match name_walk(buf@, p as int, (64 - guard) as nat, jumped).0 {
                Some(ls) => Some(lab + ls),
                None => None::<Seq<Seq<u8>>>,
            },
            jumped ==> whole.1 == Some(*pos as int),
            !jumped ==> whole.1 == name_walk(buf@, p as int, (64 - guard) as nat, jumped).1 && *pos as int == start,
        invariant
            guard <= 64,
            labels@.len() == lab.len(),
            forall|i: int| 0 <= i < lab.len() ==> (#[trigger] labels@[i])@ == spec_utf8_lossy(lab[i]),
            whole == name_walk(buf@, start, 64, false),
            whole.1 matches Some(x) ==> start < x && x <= buf@.len(),
            start == *old(pos) as int,
        ensures
            labels@.len() == lab.len(),
            forall|i: int| 0 <= i < lab.len() ==> (#[trigger] labels@[i])@ == spec_utf8_lossy(lab[i]),
            whole.0 == Some(lab),
            *pos as int == cursor_after(buf@, start),
        decreases 64 - guard,
    {
        let ghost k = (64 - guard) as nat;
        if guard >= 64 || p >= buf.len() {
            proof {
                assert(name_walk(buf@, p as int, k, jumped) == (None::<Seq<Seq<u8>>>, None::<int>));
            }
            return None;
        }
        guard += 1;
        let l = buf[p];
        if l == 0 {
            if !jumped {
                *pos = p + 1;
            }
            proof {
                assert(lab + Seq::<Seq<u8>>::empty() =~= lab);
            }
            break;
        }
        if l >= 0xC0 {
            if p + 1 >= buf.len() {
                return None;
            }
            let ptr: usize = ((l - 0xC0) as usize) * 256 + buf[p + 1] as usize;
            if !jumped {
                *pos = p + 2;
            }
            jumped = true;
            p = ptr;
            continue;
        }
        let lu = l as usize;
        if lu > buf.len() - p - 1 {
            return None;
        }
        let ghost seg = buf@.subrange(p + 1, p + 1 + lu);
        let mut bytes: Vec<u8> = Vec::new();
        let end: usize = p + 1 + lu;
        let mut j: usize = p + 1;
        while j < end
            invariant
                p + 1 <= j <= end,
                end == p + 1 + lu,
                end <= buf@.len(),
                bytes@ == buf@.subrange(p + 1, j as int),
            decreases end - j,
        {
            bytes.push(buf[j]);
            j += 1;
        }
        labels.push(utf8_lossy(bytes.as_slice()));
        proof {
            let rest = name_walk(buf@, (p + 1 + lu) as int, (k - 1) as nat, jumped);
            match rest.0 {
                Some(ls) => {
                    assert(lab.push(seg) + ls =~= lab + (seq![seg] + ls));
                },
                None => {},
            }
            lab = lab.push(seg);
        }
        p = p + 1 + lu;
    }
    let ghost full = lab;
    let mut out = String::new();
    let mut i: usize = 0;
    while i < labels.len()
        invariant
            i <= labels@.len(),
            labels@.len() == full.len(),
            forall|a: int| 0 <= a < full.len() ==> (#[trigger] labels@[a])@ == spec_utf8_lossy(full[a]),
            out@ == join_dot(lossy_labels(full).subrange(0, i as int)),
        decreases labels@.len() - i,
    {
        proof {
            let s = lossy_labels(full).subrange(0, i + 1);
            assert(s.drop_last() =~= lossy_labels(full).subrange(0, i as int));
        }
        if i > 0 {
            out.append(".");
        }
        out.append(labels[i].as_str());
        proof {
            reveal_strlit(".");
            if i == 0 {
                assert(lossy_labels(full).subrange(0, 0) =~= Seq::<Seq<char>>::empty());
            }
        }
        i += 1;
        assert(out@ =~= join_dot(lossy_labels(full).subrange(0, i as int)));
    }
    assert(lossy_labels(full).subrange(0, full.len() as int) =~= lossy_labels(full));
    Some(out)
}

/// The position after skipping `n` question entries from `pos`, if they are well formed.
pub open spec fn skip_questions(buf: Seq<u8>, pos: int, n: nat) -> Option<int>
    decreases n,
{
    if n == 0 {
        Some(pos)
    } else if spec_dns_name(buf, pos) is None {
        None
    } else {
        skip_questions(buf, cursor_after(buf, pos) + 4, (n - 1) as nat)
    }
}

/// The service names gathered from `n` answer records from `pos` onward: each PTR
/// record whose target starts with `_` and is new adds its target.
pub open spec fn scan_answers(buf: Seq<u8>, pos: int, n: nat, acc: Seq<Seq<char>>) -> Seq<Seq<char>>
    decreases n,
{
    if n == 0 || spec_dns_name(buf, pos) is None {
        acc
    } else {
        let p1 = cursor_after(buf, pos);
        if p1 + 10 > buf.len() {
            acc
        } else {
            let rr_type = be16(buf[p1], buf[p1 + 1]);
            let rdlen = be16(buf[p1 + 8], buf[p1 + 9]);
            let rs = p1 + 10;
            if rs + rdlen > buf.len() {
                acc
            } else {
                let acc2 = if rr_type == 12 {
                    match spec_dns_name(buf, rs) {
                        Some(s) => if s.len() > 0 && s[0] == '_' && !acc.contains(s) {
                            acc.push(s)
                        } else {
                            acc
                        },
                        None => acc,
                    }
                } else {
                    acc
                };
                scan_answers(buf, rs + rdlen, (n - 1) as nat, acc2)
            }
        }
    }
}

/// The service types an mDNS answer advertises.
pub open spec fn spec_mdns_services(buf: Seq<u8>) -> Seq<Seq<char>> {
    if buf.len() < 12 {
        Seq::empty()
    } else {
        match skip_questions(buf, 12, be16(buf[4], buf[5]) as nat) {
            None => Seq::empty(),
            Some(p) => scan_answers(buf, p, be16(buf[6], buf[7]) as nat, Seq::empty()),
        }
    }
}

fn contains_string(v: &Vec<String>, s: &String) -> (r: bool)
    ensures
        r == texts_of(v@).contains(s@),
{
    let mut i: usize = 0;
    while i < v.len()
        invariant
            i <= v@.len(),
            forall|j: int| 0 <= j < i ==> (#[trigger] v@[j])@ != s@,
        decreases v@.len() - i,
    {
        if v[i] == *s {
            assert(texts_of(v@)[i as int] == s@);
            return true;
        }
        i += 1;
    }
    proof {
        if texts_of(v@).contains(s@) {
            let k = choose|k: int| 0 <= k < v@.len() && #[trigger] texts_of(v@)[k] == s@;
            assert(v@[k]@ == s@);
        }
    }
    false
}

/// The service types an mDNS answer advertises, in order of appearance.
pub fn extract_mdns_services(response: &[u8]) -> (r: Vec<String>)
    requires
        response@.len() + 0x20000 <= usize::MAX,
    ensures
        texts_of(r@) == spec_mdns_services(response@),
{
    let mut services: Vec<String> = Vec::new();
    assert(services@ =~= Seq::<String>::empty());
    assert(texts_of(services@) =~= Seq::<Seq<char>>::empty());
    if response.len() < 12 {
        return services;
    }
    let qd = read_be16(response[4], response[5]) as usize;
    let an = read_be16(response[6], response[7]) as usize;
    let mut pos: usize = 12;
    let mut i: usize = 0;
    while i < qd
        invariant
            i <= qd,
            response@.len() >= 12,
            qd == be16(response@[4], response@[5]),
            an == be16(response@[6], response@[7]),
            services@ == Seq::<String>::empty(),
            texts_of(services@) == Seq::<Seq<char>>::empty(),
            response@.len() + 0x20000 <= usize::MAX,
            pos <= response@.len() + 4,
            skip_questions(response@, 12, qd as nat) == skip_questions(response@, pos as int, (qd - i) as nat),
        decreases qd - i,
    {
        let ghost p0 = pos as int;
        proof {
            lemma_walk_pos(response@, p0, 64, false);
        }
        match read_dns_name(response, &mut pos) {
            Some(_) => {},
            None => {
                return services;
            },
        }
        pos = pos + 4;
        i += 1;
    }
    let mut k: usize = 0;
    while k < an
        invariant
            k <= an,
            response@.len() + 0x20000 <= usize::MAX,
            pos <= response@.len() + 4,
            skip_questions(response@, 12, qd as nat) is Some,
            spec_mdns_services(response@) == scan_answers(response@, pos as int, (an - k) as nat, texts_of(services@)),
        decreases an - k,
    {
        let ghost p0 = pos as int;
        let ghost acc = texts_of(services@);
        proof {
            lemma_walk_pos(response@, p0, 64, false);
        }
        match read_dns_name(response, &mut pos) {
            Some(_) => {},
            None => {
                return services;
            },
        }
        if pos + 10 > response.len() {
            return services;
        }
        let rr_type = read_be16(response[pos], response[pos + 1]);
        let rdlength = read_be16(response[pos + 8], response[pos + 9]) as usize;
        let rdata_start = pos + 10;
        if rdata_start + rdlength > response.len() {
            return services;
        }
        if rr_type == 12 {
            let mut rpos = rdata_start;
            match read_dns_name(response, &mut rpos) {
                Some(service) => {
                    let sc = chars_of(service.as_str());
                    if sc.len() > 0 && sc[0] == '_' && !contains_string(&services, &service) {
                        services.push(service);
                        assert(texts_of(services@) =~= acc.push(sc@));
                    }
                },
                None => {},
            }
        }
        pos = rdata_start + rdlength;
        k += 1;
    }
    services
}

/// The mDNS query for the list of advertised service types: a header with one
/// question, the name `_services._dns-sd._udp.local`, type PTR (12), class IN (1).
pub open spec fn mdns_query_bytes() -> Seq<u8> {
    seq![0u8, 0, 0, 0, 0, 0, 0, 1, 0, 0, 0, 0, 9, 95, 115, 101, 114, 118, 105, 99, 101, 115, 7, 95, 100, 110, 115, 45, 115, 100, 4, 95, 117, 100, 112, 5, 108, 111, 99, 97, 108, 0, 0, 12, 0, 1]
}

/// A field-by-field copy of a hint.
pub fn copy_hint(h: &DiscoveryHint) -> (r: DiscoveryHint)
    ensures
        r == *h,
{
    DiscoveryHint { ip: h.ip.clone(), source: h.source, keyword: h.keyword }
}

/// Index of the hint for `ip` in `v`, if any.
fn hint_index(v: &Vec<DiscoveryHint>, ip: &String) -> (r: Option<usize>)
    ensures
        match r {
            Some(x) => x < v@.len() && v@[x as int].ip@ == ip@,
            None => forall|b: int| 0 <= b < v@.len() ==> (#[trigger] v@[b]).ip@ != ip@,
        },
{
    let mut j: usize = 0;
    while j < v.len()
        invariant
            j <= v@.len(),
            forall|b: int| 0 <= b < j ==> (#[trigger] v@[b]).ip@ != ip@,
        decreases v@.len() - j,
    {
        if v[j].ip == *ip {
            return Some(j);
        }
        j += 1;
    }
    None
}

/// The hint of each address: an mDNS hint wins over an SSDP one (the last mDNS hint
/// of an address, the first SSDP hint).
pub fn merge_hints(mdns: &Vec<DiscoveryHint>, ssdp: &Vec<DiscoveryHint>) -> (r: Vec<DiscoveryHint>)
    ensures
        forall|i: int, j: int| 0 <= i < j < r@.len() ==> (#[trigger] r@[i]).ip@ != (#[trigger] r@[j]).ip@,
        forall|i: int| 0 <= i < r@.len() ==> mdns@.contains(#[trigger] r@[i]) || ssdp@.contains(r@[i]),
        forall|i: int|
            0 <= i < mdns@.len() ==> exists|j: int|
                0 <= j < r@.len() && (#[trigger] r@[j]).ip@ == (#[trigger] mdns@[i]).ip@ && mdns@.contains(r@[j]),
        forall|i: int| 0 <= i < ssdp@.len() ==> exists|j: int| 0 <= j < r@.len() && (#[trigger] r@[j]).ip@ == (#[trigger] ssdp@[i]).ip@,
{
    let mut out: Vec<DiscoveryHint> = Vec::new();
    let mut i: usize = 0;
    while i < mdns.len()
        invariant
            i <= mdns@.len(),
            forall|a: int, b: int| 0 <= a < b < out@.len() ==> (#[trigger] out@[a]).ip@ != (#[trigger] out@[b]).ip@,
            forall|a: int| 0 <= a < out@.len() ==> mdns@.contains(#[trigger] out@[a]),
            forall|a: int|
                0 <= a < i ==> exists|j: int|
                    0 <= j < out@.len() && (#[trigger] out@[j]).ip@ == (#[trigger] mdns@[a]).ip@ && mdns@.contains(out@[j]),
        decreases mdns@.len() - i,
    {
        let h = copy_hint(&mdns[i]);
        let found = hint_index(&out, &h.ip);
        let ghost before = out@;
        match found {
            Some(x) => {
                out.set(x, h);
            },
            None => {
                out.push(h);
            },
        }
        proof {
            assert(mdns@.contains(h)) by {
                assert(mdns@[i as int] == h);
            }
            assert forall|a: int|
                0 <= a < i + 1 implies exists|j: int|
                0 <= j < out@.len() && (#[trigger] out@[j]).ip@ == (#[trigger] mdns@[a]).ip@ && mdns@.contains(out@[j]) by {
                if a < i {
                    let j0 = choose|j: int|
                        0 <= j < before.len() && (#[trigger] before[j]).ip@ == mdns@[a].ip@ && mdns@.contains(before[j]);
                    match found {
                        Some(x) => {
                            if j0 == x {
                                assert(out@[x as int] == h);
                            } else {
                                assert(out@[j0] == before[j0]);
                            }
                        },
                        None => {
                            assert(out@[j0] == before[j0]);
                        },
                    }
                } else {
                    match found {
                        Some(x) => {
                            assert(out@[x as int] == h);
                        },
                        None => {
                            assert(out@[before.len() as int] == h);
                        },
                    }
                }
            }
        }
        i += 1;
    }
    let ghost after_mdns = out@;
    let mut k: usize = 0;
    while k < ssdp.len()
        invariant
            k <= ssdp@.len(),
            forall|a: int, b: int| 0 <= a < b < out@.len() ==> (#[trigger] out@[a]).ip@ != (#[trigger] out@[b]).ip@,
            forall|a: int| 0 <= a < out@.len() ==> mdns@.contains(#[trigger] out@[a]) || ssdp@.contains(out@[a]),
            after_mdns.len() <= out@.len(),
            forall|a: int| 0 <= a < after_mdns.len() ==> #[trigger] out@[a] == after_mdns[a],
            forall|a: int|
                0 <= a < mdns@.len() ==> exists|j: int|
                    0 <= j < after_mdns.len() && (#[trigger] after_mdns[j]).ip@ == (#[trigger] mdns@[a]).ip@ && mdns@.contains(after_mdns[j]),
            forall|a: int| 0 <= a < k ==> exists|j: int| 0 <= j < out@.len() && (#[trigger] out@[j]).ip@ == (#[trigger] ssdp@[a]).ip@,
        decreases ssdp@.len() - k,
    {
        let h = copy_hint(&ssdp[k]);
        let found = hint_index(&out, &h.ip);
        let ghost before = out@;
        if found.is_none() {
            out.push(h);
        }
        proof {
            assert(ssdp@.contains(h)) by {
                assert(ssdp@[k as int] == h);
            }
            assert forall|a: int| 0 <= a < k + 1 implies exists|j: int|
                0 <= j < out@.len() && (#[trigger] out@[j]).ip@ == (#[trigger] ssdp@[a]).ip@ by {
                if a < k {
                    let j0 = choose|j: int| 0 <= j < before.len() && (#[trigger] before[j]).ip@ == ssdp@[a].ip@;
                    assert(out@[j0] == before[j0]);
                } else {
                    match found {
                        Some(x) => {
                            assert(out@[x as int].ip@ == h.ip@);
                        },
                        None => {
                            assert(out@[before.len() as int] == h);
                        },
                    }
                }
            }
        }
        k += 1;
    }
    proof {
        assert forall|a: int|
            0 <= a < mdns@.len() implies exists|j: int|
            0 <= j < out@.len() && (#[trigger] out@[j]).ip@ == (#[trigger] mdns@[a]).ip@ && mdns@.contains(out@[j]) by {
            let j0 = choose|j: int|
                0 <= j < after_mdns.len() && (#[trigger] after_mdns[j]).ip@ == mdns@[a].ip@ && mdns@.contains(after_mdns[j]);
            assert(out@[j0] == after_mdns[j0]);
        }
    }
    out
}


/// The mDNS query for the list of advertised service types.
pub fn mdns_query_packet() -> (r: Vec<u8>)
    ensures
        r@ == mdns_query_bytes(),
{
    let bytes: [u8; 46] = [0x00, 0x00, 0x00, 0x00, 0x00, 0x00, 0x00, 0x01, 0x00, 0x00, 0x00, 0x00, 0x09, 0x5F, 0x73, 0x65, 0x72, 0x76, 0x69, 0x63, 0x65, 0x73, 0x07, 0x5F, 0x64, 0x6E, 0x73, 0x2D, 0x73, 0x64, 0x04, 0x5F, 0x75, 0x64, 0x70, 0x05, 0x6C, 0x6F, 0x63, 0x61, 0x6C, 0x00, 0x00, 0x0C, 0x00, 0x01];
    let mut q: Vec<u8> = Vec::new();
    let mut i: usize = 0;
    while i < 46
        invariant
            i <= 46,
            q@ == bytes@.subrange(0, i as int),
        decreases 46 - i,
    {
        q.push(bytes[i]);
        i += 1;
        assert(q@ =~= bytes@.subrange(0, i as int));
    }
    assert(bytes@ =~= mdns_query_bytes());
    assert(bytes@.subrange(0, 46) =~= bytes@);
    q
}

/// The server text of an SSDP answer: the rest of its first line that starts with
/// `server:`, trimmed; empty when there is none.
pub open spec fn ssdp_server(resp: Seq<char>) -> Seq<char> {
    server_from(split_on(resp, '\n'), 0)
}

/// The server text from line `i` onward.
pub open spec fn server_from(lines: Seq<Seq<char>>, i: int) -> Seq<char>
    decreases lines.len() - i,
{
    if i < 0 || i >= lines.len() {
        Seq::empty()
    } else if starts_with(lines[i], "server:"@) {
        trim(lines[i].subrange(7, lines[i].len() as int))
    } else {
        server_from(lines, i + 1)
    }
}

/// The device class an SSDP answer suggests: the answer is decoded, lower-cased and
/// its server text classified.
pub fn ssdp_response_keyword(buf: &[u8], lang: u8) -> (r: Option<&'static str>)
    ensures
        ({
            let server = ssdp_server(spec_unicode_lowercase(spec_utf8_lossy(buf@)));
            match r {
                Some(k) => server.len() > 0 && ssdp_class(spec_unicode_lowercase(server), lang) == Some(k@),
                None => server.len() == 0 || ssdp_class(spec_unicode_lowercase(server), lang) is None,
            }
        }),
{
    let text = utf8_lossy(buf);
    let low = unicode_lowercase(text.as_str());
    let c = chars_of(low.as_str());
    let lines = split_vec(c.as_slice(), '\n');
    let ghost ls = split_on(low@, '\n');
    let mut i: usize = 0;
    let mut server: Vec<char> = Vec::new();
    while i < lines.len()
        invariant_except_break
            server@ == Seq::<char>::empty(),
        invariant
            i <= lines@.len(),
            names_of(lines@) == ls,
            server_from(ls, 0) == server_from(ls, i as int),
        ensures
            server@ == server_from(ls, 0),
        decreases lines@.len() - i,
    {
        assert(lines@[i as int]@ == ls[i as int]);
        if starts_with_str(lines[i].as_slice(), "server:") {
            proof {
                reveal_strlit("server:");
            }
            let rest = crate::text::slice_vec(lines[i].as_slice(), 7, lines[i].len());
            server = trim_vec(rest.as_slice());
            break;
        }
        i += 1;
    }
    if server.len() == 0 {
        return None;
    }
    let st = string_from_chars(server.as_slice());
    ssdp_keyword(st.as_str(), lang)
}

} // verus!
