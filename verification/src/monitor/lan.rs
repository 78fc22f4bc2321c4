//! Classification of the devices found on the local network and the scanner's record
//! of them.
use vstd::prelude::*;
use crate::i18n::{spec_tr_with, tr_with};
use crate::monitor::ports::{copy_open_ports, format_ports_summary, spec_ports_summary, OpenPort};
use crate::security::{incident_texts, log_after, same_detection_state, SecurityEngine, SecurityIncident};
use crate::security::table::KeyTable;
use crate::text::{chars_of, contains_seq, contains_str, ends_with, ends_with_str, eq_str, spec_unicode_lowercase, unicode_lowercase};

verus! {

/// A device on the local network, as the scanner reports it.
#[derive(Clone, Debug)]
pub struct LanDevice {
    pub name: String,
    pub ip: String,
    pub mac: String,
    pub vendor: String,
    pub device_type: String,
    pub is_online: bool,
    pub latency_ms: i32,
    pub traffic: String,
    pub total_queries: u64,
    pub blocked_queries: u64,
    pub threats_detected: u64,
    pub last_domain: String,
    pub last_active: String,
    pub risk_level: String,
    pub open_ports: Vec<OpenPort>,
    pub port_risk: String,
    pub port_advice: String,
    pub confidence: i32,
    pub custom_alias: String,
    pub os_name: String,
    pub is_quarantined: bool,
    pub bandwidth_rate: String,
}

/// The confidence in a device's identification: ten times the weight of the evidence
/// (known vendor 2, an open service 3, a NetBIOS name 1, mDNS 2, SSDP 2).
pub open spec fn spec_confidence(vendor_known: bool, tcp: bool, netbios: bool, mdns: bool, ssdp: bool) -> int {
    ((if vendor_known { 2int } else { 0 }) + (if tcp { 3int } else { 0 }) + (if netbios { 1int } else { 0 }) + (
    if mdns { 2int } else { 0 }) + (if ssdp { 2int } else { 0 })) * 10
}

/// The class of a device from its address, vendor, probed service and host name:
/// a localized label and a tag.
pub open spec fn spec_classify(
    ip: Seq<char>,
    vendor: Seq<char>,
    service: Option<Seq<char>>,
    host: Option<Seq<char>>,
    lang: u8,
) -> (Seq<char>, Seq<char>) {
    if ends_with(ip, ".1"@) || ends_with(ip, ".254"@) || contains_seq(vendor, "Router"@) || contains_seq(vendor, "Modem"@) {
        (spec_tr_with(lang, "📡 Router Wi-Fi / Gateway"@, "📡 Wi-Fi Router / Gateway"@, "📡 Wi-Fi 路由器 / 网关"@), "ROUTER"@)
    } else if service is Some && service_class(service->0, lang) is Some {
        service_class(service->0, lang)->0
    } else if host is Some && host_class(spec_unicode_lowercase(host->0), lang) is Some {
        host_class(spec_unicode_lowercase(host->0), lang)->0
    } else {
        vendor_class(vendor, lang)
    }
}

/// The class that a probed service names, if any.
pub open spec fn service_class(s: Seq<char>, lang: u8) -> Option<(Seq<char>, Seq<char>)> {
    if contains_seq(s, "Camera"@) {
        Some((spec_tr_with(lang, "📷 Camera an ninh (CCTV / IP Cam)"@, "📷 Security Camera (CCTV / IP Cam)"@, "📷 安防摄像头 (CCTV / IP Cam)"@), "CAMERA"@))
    } else if contains_seq(s, "Printer"@) {
        Some((spec_tr_with(lang, "🖨️ Máy in mạng (Printer)"@, "🖨️ Network Printer"@, "🖨️ 网络打印机"@), "PRINTER"@))
    } else if contains_seq(s, "Smart TV"@) {
        Some((spec_tr_with(lang, "📺 Smart TV / Thiết bị truyền hình"@, "📺 Smart TV / TV Device"@, "📺 智能电视 / 电视设备"@), "TV"@))
    } else if contains_seq(s, "iPhone"@) || contains_seq(s, "Android"@) {
        Some((spec_tr_with(lang, "📱 Điện thoại thông minh"@, "📱 Smartphone"@, "📱 智能手机"@), "PHONE"@))
    } else if contains_seq(s, "PC"@) || contains_seq(s, "Server"@) {
        Some((spec_tr_with(lang, "💻 Máy tính (PC / Laptop)"@, "💻 Computer (PC / Laptop)"@, "💻 电脑 (PC / 笔记本)"@), "PC"@))
    } else {
        None
    }
}

/// The class that a lower-cased host name suggests, if any.
pub open spec fn host_class(h: Seq<char>, lang: u8) -> Option<(Seq<char>, Seq<char>)> {
    if contains_seq(h, "cam"@) || contains_seq(h, "cctv"@) || contains_seq(h, "dvr"@) || contains_seq(h, "nvr"@) {
        Some((spec_tr_with(lang, "📷 Camera an ninh"@, "📷 Security Camera"@, "📷 安防摄像头"@), "CAMERA"@))
    } else if contains_seq(h, "phone"@) || contains_seq(h, "iphone"@) || contains_seq(h, "galaxy"@) || contains_seq(h, "redmi"@) || contains_seq(h, "xiaomi"@) {
        Some((spec_tr_with(lang, "📱 Điện thoại thông minh"@, "📱 Smartphone"@, "📱 智能手机"@), "PHONE"@))
    } else if contains_seq(h, "desktop"@) || contains_seq(h, "laptop"@) || contains_seq(h, "pc"@) || contains_seq(h, "macbook"@) {
        Some((spec_tr_with(lang, "💻 Máy tính (PC / Laptop)"@, "💻 Computer (PC / Laptop)"@, "💻 电脑 (PC / 笔记本)"@), "PC"@))
    } else if contains_seq(h, "tv"@) || contains_seq(h, "box"@) || contains_seq(h, "chromecast"@) {
        Some((spec_tr_with(lang, "📺 Smart TV"@, "📺 Smart TV"@, "📺 智能电视"@), "TV"@))
    } else if contains_seq(h, "print"@) {
        Some((spec_tr_with(lang, "🖨️ Máy in mạng"@, "🖨️ Network Printer"@, "🖨️ 网络打印机"@), "PRINTER"@))
    } else {
        None
    }
}

/// The class that a vendor text suggests.
pub open spec fn vendor_class(v: Seq<char>, lang: u8) -> (Seq<char>, Seq<char>) {
    if contains_seq(v, "Camera"@) || contains_seq(v, "Hikvision"@) || contains_seq(v, "Dahua"@) || contains_seq(v, "Ezviz"@) || contains_seq(v, "Imou"@) {
        (spec_tr_with(lang, "📷 Camera an ninh"@, "📷 Security Camera"@, "📷 安防摄像头"@), "CAMERA"@)
    } else if contains_seq(v, "iPhone"@) || contains_seq(v, "Galaxy"@) || contains_seq(v, "OPPO"@) || contains_seq(v, "Vivo"@) || contains_seq(v, "Realme"@) || contains_seq(v, "Điện thoại"@) {
        (spec_tr_with(lang, "📱 Điện thoại thông minh"@, "📱 Smartphone"@, "📱 智能手机"@), "PHONE"@)
    } else if contains_seq(v, "Dell"@) || contains_seq(v, "HP"@) || contains_seq(v, "ASUS"@) || contains_seq(v, "Acer"@) || contains_seq(v, "Lenovo"@) || contains_seq(v, "Intel"@) {
        (spec_tr_with(lang, "💻 Máy tính (PC / Laptop)"@, "💻 Computer (PC / Laptop)"@, "💻 电脑 (PC / 笔记本)"@), "PC"@)
    } else if contains_seq(v, "TV"@) || contains_seq(v, "Google"@) || contains_seq(v, "Sony"@) || contains_seq(v, "LG"@) {
        (spec_tr_with(lang, "📺 Smart TV / Thiết bị thông minh"@, "📺 Smart TV / Smart Device"@, "📺 智能电视 / 智能设备"@), "TV"@)
    } else if contains_seq(v, "Espressif"@) || contains_seq(v, "Tuya"@) {
        (spec_tr_with(lang, "💡 Thiết bị thông minh (Smart Home)"@, "💡 Smart Device (Smart Home)"@, "💡 智能设备 (智能家居)"@), "IOT"@)
    } else {
        (spec_tr_with(lang, "🌐 Thiết bị mạng LAN"@, "🌐 LAN Device"@, "🌐 局域网设备"@), "DEVICE"@)
    }
}

fn service_class_of(s: &Vec<char>, lang: u8) -> (r: Option<(&'static str, &'static str)>)
    ensures
        match r {
            Some(p) => service_class(s@, lang) == Some((p.0@, p.1@)),
            None => service_class(s@, lang) is None,
        },
{
    if contains_str(s.as_slice(), "Camera") {
        Some((tr_with(lang, "📷 Camera an ninh (CCTV / IP Cam)", "📷 Security Camera (CCTV / IP Cam)", "📷 安防摄像头 (CCTV / IP Cam)"), "CAMERA"))
    } else if contains_str(s.as_slice(), "Printer") {
        Some((tr_with(lang, "🖨️ Máy in mạng (Printer)", "🖨️ Network Printer", "🖨️ 网络打印机"), "PRINTER"))
    } else if contains_str(s.as_slice(), "Smart TV") {
        Some((tr_with(lang, "📺 Smart TV / Thiết bị truyền hình", "📺 Smart TV / TV Device", "📺 智能电视 / 电视设备"), "TV"))
    } else if contains_str(s.as_slice(), "iPhone") || contains_str(s.as_slice(), "Android") {
        Some((tr_with(lang, "📱 Điện thoại thông minh", "📱 Smartphone", "📱 智能手机"), "PHONE"))
    } else if contains_str(s.as_slice(), "PC") || contains_str(s.as_slice(), "Server") {
        Some((tr_with(lang, "💻 Máy tính (PC / Laptop)", "💻 Computer (PC / Laptop)", "💻 电脑 (PC / 笔记本)"), "PC"))
    } else {
        None
    }
}

fn host_class_of(h: &Vec<char>, lang: u8) -> (r: Option<(&'static str, &'static str)>)
    ensures
        match r {
            Some(p) => host_class(h@, lang) == Some((p.0@, p.1@)),
            None => host_class(h@, lang) is None,
        },
{
    if contains_str(h.as_slice(), "cam") || contains_str(h.as_slice(), "cctv") || contains_str(h.as_slice(), "dvr") || contains_str(h.as_slice(), "nvr") {
        Some((tr_with(lang, "📷 Camera an ninh", "📷 Security Camera", "📷 安防摄像头"), "CAMERA"))
    } else if contains_str(h.as_slice(), "phone") || contains_str(h.as_slice(), "iphone") || contains_str(h.as_slice(), "galaxy") || contains_str(h.as_slice(), "redmi") || contains_str(h.as_slice(), "xiaomi") {
        Some((tr_with(lang, "📱 Điện thoại thông minh", "📱 Smartphone", "📱 智能手机"), "PHONE"))
    } else if contains_str(h.as_slice(), "desktop") || contains_str(h.as_slice(), "laptop") || contains_str(h.as_slice(), "pc") || contains_str(h.as_slice(), "macbook") {
        Some((tr_with(lang, "💻 Máy tính (PC / Laptop)", "💻 Computer (PC / Laptop)", "💻 电脑 (PC / 笔记本)"), "PC"))
    } else if contains_str(h.as_slice(), "tv") || contains_str(h.as_slice(), "box") || contains_str(h.as_slice(), "chromecast") {
        Some((tr_with(lang, "📺 Smart TV", "📺 Smart TV", "📺 智能电视"), "TV"))
    } else if contains_str(h.as_slice(), "print") {
        Some((tr_with(lang, "🖨️ Máy in mạng", "🖨️ Network Printer", "🖨️ 网络打印机"), "PRINTER"))
    } else {
        None
    }
}

fn vendor_class_of(v: &Vec<char>, lang: u8) -> (r: (&'static str, &'static str))
    ensures
        (r.0@, r.1@) == vendor_class(v@, lang),
{
    if contains_str(v.as_slice(), "Camera") || contains_str(v.as_slice(), "Hikvision") || contains_str(v.as_slice(), "Dahua") || contains_str(v.as_slice(), "Ezviz") || contains_str(v.as_slice(), "Imou") {
        (tr_with(lang, "📷 Camera an ninh", "📷 Security Camera", "📷 安防摄像头"), "CAMERA")
    } else if contains_str(v.as_slice(), "iPhone") || contains_str(v.as_slice(), "Galaxy") || contains_str(v.as_slice(), "OPPO") || contains_str(v.as_slice(), "Vivo") || contains_str(v.as_slice(), "Realme") || contains_str(v.as_slice(), "Điện thoại") {
        (tr_with(lang, "📱 Điện thoại thông minh", "📱 Smartphone", "📱 智能手机"), "PHONE")
    } else if contains_str(v.as_slice(), "Dell") || contains_str(v.as_slice(), "HP") || contains_str(v.as_slice(), "ASUS") || contains_str(v.as_slice(), "Acer") || contains_str(v.as_slice(), "Lenovo") || contains_str(v.as_slice(), "Intel") {
        (tr_with(lang, "💻 Máy tính (PC / Laptop)", "💻 Computer (PC / Laptop)", "💻 电脑 (PC / 笔记本)"), "PC")
    } else if contains_str(v.as_slice(), "TV") || contains_str(v.as_slice(), "Google") || contains_str(v.as_slice(), "Sony") || contains_str(v.as_slice(), "LG") {
        (tr_with(lang, "📺 Smart TV / Thiết bị thông minh", "📺 Smart TV / Smart Device", "📺 智能电视 / 智能设备"), "TV")
    } else if contains_str(v.as_slice(), "Espressif") || contains_str(v.as_slice(), "Tuya") {
        (tr_with(lang, "💡 Thiết bị thông minh (Smart Home)", "💡 Smart Device (Smart Home)", "💡 智能设备 (智能家居)"), "IOT")
    } else {
        (tr_with(lang, "🌐 Thiết bị mạng LAN", "🌐 LAN Device", "🌐 局域网设备"), "DEVICE")
    }
}


/// Whether any open port has number `n`.
pub open spec fn has_port_num(ports: Seq<OpenPort>, n: u16) -> bool {
    exists|i: int| 0 <= i < ports.len() && (#[trigger] ports[i]).port == n
}

/// The system that a lower-cased host name suggests, if any.
pub open spec fn host_os(h: Seq<char>) -> Option<Seq<char>> {
    if contains_seq(h, "desktop"@) || contains_seq(h, "laptop"@) || contains_seq(h, "pc"@) || contains_seq(h, "win"@) {
        Some("Windows PC"@)
    } else if contains_seq(h, "iphone"@) || contains_seq(h, "ipad"@) {
        Some("Apple iOS"@)
    } else if contains_seq(h, "macbook"@) || contains_seq(h, "imac"@) {
        Some("macOS"@)
    } else {
        None
    }
}

/// The system that a probed service suggests, if any.
pub open spec fn service_os(s: Seq<char>) -> Option<Seq<char>> {
    if contains_seq(s, "Windows"@) {
        Some("Windows PC"@)
    } else if contains_seq(s, "iOS"@) || contains_seq(s, "iPhone"@) {
        Some("Apple iOS"@)
    } else if contains_seq(s, "Android"@) {
        Some("Android OS"@)
    } else if contains_seq(s, "Camera"@) {
        Some("Embedded Linux"@)
    } else {
        None
    }
}

/// The operating system a device likely runs, judged from its open ports, its vendor
/// (lower-cased), then its host name and probed service.
pub open spec fn spec_estimate_os(vendor: Seq<char>, ports: Seq<OpenPort>, service: Option<Seq<char>>, host: Option<Seq<char>>) -> Seq<char> {
    let v = spec_unicode_lowercase(vendor);
    if has_port_num(ports, 445) || has_port_num(ports, 3389) || has_port_num(ports, 139) {
        "Windows 11 / 10"@
    } else if has_port_num(ports, 62078) || (contains_seq(v, "apple"@) && (contains_seq(v, "iphone"@) || contains_seq(v, "ipad"@))) {
        "Apple iOS / iPadOS"@
    } else if contains_seq(v, "apple"@) && (contains_seq(v, "mac"@) || contains_seq(v, "macbook"@)) {
        "Apple macOS"@
    } else if has_port_num(ports, 5555) || contains_seq(v, "android"@) || contains_seq(v, "samsung"@) || contains_seq(v, "xiaomi"@)
        || contains_seq(v, "oppo"@) || contains_seq(v, "vivo"@) || contains_seq(v, "realme"@) {
        "Android OS"@
    } else if contains_seq(v, "router"@) || contains_seq(v, "modem"@) || contains_seq(v, "tp-link"@) || contains_seq(v, "tenda"@)
        || contains_seq(v, "draytek"@) || contains_seq(v, "cisco"@) || contains_seq(v, "vnpt"@) || contains_seq(v, "viettel"@) {
        "RouterOS / Embedded Linux"@
    } else if contains_seq(v, "camera"@) || contains_seq(v, "hikvision"@) || contains_seq(v, "dahua"@) || contains_seq(v, "ezviz"@)
        || contains_seq(v, "imou"@) || contains_seq(v, "axis"@) || has_port_num(ports, 554) || has_port_num(ports, 8899) {
        "Embedded Linux (IP Camera)"@
    } else if contains_seq(v, "tv"@) || contains_seq(v, "lg"@) || contains_seq(v, "sony"@) || has_port_num(ports, 8008)
        || has_port_num(ports, 8009) {
        "Smart TV OS (webOS / Tizen / Android TV)"@
    } else if has_port_num(ports, 22) {
        "Linux / Unix Server"@
    } else if host is Some && host_os(spec_unicode_lowercase(host->0)) is Some {
        host_os(spec_unicode_lowercase(host->0))->0
    } else if service is Some && service_os(service->0) is Some {
        service_os(service->0)->0
    } else {
        "Network Device OS"@
    }
}

fn has_port(ports: &[OpenPort], n: u16) -> (r: bool)
    ensures
        r == has_port_num(ports@, n),
{
    let mut i: usize = 0;
    while i < ports.len()
        invariant
            i <= ports@.len(),
            forall|j: int| 0 <= j < i ==> (#[trigger] ports@[j]).port != n,
        decreases ports@.len() - i,
    {
        if ports[i].port == n {
            return true;
        }
        i += 1;
    }
    false
}

fn lower_chars(s: &str) -> (r: Vec<char>)
    ensures
        r@ == spec_unicode_lowercase(s@),
{
    let l = unicode_lowercase(s);
    chars_of(l.as_str())
}

fn host_os_of(h: &Vec<char>) -> (r: Option<&'static str>)
    ensures
        match r {
            Some(x) => host_os(h@) == Some(x@),
            None => host_os(h@) is None,
        },
{
    if contains_str(h.as_slice(), "desktop") || contains_str(h.as_slice(), "laptop") || contains_str(h.as_slice(), "pc") || contains_str(
        h.as_slice(),
        "win",
    ) {
        Some("Windows PC")
    } else if contains_str(h.as_slice(), "iphone") || contains_str(h.as_slice(), "ipad") {
        Some("Apple iOS")
    } else if contains_str(h.as_slice(), "macbook") || contains_str(h.as_slice(), "imac") {
        Some("macOS")
    } else {
        None
    }
}

fn service_os_of(s: &Vec<char>) -> (r: Option<&'static str>)
    ensures
        match r {
            Some(x) => service_os(s@) == Some(x@),
            None => service_os(s@) is None,
        },
{
    if contains_str(s.as_slice(), "Windows") {
        Some("Windows PC")
    } else if contains_str(s.as_slice(), "iOS") || contains_str(s.as_slice(), "iPhone") {
        Some("Apple iOS")
    } else if contains_str(s.as_slice(), "Android") {
        Some("Android OS")
    } else if contains_str(s.as_slice(), "Camera") {
        Some("Embedded Linux")
    } else {
        None
    }
}

/// The scanner's record: the devices of the last scan, per-address DNS activity
/// (queries, blocked, threats, last domain, last time), the addresses already alerted
/// about for high-risk ports, and whether a scan runs.
pub struct LanScanner {
    devices: Vec<LanDevice>,
    activity: KeyTable<(u64, u64, u64, String, String)>,
    notified_high_risk: crate::dns::sets::DomainSet,
    scanning: bool,
}

/// The activity counters and texts of an address, as views.
pub open spec fn activity_view(a: Option<(u64, u64, u64, String, String)>) -> Option<(u64, u64, u64, Seq<char>, Seq<char>)> {
    match a {
        Some(x) => Some((x.0, x.1, x.2, x.3@, x.4@)),
        None => None,
    }
}

/// Two devices agree on everything but the DNS activity fields (queries, blocked,
/// threats, last domain, last activity, risk level).
pub open spec fn same_but_activity(a: LanDevice, b: LanDevice) -> bool {
    &&& a.name == b.name && a.ip == b.ip && a.mac == b.mac && a.vendor == b.vendor
    &&& a.device_type == b.device_type && a.is_online == b.is_online && a.latency_ms == b.latency_ms
    &&& a.traffic == b.traffic && a.open_ports@ == b.open_ports@ && a.port_risk == b.port_risk
    &&& a.port_advice == b.port_advice && a.confidence == b.confidence
    &&& a.custom_alias == b.custom_alias && a.os_name == b.os_name
    &&& a.is_quarantined == b.is_quarantined && a.bandwidth_rate == b.bandwidth_rate
}

/// Two devices agree on every field.
pub open spec fn same_device(a: LanDevice, b: LanDevice) -> bool {
    &&& same_but_activity(a, b)
    &&& a.total_queries == b.total_queries && a.blocked_queries == b.blocked_queries
    &&& a.threats_detected == b.threats_detected && a.last_domain == b.last_domain
    &&& a.last_active == b.last_active && a.risk_level == b.risk_level
}

/// The risk level a device's DNS activity earns: threats make it dangerous, more than
/// ten blocked queries mark it safe with ads filtered, otherwise it is safe.
pub open spec fn activity_risk_text(threats: u64, blocked: u64, lang: u8) -> Seq<char> {
    if threats > 0 {
        spec_tr_with(
            lang,
            "🚨 Nguy hiểm (Phát hiện mối đe dọa)"@,
            "🚨 Dangerous (Threats detected)"@,
            "🚨 危险 (检测到威胁)"@,
        )
    } else if blocked > 10 {
        spec_tr_with(lang, "🛡️ An toàn (Đã lọc quảng cáo)"@, "🛡️ Safe (Ads filtered)"@, "🛡️ 安全 (已过滤广告)"@)
    } else {
        spec_tr_with(lang, "🟢 An toàn"@, "🟢 Safe"@, "🟢 安全"@)
    }
}

/// `b` is `a` carrying the activity `act`; with `restate_risk` its risk level is the
/// one that the activity earns, otherwise it is kept.
pub open spec fn carries_activity(
    a: LanDevice,
    b: LanDevice,
    act: (u64, u64, u64, Seq<char>, Seq<char>),
    restate_risk: bool,
    lang: u8,
) -> bool {
    &&& same_but_activity(a, b)
    &&& b.total_queries == act.0 && b.blocked_queries == act.1 && b.threats_detected == act.2
    &&& b.last_domain@ == act.3 && b.last_active@ == act.4
    &&& if restate_risk {
        b.risk_level@ == activity_risk_text(act.2, act.1, lang)
    } else {
        b.risk_level == a.risk_level
    }
}

/// The entry of this machine: the loopback address or a MAC marked local.
pub open spec fn is_local_entry(d: LanDevice, lang: u8) -> bool {
    d.ip@ == "127.0.0.1"@ || contains_seq(d.mac@, spec_tr_with(lang, "Local"@, "Local"@, "本地"@))
}

/// The activity counters an address starts from.
pub open spec fn fresh_activity() -> (u64, u64, u64, Seq<char>, Seq<char>) {
    (0, 0, 0, "-"@, "-"@)
}

/// A field-by-field copy of a device.
pub fn copy_device(d: &LanDevice) -> (r: LanDevice)
    ensures
        same_device(r, *d),
{
    LanDevice {
        name: d.name.clone(),
        ip: d.ip.clone(),
        mac: d.mac.clone(),
        vendor: d.vendor.clone(),
        device_type: d.device_type.clone(),
        is_online: d.is_online,
        latency_ms: d.latency_ms,
        traffic: d.traffic.clone(),
        total_queries: d.total_queries,
        blocked_queries: d.blocked_queries,
        threats_detected: d.threats_detected,
        last_domain: d.last_domain.clone(),
        last_active: d.last_active.clone(),
        risk_level: d.risk_level.clone(),
        open_ports: copy_open_ports(&d.open_ports),
        port_risk: d.port_risk.clone(),
        port_advice: d.port_advice.clone(),
        confidence: d.confidence,
        custom_alias: d.custom_alias.clone(),
        os_name: d.os_name.clone(),
        is_quarantined: d.is_quarantined,
        bandwidth_rate: d.bandwidth_rate.clone(),
    }
}

/// The devices alerted about among the first `n`, and the addresses known after them:
/// each device with high-risk open ports whose address was not alerted about before.
pub open spec fn alert_plan(devs: Seq<LanDevice>, seen: Set<Seq<char>>, n: int) -> (Seq<int>, Set<Seq<char>>)
    decreases n,
{
    if n <= 0 {
        (Seq::empty(), seen)
    } else {
        let p = alert_plan(devs, seen, n - 1);
        let d = devs[n - 1];
        if d.port_risk@ == "HIGH"@ && !p.1.contains(d.ip@) {
            (p.0.push(n - 1), p.1.insert(d.ip@))
        } else {
            p
        }
    }
}

/// The texts of the incident for a device with high-risk open ports.
pub open spec fn port_alert_texts(d: LanDevice, lang: u8) -> (Seq<char>, Seq<char>, Seq<char>, Seq<char>, Seq<char>) {
    (
        spec_tr_with(
            lang,
            "Cổng rủi ro cao đang mở trên thiết bị LAN"@,
            "High-risk ports open on LAN device"@,
            "局域网设备存在高危开放端口"@,
        ),
        d.ip@,
        d.name@ + " — "@ + spec_tr_with(lang, "phát hiện cổng: "@, "open ports: "@, "发现开放端口: "@)
            + spec_ports_summary(d.open_ports@, lang),
        "HIGH"@,
        d.port_advice@,
    )
}

/// The incident log after logging `incs` in order.
pub open spec fn log_after_all(log: Seq<SecurityIncident>, incs: Seq<SecurityIncident>) -> Seq<SecurityIncident>
    decreases incs.len(),
{
    if incs.len() == 0 {
        log
    } else {
        log_after(log_after_all(log, incs.drop_last()), incs.last())
    }
}

impl LanScanner {
    /// The devices of the last scan.
    pub closed spec fn device_list(&self) -> Seq<LanDevice> {
        self.devices@
    }

    /// The DNS activity recorded for an address.
    pub closed spec fn activity_of(&self, ip: Seq<char>) -> Option<(u64, u64, u64, Seq<char>, Seq<char>)> {
        activity_view(self.activity.lookup(ip))
    }

    /// The addresses already alerted about for high-risk ports.
    pub closed spec fn notified(&self) -> Set<Seq<char>> {
        self.notified_high_risk@
    }

    /// Whether a scan runs.
    pub closed spec fn scanning(&self) -> bool {
        self.scanning
    }

    /// Internal consistency.
    pub closed spec fn wf(&self) -> bool {
        self.activity.wf() && self.notified_high_risk.wf()
    }

    /// A scanner with no devices, no activity and no scan running.
    pub fn new() -> (r: Self)
        ensures
            r.wf(),
            r.device_list().len() == 0,
            !r.scanning(),
            r.notified() == Set::<Seq<char>>::empty(),
            forall|ip: Seq<char>| #[trigger] r.activity_of(ip) is None,
    {
        LanScanner {
            devices: Vec::new(),
            activity: KeyTable::new(),
            notified_high_risk: crate::dns::sets::DomainSet::new(),
            scanning: false,
        }
    }

    /// Whether a scan runs.
    pub fn is_scanning(&self) -> (r: bool)
        ensures
            r == self.scanning(),
    {
        self.scanning
    }

    /// Marks a scan as running or finished.
    pub fn set_scanning(&mut self, on: bool)
        ensures
            final(self).scanning() == on,
            final(self).device_list() == old(self).device_list(),
            final(self).notified() == old(self).notified(),
            forall|ip: Seq<char>| #[trigger] final(self).activity_of(ip) == old(self).activity_of(ip),
            final(self).wf() == old(self).wf(),
    {
        self.scanning = on;
    }

    /// The confidence in a device's identification, in steps of ten up to 100.
    pub fn confidence_score(vendor_known: bool, has_tcp_service: bool, has_netbios: bool, has_mdns: bool, has_ssdp: bool) -> (r: i32)
        ensures
            r == spec_confidence(vendor_known, has_tcp_service, has_netbios, has_mdns, has_ssdp),
            0 <= r <= 100,
    {
        let mut score: i32 = 0;
        if vendor_known {
            score += 2;
        }
        if has_tcp_service {
            score += 3;
        }
        if has_netbios {
            score += 1;
        }
        if has_mdns {
            score += 2;
        }
        if has_ssdp {
            score += 2;
        }
        score * 10
    }

    /// A device of the last scan merged with the DNS activity of its address; the
    /// entry of this machine takes the loopback activity, keeping its risk level.
    pub open spec fn merged(&self, d: LanDevice, out: LanDevice, lang: u8) -> bool {
        match self.activity_of(d.ip@) {
            Some(a) => carries_activity(d, out, a, true, lang),
            None => if is_local_entry(d, lang) && self.activity_of("127.0.0.1"@) is Some {
                carries_activity(d, out, self.activity_of("127.0.0.1"@).unwrap(), false, lang)
            } else {
                same_device(out, d)
            },
        }
    }

    /// Counts one DNS query of `ip` at time `time`: the query, whether it was blocked
    /// and whether it was a threat, and the domain and time of the latest one. An
    /// address seen for the first time starts from zero counts.
    pub fn record_activity_at(&mut self, ip: &str, domain: &str, is_blocked: bool, is_threat: bool, time: &str)
        requires
            old(self).wf(),
        ensures
            final(self).wf(),
            ({
                let prev = match old(self).activity_of(ip@) {
                    Some(a) => a,
                    None => fresh_activity(),
                };
                final(self).activity_of(ip@) == Some(
                    (
                        prev.0.wrapping_add(1),
                        if is_blocked { prev.1.wrapping_add(1) } else { prev.1 },
                        if is_threat { prev.2.wrapping_add(1) } else { prev.2 },
                        domain@,
                        time@,
                    ),
                )
            }),
            forall|q: Seq<char>| q != ip@ ==> #[trigger] final(self).activity_of(q) == old(self).activity_of(q),
            final(self).device_list() == old(self).device_list(),
            final(self).notified() == old(self).notified(),
            final(self).scanning() == old(self).scanning(),
    {
        let key = chars_of(ip);
        let (t, b, th) = match self.activity.get(key.as_slice()) {
            Some(e) => (e.0, e.1, e.2),
            None => (0u64, 0u64, 0u64),
        };
        let t2 = t.wrapping_add(1);
        let b2 = if is_blocked {
            b.wrapping_add(1)
        } else {
            b
        };
        let th2 = if is_threat {
            th.wrapping_add(1)
        } else {
            th
        };
        self.activity.insert(key, (t2, b2, th2, String::from_str(domain), String::from_str(time)));
    }

    /// Counts one DNS query of `ip` at the current wall-clock time.
    pub fn record_activity(&mut self, ip: &str, domain: &str, is_blocked: bool, is_threat: bool)
        requires
            old(self).wf(),
        ensures
            final(self).wf(),
            ({
                let prev = match old(self).activity_of(ip@) {
                    Some(a) => a,
                    None => fresh_activity(),
                };
                &&& final(self).activity_of(ip@) matches Some(now)
                &&& now.0 == prev.0.wrapping_add(1)
                &&& now.1 == if is_blocked { prev.1.wrapping_add(1) } else { prev.1 }
                &&& now.2 == if is_threat { prev.2.wrapping_add(1) } else { prev.2 }
                &&& now.3 == domain@
                &&& now.4.len() == 8
            }),
            forall|q: Seq<char>| q != ip@ ==> #[trigger] final(self).activity_of(q) == old(self).activity_of(q),
            final(self).device_list() == old(self).device_list(),
            final(self).notified() == old(self).notified(),
            final(self).scanning() == old(self).scanning(),
    {
        let time = crate::security::local_clock_text();
        self.record_activity_at(ip, domain, is_blocked, is_threat, time.as_str());
    }

    /// The devices of the last scan, each merged with the DNS activity recorded for
    /// its address.
    pub fn get_devices(&self, lang: u8) -> (r: Vec<LanDevice>)
        requires
            self.wf(),
        ensures
            r@.len() == self.device_list().len(),
            forall|i: int| 0 <= i < r@.len() ==> self.merged(self.device_list()[i], #[trigger] r@[i], lang),
    {
        let local_key = chars_of("127.0.0.1");
        let mut out: Vec<LanDevice> = Vec::new();
        let mut i: usize = 0;
        while i < self.devices.len()
            invariant
                i <= self.devices@.len(),
                self.wf(),
                local_key@ == "127.0.0.1"@,
                out@.len() == i,
                forall|j: int| 0 <= j < i ==> self.merged(self.devices@[j], #[trigger] out@[j], lang),
            decreases self.devices@.len() - i,
        {
            let d = &self.devices[i];
            let mut m = copy_device(d);
            let ipc = chars_of(d.ip.as_str());
            match self.activity.get(ipc.as_slice()) {
                Some(a) => {
                    m.total_queries = a.0;
                    m.blocked_queries = a.1;
                    m.threats_detected = a.2;
                    m.last_domain = a.3.clone();
                    m.last_active = a.4.clone();
                    let risk = if a.2 > 0 {
                        tr_with(
                            lang,
                            "🚨 Nguy hiểm (Phát hiện mối đe dọa)",
                            "🚨 Dangerous (Threats detected)",
                            "🚨 危险 (检测到威胁)",
                        )
                    } else if a.1 > 10 {
                        tr_with(lang, "🛡️ An toàn (Đã lọc quảng cáo)", "🛡️ Safe (Ads filtered)", "🛡️ 安全 (已过滤广告)")
                    } else {
                        tr_with(lang, "🟢 An toàn", "🟢 Safe", "🟢 安全")
                    };
                    m.risk_level = String::from_str(risk);
                },
                None => {
                    let macc = chars_of(d.mac.as_str());
                    if eq_str(ipc.as_slice(), "127.0.0.1") || contains_str(macc.as_slice(), tr_with(lang, "Local", "Local", "本地")) {
                        match self.activity.get(local_key.as_slice()) {
                            Some(a) => {
                                m.total_queries = a.0;
                                m.blocked_queries = a.1;
                                m.threats_detected = a.2;
                                m.last_domain = a.3.clone();
                                m.last_active = a.4.clone();
                            },
                            None => {},
                        }
                    }
                },
            }
            out.push(m);
            i += 1;
        }
        out
    }

    /// Alerts once per address about devices with high-risk open ports: each such
    /// device not alerted about before gets an incident in `sec` and its address is
    /// remembered. Returns the incidents logged, in order.
    pub fn notify_high_risk(&mut self, devices: &[LanDevice], sec: &mut SecurityEngine, lang: u8) -> (r: Vec<SecurityIncident>)
        requires
            old(self).wf(),
            old(sec).wf(),
        ensures
            final(self).wf(),
            final(sec).wf(),
            ({
                let plan = alert_plan(devices@, old(self).notified(), devices@.len() as int);
                &&& final(self).notified() == plan.1
                &&& r@.len() == plan.0.len()
                &&& forall|k: int| 0 <= k < r@.len() ==> incident_texts(#[trigger] r@[k]) == port_alert_texts(devices@[plan.0[k]], lang)
            }),
            final(sec).incident_log() == log_after_all(old(sec).incident_log(), r@),
            same_detection_state(&*final(sec), &*old(sec)),
            final(sec).quarantine_state() == old(sec).quarantine_state(),
            final(self).device_list() == old(self).device_list(),
            final(self).scanning() == old(self).scanning(),
            forall|q: Seq<char>| #[trigger] final(self).activity_of(q) == old(self).activity_of(q),
    {
        let ghost seen0 = self.notified();
        let ghost sec0 = *sec;
        let mut out: Vec<SecurityIncident> = Vec::new();
        let mut i: usize = 0;
        while i < devices.len()
            invariant
                i <= devices@.len(),
                self.wf(),
                sec.wf(),
                self.notified() == alert_plan(devices@, seen0, i as int).1,
                out@.len() == alert_plan(devices@, seen0, i as int).0.len(),
                forall|k: int| 0 <= k < out@.len() ==> incident_texts(#[trigger] out@[k]) == port_alert_texts(
                    devices@[alert_plan(devices@, seen0, i as int).0[k]],
                    lang,
                ),
                sec.incident_log() == log_after_all(sec0.incident_log(), out@),
                same_detection_state(&*sec, &sec0),
                sec.quarantine_state() == sec0.quarantine_state(),
                self.devices == old(self).devices,
                self.scanning == old(self).scanning,
                self.activity == old(self).activity,
            decreases devices@.len() - i,
        {
            let d = &devices[i];
            let rc = chars_of(d.port_risk.as_str());
            let ipc = chars_of(d.ip.as_str());
            if eq_str(rc.as_slice(), "HIGH") && !self.notified_high_risk.contains(ipc.as_slice()) {
                self.notified_high_risk.insert(ipc);
                let summary = format_ports_summary(d.open_ports.as_slice(), lang);
                let mut details = d.name.clone();
                details.append(" — ");
                details.append(tr_with(lang, "phát hiện cổng: ", "open ports: ", "发现开放端口: "));
                details.append(summary.as_str());
                let kind = tr_with(
                    lang,
                    "Cổng rủi ro cao đang mở trên thiết bị LAN",
                    "High-risk ports open on LAN device",
                    "局域网设备存在高危开放端口",
                );
                let ghost log_before = sec.incident_log();
                let inc = sec.record_incident(kind, d.ip.as_str(), details.as_str(), "HIGH", d.port_advice.as_str());
                let ghost out_before = out@;
                out.push(inc);
                proof {
                    assert(out@.drop_last() =~= out_before);
                    let plan = alert_plan(devices@, seen0, i + 1);
                    let prev = alert_plan(devices@, seen0, i as int);
                    assert(plan.0 == prev.0.push(i as int));
                    assert forall|k: int| 0 <= k < out@.len() implies incident_texts(#[trigger] out@[k])
                        == port_alert_texts(devices@[plan.0[k]], lang) by {
                        if k < out@.len() - 1 {
                            assert(out@[k] == out_before[k]);
                            assert(plan.0[k] == prev.0[k]);
                        }
                    }
                }
            }
            i += 1;
        }
        out
    }

    /// Ends a scan: the devices, put in display order, become the scanner's list, and
    /// the scan is marked finished. Returns the ordered devices.
    pub fn finish_scan(&mut self, devices: Vec<LanDevice>) -> (r: Vec<LanDevice>)
        ensures
            crate::monitor::lan_scan::devices_ordered(r@),
            r@.to_multiset() == devices@.to_multiset(),
            final(self).device_list().len() == r@.len(),
            forall|i: int| 0 <= i < r@.len() ==> same_device(#[trigger] final(self).device_list()[i], r@[i]),
            !final(self).scanning(),
            final(self).notified() == old(self).notified(),
            forall|q: Seq<char>| #[trigger] final(self).activity_of(q) == old(self).activity_of(q),
            final(self).wf() == old(self).wf(),
    {
        let sorted = crate::monitor::lan_scan::sort_devices(devices);
        let mut stored: Vec<LanDevice> = Vec::new();
        let mut i: usize = 0;
        while i < sorted.len()
            invariant
                i <= sorted@.len(),
                stored@.len() == i,
                forall|j: int| 0 <= j < i ==> same_device(#[trigger] stored@[j], sorted@[j]),
            decreases sorted@.len() - i,
        {
            stored.push(copy_device(&sorted[i]));
            i += 1;
        }
        self.devices = stored;
        self.scanning = false;
        sorted
    }

    /// Number of devices of the last scan.
    pub fn devices_len(&self) -> (r: usize)
        ensures
            r == self.device_list().len(),
    {
        self.devices.len()
    }

    /// The vendor of a MAC.
    pub fn lookup_vendor(mac: &str, lang: u8) -> (r: String)
        ensures
            r@ == crate::monitor::oui::spec_lookup_vendor(mac@, lang),
    {
        crate::monitor::oui::lookup_vendor(mac, lang)
    }

    /// The class of a device: a localized label and a tag (`ROUTER`, `CAMERA`,
    /// `PRINTER`, `TV`, `PHONE`, `PC`, `IOT` or `DEVICE`).
    pub fn classify_final(ip: &str, vendor: &str, service_type: Option<&str>, hostname: Option<&str>, lang: u8) -> (r: (
        &'static str,
        &'static str,
    ))
        ensures
            (r.0@, r.1@) == spec_classify(
                ip@,
                vendor@,
                match service_type {
                    Some(s) => Some(s@),
                    None => None,
                },
                match hostname {
                    Some(h) => Some(h@),
                    None => None,
                },
                lang,
            ),
    {
        let ipc = chars_of(ip);
        let v = chars_of(vendor);
        if ends_with_str(ipc.as_slice(), ".1") || ends_with_str(ipc.as_slice(), ".254") || contains_str(v.as_slice(), "Router")
            || contains_str(v.as_slice(), "Modem") {
            return (tr_with(lang, "📡 Router Wi-Fi / Gateway", "📡 Wi-Fi Router / Gateway", "📡 Wi-Fi 路由器 / 网关"), "ROUTER");
        }
        match service_type {
            Some(st) => {
                let sc = chars_of(st);
                match service_class_of(&sc, lang) {
                    Some(p) => {
                        return p;
                    },
                    None => {},
                }
            },
            None => {},
        }
        match hostname {
            Some(h) => {
                let lc = lower_chars(h);
                match host_class_of(&lc, lang) {
                    Some(p) => {
                        return p;
                    },
                    None => {},
                }
            },
            None => {},
        }
        vendor_class_of(&v, lang)
    }

    /// The operating system a device likely runs.
    pub fn estimate_os(vendor: &str, open_ports: &[OpenPort], service_type: Option<&str>, host: Option<&str>) -> (r: String)
        ensures
            r@ == spec_estimate_os(
                vendor@,
                open_ports@,
                match service_type {
                    Some(s) => Some(s@),
                    None => None,
                },
                match host {
                    Some(h) => Some(h@),
                    None => None,
                },
            ),
    {
        let v = lower_chars(vendor);
        let vs = v.as_slice();
        let t = if has_port(open_ports, 445) || has_port(open_ports, 3389) || has_port(open_ports, 139) {
            "Windows 11 / 10"
        } else if has_port(open_ports, 62078) || (contains_str(vs, "apple") && (contains_str(vs, "iphone") || contains_str(vs, "ipad"))) {
            "Apple iOS / iPadOS"
        } else if contains_str(vs, "apple") && (contains_str(vs, "mac") || contains_str(vs, "macbook")) {
            "Apple macOS"
        } else if has_port(open_ports, 5555) || contains_str(vs, "android") || contains_str(vs, "samsung") || contains_str(vs, "xiaomi")
            || contains_str(vs, "oppo") || contains_str(vs, "vivo") || contains_str(vs, "realme") {
            "Android OS"
        } else if contains_str(vs, "router") || contains_str(vs, "modem") || contains_str(vs, "tp-link") || contains_str(vs, "tenda")
            || contains_str(vs, "draytek") || contains_str(vs, "cisco") || contains_str(vs, "vnpt") || contains_str(vs, "viettel") {
            "RouterOS / Embedded Linux"
        } else if contains_str(vs, "camera") || contains_str(vs, "hikvision") || contains_str(vs, "dahua") || contains_str(vs, "ezviz")
            || contains_str(vs, "imou") || contains_str(vs, "axis") || has_port(open_ports, 554) || has_port(open_ports, 8899) {
            "Embedded Linux (IP Camera)"
        } else if contains_str(vs, "tv") || contains_str(vs, "lg") || contains_str(vs, "sony") || has_port(open_ports, 8008)
            || has_port(open_ports, 8009) {
            "Smart TV OS (webOS / Tizen / Android TV)"
        } else if has_port(open_ports, 22) {
            "Linux / Unix Server"
        } else {
            let from_host = match host {
                Some(h) => {
                    let lh = lower_chars(h);
                    host_os_of(&lh)
                },
                None => None,
            };
            match from_host {
                Some(x) => x,
                None => {
                    let from_service = match service_type {
                        Some(st) => {
                            let sc = chars_of(st);
                            service_os_of(&sc)
                        },
                        None => None,
                    };
                    match from_service {
                        Some(x) => x,
                        None => "Network Device OS",
                    }
                },
            }
        };
        String::from_str(t)
    }
}

/// The vendor (as lower-cased) names no maker that decides the operating system:
/// no Apple, Android phone, router, camera or TV maker.
pub open spec fn names_no_os_maker(v: Seq<char>) -> bool {
    let words = seq![
        "apple"@, "android"@, "samsung"@, "xiaomi"@, "oppo"@, "vivo"@, "realme"@, "router"@, "modem"@, "tp-link"@,
        "tenda"@, "draytek"@, "cisco"@, "vnpt"@, "viettel"@, "camera"@, "hikvision"@, "dahua"@, "ezviz"@, "imou"@,
        "axis"@, "tv"@, "lg"@, "sony"@,
    ];
    forall|i: int| 0 <= i < words.len() ==> !contains_seq(v, #[trigger] words[i])
}

/// A device with SSH (port 22) open is estimated to run Linux / Unix whenever nothing
/// more specific applies: no Windows, iOS, Android, camera or TV port (445, 3389, 139,
/// 62078, 5555, 554, 8899, 8008, 8009) and no telling vendor; its host name and
/// service type do not matter then.
pub proof fn lemma_ssh_means_unix_server(
    vendor: Seq<char>,
    ports: Seq<OpenPort>,
    service: Option<Seq<char>>,
    host: Option<Seq<char>>,
)
    requires
        exists|i: int| 0 <= i < ports.len() && (#[trigger] ports[i]).port == 22,
        forall|i: int|
            0 <= i < ports.len() ==> {
                let p = (#[trigger] ports[i]).port;
                p != 445 && p != 3389 && p != 139 && p != 62078 && p != 5555 && p != 554 && p != 8899 && p != 8008 && p
                    != 8009
            },
        names_no_os_maker(spec_unicode_lowercase(vendor)),
    ensures
        spec_estimate_os(vendor, ports, service, host) == "Linux / Unix Server"@,
{
    let v = spec_unicode_lowercase(vendor);
    let words = seq![
        "apple"@, "android"@, "samsung"@, "xiaomi"@, "oppo"@, "vivo"@, "realme"@, "router"@, "modem"@, "tp-link"@,
        "tenda"@, "draytek"@, "cisco"@, "vnpt"@, "viettel"@, "camera"@, "hikvision"@, "dahua"@, "ezviz"@, "imou"@,
        "axis"@, "tv"@, "lg"@, "sony"@,
    ];
    assert forall|k: int| 0 <= k < words.len() implies !contains_seq(v, #[trigger] words[k]) by {}
    assert(!has_port_num(ports, 445) && !has_port_num(ports, 3389) && !has_port_num(ports, 139));
    assert(!has_port_num(ports, 62078) && !has_port_num(ports, 5555) && !has_port_num(ports, 554));
    assert(!has_port_num(ports, 8899) && !has_port_num(ports, 8008) && !has_port_num(ports, 8009));
    assert(has_port_num(ports, 22));
}

} // verus!
