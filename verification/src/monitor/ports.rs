//! Risk assessment of the open TCP ports of a device.
use vstd::prelude::*;
use crate::i18n::{spec_tr_with, tr_with};
use crate::text::{decimal, spec_decimal, string_from_chars};

verus! {

/// How risky an open port is.
#[derive(Clone, Copy, Debug, PartialEq, Eq, Structural)]
pub enum PortRisk {
    Low,
    Medium,
    High,
}

/// The order of the risks: low below medium below high.
pub open spec fn risk_rank(r: PortRisk) -> int {
    match r {
        PortRisk::Low => 0,
        PortRisk::Medium => 1,
        PortRisk::High => 2,
    }
}

/// The name of a risk level.
pub open spec fn risk_name(r: PortRisk) -> Seq<char> {
    match r {
        PortRisk::High => "HIGH"@,
        PortRisk::Medium => "MEDIUM"@,
        PortRisk::Low => "LOW"@,
    }
}

impl PortRisk {
    /// The name of the risk level.
    pub fn as_str(&self) -> (r: &'static str)
        ensures
            r@ == risk_name(*self),
    {
        match self {
            PortRisk::High => "HIGH",
            PortRisk::Medium => "MEDIUM",
            PortRisk::Low => "LOW",
        }
    }
}

/// An open port of a device, with its service label, risk and advice.
#[derive(Clone, Debug)]
pub struct OpenPort {
    pub port: u16,
    pub label: String,
    pub risk: PortRisk,
    pub advice: String,
}

/// A field-by-field copy of an open port.
pub fn copy_open_port(p: &OpenPort) -> (r: OpenPort)
    ensures
        r == *p,
{
    OpenPort { port: p.port, label: p.label.clone(), risk: p.risk, advice: p.advice.clone() }
}

/// A copy of a list of open ports.
pub fn copy_open_ports(v: &Vec<OpenPort>) -> (r: Vec<OpenPort>)
    ensures
        r@ == v@,
{
    let mut out: Vec<OpenPort> = Vec::new();
    let mut i: usize = 0;
    while i < v.len()
        invariant
            i <= v.len(),
            out@ == v@.subrange(0, i as int),
        decreases v.len() - i,
    {
        out.push(copy_open_port(&v[i]));
        i += 1;
        assert(out@ =~= v@.subrange(0, i as int));
    }
    assert(v@.subrange(0, v@.len() as int) =~= v@);
    out
}

/// Advice about a port in Vietnamese, English and Chinese.
#[derive(Clone, Copy, Debug)]
pub struct AdviceTexts {
    pub vi: &'static str,
    pub en: &'static str,
    pub zh: &'static str,
}

/// A known port: number, service label, risk and advice.
pub type PortEntry = (u16, &'static str, PortRisk, AdviceTexts);

/// The ports the scanner knows: number, service, risk and advice in Vietnamese,
/// English and Chinese.
pub const COMMON_PORT_TABLE: [(u16, &'static str, PortRisk, &'static str, &'static str, &'static str); 39] = [
    (
        21,
        "FTP",
        PortRisk::High,
        "Đóng FTP — giao thức truyền mật khẩu không mã hóa.",
        "Close FTP — protocol transmits passwords unencrypted.",
        "关闭 FTP — 明文传输密码的协议。",
    ),
    (
        23,
        "Telnet",
        PortRisk::High,
        "Đóng Telnet ngay — không mã hóa, dễ bị nghe lén.",
        "Disable Telnet immediately — unencrypted, easy to eavesdrop.",
        "立即关闭 Telnet — 无加密，易被窃听。",
    ),
    (
        445,
        "SMB",
        PortRisk::High,
        "Hạn chế chia sẻ file SMB chỉ cho mạng tin cậy.",
        "Restrict SMB file sharing to trusted networks only.",
        "仅在可信网络中开放 SMB 文件共享。",
    ),
    (
        3389,
        "RDP",
        PortRisk::High,
        "Đóng Remote Desktop nếu không dùng, hoặc bật Network Level Authentication.",
        "Close Remote Desktop if unused, or enable Network Level Authentication.",
        "不使用时请关闭远程桌面，或启用网络级身份验证 (NLA)。",
    ),
    (
        554,
        "RTSP",
        PortRisk::High,
        "Camera an ninh phát trực tiếp — đặt mật khẩu mạnh, isolate VLAN.",
        "Security camera streaming live — set a strong password, isolate VLAN.",
        "安防摄像头正在直播 — 设置强密码并隔离 VLAN。",
    ),
    (
        5900,
        "VNC",
        PortRisk::High,
        "VNC không mã hóa — tắt hoặc chuyển sang tunnel SSH.",
        "Unencrypted VNC — turn off or switch to SSH tunnel.",
        "VNC 无加密 — 关闭或改用 SSH 隧道。",
    ),
    (
        5901,
        "VNC-alt",
        PortRisk::High,
        "VNC phiên bản phụ — tắt nếu không dùng.",
        "Secondary VNC port — disable if unused.",
        "辅助 VNC 端口 — 不使用请关闭。",
    ),
    (
        5555,
        "ADB",
        PortRisk::High,
        "Chế độ debug Android đang mở — tắt USB/Wi-Fi debugging.",
        "Android debugging mode open — disable USB/Wi-Fi debugging.",
        "Android 调试模式已开启 — 关闭 USB/Wi-Fi 调试。",
    ),
    (
        7547,
        "TR-069",
        PortRisk::High,
        "Cổng quản lý ISP trên router — liên hệ nhà mạng đóng (lỗ hổng Mirai).",
        "ISP management port on router — ask carrier to close (Mirai flaw).",
        "路由器上的 ISP 管理端口 — 请联系运营商关闭 (Mirai 漏洞)。",
    ),
    (
        1433,
        "MSSQL",
        PortRisk::High,
        "Database SQL Server lộ ra LAN — giới hạn firewall.",
        "SQL Server database exposed to LAN — restrict with firewall.",
        "SQL Server 数据库暴露于局域网 — 用防火墙限制。",
    ),
    (
        3306,
        "MySQL",
        PortRisk::High,
        "Database MySQL lộ ra LAN — giới hạn firewall.",
        "MySQL database exposed to LAN — restrict with firewall.",
        "MySQL 数据库暴露于局域网 — 用防火墙限制。",
    ),
    (
        5432,
        "PostgreSQL",
        PortRisk::High,
        "Database PostgreSQL lộ ra LAN — giới hạn firewall.",
        "PostgreSQL database exposed to LAN — restrict with firewall.",
        "PostgreSQL 数据库暴露于局域网 — 用防火墙限制。",
    ),
    (
        6379,
        "Redis",
        PortRisk::High,
        "Redis thường không mật khẩu — đóng ngay.",
        "Redis usually has no password — close immediately.",
        "Redis 通常无密码 — 立即关闭。",
    ),
    (
        27017,
        "MongoDB",
        PortRisk::High,
        "Database MongoDB lộ ra LAN — giới hạn firewall.",
        "MongoDB database exposed to LAN — restrict with firewall.",
        "MongoDB 数据库暴露于局域网 — 用防火墙限制。",
    ),
    (
        5985,
        "WinRM",
        PortRisk::High,
        "Windows Remote Management HTTP — chỉ mở khi cần, ưu tiên HTTPS 5986.",
        "Windows Remote Management HTTP — only when needed, prefer HTTPS 5986.",
        "Windows 远程管理 HTTP — 非必要不开放，优先 HTTPS 5986。",
    ),
    (
        5986,
        "WinRM-TLS",
        PortRisk::High,
        "WinRM qua TLS — đảm bảo chứng chỉ hợp lệ.",
        "WinRM over TLS — ensure valid certificate.",
        "基于 TLS 的 WinRM — 确保证书有效。",
    ),
    (
        1723,
        "PPTP",
        PortRisk::High,
        "VPN PPTP lỗi thời — chuyển sang L2TP/WireGuard.",
        "Outdated PPTP VPN — switch to L2TP/WireGuard.",
        "过时的 PPTP VPN — 改用 L2TP/WireGuard。",
    ),
    (
        8000,
        "Hikvision",
        PortRisk::High,
        "Web camera Hikvision — đổi mật khẩu mặc định, cập nhật firmware.",
        "Hikvision camera web — change default password, update firmware.",
        "海康威视摄像头网页 — 更改默认密码并升级固件。",
    ),
    (
        37777,
        "Dahua",
        PortRisk::High,
        "Web camera Dahua/KBVision — đổi mật khẩu mặc định, cập nhật firmware.",
        "Dahua/KBVision camera web — change default password, update firmware.",
        "大华/KBVision 摄像头网页 — 更改默认密码并升级固件。",
    ),
    (
        22,
        "SSH",
        PortRisk::Medium,
        "SSH mở — đảm bảo cấm đăng nhập root bằng mật khẩu.",
        "SSH open — ensure root password login is disabled.",
        "SSH 已开放 — 确保禁止 root 密码登录。",
    ),
    (
        80,
        "HTTP",
        PortRisk::Medium,
        "Trang web quản trị thiết bị — kiểm tra cần thiết.",
        "Device admin web page — verify necessity.",
        "设备管理网页 — 按需检查。",
    ),
    (
        443,
        "HTTPS",
        PortRisk::Medium,
        "Quản trị HTTPS của thiết bị — kiểm tra cần thiết.",
        "Device HTTPS administration — verify necessity.",
        "设备 HTTPS 管理 — 按需检查。",
    ),
    (
        8080,
        "HTTP-alt",
        PortRisk::Medium,
        "Cổng web phụ — kiểm tra cần thiết.",
        "Auxiliary web port — verify necessity.",
        "辅助网页端口 — 按需检查。",
    ),
    (
        8081,
        "HTTP-alt2",
        PortRisk::Medium,
        "Cổng web phụ — kiểm tra cần thiết.",
        "Auxiliary web port — verify necessity.",
        "辅助网页端口 — 按需检查。",
    ),
    (
        8443,
        "HTTPS-alt",
        PortRisk::Medium,
        "Cổng web HTTPS phụ — kiểm tra cần thiết.",
        "Auxiliary HTTPS web port — verify necessity.",
        "辅助 HTTPS 网页端口 — 按需检查。",
    ),
    (
        8008,
        "Google-Cast",
        PortRisk::Medium,
        "Smart TV / Chromecast lắng nghe — bình thường nếu chủ động dùng.",
        "Smart TV / Chromecast listening — normal if intentionally used.",
        "智能电视 / Chromecast 监听中 — 主动使用则属正常。",
    ),
    (
        8009,
        "Chromecast",
        PortRisk::Medium,
        "Chromecast mở — bình thường nếu chủ động dùng.",
        "Chromecast open — normal if intentionally used.",
        "Chromecast 开放 — 主动使用则属正常。",
    ),
    (
        7000,
        "AirPlay",
        PortRisk::Medium,
        "AirPlay mở — bình thường nếu chủ động dùng.",
        "AirPlay open — normal if intentionally used.",
        "AirPlay 开放 — 主动使用则属正常。",
    ),
    (
        8899,
        "ONVIF",
        PortRisk::Medium,
        "Giao thức camera ONVIF — đặt mật khẩu mạnh.",
        "ONVIF camera protocol — set a strong password.",
        "ONVIF 摄像头协议 — 设置强密码。",
    ),
    (
        1883,
        "MQTT",
        PortRisk::Medium,
        "IoT MQTT không mã hóa — cân nhắc bật TLS.",
        "Unencrypted IoT MQTT — consider enabling TLS.",
        "未加密的 IoT MQTT — 考虑启用 TLS。",
    ),
    (
        8883,
        "MQTT-TLS",
        PortRisk::Medium,
        "MQTT có mã hóa — đảm bảo chứng chỉ hợp lệ.",
        "Encrypted MQTT — ensure valid certificate.",
        "加密的 MQTT — 确保证书有效。",
    ),
    (
        5060,
        "SIP",
        PortRisk::Medium,
        "VoIP SIP — đảm bảo PBX có xác thực.",
        "VoIP SIP — ensure PBX has authentication.",
        "VoIP SIP — 确保 PBX 已启用认证。",
    ),
    (
        111,
        "RPC",
        PortRisk::Medium,
        "portmap/rpcbind — thường không cần trên desktop.",
        "portmap/rpcbind — rarely needed on desktops.",
        "portmap/rpcbind — 桌面电脑通常不需要。",
    ),
    (
        5000,
        "UPnP",
        PortRisk::Medium,
        "UPnP thiết bị — tắt trên router nếu không tin tưởng.",
        "Device UPnP — disable on router if not trusted.",
        "设备 UPnP — 不信任时请在路由器上关闭。",
    ),
    (
        631,
        "IPP",
        PortRisk::Low,
        "Máy in mạng (AirPrint/IPP) — bình thường.",
        "Network printer (AirPrint/IPP) — normal.",
        "网络打印机 (AirPrint/IPP) — 属正常。",
    ),
    (
        9100,
        "JetDirect",
        PortRisk::Low,
        "Cổng in thô — bình thường với máy in.",
        "Raw printing port — normal for printers.",
        "原始打印端口 — 对打印机属正常。",
    ),
    (
        139,
        "NetBIOS",
        PortRisk::Low,
        "NetBIOS Windows truyền thống — bình thường.",
        "Legacy Windows NetBIOS — normal.",
        "传统 Windows NetBIOS — 属正常。",
    ),
    (
        62078,
        "iOS-Sync",
        PortRisk::Low,
        "Cổng đồng bộ iPhone/iPad — bình thường.",
        "iPhone/iPad sync port — normal.",
        "iPhone/iPad 同步端口 — 属正常。",
    ),
    (
        5357,
        "WSD",
        PortRisk::Low,
        "Web Services for Devices — bình thường trên Windows.",
        "Web Services for Devices — normal on Windows.",
        "Windows 设备 Web 服务 (WSD) — 属正常。",
    ),
];

/// The `i`-th known port.
pub open spec fn port_at(i: int) -> PortEntry {
    let e = COMMON_PORT_TABLE@[i];
    (e.0, e.1, e.2, AdviceTexts { vi: e.3, en: e.4, zh: e.5 })
}

/// The `i`-th known port.
fn port_at_exec(i: usize) -> (r: PortEntry)
    requires
        i < 39,
    ensures
        r == port_at(i as int),
{
    let e = COMMON_PORT_TABLE[i];
    (e.0, e.1, e.2, AdviceTexts { vi: e.3, en: e.4, zh: e.5 })
}

/// The known ports, in table order.
pub fn common_ports() -> (r: Vec<PortEntry>)
    ensures
        r@.len() == 39,
        forall|i: int| 0 <= i < 39 ==> #[trigger] r@[i] == port_at(i),
{
    let mut out: Vec<PortEntry> = Vec::new();
    let mut i: usize = 0;
    while i < 39
        invariant
            i <= 39,
            out@.len() == i,
            forall|j: int| 0 <= j < i ==> #[trigger] out@[j] == port_at(j),
        decreases 39 - i,
    {
        out.push(port_at_exec(i));
        i += 1;
    }
    out
}

/// The first known port entry for `port`, searching from entry `i`.
pub open spec fn port_entry_from(port: u16, i: int) -> Option<PortEntry>
    decreases 39 - i,
{
    if i < 0 || i >= 39 {
        None
    } else if port_at(i).0 == port {
        Some(port_at(i))
    } else {
        port_entry_from(port, i + 1)
    }
}

/// The known entry for `port`, if any.
pub fn port_entry(port: u16) -> (r: Option<PortEntry>)
    ensures
        r == port_entry_from(port, 0),
{
    let mut i: usize = 0;
    while i < 39
        invariant
            i <= 39,
            port_entry_from(port, 0) == port_entry_from(port, i as int),
        decreases 39 - i,
    {
        let e = port_at_exec(i);
        if e.0 == port {
            return Some(e);
        }
        i += 1;
    }
    None
}

/// The numbers of the known ports, in table order.
pub fn common_port_numbers() -> (r: Vec<u16>)
    ensures
        r@.len() == 39,
        forall|i: int| 0 <= i < 39 ==> #[trigger] r@[i] == port_at(i).0,
{
    let mut out: Vec<u16> = Vec::new();
    let mut i: usize = 0;
    while i < 39
        invariant
            i <= 39,
            out@.len() == i,
            forall|j: int| 0 <= j < i ==> #[trigger] out@[j] == port_at(j).0,
        decreases 39 - i,
    {
        out.push(COMMON_PORT_TABLE[i].0);
        i += 1;
    }
    out
}

/// The highest risk among `ports`.
pub open spec fn max_rank(ports: Seq<OpenPort>) -> int
    decreases ports.len(),
{
    if ports.len() == 0 {
        -1
    } else {
        let m = max_rank(ports.drop_last());
        if risk_rank(ports.last().risk) > m {
            risk_rank(ports.last().risk)
        } else {
            m
        }
    }
}

/// The index of the last port with the highest risk.
pub open spec fn worst_index(ports: Seq<OpenPort>) -> int
    decreases ports.len(),
{
    if ports.len() == 0 {
        -1
    } else if ports.len() == 1 || risk_rank(ports.last().risk) >= max_rank(ports.drop_last()) {
        ports.len() - 1
    } else {
        worst_index(ports.drop_last())
    }
}

proof fn lemma_worst_index(ports: Seq<OpenPort>)
    ensures
        ports.len() > 0 ==> 0 <= worst_index(ports) < ports.len() && risk_rank(ports[worst_index(ports)].risk)
            == max_rank(ports),
        ports.len() > 0 ==> 0 <= max_rank(ports) <= 2,
        ports.len() == 0 ==> max_rank(ports) == -1,
    decreases ports.len(),
{
    if ports.len() > 0 {
        lemma_worst_index(ports.drop_last());
        if ports.len() > 1 && !(risk_rank(ports.last().risk) >= max_rank(ports.drop_last())) {
            assert(ports[worst_index(ports)] == ports.drop_last()[worst_index(ports.drop_last())]);
        }
    }
}

fn rank(r: PortRisk) -> (x: u8)
    ensures
        x == risk_rank(r),
{
    match r {
        PortRisk::Low => 0,
        PortRisk::Medium => 1,
        PortRisk::High => 2,
    }
}

/// The highest risk among `ports`; none for no ports.
pub fn highest_risk(ports: &[OpenPort]) -> (r: Option<PortRisk>)
    ensures
        match r {
            Some(x) => ports@.len() > 0 && risk_rank(x) == max_rank(ports@),
            None => ports@.len() == 0,
        },
{
    match worst_port_index(ports) {
        Some(i) => Some(ports[i].risk),
        None => None,
    }
}

fn worst_port_index(ports: &[OpenPort]) -> (r: Option<usize>)
    ensures
        match r {
            Some(i) => i < ports@.len() && i as int == worst_index(ports@) && ports@.len() > 0 && risk_rank(ports@[i as int].risk)
                == max_rank(ports@),
            None => ports@.len() == 0,
        },
{
    if ports.len() == 0 {
        return None;
    }
    let mut best: usize = 0;
    let mut best_rank: u8 = rank(ports[0].risk);
    let mut i: usize = 1;
    proof {
        assert(ports@.subrange(0, 1).drop_last() =~= Seq::<OpenPort>::empty());
        assert(ports@.subrange(0, 1).last() == ports@[0]);
        assert(max_rank(Seq::<OpenPort>::empty()) == -1);
    }
    while i < ports.len()
        invariant
            1 <= i <= ports@.len(),
            best < i,
            best as int == worst_index(ports@.subrange(0, i as int)),
            best_rank == max_rank(ports@.subrange(0, i as int)),
            best_rank == risk_rank(ports@[best as int].risk),
        decreases ports@.len() - i,
    {
        let ghost pre = ports@.subrange(0, i as int);
        let ghost nxt = ports@.subrange(0, i + 1);
        proof {
            assert(nxt.drop_last() =~= pre);
            lemma_worst_index(pre);
        }
        let x = rank(ports[i].risk);
        if x >= best_rank {
            best = i;
            best_rank = x;
        }
        i += 1;
    }
    proof {
        assert(ports@.subrange(0, ports@.len() as int) =~= ports@);
    }
    Some(best)
}

/// `label: advice` of the last port with the highest risk; empty for no ports.
pub open spec fn spec_worst_advice(ports: Seq<OpenPort>) -> Seq<char> {
    if ports.len() == 0 {
        Seq::empty()
    } else {
        let p = ports[worst_index(ports)];
        p.label@ + ": "@ + p.advice@
    }
}

/// The advice for the riskiest open port.
pub fn worst_port_advice(ports: &[OpenPort]) -> (r: String)
    ensures
        r@ == spec_worst_advice(ports@),
{
    match worst_port_index(ports) {
        Some(i) => {
            let mut s = ports[i].label.clone();
            s.append(": ");
            s.append(ports[i].advice.as_str());
            s
        },
        None => String::new(),
    }
}

/// `port/label` of one open port.
pub open spec fn port_summary_item(p: OpenPort) -> Seq<char> {
    spec_decimal(p.port as nat) + seq!['/'] + p.label@
}

/// The items of `ports` joined with `, `.
pub open spec fn joined_items(ports: Seq<OpenPort>) -> Seq<char>
    decreases ports.len(),
{
    if ports.len() == 0 {
        Seq::empty()
    } else if ports.len() == 1 {
        port_summary_item(ports[0])
    } else {
        joined_items(ports.drop_last()) + ", "@ + port_summary_item(ports.last())
    }
}

/// The one-line summary of open ports: `port/label` items joined with `, `, or a
/// localized "no risky ports" text.
pub open spec fn spec_ports_summary(ports: Seq<OpenPort>, lang: u8) -> Seq<char> {
    if ports.len() == 0 {
        spec_tr_with(
            lang,
            "Không có cổng rủi ro được phát hiện"@,
            "No risky open ports detected"@,
            "未发现存在风险的开放端口"@,
        )
    } else {
        joined_items(ports)
    }
}

/// The summary of open ports.
pub fn format_ports_summary(ports: &[OpenPort], lang: u8) -> (r: String)
    ensures
        r@ == spec_ports_summary(ports@, lang),
{
    if ports.len() == 0 {
        return String::from_str(
            tr_with(
                lang,
                "Không có cổng rủi ro được phát hiện",
                "No risky open ports detected",
                "未发现存在风险的开放端口",
            ),
        );
    }
    let mut out = String::new();
    let mut i: usize = 0;
    while i < ports.len()
        invariant
            i <= ports@.len(),
            out@ == joined_items(ports@.subrange(0, i as int)),
        decreases ports@.len() - i,
    {
        proof {
            assert(ports@.subrange(0, i + 1).drop_last() =~= ports@.subrange(0, i as int));
        }
        if i > 0 {
            out.append(", ");
        }
        let n = decimal(ports[i].port as u128);
        out.append(n.as_str());
        out.append("/");
        out.append(ports[i].label.as_str());
        proof {
            reveal_strlit("/");
            let s = ports@.subrange(0, i + 1);
            if i == 0 {
                assert(joined_items(ports@.subrange(0, 0)) =~= Seq::<char>::empty());
            }
        }
        i += 1;
        assert(out@ =~= joined_items(ports@.subrange(0, i as int)));
    }
    assert(ports@.subrange(0, ports@.len() as int) =~= ports@);
    out
}

/// The record of an open port: from the table when known (advice in `lang`), else
/// `svc-<port>` of medium risk with a generic advice.
pub open spec fn spec_open_port(port: u16, lang: u8) -> (Seq<char>, PortRisk, Seq<char>) {
    match port_entry_from(port, 0) {
        Some(e) => (e.1@, e.2, spec_tr_with(lang, e.3.vi@, e.3.en@, e.3.zh@)),
        None => (
            "svc-"@ + spec_decimal(port as nat),
            PortRisk::Medium,
            spec_tr_with(
                lang,
                "Cổng mở bất thường — kiểm tra dịch vụ đang lắng nghe."@,
                "Unusual open port — check the listening service."@,
                "异常开放端口 — 请检查监听中的服务。"@,
            ),
        ),
    }
}

/// The record of an open port.
pub fn open_port_record(port: u16, lang: u8) -> (r: OpenPort)
    ensures
        r.port == port,
        (r.label@, r.risk, r.advice@) == spec_open_port(port, lang),
{
    match port_entry(port) {
        Some(e) => OpenPort {
            port,
            label: String::from_str(e.1),
            risk: e.2,
            advice: String::from_str(tr_with_any(lang, e.3.vi, e.3.en, e.3.zh)),
        },
        None => {
            let mut label = String::from_str("svc-");
            let n = decimal(port as u128);
            label.append(n.as_str());
            OpenPort {
                port,
                label,
                risk: PortRisk::Medium,
                advice: String::from_str(
                    tr_with(
                        lang,
                        "Cổng mở bất thường — kiểm tra dịch vụ đang lắng nghe.",
                        "Unusual open port — check the listening service.",
                        "异常开放端口 — 请检查监听中的服务。",
                    ),
                ),
            }
        },
    }
}

fn tr_with_any<'a>(lang: u8, vi: &'a str, en: &'a str, zh: &'a str) -> (r: &'a str)
    ensures
        r@ == spec_tr_with(lang, vi@, en@, zh@),
{
    if lang == crate::i18n::EN || lang == crate::i18n::RU {
        en
    } else if lang == crate::i18n::ZH {
        zh
    } else {
        vi
    }
}

/// The records of the open ports among `ports`, ordered by port number (equal numbers
/// keep their order).
pub fn open_ports_from(ports: &[u16], lang: u8) -> (r: Vec<OpenPort>)
    ensures
        r@.len() == ports@.len(),
        forall|i: int, j: int| 0 <= i < j < r@.len() ==> (#[trigger] r@[i]).port <= (#[trigger] r@[j]).port,
        forall|i: int| 0 <= i < r@.len() ==> ((#[trigger] r@[i]).label@, r@[i].risk, r@[i].advice@) == spec_open_port(r@[i].port, lang),
        r@.map_values(|p: OpenPort| p.port).to_multiset() == ports@.to_multiset(),
{
    let mut sorted: Vec<u16> = Vec::new();
    let mut i: usize = 0;
    proof {
        broadcast use vstd::seq_lib::group_to_multiset_ensures;
        assert(ports@.subrange(0, 0) =~= Seq::<u16>::empty());
        assert(sorted@ =~= Seq::<u16>::empty());
        assert(sorted@ == ports@.subrange(0, 0));
    }
    while i < ports.len()
        invariant
            i <= ports@.len(),
            sorted@.len() == i,
            forall|a: int, b: int| 0 <= a < b < sorted@.len() ==> sorted@[a] <= sorted@[b],
            sorted@.to_multiset() == ports@.subrange(0, i as int).to_multiset(),
        decreases ports@.len() - i,
    {
        let x = ports[i];
        let mut k: usize = sorted.len();
        while k > 0 && sorted[k - 1] > x
            invariant
                k <= sorted@.len(),
                forall|a: int, b: int| 0 <= a < b < sorted@.len() ==> sorted@[a] <= sorted@[b],
                forall|b: int| k <= b < sorted@.len() ==> sorted@[b] > x,
            decreases k,
        {
            k -= 1;
        }
        let ghost before = sorted@;
        sorted.insert(k, x);
        proof {
            assert(ports@.subrange(0, i + 1) =~= ports@.subrange(0, i as int).push(x));
            broadcast use vstd::seq_lib::group_to_multiset_ensures;
            assert(sorted@ == before.insert(k as int, x));
            assert forall|a: int, b: int| 0 <= a < b < sorted@.len() implies sorted@[a] <= sorted@[b] by {
                if a < k && b > k {
                    assert(sorted@[a] == before[a]);
                    assert(sorted@[b] == before[b - 1]);
                    if k > 0 {
                        assert(before[k - 1] <= x);
                    }
                }
            }
        }
        i += 1;
    }
    assert(ports@.subrange(0, ports@.len() as int) =~= ports@);
    let mut out: Vec<OpenPort> = Vec::new();
    let mut j: usize = 0;
    while j < sorted.len()
        invariant
            j <= sorted@.len(),
            out@.len() == j,
            forall|a: int| 0 <= a < j ==> (#[trigger] out@[a]).port == sorted@[a],
            forall|a: int| 0 <= a < j ==> ((#[trigger] out@[a]).label@, out@[a].risk, out@[a].advice@) == spec_open_port(out@[a].port, lang),
        decreases sorted@.len() - j,
    {
        out.push(open_port_record(sorted[j], lang));
        j += 1;
    }
    assert(out@.map_values(|p: OpenPort| p.port) =~= sorted@);
    out
}

} // verus!
