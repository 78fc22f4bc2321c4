//! Network diagnostics: the verdicts of the health check, ping statistics, the DNS
//! benchmark table and the probe query it sends.
use vstd::prelude::*;
use crate::i18n::{spec_tr4_with, tr4_with};
use crate::text::{chars_of, eq_str, int_text, spec_int_text, trim, trim_end_char, trim_end_char_vec, trim_vec};

verus! {

/// One row of the DNS benchmark.
pub struct DnsBenchmarkResult {
    pub provider_name: String,
    pub ip: String,
    pub latency_ms: i32,
    pub status: String,
    pub is_fastest: bool,
}

/// The statistics of a ping run.
pub struct PingResult {
    pub target: String,
    pub min_ms: i32,
    pub avg_ms: i32,
    pub max_ms: i32,
    pub jitter_ms: i32,
    pub loss_pct: i32,
    pub status_text: String,
    pub details: String,
}

/// The result of the network health check.
pub struct NetworkHealthReport {
    pub gateway_status: String,
    pub dns_status: String,
    pub internet_status: String,
    pub stability_status: String,
    pub summary_score: i32,
    pub overall_text: String,
}

/// The diagnostics that the monitor runs.
pub struct NetworkDiagnostics;

/// `label (n ms)`.
pub open spec fn with_ms(label: Seq<char>, n: int) -> Seq<char> {
    label + " ("@ + spec_int_text(n) + " ms)"@
}

fn with_ms_exec(label: &str, n: i32) -> (r: String)
    ensures
        r@ == with_ms(label@, n as int),
{
    let mut s = String::from_str(label);
    s.append(" (");
    s.append(int_text(n as i64).as_str());
    s.append(" ms)");
    s
}

/// The gateway is reachable by ping (loss under 50 % and an average), else by a
/// TCP connect with its latency, else unresponsive; with its points.
pub open spec fn spec_gateway_verdict(loss_pct: i32, avg_ms: i32, tcp_ms: Option<i32>, lang: u8) -> (Seq<char>, i32) {
    if loss_pct < 50 && avg_ms >= 0 {
        (with_ms(spec_tr4_with(lang, "Đã kết nối"@, "Connected"@, "已连接"@, "Подключено"@), avg_ms as int), 25)
    } else if tcp_ms is Some {
        (
            with_ms(
                spec_tr4_with(lang, "Đã kết nối (TCP)"@, "Connected (TCP)"@, "已连接 (TCP)"@, "Подключено (TCP)"@),
                tcp_ms->0 as int,
            ),
            25,
        )
    } else {
        (spec_tr4_with(lang, "Không phản hồi"@, "Unresponsive"@, "未响应"@, "Не отвечает"@), 5)
    }
}

/// DNS status from the first resolver that answered (local, Cloudflare, Google)
/// gives the latency, none answering is a failure; with its points.
pub open spec fn spec_dns_verdict(local: Option<i32>, cloudflare: Option<i32>, google: Option<i32>, lang: u8) -> (Seq<char>, i32) {
    if local is Some || cloudflare is Some || google is Some {
        let ms = if local is Some {
            local->0
        } else if cloudflare is Some {
            cloudflare->0
        } else {
            google->0
        };
        (with_ms(spec_tr4_with(lang, "Hoạt động tốt"@, "Operational"@, "运行正常"@, "Работает исправно"@), ms as int), 25)
    } else {
        (spec_tr4_with(lang, "Lỗi phân giải"@, "Resolution Failed"@, "解析失败"@, "Ошибка разрешения"@), 0)
    }
}

/// The Internet verdict from the fastest ping: under 150 ms online, 150 ms or more
/// slow, no answer (negative) offline; with its points.
pub open spec fn spec_internet_verdict(ping: i32, lang: u8) -> (Seq<char>, i32) {
    if 0 <= ping < 150 {
        (with_ms(spec_tr4_with(lang, "Thông suốt"@, "Online"@, "畅通"@, "В сети"@), ping as int), 30)
    } else if ping >= 150 {
        (with_ms(spec_tr4_with(lang, "Chậm"@, "High Latency"@, "较慢"@, "Медленно"@), ping as int), 15)
    } else {
        (spec_tr4_with(lang, "Mất kết nối Internet"@, "No Internet"@, "无网络"@, "Нет интернета"@), 0)
    }
}

/// The stability verdict from loss and jitter; with its points.
pub open spec fn spec_stability_verdict(loss_pct: i32, jitter_ms: i32, lang: u8) -> (Seq<char>, i32) {
    if loss_pct == 0 && jitter_ms <= 15 {
        (
            spec_tr4_with(lang, "Rất cao"@, "Very High"@, "极高"@, "Очень высокая"@) + " (Loss: 0%, Jitter: "@
                + spec_int_text(jitter_ms as int) + "ms)"@,
            20,
        )
    } else if loss_pct <= 10 {
        (
            spec_tr4_with(lang, "Khá"@, "Moderate"@, "良好"@, "Умеренная"@) + " (Loss: "@ + spec_int_text(loss_pct as int)
                + "%, Jitter: "@ + spec_int_text(jitter_ms as int) + "ms)"@,
            12,
        )
    } else {
        (
            spec_tr4_with(lang, "Kém"@, "Unstable"@, "不稳定"@, "Нестабильно"@) + " (Loss: "@ + spec_int_text(
                loss_pct as int,
            ) + "%)"@,
            5,
        )
    }
}

/// The overall assessment of a health score.
pub open spec fn spec_overall_text(score: int, lang: u8) -> Seq<char> {
    if score >= 85 {
        spec_tr4_with(
            lang,
            "Mạng hoạt động hoàn hảo, đường truyền ổn định và độ trễ thấp."@,
            "Network is in optimal condition with low latency and high stability."@,
            "网络运行完美，传输稳定且延迟低。"@,
            "Сеть работает идеально с низкой задержкой и высокой стабильностью."@,
        )
    } else if score >= 60 {
        spec_tr4_with(
            lang,
            "Mạng khả dụng tốt, có thể có độ trễ nhẹ hoặc mất vài gói tin."@,
            "Network is functional with minor latency or occasional packet drops."@,
            "网络状态良好，可能存在轻微延迟或个别丢包。"@,
            "Сеть работоспособна, возможна небольшая задержка или потеря пакетов."@,
        )
    } else {
        spec_tr4_with(
            lang,
            "Cảnh báo: Đường truyền mạng chập chờn hoặc mất kết nối Internet."@,
            "Warning: Network connection is unstable or disconnected."@,
            "警告：网络连接不稳定或已断开连接。"@,
            "Предупреждение: Соединение нестабильно или отсутствует интернет."@,
        )
    }
}

impl NetworkDiagnostics {
    /// The gateway verdict from a ping run and, when the ping failed, a TCP connect.
    pub fn gateway_verdict(loss_pct: i32, avg_ms: i32, tcp_ms: Option<i32>, lang: u8) -> (r: (String, i32))
        ensures
            (r.0@, r.1) == spec_gateway_verdict(loss_pct, avg_ms, tcp_ms, lang),
    {
        if loss_pct < 50 && avg_ms >= 0 {
            (with_ms_exec(tr4_with(lang, "Đã kết nối", "Connected", "已连接", "Подключено"), avg_ms), 25)
        } else {
            match tcp_ms {
                Some(l) => (
                    with_ms_exec(tr4_with(lang, "Đã kết nối (TCP)", "Connected (TCP)", "已连接 (TCP)", "Подключено (TCP)"), l),
                    25,
                ),
                None => (String::from_str(tr4_with(lang, "Không phản hồi", "Unresponsive", "未响应", "Не отвечает")), 5),
            }
        }
    }

    /// The DNS verdict from three resolver probes.
    pub fn dns_verdict(local: Option<i32>, cloudflare: Option<i32>, google: Option<i32>, lang: u8) -> (r: (String, i32))
        ensures
            (r.0@, r.1) == spec_dns_verdict(local, cloudflare, google, lang),
    {
        let ms: Option<i32> = match local {
            Some(x) => Some(x),
            None => match cloudflare {
                Some(x) => Some(x),
                None => google,
            },
        };
        match ms {
            Some(m) => (
                with_ms_exec(tr4_with(lang, "Hoạt động tốt", "Operational", "运行正常", "Работает исправно"), m),
                25,
            ),
            None => (String::from_str(tr4_with(lang, "Lỗi phân giải", "Resolution Failed", "解析失败", "Ошибка разрешения")), 0),
        }
    }

    /// The Internet verdict from the fastest ping (negative when none answered).
    pub fn internet_verdict(ping: i32, lang: u8) -> (r: (String, i32))
        ensures
            (r.0@, r.1) == spec_internet_verdict(ping, lang),
    {
        if 0 <= ping && ping < 150 {
            (with_ms_exec(tr4_with(lang, "Thông suốt", "Online", "畅通", "В сети"), ping), 30)
        } else if ping >= 150 {
            (with_ms_exec(tr4_with(lang, "Chậm", "High Latency", "较慢", "Медленно"), ping), 15)
        } else {
            (String::from_str(tr4_with(lang, "Mất kết nối Internet", "No Internet", "无网络", "Нет интернета")), 0)
        }
    }

    /// The stability verdict from a ping run's loss and jitter.
    pub fn stability_verdict(loss_pct: i32, jitter_ms: i32, lang: u8) -> (r: (String, i32))
        ensures
            (r.0@, r.1) == spec_stability_verdict(loss_pct, jitter_ms, lang),
    {
        if loss_pct == 0 && jitter_ms <= 15 {
            let mut s = String::from_str(tr4_with(lang, "Rất cao", "Very High", "极高", "Очень высокая"));
            s.append(" (Loss: 0%, Jitter: ");
            s.append(int_text(jitter_ms as i64).as_str());
            s.append("ms)");
            (s, 20)
        } else if loss_pct <= 10 {
            let mut s = String::from_str(tr4_with(lang, "Khá", "Moderate", "良好", "Умеренная"));
            s.append(" (Loss: ");
            s.append(int_text(loss_pct as i64).as_str());
            s.append("%, Jitter: ");
            s.append(int_text(jitter_ms as i64).as_str());
            s.append("ms)");
            (s, 12)
        } else {
            let mut s = String::from_str(tr4_with(lang, "Kém", "Unstable", "不稳定", "Нестабильно"));
            s.append(" (Loss: ");
            s.append(int_text(loss_pct as i64).as_str());
            s.append("%)");
            (s, 5)
        }
    }

    /// The health report from the four verdicts: the points summed and limited to
    /// 0..=100, 85 and more optimal, 60 and more functional, less a warning.
    pub fn health_report(
        gateway: (String, i32),
        dns: (String, i32),
        internet: (String, i32),
        stability: (String, i32),
        lang: u8,
    ) -> (r: NetworkHealthReport)
        ensures
            r.gateway_status@ == gateway.0@,
            r.dns_status@ == dns.0@,
            r.internet_status@ == internet.0@,
            r.stability_status@ == stability.0@,
            r.summary_score == crate::security::file_analyzer::verdict::clamp_score(
                gateway.1 + dns.1 + internet.1 + stability.1,
            ),
            r.overall_text@ == spec_overall_text(r.summary_score as int, lang),
    {
        let sum: i64 = gateway.1 as i64 + dns.1 as i64 + internet.1 as i64 + stability.1 as i64;
        let total: i32 = if sum < 0 {
            0
        } else if sum > 100 {
            100
        } else {
            sum as i32
        };
        let overall = if total >= 85 {
            tr4_with(
                lang,
                "Mạng hoạt động hoàn hảo, đường truyền ổn định và độ trễ thấp.",
                "Network is in optimal condition with low latency and high stability.",
                "网络运行完美，传输稳定且延迟低。",
                "Сеть работает идеально с низкой задержкой и высокой стабильностью.",
            )
        } else if total >= 60 {
            tr4_with(
                lang,
                "Mạng khả dụng tốt, có thể có độ trễ nhẹ hoặc mất vài gói tin.",
                "Network is functional with minor latency or occasional packet drops.",
                "网络状态良好，可能存在轻微延迟或个别丢包。",
                "Сеть работоспособна, возможна небольшая задержка или потеря пакетов.",
            )
        } else {
            tr4_with(
                lang,
                "Cảnh báo: Đường truyền mạng chập chờn hoặc mất kết nối Internet.",
                "Warning: Network connection is unstable or disconnected.",
                "警告：网络连接不稳定或已断开连接。",
                "Предупреждение: Соединение нестабильно или отсутствует интернет.",
            )
        };
        NetworkHealthReport {
            gateway_status: gateway.0,
            dns_status: dns.0,
            internet_status: internet.0,
            stability_status: stability.0,
            summary_score: total,
            overall_text: String::from_str(overall),
        }
    }

    /// The fastest of the answered probes, or -1 when none answered.
    pub fn fastest_ping(samples: &[Option<i32>]) -> (r: i32)
        ensures
            r == spec_fastest(samples@, samples@.len() as int),
    {
        let mut best: i32 = -1;
        let mut i: usize = 0;
        while i < samples.len()
            invariant
                i <= samples@.len(),
                best == spec_fastest(samples@, i as int),
            decreases samples@.len() - i,
        {
            match samples[i] {
                Some(ms) => {
                    if best < 0 || ms < best {
                        best = ms;
                    }
                },
                None => {},
            }
            i += 1;
        }
        best
    }
}

/// The fastest answer among the first `n` probes, taking each answer when nothing
/// was taken yet (negative) or when it is faster.
pub open spec fn spec_fastest(samples: Seq<Option<i32>>, n: int) -> i32
    decreases n,
{
    if n <= 0 {
        -1i32
    } else {
        let b = spec_fastest(samples, n - 1);
        match samples[n - 1] {
            Some(ms) => if b < 0 || ms < b {
                ms
            } else {
                b
            },
            None => b,
        }
    }
}

/// The number of samples a ping run takes: the requested count limited to 3..=10.
pub fn ping_sample_count(count: usize) -> (r: usize)
    ensures
        r == if count < 3 { 3 } else if count > 10 { 10 } else { count },
{
    if count < 3 {
        3
    } else if count > 10 {
        10
    } else {
        count
    }
}

/// `s` with every leading repetition of `p` removed, as `trim_start_matches(p)`
/// gives it.
pub open spec fn strip_prefix_all(s: Seq<char>, p: Seq<char>) -> Seq<char>
    decreases s.len(),
{
    if p.len() > 0 && crate::text::starts_with(s, p) {
        strip_prefix_all(s.subrange(p.len() as int, s.len() as int), p)
    } else {
        s
    }
}

fn strip_prefix_all_vec(s: &[char], p: &str) -> (r: Vec<char>)
    ensures
        r@ == strip_prefix_all(s@, p@),
{
    let pc = chars_of(p);
    let mut i: usize = 0;
    assert(s@.subrange(0, s@.len() as int) =~= s@);
    while pc.len() > 0 && i <= s.len() && crate::text::occurs_at_exec(s, pc.as_slice(), i)
        invariant
            i <= s@.len(),
            pc@ == p@,
            strip_prefix_all(s@, p@) == strip_prefix_all(s@.subrange(i as int, s@.len() as int), p@),
        decreases s@.len() - i,
    {
        let ghost rest = s@.subrange(i as int, s@.len() as int);
        proof {
            assert(rest.subrange(0, pc@.len() as int) =~= s@.subrange(i as int, i + pc@.len()));
            assert(rest.subrange(pc@.len() as int, rest.len() as int) =~= s@.subrange(i + pc@.len(), s@.len() as int));
        }
        i = i + pc.len();
    }
    proof {
        let rest = s@.subrange(i as int, s@.len() as int);
        if pc@.len() > 0 && i <= s@.len() {
            assert(!crate::text::occurs_at(s@, pc@, i as int));
            if crate::text::starts_with(rest, p@) {
                assert(rest.subrange(0, pc@.len() as int) =~= s@.subrange(i as int, i + pc@.len()));
            }
        }
    }
    crate::text::slice_vec(s, i, s.len())
}

/// The host a ping targets: the input trimmed, any `http://` and `https://` prefixes
/// and trailing slashes removed, `1.1.1.1` when nothing is left.
pub open spec fn spec_ping_host(input: Seq<char>) -> Seq<char> {
    let c = trim_end_char(strip_prefix_all(strip_prefix_all(trim(input), "http://"@), "https://"@), '/');
    if c.len() == 0 {
        "1.1.1.1"@
    } else {
        c
    }
}

/// The host a ping targets for what the user typed.
pub fn clean_ping_target(input: &str) -> (r: String)
    ensures
        r@ == spec_ping_host(input@),
{
    let c = chars_of(input);
    let t = trim_vec(c.as_slice());
    let a = strip_prefix_all_vec(t.as_slice(), "http://");
    let b = strip_prefix_all_vec(a.as_slice(), "https://");
    let e = trim_end_char_vec(b.as_slice(), '/');
    if e.len() == 0 {
        String::from_str("1.1.1.1")
    } else {
        crate::text::string_from_chars(e.as_slice())
    }
}

/// The TCP ports tried when ICMP gets no answer: DNS first for the public resolvers,
/// HTTPS first otherwise.
pub fn ping_port_candidates(host: &str) -> (r: Vec<u16>)
    ensures
        r@ == if host@ == "1.1.1.1"@ || host@ == "8.8.8.8"@ || host@ == "9.9.9.9"@ {
            seq![53u16, 443, 80]
        } else {
            seq![443u16, 80, 53]
        },
{
    let h = chars_of(host);
    let mut v: Vec<u16> = Vec::new();
    if eq_str(h.as_slice(), "1.1.1.1") || eq_str(h.as_slice(), "8.8.8.8") || eq_str(h.as_slice(), "9.9.9.9") {
        v.push(53);
        v.push(443);
        v.push(80);
    } else {
        v.push(443);
        v.push(80);
        v.push(53);
    }
    v
}

/// Sum of the samples.
pub open spec fn lsum(l: Seq<i32>) -> int
    decreases l.len(),
{
    if l.len() == 0 {
        0
    } else {
        lsum(l.drop_last()) + l.last()
    }
}

/// Sum of the absolute differences between consecutive samples.
pub open spec fn jitter_sum(l: Seq<i32>) -> int
    decreases l.len(),
{
    if l.len() <= 1 {
        0
    } else {
        let d = l.last() - l[l.len() - 2];
        jitter_sum(l.drop_last()) + if d < 0 { -d } else { d }
    }
}

/// Smallest sample (of a non-empty list).
pub open spec fn lmin(l: Seq<i32>) -> int
    decreases l.len(),
{
    if l.len() <= 1 {
        l[0] as int
    } else if l.last() < lmin(l.drop_last()) {
        l.last() as int
    } else {
        lmin(l.drop_last())
    }
}

/// Largest sample (of a non-empty list).
pub open spec fn lmax(l: Seq<i32>) -> int
    decreases l.len(),
{
    if l.len() <= 1 {
        l[0] as int
    } else if l.last() > lmax(l.drop_last()) {
        l.last() as int
    } else {
        lmax(l.drop_last())
    }
}

/// The loss percentage rounded to the nearest integer, halves up.
pub open spec fn loss_percent(failed: int, n: int) -> int {
    (200 * failed + n) / (2 * n)
}

/// The quality verdict of a ping run.
pub open spec fn ping_status(loss: int, avg: int, lang: u8) -> Seq<char> {
    if loss >= 100 {
        spec_tr4_with(lang, "Mất kết nối / Timeout"@, "Offline / Timeout"@, "离线 / 超时"@, "Не в сети / Тайм-аут"@)
    } else if avg <= 30 && loss == 0 {
        spec_tr4_with(
            lang,
            "Xuất sắc (Độ trễ rất thấp)"@,
            "Excellent (Ultra-low latency)"@,
            "极佳（超低延迟）"@,
            "Отлично (Сверхнизкая задержка)"@,
        )
    } else if avg <= 70 && loss <= 5 {
        spec_tr4_with(lang, "Tốt / Ổn định"@, "Good & Stable"@, "良好稳定"@, "Хорошо и стабильно"@)
    } else if avg <= 150 {
        spec_tr4_with(lang, "Trung bình"@, "Fair"@, "一般"@, "Удовлетворительно"@)
    } else {
        spec_tr4_with(lang, "Độ trễ cao / Kém"@, "High Latency / Poor"@, "高延迟 / 较差"@, "Высокая задержка / Плохо"@)
    }
}

/// A value for display: negative values show as 0.
pub open spec fn shown(v: int) -> int {
    if v >= 0 {
        v
    } else {
        0
    }
}

/// The one-line summary of a ping run.
pub open spec fn ping_details(received: int, n: int, mn: int, avg: int, mx: int, jitter: int, loss: int, lang: u8) -> Seq<char> {
    spec_tr4_with(lang, "Gói nhận:"@, "Packets received:"@, "接收数据包:"@, "Получено пакетов:"@) + " "@
        + spec_int_text(received) + "/"@ + spec_int_text(n) + " | Min: "@ + spec_int_text(shown(mn)) + " ms | Avg: "@
        + spec_int_text(shown(avg)) + " ms | Max: "@ + spec_int_text(shown(mx)) + " ms | Jitter: "@
        + spec_int_text(jitter) + " ms | Loss: "@ + spec_int_text(loss) + "%"@
}

proof fn lemma_lsum_bounds(l: Seq<i32>)
    requires
        forall|i: int| 0 <= i < l.len() ==> l[i] >= 0,
    ensures
        lsum(l) >= 0,
        l.len() > 0 ==> 0 <= lmin(l) <= lmax(l) <= lsum(l),
        l.len() > 0 ==> lmin(l) * l.len() <= lsum(l),
    decreases l.len(),
{
    if l.len() > 0 {
        lemma_lsum_bounds(l.drop_last());
        if l.len() > 1 {
            assert(lmin(l) * l.len() == lmin(l) * (l.len() - 1) + lmin(l)) by (nonlinear_arith);
            assert(lmin(l) <= lmin(l.drop_last()));
            assert(lmin(l) * (l.len() - 1) <= lmin(l.drop_last()) * (l.len() - 1)) by (nonlinear_arith)
                requires
                    lmin(l) <= lmin(l.drop_last()),
                    l.len() >= 1,
            ;
        }
    }
}

impl NetworkDiagnostics {
    /// The statistics of a ping run of `sample_count` probes of which the ones in
    /// `latencies` (milliseconds, in order) were answered: minimum, average (rounded
    /// down), maximum and jitter (mean absolute step between consecutive answers,
    /// rounded down), or -1, -1, -1 and 0 without answers; the loss in percent; a
    /// verdict and a summary line.
    pub fn ping_result(host: &str, latencies: &[i32], sample_count: usize, lang: u8) -> (r: PingResult)
        requires
            3 <= sample_count <= 10,
            latencies@.len() <= sample_count,
            forall|i: int| 0 <= i < latencies@.len() ==> latencies@[i] >= 0,
            lsum(latencies@) <= i32::MAX,
            jitter_sum(latencies@) <= i32::MAX,
        ensures
            ({
                let l = latencies@;
                let n = sample_count as int;
                let loss = loss_percent(n - l.len(), n);
                let avg: int = if l.len() > 0 { lsum(l) / (l.len() as int) } else { -1 };
                let mn: int = if l.len() > 0 { lmin(l) } else { -1 };
                let mx: int = if l.len() > 0 { lmax(l) } else { -1 };
                let jitter: int = if l.len() > 1 { jitter_sum(l) / (l.len() - 1) } else { 0 };
                &&& r.target@ == host@
                &&& r.min_ms == mn && r.avg_ms == avg && r.max_ms == mx && r.jitter_ms == jitter
                &&& r.loss_pct == loss
                &&& r.status_text@ == ping_status(loss, avg, lang)
                &&& r.details@ == ping_details(l.len() as int, n, mn, avg, mx, jitter, loss, lang)
            }),
    {
        let n = latencies.len();
        let failed = sample_count - n;
        let lq: usize = (200 * failed + sample_count) / (2 * sample_count);
        assert(lq <= 100) by (nonlinear_arith)
            requires
                lq == (200 * failed + sample_count) / (2 * sample_count),
                failed <= sample_count,
                sample_count >= 3,
        ;
        let loss: i32 = lq as i32;
        assert(loss == loss_percent(sample_count - latencies@.len(), sample_count as int));
        let mut sum: i32 = 0;
        let mut jsum: i32 = 0;
        let mut mn: i32 = -1;
        let mut mx: i32 = -1;
        let mut i: usize = 0;
        assert(latencies@.subrange(0, 0) =~= Seq::<i32>::empty());
        while i < n
            invariant
                i <= n,
                n == latencies@.len(),
                forall|k: int| 0 <= k < latencies@.len() ==> latencies@[k] >= 0,
                lsum(latencies@) <= i32::MAX,
                jitter_sum(latencies@) <= i32::MAX,
                sum == lsum(latencies@.subrange(0, i as int)),
                jsum == jitter_sum(latencies@.subrange(0, i as int)),
                i > 0 ==> mn == lmin(latencies@.subrange(0, i as int)) && mx == lmax(latencies@.subrange(0, i as int)),
            decreases n - i,
        {
            let ghost pre = latencies@.subrange(0, i as int);
            let ghost next = latencies@.subrange(0, i + 1);
            proof {
                assert(next.drop_last() =~= pre);
                lemma_prefix_sums(latencies@, i as int);
            }
            let v = latencies[i];
            sum = sum + v;
            if i > 0 {
                let prev = latencies[i - 1];
                let d: i32 = if v >= prev { v - prev } else { prev - v };
                assert(next[next.len() - 2] == prev);
                jsum = jsum + d;
            }
            if i == 0 || v < mn {
                mn = v;
            }
            if i == 0 || v > mx {
                mx = v;
            }
            i += 1;
        }
        assert(latencies@.subrange(0, n as int) =~= latencies@);
        proof {
            lemma_lsum_bounds(latencies@);
            lemma_nonneg_sums(latencies@);
        }
        let avg: i32 = if n > 0 {
            sum / (n as i32)
        } else {
            -1
        };
        let jitter: i32 = if n > 1 {
            jsum / ((n - 1) as i32)
        } else {
            0
        };
        let min_ms: i32 = if n > 0 { mn } else { -1 };
        let max_ms: i32 = if n > 0 { mx } else { -1 };
        assert(n > 0 ==> avg == lsum(latencies@) / (n as int));
        assert(n > 1 ==> jitter == jitter_sum(latencies@) / (n - 1));
        let status = if loss >= 100 {
            tr4_with(lang, "Mất kết nối / Timeout", "Offline / Timeout", "离线 / 超时", "Не в сети / Тайм-аут")
        } else if avg <= 30 && loss == 0 {
            tr4_with(
                lang,
                "Xuất sắc (Độ trễ rất thấp)",
                "Excellent (Ultra-low latency)",
                "极佳（超低延迟）",
                "Отлично (Сверхнизкая задержка)",
            )
        } else if avg <= 70 && loss <= 5 {
            tr4_with(lang, "Tốt / Ổn định", "Good & Stable", "良好稳定", "Хорошо и стабильно")
        } else if avg <= 150 {
            tr4_with(lang, "Trung bình", "Fair", "一般", "Удовлетворительно")
        } else {
            tr4_with(lang, "Độ trễ cao / Kém", "High Latency / Poor", "高延迟 / 较差", "Высокая задержка / Плохо")
        };
        let mut d = String::from_str(tr4_with(lang, "Gói nhận:", "Packets received:", "接收数据包:", "Получено пакетов:"));
        d.append(" ");
        d.append(int_text(n as i64).as_str());
        d.append("/");
        d.append(int_text(sample_count as i64).as_str());
        d.append(" | Min: ");
        d.append(int_text(if min_ms >= 0 { min_ms as i64 } else { 0 }).as_str());
        d.append(" ms | Avg: ");
        d.append(int_text(if avg >= 0 { avg as i64 } else { 0 }).as_str());
        d.append(" ms | Max: ");
        d.append(int_text(if max_ms >= 0 { max_ms as i64 } else { 0 }).as_str());
        d.append(" ms | Jitter: ");
        d.append(int_text(jitter as i64).as_str());
        d.append(" ms | Loss: ");
        d.append(int_text(loss as i64).as_str());
        d.append("%");
        PingResult {
            target: String::from_str(host),
            min_ms,
            avg_ms: avg,
            max_ms,
            jitter_ms: jitter,
            loss_pct: loss,
            status_text: String::from_str(status),
            details: d,
        }
    }
}

proof fn lemma_prefix_sums(l: Seq<i32>, i: int)
    requires
        0 <= i < l.len(),
        forall|k: int| 0 <= k < l.len() ==> l[k] >= 0,
    ensures
        lsum(l.subrange(0, i + 1)) <= lsum(l),
        jitter_sum(l.subrange(0, i + 1)) <= jitter_sum(l),
        lsum(l.subrange(0, i)) >= 0,
        jitter_sum(l.subrange(0, i)) >= 0,
    decreases l.len() - i,
{
    if i + 1 < l.len() {
        lemma_prefix_sums(l, i + 1);
        assert(l.subrange(0, i + 2).drop_last() =~= l.subrange(0, i + 1));
    } else {
        assert(l.subrange(0, i + 1) =~= l);
    }
    lemma_nonneg_sums(l.subrange(0, i));
}

proof fn lemma_nonneg_sums(l: Seq<i32>)
    requires
        forall|k: int| 0 <= k < l.len() ==> l[k] >= 0,
    ensures
        lsum(l) >= 0,
        jitter_sum(l) >= 0,
    decreases l.len(),
{
    if l.len() > 0 {
        lemma_nonneg_sums(l.drop_last());
    }
}

/// The resolvers the DNS benchmark measures: display name and address.
pub const DNS_PROVIDERS: [(&'static str, &'static str); 9] = [
    ("Shield Ghita (Local DNS)", "127.0.0.1:53"),
    ("Cloudflare Primary (1.1.1.1)", "1.1.1.1:53"),
    ("Cloudflare Secondary (1.0.0.1)", "1.0.0.1:53"),
    ("Google Primary (8.8.8.8)", "8.8.8.8:53"),
    ("Google Secondary (8.8.4.4)", "8.8.4.4:53"),
    ("Quad9 Security (9.9.9.9)", "9.9.9.9:53"),
    ("OpenDNS (208.67.222.222)", "208.67.222.222:53"),
    ("NextDNS (45.90.28.0)", "45.90.28.0:53"),
    ("AdGuard DNS (94.140.14.14)", "94.140.14.14:53"),
];

/// The domain the benchmark resolves: the input trimmed, `google.com` when empty.
pub fn benchmark_test_domain(input: &str) -> (r: String)
    ensures
        r@ == if trim(input@).len() == 0 { "google.com"@ } else { trim(input@) },
{
    let c = chars_of(input);
    let t = trim_vec(c.as_slice());
    if t.len() == 0 {
        String::from_str("google.com")
    } else {
        crate::text::string_from_chars(t.as_slice())
    }
}

/// The texts and numbers of a benchmark row.
pub open spec fn row_view(r: DnsBenchmarkResult) -> (Seq<char>, Seq<char>, i32, Seq<char>, bool) {
    (r.provider_name@, r.ip@, r.latency_ms, r.status@, r.is_fastest)
}

/// The views of a list of rows.
pub open spec fn rows_view(v: Seq<DnsBenchmarkResult>) -> Seq<(Seq<char>, Seq<char>, i32, Seq<char>, bool)> {
    Seq::new(v.len(), |i: int| row_view(v[i]))
}

/// The latency a probe outcome is listed with: its time, or 9999 when it failed.
pub open spec fn outcome_latency(ms: Option<i32>) -> i32 {
    match ms {
        Some(m) => m,
        None => 9999,
    }
}

/// The first outcome among the first `n` with the smallest real latency (above 0,
/// below 9999), if any.
pub open spec fn fastest_index(o: Seq<(&'static str, &'static str, Option<i32>)>, n: int) -> Option<int>
    decreases n,
{
    if n <= 0 {
        None
    } else {
        let b = fastest_index(o, n - 1);
        let l = outcome_latency(o[n - 1].2);
        if 0 < l < 9999 && (b is None || l < outcome_latency(o[b->0].2)) {
            Some(n - 1)
        } else {
            b
        }
    }
}

/// The row of outcome `i`: provider, address without `:53`, latency, status, and
/// whether it is the fastest.
pub open spec fn outcome_row(o: Seq<(&'static str, &'static str, Option<i32>)>, i: int, lang: u8) -> (Seq<char>, Seq<char>, i32, Seq<char>, bool) {
    (
        o[i].0@,
        crate::security::file_analyzer::hidden::remove_all(o[i].1@, ":53"@),
        outcome_latency(o[i].2),
        match o[i].2 {
            Some(m) => spec_int_text(m as int) + " ms"@,
            None => spec_tr4_with(lang, "Timeout / Bị chặn"@, "Timeout / Blocked"@, "超时 / 被拦截"@, "Тайм-аут / Заблокировано"@),
        },
        fastest_index(o, o.len() as int) == Some(i),
    )
}

impl NetworkDiagnostics {
    /// The benchmark table from the probe outcomes (provider, address, latency when it
    /// answered): one row each, the fastest real answer marked, ordered by latency.
    pub fn benchmark_results(outcomes: &[(&'static str, &'static str, Option<i32>)], lang: u8) -> (r: Vec<DnsBenchmarkResult>)
        ensures
            r@.len() == outcomes@.len(),
            forall|a: int, b: int| 0 <= a < b < r@.len() ==> (#[trigger] r@[a]).latency_ms <= (#[trigger] r@[b]).latency_ms,
            rows_view(r@).to_multiset() == Seq::new(outcomes@.len(), |i: int| outcome_row(outcomes@, i, lang)).to_multiset(),
    {
        let ghost o = outcomes@;
        let mut fastest: Option<usize> = None;
        let mut i: usize = 0;
        while i < outcomes.len()
            invariant
                i <= o.len(),
                o == outcomes@,
                match fastest {
                    Some(f) => fastest_index(o, i as int) == Some(f as int) && f < i,
                    None => fastest_index(o, i as int) is None,
                },
            decreases o.len() - i,
        {
            let l: i32 = match outcomes[i].2 {
                Some(m) => m,
                None => 9999,
            };
            let better = match fastest {
                None => true,
                Some(f) => {
                    let lf: i32 = match outcomes[f].2 {
                        Some(m) => m,
                        None => 9999,
                    };
                    l < lf
                },
            };
            if 0 < l && l < 9999 && better {
                fastest = Some(i);
            }
            i += 1;
        }
        let ghost target = Seq::new(o.len(), |k: int| outcome_row(o, k, lang));
        let mut sorted: Vec<DnsBenchmarkResult> = Vec::new();
        let mut j: usize = 0;
        proof {
            broadcast use vstd::seq_lib::group_to_multiset_ensures;
            assert(rows_view(sorted@) =~= target.subrange(0, 0));
        }
        while j < outcomes.len()
            invariant
                j <= o.len(),
                o == outcomes@,
                target == Seq::new(o.len(), |k: int| outcome_row(o, k, lang)),
                match fastest {
                    Some(f) => fastest_index(o, o.len() as int) == Some(f as int),
                    None => fastest_index(o, o.len() as int) is None,
                },
                sorted@.len() == j,
                forall|a: int, b: int| 0 <= a < b < sorted@.len() ==> (#[trigger] sorted@[a]).latency_ms <= (#[trigger] sorted@[b]).latency_ms,
                rows_view(sorted@).to_multiset() == target.subrange(0, j as int).to_multiset(),
            decreases o.len() - j,
        {
            let (name, addr, ms) = outcomes[j];
            let (status, lat) = match ms {
                Some(m) => {
                    let mut st = int_text(m as i64);
                    st.append(" ms");
                    (st, m)
                },
                None => (
                    String::from_str(tr4_with(lang, "Timeout / Bị chặn", "Timeout / Blocked", "超时 / 被拦截", "Тайм-аут / Заблокировано")),
                    9999i32,
                ),
            };
            let ac = chars_of(addr);
            let ip = crate::security::file_analyzer::hidden::remove_all_vec(ac.as_slice(), ":53");
            let is_fastest = match fastest {
                Some(f) => f == j,
                None => false,
            };
            let row = DnsBenchmarkResult {
                provider_name: String::from_str(name),
                ip: crate::text::string_from_chars(ip.as_slice()),
                latency_ms: lat,
                status,
                is_fastest,
            };
            assert(row_view(row) == outcome_row(o, j as int, lang));
            let mut k: usize = sorted.len();
            while k > 0 && sorted[k - 1].latency_ms > lat
                invariant
                    k <= sorted@.len(),
                    forall|a: int, b: int| 0 <= a < b < sorted@.len() ==> (#[trigger] sorted@[a]).latency_ms <= (#[trigger] sorted@[b]).latency_ms,
                    forall|b: int| k <= b < sorted@.len() ==> (#[trigger] sorted@[b]).latency_ms > lat,
                decreases k,
            {
                k -= 1;
            }
            let ghost before = sorted@;
            sorted.insert(k, row);
            proof {
                broadcast use vstd::seq_lib::group_to_multiset_ensures;
                assert(sorted@ == before.insert(k as int, row));
                assert(rows_view(sorted@) =~= rows_view(before).insert(k as int, row_view(row)));
                assert(target.subrange(0, j + 1) =~= target.subrange(0, j as int).push(target[j as int]));
                assert forall|a: int, b: int| 0 <= a < b < sorted@.len() implies (#[trigger] sorted@[a]).latency_ms
                    <= (#[trigger] sorted@[b]).latency_ms by {
                    if a < k && b > k {
                        assert(sorted@[a] == before[a]);
                        assert(sorted@[b] == before[b - 1]);
                        if k > 0 {
                            assert(before[k - 1].latency_ms <= lat);
                        }
                    }
                }
            }
            j += 1;
        }
        proof {
            assert(target.subrange(0, o.len() as int) =~= target);
        }
        sorted
    }
}

/// The bytes of a label-encoded name for the non-empty pieces of `parts`, each
/// prefixed by its byte length; none when a piece is longer than 63 bytes.
pub open spec fn probe_name(parts: Seq<Seq<char>>) -> Option<Seq<u8>>
    decreases parts.len(),
{
    if parts.len() == 0 {
        Some(Seq::empty())
    } else {
        match probe_name(parts.drop_last()) {
            None => None,
            Some(prev) => {
                let b = vstd::utf8::encode_utf8(parts.last());
                if parts.last().len() == 0 {
                    Some(prev)
                } else if b.len() > 63 {
                    None
                } else {
                    Some(prev + seq![b.len() as u8] + b)
                }
            },
        }
    }
}

/// The query the DNS probe sends: transaction id, recursion desired, one question
/// for the A record of `domain` in class IN.
pub open spec fn spec_probe_query(id: Seq<u8>, domain: Seq<char>) -> Option<Seq<u8>> {
    match probe_name(crate::text::split_on(domain, '.')) {
        None => None,
        Some(name) => Some(
            seq![id[0], id[1], 0x01u8, 0x00, 0x00, 0x01, 0x00, 0x00, 0x00, 0x00, 0x00, 0x00] + name + seq![0u8, 0x00, 0x01, 0x00, 0x01],
        ),
    }
}

impl NetworkDiagnostics {
    /// The query a DNS probe of `domain` sends with transaction id `id`; none when a
    /// label is longer than DNS allows.
    pub fn dns_probe_query(id: [u8; 2], domain: &str) -> (r: Option<Vec<u8>>)
        ensures
            match r {
                Some(v) => spec_probe_query(id@, domain@) == Some(v@),
                None => spec_probe_query(id@, domain@) is None,
            },
    {
        let dc = chars_of(domain);
        let parts = crate::text::split_vec(dc.as_slice(), '.');
        let ghost ps = crate::text::split_on(domain@, '.');
        let mut name: Vec<u8> = Vec::new();
        let mut i: usize = 0;
        assert(ps.subrange(0, 0) =~= Seq::<Seq<char>>::empty());
        while i < parts.len()
            invariant
                i <= parts@.len(),
                crate::text::names_of(parts@) == ps,
                ps == crate::text::split_on(domain@, '.'),
                probe_name(ps.subrange(0, i as int)) == Some(name@),
            decreases parts@.len() - i,
        {
            proof {
                assert(ps.subrange(0, i + 1).drop_last() =~= ps.subrange(0, i as int));
                assert(ps[i as int] == parts@[i as int]@);
            }
            if parts[i].len() > 0 {
                let piece = crate::text::string_from_chars(parts[i].as_slice());
                let b = piece.as_str().as_bytes();
                if b.len() > 63 {
                    proof {
                        let sub = ps.subrange(0, i + 1);
                        assert(sub.last() == ps[i as int]);
                        assert(sub.drop_last() =~= ps.subrange(0, i as int));
                        assert(probe_name(sub) is None);
                        lemma_probe_name_none(ps, i as int + 1);
                    }
                    assert(ps.subrange(0, ps.len() as int) =~= ps);
                    return None;
                }
                name.push(b.len() as u8);
                let ghost before = name@;
                let mut t: usize = 0;
                while t < b.len()
                    invariant
                        t <= b@.len(),
                        name@ == before + b@.subrange(0, t as int),
                    decreases b@.len() - t,
                {
                    name.push(b[t]);
                    t += 1;
                    assert(name@ =~= before + b@.subrange(0, t as int));
                }
                assert(b@.subrange(0, b@.len() as int) =~= b@);
            }
            i += 1;
        }
        assert(ps.subrange(0, ps.len() as int) =~= ps);
        let mut q: Vec<u8> = Vec::new();
        q.push(id[0]);
        q.push(id[1]);
        q.push(0x01);
        q.push(0x00);
        q.push(0x00);
        q.push(0x01);
        q.push(0x00);
        q.push(0x00);
        q.push(0x00);
        q.push(0x00);
        q.push(0x00);
        q.push(0x00);
        let ghost head = q@;
        let mut t: usize = 0;
        while t < name.len()
            invariant
                t <= name@.len(),
                q@ == head + name@.subrange(0, t as int),
            decreases name@.len() - t,
        {
            q.push(name[t]);
            t += 1;
            assert(q@ =~= head + name@.subrange(0, t as int));
        }
        assert(name@.subrange(0, name@.len() as int) =~= name@);
        q.push(0);
        q.push(0x00);
        q.push(0x01);
        q.push(0x00);
        q.push(0x01);
        assert(q@ =~= seq![id@[0], id@[1], 0x01u8, 0x00, 0x00, 0x01, 0x00, 0x00, 0x00, 0x00, 0x00, 0x00] + name@ + seq![0u8, 0x00, 0x01, 0x00, 0x01]);
        Some(q)
    }

    /// Whether a reply answers the probe: at least a header, the same transaction id,
    /// and the response flag set.
    pub fn dns_probe_reply_ok(reply: &[u8], id: [u8; 2]) -> (r: bool)
        ensures
            r == (reply@.len() >= 12 && reply@[0] == id@[0] && reply@[1] == id@[1] && reply@[2] >= 0x80),
    {
        if reply.len() < 12 {
            return false;
        }
        let flags: u8 = reply[2];
        assert(flags & 0x80 == 0 <==> flags < 0x80) by (bit_vector);
        reply[0] == id[0] && reply[1] == id[1] && flags & 0x80 != 0
    }
}

proof fn lemma_probe_name_none(ps: Seq<Seq<char>>, n: int)
    requires
        1 <= n <= ps.len(),
        probe_name(ps.subrange(0, n)) is None,
    ensures
        probe_name(ps) is None,
    decreases ps.len() - n,
{
    if n < ps.len() {
        assert(ps.subrange(0, n + 1).drop_last() =~= ps.subrange(0, n));
        lemma_probe_name_none(ps, n + 1);
    } else {
        assert(ps.subrange(0, n) =~= ps);
    }
}

/// The gateway verdict when the ping failed (half or more lost, or no average): a TCP
/// connect that answered in `t` ms still counts the gateway as connected for 25
/// points, read `Connected (TCP) (t ms)` in the chosen language; only when the
/// connect got no answer either is the gateway unresponsive, for 5 points. The 5-point
/// verdict comes from exactly that case.
pub proof fn lemma_gateway_tcp_fallback(loss_pct: i32, avg_ms: i32, tcp_ms: Option<i32>, lang: u8)
    ensures
        (loss_pct >= 50 || avg_ms < 0) && tcp_ms is Some ==> spec_gateway_verdict(loss_pct, avg_ms, tcp_ms, lang) == (
            spec_tr4_with(lang, "Đã kết nối (TCP)"@, "Connected (TCP)"@, "已连接 (TCP)"@, "Подключено (TCP)"@) + " ("@
                + spec_int_text(tcp_ms->0 as int) + " ms)"@,
            25i32,
        ),
        spec_gateway_verdict(loss_pct, avg_ms, tcp_ms, lang).1 == 5 <==> ((loss_pct >= 50 || avg_ms < 0) && tcp_ms is None),
        spec_gateway_verdict(loss_pct, avg_ms, tcp_ms, lang).1 == 25 <==> ((loss_pct < 50 && avg_ms >= 0) || tcp_ms is Some),
{
}

} // verus!
