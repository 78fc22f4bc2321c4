//! The verdict on a file's content: every scan in order, the clamped score, the risk
//! level and the localized summary.
use vstd::prelude::*;
use crate::i18n::{spec_tr4_with, tr4_with, EN, RU, ZH};
use crate::security::file_analyzer::hidden::{
    hidden_scan, opt_list, opt_score, scan_hidden_deceptive_code, take_chars,
};
use crate::security::file_analyzer::payload::{file_digests, hex_text, spec_md5, spec_sha1, spec_sha256};
use crate::security::file_analyzer::scan::{
    b64_scan_from, command_evidence_family, command_family, command_finding, command_scan,
    disguise_part, first_occ, greeting_part, match_byte_index, packed_part, rtlo_part,
    scan_embedded_base64, scored_list, scored_value, starts_with_greeting, zw_count, zw_part,
    GREETINGS, MAX_ANALYZED_BYTES, NON_EXE_EXTS, SUSPICIOUS_COMMANDS, ZERO_WIDTH,
};
use crate::security::file_analyzer::tokens::{
    contains_command_token, prefix_bytes, safe_char_boundary_slice, whole_word_from,
};
use crate::security::file_analyzer::{
    contains_text, findings_text, make_finding, push_finding, scan_tmf_file, strs_view, tmf_scan,
    FileFinding, FindingText,
};
use crate::security::heuristics::{utf8_len, utf8_len_of};
use crate::text::{
    chars_of, decimal, find_seq, has_char, lower_seq, lower_vec, occurs_at, slice_vec,
    spec_decimal, spec_utf8_lossy, starts_with_str, string_from_chars, trim_end, trim_end_vec,
    trim_start_vec, unicode_lowercase, utf8_lossy,
};

verus! {

/// The entropy of the analysed window as the caller measured it: whether it marks
/// packed or encrypted content, and its value printed with two and three decimals.
pub struct EntropyReading {
    pub packed: bool,
    pub two_places: String,
    pub three_places: String,
}

/// What the analysis concludes about a file's content.
pub struct FileVerdict {
    pub file_path: String,
    pub file_name: String,
    pub file_size_bytes: u64,
    pub md5: String,
    pub sha1: String,
    pub sha256: String,
    pub risk_score: i32,
    pub risk_level: String,
    pub is_pe: bool,
    pub is_packed: bool,
    pub findings: Vec<FileFinding>,
    pub summary_text: String,
}

/// The leading bytes that the heuristics inspect.
pub open spec fn window_of(data: Seq<u8>) -> Seq<u8> {
    if data.len() <= MAX_ANALYZED_BYTES {
        data
    } else {
        data.subrange(0, MAX_ANALYZED_BYTES as int)
    }
}

/// The window opens with the `MZ` executable header.
pub open spec fn mz_header(w: Seq<u8>) -> bool {
    w.len() >= 2 && w[0] == 0x4d && w[1] == 0x5a
}

/// Every scan over the window, in order: RTLO name, disguised executable, packing,
/// zero-width characters, command patterns, greeting wrapper, TMF content,
/// obfuscation, embedded base64. The findings in that order and the raw score.
pub open spec fn content_scan(
    name: Seq<char>,
    ext: Seq<char>,
    window: Seq<u8>,
    packed: bool,
    two: Seq<char>,
    three: Seq<char>,
    lang: u8,
) -> (Seq<FindingText>, int) {
    let text = spec_utf8_lossy(window);
    let lower = lower_seq(text);
    let is_pe = mz_header(window);
    let zw = zw_count(text);
    let cs = command_scan(text, lower, 20);
    let tmf = if ext == "tmf"@ {
        tmf_scan(text, cs.2)
    } else {
        (Seq::empty(), 0)
    };
    let hid = hidden_scan(text);
    let b64 = b64_scan_from(text, 0);
    let r1 = rtlo_part(name, lang);
    let r2 = disguise_part(is_pe, ext, lang);
    let r3 = packed_part(packed, two, three, lang);
    let r4 = zw_part(zw);
    let g = greeting_part(text, lower, cs.3, is_pe, zw);
    (
        opt_list(r1) + opt_list(r2) + opt_list(r3) + opt_list(r4) + cs.0 + opt_list(g) + tmf.0
            + hid.0 + scored_list(b64),
        opt_score(r1, 45) + opt_score(r2, 55) + opt_score(r3, 25) + opt_score(r4, 35) + cs.1
            + opt_score(g, 45) + tmf.1 + hid.1 + scored_value(b64),
    )
}

/// A raw score limited to 0..=100.
pub open spec fn clamp_score(s: int) -> int {
    if s < 0 {
        0
    } else if s > 100 {
        100
    } else {
        s
    }
}

/// The risk level of a score.
pub open spec fn level_text(score: int) -> Seq<char> {
    if score >= 60 {
        "MALICIOUS"@
    } else if score >= 25 {
        "SUSPICIOUS"@
    } else {
        "SAFE"@
    }
}

/// A signed number in decimal.
pub open spec fn signed_text(n: int) -> Seq<char> {
    if n < 0 {
        "-"@ + spec_decimal((-n) as nat)
    } else {
        spec_decimal(n as nat)
    }
}

/// The localized one-paragraph summary of a verdict.
pub open spec fn summary_text(lang: u8, level: Seq<char>, count: nat, score: int) -> Seq<char> {
    let assessment = if level == "MALICIOUS"@ {
        spec_tr4_with(
            lang,
            "CẢNH BÁO: Phát hiện dấu hiệu rủi ro cao; cần kiểm tra thêm."@,
            "WARNING: High-risk indicators found; further review is needed."@,
            "警告：发现高风险迹象；需要进一步检查。"@,
            "ПРЕДУПРЕЖДЕНИЕ: Обнаружены признаки высокого риска; нужна дополнительная проверка."@,
        )
    } else if level == "SUSPICIOUS"@ {
        spec_tr4_with(
            lang,
            "CHÚ Ý: Phát hiện dấu hiệu đáng ngờ cần kiểm tra."@,
            "CAUTION: Suspicious indicators found that need review."@,
            "注意：发现可疑迹象，需要检查。"@,
            "ВНИМАНИЕ: Обнаружены подозрительные признаки, требующие проверки."@,
        )
    } else {
        spec_tr4_with(
            lang,
            "Chưa phát hiện dấu hiệu rủi ro cao trong phạm vi kiểm tra."@,
            "No high-risk indicators found within the inspected scope."@,
            "在检查范围内未发现高风险迹象。"@,
            "В пределах проверки признаки высокого риска не обнаружены."@,
        )
    };
    let count_label = spec_tr4_with(lang, "Số phát hiện"@, "Findings"@, "发现数量"@, "Число находок"@);
    let score_label = spec_tr4_with(lang, "Điểm rủi ro"@, "Risk score"@, "风险评分"@, "Оценка риска"@);
    let limits = spec_tr4_with(
        lang,
        "Phân tích tĩnh theo heuristic chỉ kiểm tra tối đa 16 MiB đầu tiên; mã băm bao phủ toàn bộ tệp. Kết quả không chứng minh tệp an toàn hoặc có mã độc."@,
        "Static heuristics inspect at most the first 16 MiB; hashes cover the entire file. Results do not prove safety or maliciousness."@,
        "静态启发式分析最多检查前 16 MiB；哈希覆盖整个文件。结果不能证明文件安全或具有恶意。"@,
        "Статические эвристики проверяют только первые 16 MiB; хеши охватывают весь файл. Результаты не доказывают безопасность или вредоносность."@,
    );
    "\u{1f44b} Hello! "@ + assessment + " "@ + count_label + ": "@ + spec_decimal(count) + ". "@
        + score_label + ": "@ + signed_text(score) + "/100. "@ + limits
}

/// The localized summary of a verdict with `finding_count` findings and score `score`.
pub fn localized_summary(lang: u8, risk_level: &str, finding_count: usize, score: i32) -> (r: String)
    ensures
        r@ == summary_text(lang, risk_level@, finding_count as nat, score as int),
{
    let lv = chars_of(risk_level);
    let assessment = if crate::text::eq_str(lv.as_slice(), "MALICIOUS") {
        tr4_with(
            lang,
            "CẢNH BÁO: Phát hiện dấu hiệu rủi ro cao; cần kiểm tra thêm.",
            "WARNING: High-risk indicators found; further review is needed.",
            "警告：发现高风险迹象；需要进一步检查。",
            "ПРЕДУПРЕЖДЕНИЕ: Обнаружены признаки высокого риска; нужна дополнительная проверка.",
        )
    } else if crate::text::eq_str(lv.as_slice(), "SUSPICIOUS") {
        tr4_with(
            lang,
            "CHÚ Ý: Phát hiện dấu hiệu đáng ngờ cần kiểm tra.",
            "CAUTION: Suspicious indicators found that need review.",
            "注意：发现可疑迹象，需要检查。",
            "ВНИМАНИЕ: Обнаружены подозрительные признаки, требующие проверки.",
        )
    } else {
        tr4_with(
            lang,
            "Chưa phát hiện dấu hiệu rủi ro cao trong phạm vi kiểm tra.",
            "No high-risk indicators found within the inspected scope.",
            "在检查范围内未发现高风险迹象。",
            "В пределах проверки признаки высокого риска не обнаружены.",
        )
    };
    let count_label = tr4_with(lang, "Số phát hiện", "Findings", "发现数量", "Число находок");
    let score_label = tr4_with(lang, "Điểm rủi ro", "Risk score", "风险评分", "Оценка риска");
    let limits = tr4_with(
        lang,
        "Phân tích tĩnh theo heuristic chỉ kiểm tra tối đa 16 MiB đầu tiên; mã băm bao phủ toàn bộ tệp. Kết quả không chứng minh tệp an toàn hoặc có mã độc.",
        "Static heuristics inspect at most the first 16 MiB; hashes cover the entire file. Results do not prove safety or maliciousness.",
        "静态启发式分析最多检查前 16 MiB；哈希覆盖整个文件。结果不能证明文件安全或具有恶意。",
        "Статические эвристики проверяют только первые 16 MiB; хеши охватывают весь файл. Результаты не доказывают безопасность или вредоносность.",
    );
    let mut out = String::from_str("\u{1f44b} Hello! ");
    out.append(assessment);
    out.append(" ");
    out.append(count_label);
    out.append(": ");
    out.append(decimal(finding_count as u128).as_str());
    out.append(". ");
    out.append(score_label);
    out.append(": ");
    let wide: i64 = score as i64;
    if wide < 0 {
        out.append("-");
        let mag: i64 = -wide;
        out.append(decimal(mag as u128).as_str());
    } else {
        out.append(decimal(wide as u128).as_str());
    }
    out.append("/100. ");
    out.append(limits);
    out
}

/// Whether `c` is one of the zero-width characters.
fn is_zero_width(c: char) -> (r: bool)
    ensures
        r == ZERO_WIDTH@.contains(c),
{
    let mut i: usize = 0;
    while i < 7
        invariant
            i <= 7,
            ZERO_WIDTH@.len() == 7,
            forall|j: int| 0 <= j < i ==> ZERO_WIDTH@[j] != c,
        decreases 7 - i,
    {
        if ZERO_WIDTH[i] == c {
            return true;
        }
        i += 1;
    }
    false
}

fn zw_count_exec(s: &[char]) -> (r: usize)
    ensures
        r == zw_count(s@),
        r <= s@.len(),
{
    let mut n: usize = 0;
    let mut i: usize = 0;
    assert(s@.subrange(0, 0) =~= Seq::<char>::empty());
    while i < s.len()
        invariant
            i <= s.len(),
            n == zw_count(s@.subrange(0, i as int)),
            n <= i,
        decreases s.len() - i,
    {
        proof {
            assert(s@.subrange(0, i + 1).drop_last() =~= s@.subrange(0, i as int));
        }
        if is_zero_width(s[i]) {
            n += 1;
        }
        i += 1;
    }
    assert(s@.subrange(0, s@.len() as int) =~= s@);
    n
}

fn greeting_exec(text: &str) -> (r: bool)
    ensures
        r == starts_with_greeting(text@),
{
    let low = unicode_lowercase(text);
    let lc = chars_of(low.as_str());
    let t = trim_start_vec(lc.as_slice());
    let mut i: usize = 0;
    while i < 12
        invariant
            i <= 12,
            t@ == crate::text::trim_start(crate::text::spec_unicode_lowercase(text@)),
            forall|j: int|
                0 <= j < i ==> !#[trigger] crate::text::starts_with(t@, GREETINGS@[j]@),
        decreases 12 - i,
    {
        if starts_with_str(t.as_slice(), GREETINGS[i]) {
            assert(crate::text::starts_with(t@, GREETINGS@[i as int]@));
            return true;
        }
        i += 1;
    }
    false
}

proof fn lemma_command_lengths()
    ensures
        forall|i: int| 0 <= i < 20 ==> (#[trigger] SUSPICIOUS_COMMANDS@[i]).0@.len() <= 64,
        forall|i: int| 0 <= i < 20 ==> 0 <= (#[trigger] SUSPICIOUS_COMMANDS@[i]).2 <= 50,
{
    reveal_strlit("set-mppreference -disablerealtimemonitoring");
    reveal_strlit("vssadmin delete shadows");
    reveal_strlit("wbadmin delete catalog");
    reveal_strlit("bcdedit /set {default} recoveryenabled no");
    reveal_strlit("amsiutils");
    reveal_strlit("amsiinitfailed");
    reveal_strlit("minidumpwritedump");
    reveal_strlit("-encodedcommand");
    reveal_strlit("-enc ");
    reveal_strlit("downloadstring");
    reveal_strlit("downloadfile");
    reveal_strlit("invoke-expression");
    reveal_strlit("| iex");
    reveal_strlit("|iex");
    reveal_strlit("certutil -urlcache");
    reveal_strlit("certutil -decode");
    reveal_strlit("bitsadmin /transfer");
    reveal_strlit("regsvr32 /s /u");
    reveal_strlit("rundll32.exe");
    reveal_strlit("mshta.exe");
}

/// Runs the command patterns over the text: appends one finding per pattern found,
/// scores each family once, and returns the scored families and the number found.
fn command_scan_exec(
    text: &[char],
    lower: &[char],
    findings: &mut Vec<FileFinding>,
    risk_score: &mut i32,
) -> (r: (Vec<&'static str>, usize))
    requires
        text@.len() <= MAX_ANALYZED_BYTES,
        lower@ == lower_seq(text@),
        *old(risk_score) <= 10000,
    ensures
        findings_text(final(findings)@) == findings_text(old(findings)@) + command_scan(
            text@,
            lower@,
            20,
        ).0,
        *final(risk_score) == *old(risk_score) + command_scan(text@, lower@, 20).1,
        strs_view(r.0@) == command_scan(text@, lower@, 20).2,
        r.1 == command_scan(text@, lower@, 20).3,
        *final(risk_score) <= *old(risk_score) + 1000,
{
    let ghost f0 = findings_text(findings@);
    let ghost s0 = *risk_score as int;
    let mut families: Vec<&'static str> = Vec::new();
    let mut count: usize = 0;
    let mut i: usize = 0;
    proof {
        lemma_command_lengths();
    }
    while i < 20
        invariant
            i <= 20,
            text@.len() <= MAX_ANALYZED_BYTES,
            lower@ == lower_seq(text@),
            s0 <= 10000,
            forall|k: int| 0 <= k < 20 ==> (#[trigger] SUSPICIOUS_COMMANDS@[k]).0@.len() <= 64,
            forall|k: int| 0 <= k < 20 ==> 0 <= (#[trigger] SUSPICIOUS_COMMANDS@[k]).2 <= 50,
            findings_text(findings@) == f0 + command_scan(text@, lower@, i as int).0,
            *risk_score == s0 + command_scan(text@, lower@, i as int).1,
            strs_view(families@) == command_scan(text@, lower@, i as int).2,
            count == command_scan(text@, lower@, i as int).3,
            0 <= command_scan(text@, lower@, i as int).1 <= 50 * i,
            count <= i,
        decreases 20 - i,
    {
        let e = SUSPICIOUS_COMMANDS[i];
        assert(e == SUSPICIOUS_COMMANDS@[i as int]);
        let cmd = chars_of(e.0);
        let kw = trim_end_vec(cmd.as_slice());
        let hit = kw.len() > 0 && contains_command_token(lower, kw.as_slice());
        assert(hit == whole_word_from(lower@, trim_end(e.0@), 0));
        if hit {
            count += 1;
            let fam = command_evidence_family(e.0);
            let famc = chars_of(fam);
            let ghost fams_before = families@;
            if !contains_text(families.as_slice(), famc.as_slice()) {
                families.push(fam);
                assert(strs_view(families@) =~= strs_view(fams_before).push(fam@));
                *risk_score = *risk_score + e.2;
            }
            let idx: u128 = match find_seq(lower, cmd.as_slice()) {
                Some(p) => {
                    proof {
                        crate::security::file_analyzer::verdict::lemma_first_occ_at(lower@, cmd@, p as int);
                    }
                    let pre = slice_vec(lower, 0, p);
                    utf8_len_of(pre.as_slice())
                },
                None => {
                    proof {
                        lemma_first_occ_absent(lower@, cmd@);
                    }
                    0
                },
            };
            assert(idx == match_byte_index(lower@, e.0@));
            let plen = utf8_len_of(cmd.as_slice());
            let snip = safe_char_boundary_slice(text, idx as usize, plen as usize);
            let f = make_finding(e.1, "Malicious Command Pattern", String::from_str(e.3), string_from_chars(snip.as_slice()));
            assert(crate::security::file_analyzer::finding_text(f) == command_finding(text@, lower@, e));
            push_finding(findings, f);
        }
        i += 1;
    }
    (families, count)
}

proof fn lemma_first_occ_at(hay: Seq<char>, needle: Seq<char>, p: int)
    requires
        0 <= p,
        occurs_at(hay, needle, p),
        forall|j: int| 0 <= j < p ==> !occurs_at(hay, needle, j),
    ensures
        first_occ(hay, needle, 0) == p,
        p <= hay.len(),
{
    crate::security::file_analyzer::scan::lemma_first_occ(hay, needle, 0, p);
}

proof fn lemma_first_occ_absent(hay: Seq<char>, needle: Seq<char>)
    requires
        !crate::text::contains_seq(hay, needle),
    ensures
        first_occ(hay, needle, 0) == -1,
{
    crate::security::file_analyzer::scan::lemma_first_occ_none(hay, needle, 0);
}

/// The disguised-executable description for extension `ext`.
fn disguise_description(lang: u8, ext: &str) -> (r: String)
    ensures
        r@ == crate::security::file_analyzer::scan::disguise_text(lang, ext@),
{
    let mut out = if lang == EN {
        String::from_str("A Windows executable (PE/MZ) is dangerously disguised with the .")
    } else if lang == ZH {
        String::from_str("Windows 可执行文件 (PE/MZ) 危险地伪装成 .")
    } else if lang == RU {
        String::from_str("Исполняемый файл Windows (PE/MZ) опасно замаскирован под расширение .")
    } else {
        String::from_str("Tệp thực thi Windows (PE/MZ) nguỵ trang nguy hiểm dưới phần mở rộng .")
    };
    out.append(ext);
    if lang == EN {
        out.append(" extension!");
    } else if lang == ZH {
        out.append(" 扩展名！");
    } else {
        out.append("!");
    }
    out
}

/// The high-entropy description with the entropy printed as `two`.
fn packed_description(lang: u8, two: &str) -> (r: String)
    ensures
        r@ == crate::security::file_analyzer::scan::packed_text(lang, two@),
{
    let mut out = if lang == EN {
        String::from_str("High entropy (")
    } else if lang == ZH {
        String::from_str("熵值较高 (")
    } else if lang == RU {
        String::from_str("Высокая энтропия (")
    } else {
        String::from_str("Độ hỗn loạn Entropy cao (")
    };
    out.append(two);
    if lang == EN {
        out.append("/8.0), possibly caused by a packer or encrypted data; further review is needed.");
    } else if lang == ZH {
        out.append("/8.0)，可能是加壳程序或加密数据；需要进一步检查。");
    } else if lang == RU {
        out.append("/8.0), возможны упаковщик или зашифрованные данные; требуется дополнительная проверка.");
    } else {
        out.append("/8.0), có thể do trình nén mã (packer) hoặc dữ liệu bị mã hoá; cần kiểm tra thêm.");
    }
    out
}

/// The name and header findings: RTLO in the name, an executable under a
/// non-executable extension, packed content, hidden zero-width characters.
fn header_parts(
    file_name: &str,
    ext: &str,
    is_pe: bool,
    entropy: &EntropyReading,
    zw: usize,
    lang: u8,
    findings: &mut Vec<FileFinding>,
    risk: &mut i32,
)
    requires
        *old(risk) == 0,
    ensures
        findings_text(final(findings)@) == findings_text(old(findings)@) + opt_list(rtlo_part(file_name@, lang))
            + opt_list(disguise_part(is_pe, ext@, lang)) + opt_list(
            packed_part(entropy.packed, entropy.two_places@, entropy.three_places@, lang),
        ) + opt_list(zw_part(zw as nat)),
        *final(risk) == opt_score(rtlo_part(file_name@, lang), 45) + opt_score(disguise_part(is_pe, ext@, lang), 55)
            + opt_score(packed_part(entropy.packed, entropy.two_places@, entropy.three_places@, lang), 25)
            + opt_score(zw_part(zw as nat), 35),
{
    let ghost f0 = findings_text(findings@);
    let name_c = chars_of(file_name);
    if has_char(name_c.as_slice(), '\u{202E}') {
        *risk = *risk + 45;
        let desc = tr4_with(
            lang,
            "Ký tự Unicode RTLO (\\u202E) đảo ngược hiển thị phần mở rộng tệp.",
            "Unicode RTLO character (\\u202E) reverses the displayed file extension.",
            "Unicode RTLO 字符 (\\u202E) 会反转文件扩展名的显示。",
            "Символ Юникода RTLO (\\u202E) переворачивает отображение расширения файла.",
        );
        push_finding(
            findings,
            make_finding("CRITICAL", "RTLO Extension Spoofing", String::from_str(desc), String::from_str(file_name)),
        );
    }
    let ghost a1 = opt_list(rtlo_part(file_name@, lang));
    assert(findings_text(findings@) =~= f0 + a1);

    let ext_c = chars_of(ext);
    if is_pe && contains_text(&NON_EXE_EXTS, ext_c.as_slice()) {
        *risk = *risk + 55;
        let mut snip = String::from_str("Extension: .");
        snip.append(ext);
        snip.append(" | Header: MZ (0x4D5A)");
        push_finding(
            findings,
            make_finding("CRITICAL", "Disguised Executable", disguise_description(lang, ext), snip),
        );
    }
    let ghost a2 = a1 + opt_list(disguise_part(is_pe, ext@, lang));
    assert(findings_text(findings@) =~= f0 + a2);

    if entropy.packed {
        *risk = *risk + 25;
        let mut snip = String::from_str("Entropy: ");
        snip.append(entropy.three_places.as_str());
        push_finding(
            findings,
            make_finding(
                "MEDIUM",
                "High Entropy (Packing/Encryption)",
                packed_description(lang, entropy.two_places.as_str()),
                snip,
            ),
        );
    }
    let ghost a3 = a2 + opt_list(packed_part(entropy.packed, entropy.two_places@, entropy.three_places@, lang));
    assert(findings_text(findings@) =~= f0 + a3);

    if zw >= 8 {
        *risk = *risk + 35;
        let mut desc = String::from_str("Phát hiện ");
        desc.append(decimal(zw as u128).as_str());
        desc.append(" ký tự Unicode vô hình (Zero-Width) nghi vấn che giấu dữ liệu mật hoặc shellcode.");
        let mut snip = String::from_str("Zero-width characters count: ");
        snip.append(decimal(zw as u128).as_str());
        push_finding(findings, make_finding("HIGH", "Hidden Steganography", desc, snip));
    }
    let ghost a4 = a3 + opt_list(zw_part(zw as nat));
    assert(findings_text(findings@) =~= f0 + a4);

}

/// The deceptive-greeting finding, if any.
fn greeting_finding(text: &str, lower: &[char], count: usize, is_pe: bool, zw: usize) -> (r: Option<FileFinding>)
    requires
        lower@ == lower_seq(text@),
    ensures
        match r {
            Some(f) => greeting_part(text@, lower@, count as nat, is_pe, zw as nat) == Some(
                crate::security::file_analyzer::finding_text(f),
            ),
            None => greeting_part(text@, lower@, count as nat, is_pe, zw as nat) is None,
        },
{
    if greeting_exec(text) && (count > 0 || is_pe || zw >= 8) {
        let tl = trim_start_vec(lower);
        let snip = if tl.len() <= 60 {
            slice_vec(tl.as_slice(), 0, tl.len())
        } else {
            slice_vec(tl.as_slice(), 0, 60)
        };
        Some(
            make_finding(
                "CRITICAL",
                "Deceptive Greeting Wrapper",
                String::from_str(
                    "Tệp mở đầu bằng lời chào ngây thơ (\"Xin chào / Hello / 你好 / Привет\"), nhưng thực tế nguỵ trang cho lệnh thực thi độc hại hoặc payload ẩn!",
                ),
                string_from_chars(snip.as_slice()),
            ),
        )
    } else {
        None
    }
}

/// Analyses the content `data` of the file at `file_path`, named `file_name`, with the
/// lower-case extension `ext`: its size, digests over all of `data`, heuristics over its first 16 MiB read as text
/// (invalid UTF-8 replaced), `entropy` measured on that window. The score is the sum
/// of the scans' scores limited to 0..=100; 60 and more is malicious, 25 and more
/// suspicious, below that safe.
#[verifier::rlimit(40)]
pub fn scan_file_content(
    file_path: &str,
    file_name: &str,
    ext: &str,
    data: &[u8],
    entropy: &EntropyReading,
    lang: u8,
) -> (r: FileVerdict)
    ensures
        r.file_path@ == file_path@,
        r.file_name@ == file_name@,
        r.file_size_bytes == data@.len(),
        r.md5@ == hex_text(spec_md5(data@)),
        r.sha1@ == hex_text(spec_sha1(data@)),
        r.sha256@ == hex_text(spec_sha256(data@)),
        r.is_pe == mz_header(window_of(data@)),
        r.is_packed == entropy.packed,
        findings_text(r.findings@) == content_scan(
            file_name@,
            ext@,
            window_of(data@),
            entropy.packed,
            entropy.two_places@,
            entropy.three_places@,
            lang,
        ).0,
        r.risk_score == clamp_score(
            content_scan(
                file_name@,
                ext@,
                window_of(data@),
                entropy.packed,
                entropy.two_places@,
                entropy.three_places@,
                lang,
            ).1,
        ),
        r.risk_level@ == level_text(r.risk_score as int),
        r.summary_text@ == summary_text(lang, r.risk_level@, r.findings@.len(), r.risk_score as int),
{
    let digests = file_digests(data);
    let wlen: usize = if data.len() <= MAX_ANALYZED_BYTES {
        data.len()
    } else {
        MAX_ANALYZED_BYTES
    };
    let window = vstd::slice::slice_subrange(data, 0, wlen);
    assert(window@ == window_of(data@));
    let is_pe = window.len() >= 2 && window[0] == 0x4d && window[1] == 0x5a;
    let text_s = utf8_lossy(window);
    let text = chars_of(text_s.as_str());
    let lower = lower_vec(text.as_slice());
    let ghost t = text@;
    let ghost lw = lower@;
    let ghost cs = command_scan(t, lw, 20);
    let ghost zwn = zw_count(t);
    let mut findings: Vec<FileFinding> = Vec::new();
    let mut risk: i32 = 0;
    let zw = zw_count_exec(text.as_slice());

    header_parts(file_name, ext, is_pe, entropy, zw, lang, &mut findings, &mut risk);
    let ghost a4 = opt_list(rtlo_part(file_name@, lang)) + opt_list(disguise_part(mz_header(window@), ext@, lang))
        + opt_list(packed_part(entropy.packed, entropy.two_places@, entropy.three_places@, lang)) + opt_list(zw_part(zwn));
    assert(findings_text(findings@) =~= a4);

    let (families, count) = command_scan_exec(text.as_slice(), lower.as_slice(), &mut findings, &mut risk);
    let ghost a5 = a4 + cs.0;
    assert(findings_text(findings@) =~= a5);

    match greeting_finding(text_s.as_str(), lower.as_slice(), count, is_pe, zw) {
        Some(f) => {
            risk = risk + 45;
            push_finding(&mut findings, f);
        },
        None => {},
    }
    let ghost a6 = a5 + opt_list(greeting_part(t, lw, cs.3, mz_header(window@), zwn));
    assert(findings_text(findings@) =~= a6);

    let ext_c = chars_of(ext);
    if crate::text::eq_str(ext_c.as_slice(), "tmf") {
        scan_tmf_file(text_s.as_str(), &mut findings, &mut risk, families.as_slice());
    }
    let ghost tmf = if ext@ == "tmf"@ {
        tmf_scan(t, cs.2)
    } else {
        (Seq::<FindingText>::empty(), 0int)
    };
    let ghost a7 = a6 + tmf.0;
    assert(findings_text(findings@) =~= a7);

    scan_hidden_deceptive_code(text_s.as_str(), &mut findings, &mut risk);
    scan_embedded_base64(text_s.as_str(), &mut findings, &mut risk);

    let score: i32 = if risk < 0 {
        0
    } else if risk > 100 {
        100
    } else {
        risk
    };
    let level: &str = if score >= 60 {
        "MALICIOUS"
    } else if score >= 25 {
        "SUSPICIOUS"
    } else {
        "SAFE"
    };
    let summary = localized_summary(lang, level, findings.len(), score);
    FileVerdict {
        file_path: String::from_str(file_path),
        file_name: String::from_str(file_name),
        file_size_bytes: data.len() as u64,
        md5: digests.0,
        sha1: digests.1,
        sha256: digests.2,
        risk_score: score,
        risk_level: String::from_str(level),
        is_pe,
        is_packed: entropy.packed,
        findings,
        summary_text: summary,
    }
}

} // verus!
