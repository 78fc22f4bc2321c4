//! The content scan as a whole: name and header checks, command patterns, the
//! greeting wrapper, embedded base64, the score, the verdict and its summary.
use vstd::prelude::*;
use crate::i18n::{spec_tr4_with, tr4_with, EN, RU, ZH};
use crate::security::file_analyzer::hidden::{
    hidden_scan, opt_list, opt_score, scan_hidden_deceptive_code, take_chars,
};
use crate::security::file_analyzer::payload::{
    ascii_bytes, b64_char, base64_decode, file_digests, has_pe_structure, hex_text, is_b64_char,
    pe_structure, spec_md5, spec_sha1, spec_sha256,
};
use crate::security::file_analyzer::tokens::{
    contains_command_token, prefix_bytes, safe_char_boundary_slice, snippet_around,
    whole_word_from,
};
use crate::security::file_analyzer::{
    contains_text, findings_text, make_finding, push_finding, scan_tmf_file, strs_view, tmf_scan,
    FileFinding, FindingText,
};
use crate::security::heuristics::{utf8_len, utf8_len_of};
use crate::text::{
    chars_of, contains_seq, contains_str, decimal, find_seq, has_char, lower_seq, lower_vec,
    occurs_at, slice_vec, spec_decimal, spec_unicode_lowercase, spec_utf8_lossy, starts_with,
    starts_with_str, string_from_chars, trim_end, trim_end_vec, trim_start, trim_start_vec,
    unicode_lowercase, utf8_lossy,
};

verus! {

/// At most this many leading bytes of a file go through the heuristics; the digests
/// cover the whole file.
pub const MAX_ANALYZED_BYTES: usize = 16777216;

/// Command patterns, each with its severity, score and meaning.
pub const SUSPICIOUS_COMMANDS: [(&'static str, &'static str, i32, &'static str); 20] = [
    ("set-mppreference -disablerealtimemonitoring", "CRITICAL", 50, "Tắt tính năng bảo vệ Windows Defender theo thời gian thực"),
    ("vssadmin delete shadows", "CRITICAL", 50, "Xoá điểm phục hồi Volume Shadow Copies (dấu hiệu Ransomware)"),
    ("wbadmin delete catalog", "CRITICAL", 50, "Xoá nhật ký sao lưu hệ thống (Ransomware evasion)"),
    ("bcdedit /set {default} recoveryenabled no", "CRITICAL", 45, "Vô hiệu hóa tính năng phục hồi tự động của Windows"),
    ("amsiutils", "CRITICAL", 45, "Kỹ thuật can thiệp Antimalware Scan Interface (AMSI Bypass)"),
    ("amsiinitfailed", "CRITICAL", 45, "Kỹ thuật vô hiệu hóa kiểm tra AMSI Init"),
    ("minidumpwritedump", "HIGH", 40, "Khai thác trích xuất bộ nhớ tiến trình (Credential Dumping / LSASS)"),
    ("-encodedcommand", "HIGH", 35, "Lệnh PowerShell mã hoá Base64 (-EncodedCommand)"),
    ("-enc ", "HIGH", 35, "Lệnh PowerShell rút gọn mã hoá Base64 (-enc)"),
    ("downloadstring", "HIGH", 30, "PowerShell tải mã thực thi từ xa qua DownloadString"),
    ("downloadfile", "HIGH", 30, "PowerShell tải tệp thực thi qua DownloadFile"),
    ("invoke-expression", "HIGH", 25, "Thực thi chuỗi động nguy hiểm (Invoke-Expression)"),
    ("| iex", "HIGH", 25, "Thực thi chuỗi động qua pipeline (| iex)"),
    ("|iex", "HIGH", 25, "Thực thi chuỗi động qua pipeline (|iex)"),
    ("certutil -urlcache", "HIGH", 25, "LOLBin certutil tải tệp lạ từ Internet (-urlcache)"),
    ("certutil -decode", "HIGH", 25, "LOLBin certutil giải mã tệp độc hại (-decode)"),
    ("bitsadmin /transfer", "HIGH", 25, "LOLBin bitsadmin tải tệp chạy ngầm (/transfer)"),
    ("regsvr32 /s /u", "HIGH", 25, "LOLBin regsvr32 thực thi DLL không giám sát"),
    ("rundll32.exe", "HIGH", 20, "LOLBin rundll32 thực thi thư viện động"),
    ("mshta.exe", "HIGH", 25, "LOLBin mshta thực thi HTML Application"),
];

/// Extensions that must not carry an executable.
pub const NON_EXE_EXTS: [&'static str; 22] = [
    "txt", "jpg", "jpeg", "png", "gif", "pdf", "doc", "docx", "xls", "xlsx", "mp4", "mp3", "csv",
    "log", "ini", "json", "xml", "html", "css", "tmf", "etl", "evtx",
];

/// Greetings that open a deceptive wrapper, in lower case.
pub const GREETINGS: [&'static str; 12] = [
    "xin chào", "xin chao", "hello", "hi ", "greetings", "你好", "您好", "привет",
    "здравствуйте", "halo", "hola", "dear friend",
];

/// Zero-width and direction-mark characters used to hide data.
pub const ZERO_WIDTH: [char; 7] = [
    '\u{200B}', '\u{200C}', '\u{200D}', '\u{FEFF}', '\u{2060}', '\u{200E}', '\u{200F}',
];

/// The family of evidence a command pattern belongs to; variants of one technique
/// share a family and are scored once.
pub open spec fn command_family(cmd: Seq<char>) -> Seq<char> {
    if cmd == "| iex"@ || cmd == "|iex"@ {
        "invoke-expression"@
    } else if cmd == "-enc "@ {
        "-encodedcommand"@
    } else if cmd == "certutil -urlcache"@ || cmd == "certutil -decode"@ {
        "certutil"@
    } else {
        cmd
    }
}

/// The family of evidence of a command pattern.
pub fn command_evidence_family(command: &'static str) -> (r: &'static str)
    ensures
        r@ == command_family(command@),
{
    let c = chars_of(command);
    if crate::text::eq_str(c.as_slice(), "| iex") || crate::text::eq_str(c.as_slice(), "|iex") {
        "invoke-expression"
    } else if crate::text::eq_str(c.as_slice(), "-enc ") {
        "-encodedcommand"
    } else if crate::text::eq_str(c.as_slice(), "certutil -urlcache") || crate::text::eq_str(
        c.as_slice(),
        "certutil -decode",
    ) {
        "certutil"
    } else {
        command
    }
}

/// The first index from `i` on where `needle` occurs in `hay`, or -1.
pub open spec fn first_occ(hay: Seq<char>, needle: Seq<char>, i: int) -> int
    decreases hay.len() + 1 - i,
{
    if i < 0 || i + needle.len() > hay.len() {
        -1
    } else if occurs_at(hay, needle, i) {
        i
    } else {
        first_occ(hay, needle, i + 1)
    }
}

pub proof fn lemma_first_occ(hay: Seq<char>, needle: Seq<char>, i: int, p: int)
    requires
        0 <= i <= p,
        occurs_at(hay, needle, p),
        forall|j: int| i <= j < p ==> !occurs_at(hay, needle, j),
    ensures
        first_occ(hay, needle, i) == p,
    decreases p - i,
{
    if i < p {
        lemma_first_occ(hay, needle, i + 1, p);
    }
}

pub proof fn lemma_first_occ_none(hay: Seq<char>, needle: Seq<char>, i: int)
    requires
        0 <= i,
        forall|j: int| i <= j ==> !occurs_at(hay, needle, j),
    ensures
        first_occ(hay, needle, i) == -1,
    decreases hay.len() + 1 - i,
{
    if i + needle.len() <= hay.len() {
        lemma_first_occ_none(hay, needle, i + 1);
    }
}

/// The byte offset at which `lower` first contains `cmd`, or 0.
pub open spec fn match_byte_index(lower: Seq<char>, cmd: Seq<char>) -> int {
    let p = first_occ(lower, cmd, 0);
    if p < 0 {
        0
    } else {
        prefix_bytes(lower, p) as int
    }
}

/// The finding for command pattern `e` found in `text`.
pub open spec fn command_finding(text: Seq<char>, lower: Seq<char>, e: (&'static str, &'static str, i32, &'static str)) -> FindingText {
    (
        e.1@,
        "Malicious Command Pattern"@,
        e.3@,
        snippet_around(text, match_byte_index(lower, e.0@), utf8_len(e.0@) as int),
    )
}

/// The command scan over the first `n` patterns: findings, score, families already
/// scored, and the number of patterns found.
pub open spec fn command_scan(text: Seq<char>, lower: Seq<char>, n: int) -> (Seq<FindingText>, int, Seq<Seq<char>>, nat)
    decreases n,
{
    if n <= 0 {
        (Seq::empty(), 0, Seq::empty(), 0)
    } else {
        let prev = command_scan(text, lower, n - 1);
        let e = SUSPICIOUS_COMMANDS@[n - 1];
        if whole_word_from(lower, trim_end(e.0@), 0) {
            let fam = command_family(e.0@);
            let fresh = !prev.2.contains(fam);
            (
                prev.0.push(command_finding(text, lower, e)),
                if fresh { prev.1 + e.2 } else { prev.1 },
                if fresh { prev.2.push(fam) } else { prev.2 },
                prev.3 + 1,
            )
        } else {
            prev
        }
    }
}

proof fn lemma_command_scan_bounds(text: Seq<char>, lower: Seq<char>, n: int)
    requires
        0 <= n <= 20,
    ensures
        0 <= command_scan(text, lower, n).1 <= 50 * n,
        command_scan(text, lower, n).3 <= n,
    decreases n,
{
    if n > 0 {
        lemma_command_scan_bounds(text, lower, n - 1);
    }
}

/// The lower-cased text opens, after leading whitespace, with a greeting.
pub open spec fn starts_with_greeting(text: Seq<char>) -> bool {
    exists|i: int|
        0 <= i < 12 && #[trigger] starts_with(
            trim_start(spec_unicode_lowercase(text)),
            GREETINGS@[i]@,
        )
}

/// Number of zero-width characters in `s`.
pub open spec fn zw_count(s: Seq<char>) -> nat
    decreases s.len(),
{
    if s.len() == 0 {
        0
    } else {
        zw_count(s.drop_last()) + if ZERO_WIDTH@.contains(s.last()) {
            1nat
        } else {
            0nat
        }
    }
}

/// The RTLO finding for a file name that contains U+202E.
pub open spec fn rtlo_part(file_name: Seq<char>, lang: u8) -> Option<FindingText> {
    if file_name.contains('\u{202E}') {
        Some(
            (
                "CRITICAL"@,
                "RTLO Extension Spoofing"@,
                spec_tr4_with(
                    lang,
                    "Ký tự Unicode RTLO (\\u202E) đảo ngược hiển thị phần mở rộng tệp."@,
                    "Unicode RTLO character (\\u202E) reverses the displayed file extension."@,
                    "Unicode RTLO 字符 (\\u202E) 会反转文件扩展名的显示。"@,
                    "Символ Юникода RTLO (\\u202E) переворачивает отображение расширения файла."@,
                ),
                file_name,
            ),
        )
    } else {
        None
    }
}

/// The description of an executable disguised under extension `ext`.
pub open spec fn disguise_text(lang: u8, ext: Seq<char>) -> Seq<char> {
    if lang == EN {
        "A Windows executable (PE/MZ) is dangerously disguised with the ."@ + ext
            + " extension!"@
    } else if lang == ZH {
        "Windows 可执行文件 (PE/MZ) 危险地伪装成 ."@ + ext + " 扩展名！"@
    } else if lang == RU {
        "Исполняемый файл Windows (PE/MZ) опасно замаскирован под расширение ."@ + ext + "!"@
    } else {
        "Tệp thực thi Windows (PE/MZ) nguỵ trang nguy hiểm dưới phần mở rộng ."@ + ext + "!"@
    }
}

/// The disguised-executable finding: an MZ header under a non-executable extension.
pub open spec fn disguise_part(is_pe: bool, ext: Seq<char>, lang: u8) -> Option<FindingText> {
    if is_pe && strs_view(NON_EXE_EXTS@).contains(ext) {
        Some(
            (
                "CRITICAL"@,
                "Disguised Executable"@,
                disguise_text(lang, ext),
                "Extension: ."@ + ext + " | Header: MZ (0x4D5A)"@,
            ),
        )
    } else {
        None
    }
}

/// The description of high entropy, given the entropy with two decimals.
pub open spec fn packed_text(lang: u8, two: Seq<char>) -> Seq<char> {
    if lang == EN {
        "High entropy ("@ + two
            + "/8.0), possibly caused by a packer or encrypted data; further review is needed."@
    } else if lang == ZH {
        "熵值较高 ("@ + two + "/8.0)，可能是加壳程序或加密数据；需要进一步检查。"@
    } else if lang == RU {
        "Высокая энтропия ("@ + two
            + "/8.0), возможны упаковщик или зашифрованные данные; требуется дополнительная проверка."@
    } else {
        "Độ hỗn loạn Entropy cao ("@ + two
            + "/8.0), có thể do trình nén mã (packer) hoặc dữ liệu bị mã hoá; cần kiểm tra thêm."@
    }
}

/// The packed-content finding.
pub open spec fn packed_part(packed: bool, two: Seq<char>, three: Seq<char>, lang: u8) -> Option<FindingText> {
    if packed {
        Some(("MEDIUM"@, "High Entropy (Packing/Encryption)"@, packed_text(lang, two), "Entropy: "@ + three))
    } else {
        None
    }
}

/// The zero-width finding for `n` hidden characters.
pub open spec fn zw_part(n: nat) -> Option<FindingText> {
    if n >= 8 {
        Some(
            (
                "HIGH"@,
                "Hidden Steganography"@,
                "Phát hiện "@ + spec_decimal(n)
                    + " ký tự Unicode vô hình (Zero-Width) nghi vấn che giấu dữ liệu mật hoặc shellcode."@,
                "Zero-width characters count: "@ + spec_decimal(n),
            ),
        )
    } else {
        None
    }
}

/// The deceptive-greeting finding: a greeting that opens a file that also carries
/// commands, an executable header or hidden characters.
pub open spec fn greeting_part(text: Seq<char>, lower: Seq<char>, commands: nat, is_pe: bool, zw: nat) -> Option<FindingText> {
    if starts_with_greeting(text) && (commands > 0 || is_pe || zw >= 8) {
        Some(
            (
                "CRITICAL"@,
                "Deceptive Greeting Wrapper"@,
                "Tệp mở đầu bằng lời chào ngây thơ (\"Xin chào / Hello / 你好 / Привет\"), nhưng thực tế nguỵ trang cho lệnh thực thi độc hại hoặc payload ẩn!"@,
                take_chars(trim_start(lower), 60),
            ),
        )
    } else {
        None
    }
}

/// Index just past the run of base64 characters that starts at `i`.
pub open spec fn b64_run_end(t: Seq<char>, i: int) -> int
    decreases t.len() - i,
{
    if i < 0 || i >= t.len() || !b64_char(t[i]) {
        i
    } else {
        b64_run_end(t, i + 1)
    }
}

pub proof fn lemma_run_end(t: Seq<char>, i: int)
    requires
        0 <= i <= t.len(),
    ensures
        i <= b64_run_end(t, i) <= t.len(),
        forall|j: int| i <= j < b64_run_end(t, i) ==> b64_char(#[trigger] t[j]),
    decreases t.len() - i,
{
    if i < t.len() && b64_char(t[i]) {
        lemma_run_end(t, i + 1);
    }
}

/// The finding for an embedded PE image.
pub open spec fn b64_pe_finding(run: nat, decoded: nat) -> FindingText {
    (
        "CRITICAL"@,
        "Embedded Executable in Base64"@,
        "Khối Base64 có cấu trúc PE Windows hợp lệ trong phạm vi kiểm tra; đây là dấu hiệu cần xem xét, không chứng minh mã độc."@,
        "Base64 chunk ("@ + spec_decimal(run) + " chars) -> Decoded PE ("@ + spec_decimal(decoded)
            + " bytes)"@,
    )
}

/// The finding for an encoded script.
pub open spec fn b64_script_finding(ds: Seq<char>) -> FindingText {
    (
        "HIGH"@,
        "Encoded Script Payload"@,
        "Khối Base64 giải mã ra lệnh PowerShell / CMD độc hại!"@,
        take_chars(ds, 80),
    )
}

/// Decoded bytes that read as a PowerShell or command-prompt script.
pub open spec fn script_payload(ds: Seq<char>) -> bool {
    contains_seq(ds, "powershell"@) || contains_seq(ds, "downloadstring"@) || contains_seq(
        ds,
        "cmd.exe"@,
    )
}

/// Scanning the base64 runs of `t` from `i`: the first run of at least 56 characters
/// that decodes to a PE image or to a script gives a finding and its score.
pub open spec fn b64_scan_from(t: Seq<char>, i: int) -> Option<(FindingText, int)>
    decreases t.len() - i,
{
    if i < 0 || i >= t.len() {
        None
    } else if b64_char(t[i]) {
        let e = b64_run_end(t, i);
        proof {
            lemma_run_end(t, i + 1);
        }
        if e - i >= 56 {
            match crate::security::file_analyzer::payload::spec_base64_decode(
                ascii_bytes(t.subrange(i, e)),
            ) {
                Some(d) => if pe_structure(d) {
                    Some((b64_pe_finding((e - i) as nat, d.len()), 50))
                } else if script_payload(lower_seq(spec_utf8_lossy(d))) {
                    Some((b64_script_finding(lower_seq(spec_utf8_lossy(d))), 35))
                } else {
                    b64_scan_from(t, e)
                },
                None => b64_scan_from(t, e),
            }
        } else {
            b64_scan_from(t, e)
        }
    } else {
        b64_scan_from(t, i + 1)
    }
}

/// The findings of an optional finding with score.
pub open spec fn scored_list(o: Option<(FindingText, int)>) -> Seq<FindingText> {
    match o {
        Some(p) => seq![p.0],
        None => Seq::empty(),
    }
}

/// The score of an optional finding with score.
pub open spec fn scored_value(o: Option<(FindingText, int)>) -> int {
    match o {
        Some(p) => p.1,
        None => 0,
    }
}

fn b64_scan_exec(t: &[char]) -> (r: Option<(FileFinding, i32)>)
    ensures
        r matches Some(p) ==> (p.1 == 50 || p.1 == 35),
        match r {
            Some(p) => b64_scan_from(t@, 0) == Some(
                (crate::security::file_analyzer::finding_text(p.0), p.1 as int),
            ),
            None => b64_scan_from(t@, 0) is None,
        },
{
    let mut i: usize = 0;
    while i < t.len()
        invariant
            i <= t.len(),
            b64_scan_from(t@, 0) == b64_scan_from(t@, i as int),
        decreases t.len() - i,
    {
        if is_b64_char(t[i]) {
            let start = i;
            proof {
                lemma_run_end(t@, i as int);
            }
            while i < t.len() && is_b64_char(t[i])
                invariant
                    start <= i <= t.len(),
                    b64_run_end(t@, start as int) == b64_run_end(t@, i as int),
                decreases t.len() - i,
            {
                i += 1;
            }
            let chunk_len = i - start;
            if chunk_len >= 56 {
                let candidate = slice_vec(t, start, i);
                proof {
                    lemma_run_end(t@, start as int);
                    assert forall|j: int| 0 <= j < candidate@.len() implies b64_char(
                        #[trigger] candidate@[j],
                    ) by {
                        assert(candidate@[j] == t@[start + j]);
                    }
                }
                match base64_decode(candidate.as_slice()) {
                    Some(decoded) => {
                        if has_pe_structure(decoded.as_slice()) {
                            let mut snip = String::from_str("Base64 chunk (");
                            snip.append(decimal(chunk_len as u128).as_str());
                            snip.append(" chars) -> Decoded PE (");
                            snip.append(decimal(decoded.len() as u128).as_str());
                            snip.append(" bytes)");
                            let f = make_finding(
                                "CRITICAL",
                                "Embedded Executable in Base64",
                                String::from_str(
                                    "Khối Base64 có cấu trúc PE Windows hợp lệ trong phạm vi kiểm tra; đây là dấu hiệu cần xem xét, không chứng minh mã độc.",
                                ),
                                snip,
                            );
                            return Some((f, 50));
                        }
                        let lossy = utf8_lossy(decoded.as_slice());
                        let dchars = chars_of(lossy.as_str());
                        let ds = lower_vec(dchars.as_slice());
                        if contains_str(ds.as_slice(), "powershell") || contains_str(
                            ds.as_slice(),
                            "downloadstring",
                        ) || contains_str(ds.as_slice(), "cmd.exe") {
                            let snip = if ds.len() <= 80 {
                                slice_vec(ds.as_slice(), 0, ds.len())
                            } else {
                                slice_vec(ds.as_slice(), 0, 80)
                            };
                            let f = make_finding(
                                "HIGH",
                                "Encoded Script Payload",
                                String::from_str(
                                    "Khối Base64 giải mã ra lệnh PowerShell / CMD độc hại!",
                                ),
                                string_from_chars(snip.as_slice()),
                            );
                            return Some((f, 35));
                        }
                    },
                    None => {},
                }
            }
        } else {
            i += 1;
        }
    }
    None
}

/// Scans `text` for long base64 runs that decode to a PE image or to a script; the
/// first such run adds a finding and its score.
pub fn scan_embedded_base64(text: &str, findings: &mut Vec<FileFinding>, risk_score: &mut i32)
    requires
        *old(risk_score) + 50 <= i32::MAX,
    ensures
        findings_text(final(findings)@) == findings_text(old(findings)@) + scored_list(
            b64_scan_from(text@, 0),
        ),
        *final(risk_score) == *old(risk_score) + scored_value(b64_scan_from(text@, 0)),
        *final(risk_score) <= *old(risk_score) + 50,
{
    let chars = chars_of(text);
    let ghost f0 = findings_text(findings@);
    match b64_scan_exec(chars.as_slice()) {
        Some(p) => {
            *risk_score = *risk_score + p.1;
            push_finding(findings, p.0);
        },
        None => {},
    }
    assert(findings_text(findings@) =~= f0 + scored_list(b64_scan_from(text@, 0)));
}

} // verus!
