//! Static analysis of a file's content: disguised executables, malicious command
//! patterns, obfuscation and hidden payloads, with a localized verdict.
use vstd::prelude::*;
use crate::text::{chars_of, contains_seq, contains_str, lower_seq, lower_vec, occurs_at, occurs_at_exec};
use crate::security::file_analyzer::tokens::whole_word_from;

pub mod hidden;
pub mod payload;
pub mod scan;
pub mod tokens;
pub mod verdict;

verus! {

/// One finding of the file analyzer.
#[derive(Debug)]
pub struct FileFinding {
    pub severity: String,
    pub category: String,
    pub description: String,
    pub snippet: String,
}

/// The texts of a finding: severity, category, description, snippet.
pub type FindingText = (Seq<char>, Seq<char>, Seq<char>, Seq<char>);

/// The texts of one finding.
pub open spec fn finding_text(f: FileFinding) -> FindingText {
    (f.severity@, f.category@, f.description@, f.snippet@)
}

/// The texts of a list of findings, in order.
pub open spec fn findings_text(v: Seq<FileFinding>) -> Seq<FindingText> {
    Seq::new(v.len(), |i: int| finding_text(v[i]))
}

/// Builds a finding from its four texts.
pub fn make_finding(severity: &str, category: &str, description: String, snippet: String) -> (r:
    FileFinding)
    ensures
        finding_text(r) == (severity@, category@, description@, snippet@),
{
    FileFinding {
        severity: String::from_str(severity),
        category: String::from_str(category),
        description,
        snippet,
    }
}

/// A field-by-field copy of a finding.
pub fn copy_finding(f: &FileFinding) -> (r: FileFinding)
    ensures
        finding_text(r) == finding_text(*f),
{
    FileFinding {
        severity: f.severity.clone(),
        category: f.category.clone(),
        description: f.description.clone(),
        snippet: f.snippet.clone(),
    }
}

/// Appends one finding.
pub fn push_finding(findings: &mut Vec<FileFinding>, f: FileFinding)
    ensures
        findings_text(final(findings)@) == findings_text(old(findings)@).push(finding_text(f)),
{
    let ghost before = findings@;
    findings.push(f);
    assert(findings_text(findings@) =~= findings_text(before).push(finding_text(f)));
}

/// The texts of a list of string slices.
pub open spec fn strs_view(v: Seq<&str>) -> Seq<Seq<char>> {
    Seq::new(v.len(), |i: int| v[i]@)
}

/// Whether `s` is one of `v`.
pub fn contains_text(v: &[&str], s: &[char]) -> (r: bool)
    ensures
        r == strs_view(v@).contains(s@),
{
    let mut i: usize = 0;
    while i < v.len()
        invariant
            i <= v.len(),
            forall|j: int| 0 <= j < i ==> strs_view(v@)[j] != s@,
        decreases v.len() - i,
    {
        if crate::text::eq_str(s, v[i]) {
            assert(strs_view(v@)[i as int] == s@);
            return true;
        }
        i += 1;
    }
    false
}

/// Commands planted in TMF trace-format files, with what each one means.
pub const TMF_PATTERNS: [(&'static str, &'static str); 10] = [
    ("powershell", "Lệnh PowerShell nhúng trong tệp định dạng dấu vết TMF"),
    ("cmd.exe", "Lệnh Command Prompt nhúng trong TMF"),
    ("downloadstring", "PowerShell WebClient payload nhúng trong TMF"),
    ("iex", "Lệnh thực thi chuỗi động (IEX) nhúng trong TMF"),
    ("mshta", "Lệnh MSHTA HTML Application nhúng trong TMF"),
    ("cscript", "Script engine cscript nhúng trong TMF"),
    ("wscript", "Script engine wscript nhúng trong TMF"),
    ("certutil", "LOLBin certutil nhúng trong TMF"),
    ("bitsadmin", "LOLBin bitsadmin nhúng trong TMF"),
    ("rundll32", "Thực thi DLL rundll32 nhúng trong TMF"),
];

/// The command family a TMF pattern is evidence of.
pub open spec fn tmf_family(pat: Seq<char>) -> Seq<char> {
    if pat == "iex"@ {
        "invoke-expression"@
    } else if pat == "rundll32"@ {
        "rundll32.exe"@
    } else if pat == "mshta"@ {
        "mshta.exe"@
    } else if pat == "bitsadmin"@ {
        "bitsadmin /transfer"@
    } else {
        pat
    }
}

/// The finding for the TMF pattern `e`.
pub open spec fn tmf_finding(e: (&'static str, &'static str)) -> FindingText {
    (
        "CRITICAL"@,
        "Injected Code in TMF Trace Format"@,
        "Phát hiện mã độc tiêm vào tệp TMF: "@ + e.1@,
        e.0@,
    )
}

/// Findings for the first `n` TMF patterns: each whole-word pattern whose family was
/// not already scored.
pub open spec fn tmf_hits(lower: Seq<char>, scored: Seq<Seq<char>>, n: int) -> Seq<FindingText>
    decreases n,
{
    if n <= 0 {
        Seq::empty()
    } else {
        let prev = tmf_hits(lower, scored, n - 1);
        let e = TMF_PATTERNS@[n - 1];
        if whole_word_from(lower, e.0@, 0) && !scored.contains(tmf_family(e.0@)) {
            prev.push(tmf_finding(e))
        } else {
            prev
        }
    }
}

/// A NOP sled written out as text.
pub open spec fn nop_sled(lower: Seq<char>) -> bool {
    contains_seq(lower, "\\x90\\x90\\x90"@) || contains_seq(lower, "0x90,0x90,0x90"@)
        || contains_seq(lower, "0x90, 0x90, 0x90"@)
}

/// The NOP sled finding.
pub open spec fn nop_finding() -> FindingText {
    (
        "CRITICAL"@,
        "Embedded Shellcode NOP Sled in TMF"@,
        "Dãy mã máy NOP sled (0x90) thường dùng trong khai thác bộ nhớ / shellcode nhúng trong tệp TMF!"@,
        "NOP sled sequence detected"@,
    )
}

/// What the TMF scan adds for `text`: its findings and its score.
pub open spec fn tmf_scan(text: Seq<char>, scored: Seq<Seq<char>>) -> (Seq<FindingText>, int) {
    let lower = lower_seq(text);
    let hits = tmf_hits(lower, scored, 10);
    if nop_sled(lower) {
        (hits.push(nop_finding()), (45 * hits.len() + 50) as int)
    } else {
        (hits, (45 * hits.len()) as int)
    }
}

pub proof fn lemma_tmf_hits_len(lower: Seq<char>, scored: Seq<Seq<char>>, n: int)
    ensures
        tmf_hits(lower, scored, n).len() <= if n > 0 { n } else { 0 },
    decreases n,
{
    if n > 0 {
        lemma_tmf_hits_len(lower, scored, n - 1);
    }
}

/// Scans a TMF trace-format file for planted commands whose family was not already
/// scored, and for a NOP sled; each adds a finding and its score.
pub fn scan_tmf_file(
    text: &str,
    findings: &mut Vec<FileFinding>,
    risk_score: &mut i32,
    scored_commands: &[&str],
)
    requires
        *old(risk_score) + 500 <= i32::MAX,
    ensures
        findings_text(final(findings)@) == findings_text(old(findings)@) + tmf_scan(
            text@,
            strs_view(scored_commands@),
        ).0,
        *final(risk_score) == *old(risk_score) + tmf_scan(text@, strs_view(scored_commands@)).1,
        *final(risk_score) <= *old(risk_score) + 500,
{
    let chars = chars_of(text);
    let lower = lower_vec(chars.as_slice());
    let ghost scored = strs_view(scored_commands@);
    let ghost start_findings = findings_text(findings@);
    let ghost start_score = *risk_score as int;
    let mut i: usize = 0;
    while i < 10
        invariant
            i <= 10,
            lower@ == lower_seq(text@),
            scored == strs_view(scored_commands@),
            findings_text(findings@) == start_findings + tmf_hits(lower@, scored, i as int),
            *risk_score == start_score + 45 * tmf_hits(lower@, scored, i as int).len(),
            tmf_hits(lower@, scored, i as int).len() <= i,
            start_score + 500 <= i32::MAX,
        decreases 10 - i,
    {
        let e = TMF_PATTERNS[i];
        let pat = chars_of(e.0);
        let family: &str = if crate::text::eq_str(pat.as_slice(), "iex") {
            "invoke-expression"
        } else if crate::text::eq_str(pat.as_slice(), "rundll32") {
            "rundll32.exe"
        } else if crate::text::eq_str(pat.as_slice(), "mshta") {
            "mshta.exe"
        } else if crate::text::eq_str(pat.as_slice(), "bitsadmin") {
            "bitsadmin /transfer"
        } else {
            e.0
        };
        assert(family@ == tmf_family(e.0@));
        let fam = chars_of(family);
        let already_reported = contains_text(scored_commands, fam.as_slice());
        proof {
            reveal_strlit("powershell");
            reveal_strlit("cmd.exe");
            reveal_strlit("downloadstring");
            reveal_strlit("iex");
            reveal_strlit("mshta");
            reveal_strlit("cscript");
            reveal_strlit("wscript");
            reveal_strlit("certutil");
            reveal_strlit("bitsadmin");
            reveal_strlit("rundll32");
        }
        assert(e.0@.len() > 0);
        if crate::security::file_analyzer::tokens::contains_command_token(
            lower.as_slice(),
            pat.as_slice(),
        ) && !already_reported {
            *risk_score = *risk_score + 45;
            let mut desc = String::from_str("Phát hiện mã độc tiêm vào tệp TMF: ");
            desc.append(e.1);
            let f = make_finding(
                "CRITICAL",
                "Injected Code in TMF Trace Format",
                desc,
                String::from_str(e.0),
            );
            push_finding(findings, f);
        }
        proof {
            lemma_tmf_hits_len(lower@, scored, i + 1);
        }
        i += 1;
    }
    if contains_str(lower.as_slice(), "\\x90\\x90\\x90") || contains_str(
        lower.as_slice(),
        "0x90,0x90,0x90",
    ) || contains_str(lower.as_slice(), "0x90, 0x90, 0x90") {
        *risk_score = *risk_score + 50;
        let f = make_finding(
            "CRITICAL",
            "Embedded Shellcode NOP Sled in TMF",
            String::from_str(
                "Dãy mã máy NOP sled (0x90) thường dùng trong khai thác bộ nhớ / shellcode nhúng trong tệp TMF!",
            ),
            String::from_str("NOP sled sequence detected"),
        );
        push_finding(findings, f);
    }
}

} // verus!
