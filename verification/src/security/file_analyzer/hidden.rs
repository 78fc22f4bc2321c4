//! Obfuscation and hidden-payload tests: separator-split keywords, string
//! concatenation, hex-encoded PE headers and zero-width steganography.
use vstd::prelude::*;
use crate::security::file_analyzer::tokens::{has_split_token, spec_has_split_token};
use crate::security::file_analyzer::{
    findings_text, make_finding, push_finding, FileFinding, FindingText,
};
use crate::text::{
    chars_of, contains_seq, contains_str, has_char, lower_seq, lower_vec, occurs_at,
    occurs_at_exec, spec_utf8_lossy, string_from_chars, utf8_lossy,
};

verus! {

/// Keywords looked for split by backticks.
pub const BACKTICK_WORDS: [&'static str; 6] = [
    "powershell",
    "downloadstring",
    "invoke-expression",
    "iex",
    "system.net.webclient",
    "bypass",
];

/// Keywords looked for split by carets.
pub const CARET_WORDS: [&'static str; 6] = [
    "powershell",
    "cmd.exe",
    "downloadstring",
    "invoke-expression",
    "vssadmin",
    "certutil",
];

/// Keywords looked for once concatenated string pieces are joined.
pub const CONCAT_WORDS: [&'static str; 6] = [
    "downloadstring",
    "invoke-expression",
    "iex",
    "webclient",
    "bypass",
    "hidden",
];

/// The first of `words`, from index `i` on, that occurs split by `sep` in `lower`.
pub open spec fn first_split_word(lower: Seq<char>, words: Seq<&'static str>, sep: char, i: int) -> Option<Seq<char>>
    decreases words.len() - i,
{
    if i < 0 || i >= words.len() {
        None
    } else if spec_has_split_token(lower, words[i]@, sep) {
        Some(words[i]@)
    } else {
        first_split_word(lower, words, sep, i + 1)
    }
}

/// The backtick-obfuscation finding, if any.
pub open spec fn backtick_part(lower: Seq<char>) -> Option<FindingText> {
    if lower.contains('`') {
        match first_split_word(lower, BACKTICK_WORDS@, '`', 0) {
            Some(s) => Some(
                (
                    "HIGH"@,
                    "Backtick Obfuscation Evasion"@,
                    "Kỹ thuật chèn dấu phẩy ngược (backtick) để che giấu từ khóa nguy hiểm '"@ + s
                        + "'."@,
                    "De-obfuscated: "@ + s,
                ),
            ),
            None => None,
        }
    } else {
        None
    }
}

/// The caret-escape finding, if any.
pub open spec fn caret_part(lower: Seq<char>) -> Option<FindingText> {
    if lower.contains('^') {
        match first_split_word(lower, CARET_WORDS@, '^', 0) {
            Some(s) => Some(
                (
                    "HIGH"@,
                    "Caret Escape Obfuscation"@,
                    "Kỹ thuật chèn dấu mũ (caret ^) để ngụy trang câu lệnh độc hại '"@ + s
                        + "' trong CMD/BAT."@,
                    "De-obfuscated: "@ + s,
                ),
            ),
            None => None,
        }
    } else {
        None
    }
}

/// `s` with every non-overlapping occurrence of `pat` removed, left to right, as
/// `str::replace(pat, "")` gives it.
pub open spec fn remove_all(s: Seq<char>, pat: Seq<char>) -> Seq<char>
    decreases s.len(),
{
    if pat.len() == 0 || s.len() < pat.len() {
        s
    } else if occurs_at(s, pat, 0) {
        remove_all(s.subrange(pat.len() as int, s.len() as int), pat)
    } else {
        seq![s[0]] + remove_all(s.drop_first(), pat)
    }
}

/// `lower` with the usual concatenation glue removed.
pub open spec fn deconcat(lower: Seq<char>) -> Seq<char> {
    remove_all(
        remove_all(remove_all(remove_all(lower, "'+'"@), "\"+\""@), "' + '"@),
        "\" + \""@,
    )
}

/// The first of `words`, from `i` on, that appears only once the glue is removed.
pub open spec fn first_concat_word(lower: Seq<char>, joined: Seq<char>, i: int) -> Option<Seq<char>>
    decreases 6 - i,
{
    if i < 0 || i >= 6 {
        None
    } else if contains_seq(joined, CONCAT_WORDS@[i]@) && !contains_seq(lower, CONCAT_WORDS@[i]@) {
        Some(CONCAT_WORDS@[i]@)
    } else {
        first_concat_word(lower, joined, i + 1)
    }
}

/// The concatenation-evasion finding, if any.
pub open spec fn concat_part(lower: Seq<char>) -> Option<FindingText> {
    if contains_seq(lower, "'+'"@) || contains_seq(lower, "\"+\""@) {
        match first_concat_word(lower, deconcat(lower), 0) {
            Some(s) => Some(
                (
                    "HIGH"@,
                    "String Concatenation Evasion"@,
                    "Kỹ thuật ghép chuỗi ký tự rời rạc để trốn tránh phát hiện lệnh '"@ + s + "'."@,
                    "De-concatenated: "@ + s,
                ),
            ),
            None => None,
        }
    } else {
        None
    }
}

/// A PE header written out as hex text.
pub open spec fn hex_mz(lower: Seq<char>) -> bool {
    contains_seq(lower, "\\x4d\\x5a"@) || contains_seq(lower, "0x4d, 0x5a"@) || contains_seq(
        lower,
        "0x4d,0x5a"@,
    )
}

/// The hex-encoded executable finding.
pub open spec fn hex_mz_finding() -> FindingText {
    (
        "CRITICAL"@,
        "Disguised Hex Executable (MZ Header)"@,
        "Dữ liệu Hex thô chứa chữ ký PE Executable (MZ - 0x4D 0x5A) ngụy trang dạng chuỗi văn bản!"@,
        "MZ (0x4D, 0x5A) hex stream found"@,
    )
}

/// The bits spelled by zero-width characters: U+200B is 0 and U+200C is 1.
pub open spec fn zw_bits(s: Seq<char>) -> Seq<u8>
    decreases s.len(),
{
    if s.len() == 0 {
        Seq::empty()
    } else if s.last() == '\u{200B}' {
        zw_bits(s.drop_last()).push(0)
    } else if s.last() == '\u{200C}' {
        zw_bits(s.drop_last()).push(1)
    } else {
        zw_bits(s.drop_last())
    }
}

/// The byte made of the eight bits from `8 * k`, most significant first.
pub open spec fn bits_byte(b: Seq<u8>, k: int) -> u8 {
    (128 * b[8 * k] + 64 * b[8 * k + 1] + 32 * b[8 * k + 2] + 16 * b[8 * k + 3] + 8 * b[8 * k + 4]
        + 4 * b[8 * k + 5] + 2 * b[8 * k + 6] + b[8 * k + 7]) as u8
}

/// The bytes of the complete groups of eight bits.
pub open spec fn bits_bytes(b: Seq<u8>) -> Seq<u8> {
    Seq::new(b.len() / 8, |k: int| bits_byte(b, k))
}

/// At most the first `n` characters of `s`.
pub open spec fn take_chars(s: Seq<char>, n: int) -> Seq<char> {
    if s.len() <= n {
        s
    } else {
        s.subrange(0, n)
    }
}

/// The decoded zero-width payload finding, if the hidden bits decode to something
/// executable or to a link or command.
pub open spec fn stego_part(text: Seq<char>) -> Option<FindingText> {
    let bits = zw_bits(text);
    let d = bits_bytes(bits);
    let ds = lower_seq(spec_utf8_lossy(d));
    if text.contains('\u{200B}') && text.contains('\u{200C}') && bits.len() >= 16 && d.len() > 0 && (
    contains_seq(ds, "http"@) || contains_seq(ds, "cmd"@) || contains_seq(ds, "powershell"@) || (
    d.len() >= 2 && d[0] == 0x4d && d[1] == 0x5a)) {
        Some(
            (
                "CRITICAL"@,
                "Decoded Zero-Width Steganography Payload"@,
                "Giải mã thành công thông điệp ẩn giấu trong ký tự Zero-Width: Chứa mã độc hoặc URL điều khiển ngầm!"@,
                take_chars(ds, 60),
            ),
        )
    } else {
        None
    }
}

/// An optional finding as a list.
pub open spec fn opt_list(o: Option<FindingText>) -> Seq<FindingText> {
    match o {
        Some(f) => seq![f],
        None => Seq::empty(),
    }
}

/// The score of an optional finding worth `w`.
pub open spec fn opt_score(o: Option<FindingText>, w: int) -> int {
    if o is Some {
        w
    } else {
        0
    }
}

/// What the obfuscation scan adds for `text`: its findings, in order, and its score.
pub open spec fn hidden_scan(text: Seq<char>) -> (Seq<FindingText>, int) {
    let lower = lower_seq(text);
    let mz = if hex_mz(lower) {
        Some(hex_mz_finding())
    } else {
        None
    };
    (
        opt_list(backtick_part(lower)) + opt_list(caret_part(lower)) + opt_list(concat_part(lower))
            + opt_list(mz) + opt_list(stego_part(text)),
        opt_score(backtick_part(lower), 40) + opt_score(caret_part(lower), 40) + opt_score(
            concat_part(lower),
            35,
        ) + opt_score(mz, 55) + opt_score(stego_part(text), 60),
    )
}

fn first_split_word_exec(lower: &str, words: &[&'static str; 6], sep: char) -> (r: Option<
    &'static str,
>)
    ensures
        match r {
            Some(w) => first_split_word(lower@, words@, sep, 0) == Some(w@),
            None => first_split_word(lower@, words@, sep, 0) is None,
        },
{
    let mut i: usize = 0;
    while i < 6
        invariant
            i <= 6,
            words@.len() == 6,
            first_split_word(lower@, words@, sep, 0) == first_split_word(lower@, words@, sep, i as int),
        decreases 6 - i,
    {
        if has_split_token(lower, words[i], sep) {
            return Some(words[i]);
        }
        i += 1;
    }
    None
}

/// `s` with every non-overlapping occurrence of `pat` removed.
pub fn remove_all_vec(s: &[char], pat: &str) -> (r: Vec<char>)
    ensures
        r@ == remove_all(s@, pat@),
{
    let p = chars_of(pat);
    let mut out: Vec<char> = Vec::new();
    let mut i: usize = 0;
    assert(s@.subrange(0, s@.len() as int) =~= s@);
    while i < s.len()
        invariant
            i <= s.len(),
            p@ == pat@,
            out@ + remove_all(s@.subrange(i as int, s@.len() as int), pat@) == remove_all(s@, pat@),
        decreases s.len() - i,
    {
        let ghost rest = s@.subrange(i as int, s@.len() as int);
        if p.len() == 0 || s.len() - i < p.len() {
            assert(remove_all(rest, pat@) == rest);
            let tail = crate::text::slice_vec(s, i, s.len());
            let ghost before = out@;
            let mut k: usize = 0;
            while k < tail.len()
                invariant
                    k <= tail.len(),
                    out@ == before + tail@.subrange(0, k as int),
                decreases tail.len() - k,
            {
                out.push(tail[k]);
                k += 1;
                assert(out@ =~= before + tail@.subrange(0, k as int));
            }
            assert(tail@.subrange(0, tail@.len() as int) =~= tail@);
            return out;
        }
        if occurs_at_exec(s, p.as_slice(), i) {
            proof {
                assert(rest.subrange(0, p@.len() as int) =~= s@.subrange(i as int, i + p@.len()));
                assert(rest.subrange(p@.len() as int, rest.len() as int) =~= s@.subrange(
                    i + p@.len(),
                    s@.len() as int,
                ));
            }
            i = i + p.len();
        } else {
            proof {
                assert(rest.subrange(0, p@.len() as int) =~= s@.subrange(i as int, i + p@.len()));
                assert(rest.drop_first() =~= s@.subrange(i + 1, s@.len() as int));
            }
            let ghost before = out@;
            out.push(s[i]);
            assert(out@ =~= before + seq![rest[0]]);
            i += 1;
        }
    }
    assert(s@.subrange(i as int, s@.len() as int) =~= Seq::<char>::empty());
    assert(out@ + Seq::<char>::empty() =~= out@);
    out
}

fn first_concat_word_exec(lower: &[char], joined: &[char]) -> (r: Option<&'static str>)
    ensures
        match r {
            Some(w) => first_concat_word(lower@, joined@, 0) == Some(w@),
            None => first_concat_word(lower@, joined@, 0) is None,
        },
{
    let mut i: usize = 0;
    while i < 6
        invariant
            i <= 6,
            first_concat_word(lower@, joined@, 0) == first_concat_word(lower@, joined@, i as int),
        decreases 6 - i,
    {
        let w = CONCAT_WORDS[i];
        if contains_str(joined, w) && !contains_str(lower, w) {
            return Some(w);
        }
        i += 1;
    }
    None
}

/// The zero-width bits of `s`.
fn zw_bits_vec(s: &[char]) -> (r: Vec<u8>)
    ensures
        r@ == zw_bits(s@),
        forall|i: int| 0 <= i < r@.len() ==> #[trigger] r@[i] <= 1,
{
    let mut r: Vec<u8> = Vec::new();
    let mut i: usize = 0;
    assert(s@.subrange(0, 0) =~= Seq::<char>::empty());
    while i < s.len()
        invariant
            i <= s.len(),
            r@ == zw_bits(s@.subrange(0, i as int)),
            forall|j: int| 0 <= j < r@.len() ==> #[trigger] r@[j] <= 1,
        decreases s.len() - i,
    {
        proof {
            assert(s@.subrange(0, i + 1).drop_last() =~= s@.subrange(0, i as int));
        }
        if s[i] == '\u{200B}' {
            r.push(0);
        } else if s[i] == '\u{200C}' {
            r.push(1);
        }
        i += 1;
    }
    assert(s@.subrange(0, s@.len() as int) =~= s@);
    r
}

/// The bytes of the complete groups of eight bits.
fn bits_bytes_vec(b: &[u8]) -> (r: Vec<u8>)
    requires
        forall|i: int| 0 <= i < b@.len() ==> #[trigger] b@[i] <= 1,
    ensures
        r@ == bits_bytes(b@),
{
    let mut out: Vec<u8> = Vec::new();
    let mut j: usize = 0;
    while b.len() - j >= 8
        invariant
            j == 8 * out@.len(),
            j <= b.len(),
            forall|i: int| 0 <= i < b@.len() ==> #[trigger] b@[i] <= 1,
            forall|k: int| 0 <= k < out@.len() ==> #[trigger] out@[k] == bits_byte(b@, k),
        decreases b.len() - j,
    {
        let v: u8 = 128 * b[j] + 64 * b[j + 1] + 32 * b[j + 2] + 16 * b[j + 3] + 8 * b[j + 4] + 4
            * b[j + 5] + 2 * b[j + 6] + b[j + 7];
        let ghost k = out@.len() as int;
        assert(8 * k == j);
        out.push(v);
        j = j + 8;
    }
    let ghost n = out@.len() as int;
    assert(n == b@.len() / 8) by (nonlinear_arith)
        requires
            j == 8 * n,
            j <= b@.len(),
            j + 8 > b@.len(),
    ;
    assert(out@ =~= bits_bytes(b@));
    out
}

fn take_chars_vec(s: &[char], n: usize) -> (r: Vec<char>)
    ensures
        r@ == take_chars(s@, n as int),
{
    if s.len() <= n {
        crate::text::slice_vec(s, 0, s.len())
    } else {
        crate::text::slice_vec(s, 0, n)
    }
}

/// Scans `text` for separator-split keywords, string-concatenation evasion, a PE
/// header in hex, and a zero-width payload; each adds a finding and its score.
pub fn scan_hidden_deceptive_code(text: &str, findings: &mut Vec<FileFinding>, risk_score: &mut i32)
    requires
        *old(risk_score) + 230 <= i32::MAX,
    ensures
        findings_text(final(findings)@) == findings_text(old(findings)@) + hidden_scan(text@).0,
        *final(risk_score) == *old(risk_score) + hidden_scan(text@).1,
        *final(risk_score) <= *old(risk_score) + 230,
{
    let chars = chars_of(text);
    let lower_chars = lower_vec(chars.as_slice());
    let lower_s = string_from_chars(lower_chars.as_slice());
    let lower: &str = lower_s.as_str();
    let ghost lw = lower_seq(text@);
    let ghost f0 = findings_text(findings@);
    let ghost s0 = *risk_score as int;

    if has_char(lower_chars.as_slice(), '`') {
        if let Some(s) = first_split_word_exec(lower, &BACKTICK_WORDS, '`') {
            *risk_score = *risk_score + 40;
            let mut desc = String::from_str(
                "Kỹ thuật chèn dấu phẩy ngược (backtick) để che giấu từ khóa nguy hiểm '",
            );
            desc.append(s);
            desc.append("'.");
            let mut snip = String::from_str("De-obfuscated: ");
            snip.append(s);
            push_finding(findings, make_finding("HIGH", "Backtick Obfuscation Evasion", desc, snip));
        }
    }
    let ghost f1 = findings_text(findings@);
    assert(f1 == f0 + opt_list(backtick_part(lw)));
    assert(*risk_score == s0 + opt_score(backtick_part(lw), 40));

    if has_char(lower_chars.as_slice(), '^') {
        if let Some(s) = first_split_word_exec(lower, &CARET_WORDS, '^') {
            *risk_score = *risk_score + 40;
            let mut desc = String::from_str(
                "Kỹ thuật chèn dấu mũ (caret ^) để ngụy trang câu lệnh độc hại '",
            );
            desc.append(s);
            desc.append("' trong CMD/BAT.");
            let mut snip = String::from_str("De-obfuscated: ");
            snip.append(s);
            push_finding(findings, make_finding("HIGH", "Caret Escape Obfuscation", desc, snip));
        }
    }
    let ghost f2 = findings_text(findings@);
    assert(f2 == f1 + opt_list(caret_part(lw)));
    let ghost s2 = *risk_score as int;
    assert(s2 == s0 + opt_score(backtick_part(lw), 40) + opt_score(caret_part(lw), 40));

    if contains_str(lower_chars.as_slice(), "'+'") || contains_str(lower_chars.as_slice(), "\"+\"") {
        let d1 = remove_all_vec(lower_chars.as_slice(), "'+'");
        let d2 = remove_all_vec(d1.as_slice(), "\"+\"");
        let d3 = remove_all_vec(d2.as_slice(), "' + '");
        let d4 = remove_all_vec(d3.as_slice(), "\" + \"");
        if let Some(s) = first_concat_word_exec(lower_chars.as_slice(), d4.as_slice()) {
            *risk_score = *risk_score + 35;
            let mut desc = String::from_str(
                "Kỹ thuật ghép chuỗi ký tự rời rạc để trốn tránh phát hiện lệnh '",
            );
            desc.append(s);
            desc.append("'.");
            let mut snip = String::from_str("De-concatenated: ");
            snip.append(s);
            push_finding(findings, make_finding("HIGH", "String Concatenation Evasion", desc, snip));
        }
    }
    let ghost f3 = findings_text(findings@);
    assert(f3 == f2 + opt_list(concat_part(lw)));
    let ghost s3 = *risk_score as int;
    assert(s3 == s2 + opt_score(concat_part(lw), 35));

    let mz = contains_str(lower_chars.as_slice(), "\\x4d\\x5a") || contains_str(
        lower_chars.as_slice(),
        "0x4d, 0x5a",
    ) || contains_str(lower_chars.as_slice(), "0x4d,0x5a");
    if mz {
        *risk_score = *risk_score + 55;
        push_finding(
            findings,
            make_finding(
                "CRITICAL",
                "Disguised Hex Executable (MZ Header)",
                String::from_str(
                    "Dữ liệu Hex thô chứa chữ ký PE Executable (MZ - 0x4D 0x5A) ngụy trang dạng chuỗi văn bản!",
                ),
                String::from_str("MZ (0x4D, 0x5A) hex stream found"),
            ),
        );
    }
    let ghost f4 = findings_text(findings@);
    let ghost s4 = *risk_score as int;

    let stego = stego_finding(chars.as_slice());
    match stego {
        Some(f) => {
            *risk_score = *risk_score + 60;
            push_finding(findings, f);
        },
        None => {},
    }
    assert(findings_text(findings@) =~= f0 + hidden_scan(text@).0);
}

/// The decoded zero-width payload finding of `text`, if any.
fn stego_finding(text: &[char]) -> (r: Option<FileFinding>)
    ensures
        match r {
            Some(f) => stego_part(text@) == Some(crate::security::file_analyzer::finding_text(f)),
            None => stego_part(text@) is None,
        },
{
    if !(has_char(text, '\u{200B}') && has_char(text, '\u{200C}')) {
        return None;
    }
    let bits = zw_bits_vec(text);
    if bits.len() < 16 {
        return None;
    }
    let decoded = bits_bytes_vec(bits.as_slice());
    if decoded.len() == 0 {
        return None;
    }
    let lossy = utf8_lossy(decoded.as_slice());
    let dchars = chars_of(lossy.as_str());
    let ds = lower_vec(dchars.as_slice());
    let mz = decoded.len() >= 2 && decoded[0] == 0x4d && decoded[1] == 0x5a;
    if contains_str(ds.as_slice(), "http") || contains_str(ds.as_slice(), "cmd") || contains_str(
        ds.as_slice(),
        "powershell",
    ) || mz {
        let snip = take_chars_vec(ds.as_slice(), 60);
        Some(
            make_finding(
                "CRITICAL",
                "Decoded Zero-Width Steganography Payload",
                String::from_str(
                    "Giải mã thành công thông điệp ẩn giấu trong ký tự Zero-Width: Chứa mã độc hoặc URL điều khiển ngầm!",
                ),
                string_from_chars(snip.as_slice()),
            ),
        )
    } else {
        None
    }
}

} // verus!
