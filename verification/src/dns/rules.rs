//! Blocklist line parsing and validation of user-supplied domains.
use vstd::prelude::*;
use crate::dns::DnsBlocker;
use crate::i18n::{spec_tr_with, tr_with, EN, ZH};
use crate::text::{
    all_ascii, chars_of, contains_seq, ends_with, eq_chars, eq_str, first_pos, first_ws, first_ws_index,
    has_char, is_ws, lower_seq, slice_vec, spec_unicode_lowercase, trail_char, starts_with, starts_with_str,
    string_from_chars, take_until, take_until_vec, trim, trim_end_char, trim_end_char_vec,
    trim_vec, unicode_lowercase, ws_token,
};

verus! {

/// Characters allowed inside a label of a rule domain.
pub open spec fn label_char(c: char) -> bool {
    ('a' <= c && c <= 'z') || ('A' <= c && c <= 'Z') || ('0' <= c && c <= '9') || c == '-' || c
        == '_'
}

/// Registry suffixes that a rule may never name on its own.
pub open spec fn public_suffixes() -> Seq<Seq<char>> {
    seq![
        "com.vn"@,
        "net.vn"@,
        "org.vn"@,
        "edu.vn"@,
        "gov.vn"@,
        "ac.vn"@,
        "co.uk"@,
        "org.uk"@,
        "com.au"@,
        "net.au"@,
        "co.jp"@,
        "com.cn"@,
        "com.br"@,
        "co.in"@,
        "com.mx"@,
        "github.io"@,
        "gitlab.io"@,
        "pages.dev"@,
        "vercel.app"@,
        "netlify.app"@,
    ]
}

/// No dot lies in `d[i..j]`.
pub open spec fn dot_free(d: Seq<char>, i: int, j: int) -> bool {
    forall|k: int| i <= k < j ==> d[k] != '.'
}

/// Every dot-free stretch of `d` is at most 63 characters long.
pub open spec fn labels_short(d: Seq<char>) -> bool {
    forall|i: int, j: int| 0 <= i <= j <= d.len() && #[trigger] dot_free(d, i, j) ==> j - i <= 63
}

/// No label of `d` is empty: it neither starts nor ends with a dot nor holds two in a row.
pub open spec fn labels_nonempty(d: Seq<char>) -> bool {
    &&& d.len() > 0
    &&& d[0] != '.'
    &&& d.last() != '.'
    &&& forall|i: int| 0 <= i < d.len() - 1 ==> !(d[i] == '.' && #[trigger] d[i + 1] == '.')
}

/// An already normalized domain is acceptable as a rule: at most 253 characters, at
/// least two labels, no public suffix on its own, labels of 1 to 63 characters drawn
/// from letters, digits, `-` and `_`.
pub open spec fn domain_ok(d: Seq<char>) -> bool {
    &&& d.len() > 0
    &&& d.len() <= 253
    &&& d.contains('.')
    &&& !public_suffixes().contains(d)
    &&& labels_nonempty(d)
    &&& labels_short(d)
    &&& forall|i: int| 0 <= i < d.len() ==> label_char(#[trigger] d[i]) || d[i] == '.'
}

/// The normal form of a rule domain: trimmed, trailing dots removed, lower-cased.
pub open spec fn spec_normalize(s: Seq<char>) -> Seq<char> {
    spec_unicode_lowercase(trim_end_char(trim(s), '.'))
}

/// The rule domain that `s` denotes, when it is acceptable.
pub open spec fn spec_validate(s: Seq<char>) -> Option<Seq<char>> {
    if domain_ok(spec_normalize(s)) {
        Some(spec_normalize(s))
    } else {
        None
    }
}

proof fn lemma_ascii_len(d: Seq<char>)
    requires
        forall|i: int| 0 <= i < d.len() ==> label_char(#[trigger] d[i]) || d[i] == '.',
    ensures
        all_ascii(d),
        vstd::utf8::encode_utf8(d).len() == d.len(),
{
    assert(vstd::utf8::is_ascii_chars(d));
    vstd::utf8::is_ascii_chars_encode_utf8(d);
}

/// Where the label of `d` that starts at `start` ends: at the next dot, or at the end.
pub open spec fn label_end(d: Seq<char>, start: int) -> int {
    start + first_pos(d.subrange(start, d.len() as int), '.')
}

/// The labels of `d` from position `start` on, taken in order, judged by the first one
/// that fails: 0 when none fails, 1 when it is empty or longer than 63 characters,
/// 2 when it holds a character other than a letter, digit, `-` or `_`.
pub open spec fn labels_verdict(d: Seq<char>, start: int) -> int
    decreases d.len() - start,
{
    if start < 0 || start > d.len() {
        0
    } else {
        let e = label_end(d, start);
        if e - start == 0 || e - start > 63 {
            1
        } else if exists|k: int| start <= k < e && !label_char(#[trigger] d[k]) {
            2
        } else if e >= d.len() {
            0
        } else {
            labels_verdict(d, e + 1)
        }
    }
}

/// The end of the text after a domain the user gave without a dot.
pub open spec fn missing_dot_tail(lang: u8) -> Seq<char> {
    if lang == EN {
        "' is missing a dot — blocking a whole TLD would break all browsers"@
    } else if lang == ZH {
        "' 缺少点号 — 屏蔽整个顶级域名会导致所有浏览器无法上网"@
    } else {
        "' thiếu dấu chấm — chặn cả TLD sẽ làm gãy toàn bộ trình duyệt"@
    }
}

/// The end of the text after a domain that is a public suffix.
pub open spec fn public_suffix_tail(lang: u8) -> Seq<char> {
    if lang == EN {
        "' is a public suffix — block scope too broad"@
    } else if lang == ZH {
        "' 属于公共后缀 — 屏蔽范围过宽"@
    } else {
        "' là public suffix — phạm vi chặn quá rộng"@
    }
}

/// The reason a normalized domain `d` is refused, in language `lang`, by the first
/// check it fails: empty, over 253 bytes, no dot, a public suffix, a bad label
/// length, a bad character.
pub open spec fn validation_error(d: Seq<char>, lang: u8) -> Seq<char> {
    if d.len() == 0 {
        spec_tr_with(lang, "Tên miền trống"@, "Domain is empty"@, "域名为空"@)
    } else if vstd::utf8::encode_utf8(d).len() > 253 {
        spec_tr_with(lang, "Tên miền dài quá 253 ký tự"@, "Domain exceeds 253 characters"@, "域名超过 253 个字符"@)
    } else if !d.contains('.') {
        "'"@ + d + missing_dot_tail(lang)
    } else if public_suffixes().contains(d) {
        "'"@ + d + public_suffix_tail(lang)
    } else if labels_verdict(d, 0) == 1 {
        spec_tr_with(
            lang,
            "Label không hợp lệ (rỗng hoặc dài hơn 63 ký tự)"@,
            "Invalid label (empty or longer than 63 characters)"@,
            "标签无效（为空或超过 63 个字符）"@,
        )
    } else {
        spec_tr_with(lang, "Tên miền chứa ký tự không hợp lệ"@, "Domain contains invalid characters"@, "域名包含无效字符"@)
    }
}

/// `m` characters of `s` come before its first `c`.
proof fn lemma_first_pos_at(s: Seq<char>, c: char, m: int)
    requires
        0 <= m <= s.len(),
        forall|k: int| 0 <= k < m ==> s[k] != c,
        m == s.len() || s[m] == c,
    ensures
        first_pos(s, c) == m,
    decreases m,
{
    if m > 0 {
        lemma_first_pos_at(s.drop_first(), c, m - 1);
    }
}

/// Checks a normalized domain and returns it, or the localized reason it is refused.
pub fn validate_normalized(d: &str, lang: u8) -> (r: Result<String, String>)
    ensures
        r is Ok <==> domain_ok(d@),
        r matches Ok(s) ==> s@ == d@,
        r matches Err(e) ==> e@ == validation_error(d@, lang),
{
    let c = chars_of(d);
    if c.len() == 0 {
        return Err(String::from_str(tr_with(lang, "Tên miền trống", "Domain is empty", "域名为空")));
    }
    let nb = d.as_bytes().len();
    assert(nb == vstd::utf8::encode_utf8(d@).len());
    if nb > 253 {
        proof {
            if domain_ok(d@) {
                lemma_ascii_len(d@);
            }
        }
        return Err(
            String::from_str(
                tr_with(
                    lang,
                    "Tên miền dài quá 253 ký tự",
                    "Domain exceeds 253 characters",
                    "域名超过 253 个字符",
                ),
            ),
        );
    }
    if !has_char(c.as_slice(), '.') {
        let mut m = String::from_str("'");
        m.append(d);
        if lang == EN {
            m.append("' is missing a dot — blocking a whole TLD would break all browsers");
        } else if lang == ZH {
            m.append("' 缺少点号 — 屏蔽整个顶级域名会导致所有浏览器无法上网");
        } else {
            m.append("' thiếu dấu chấm — chặn cả TLD sẽ làm gãy toàn bộ trình duyệt");
        }
        return Err(m);
    }
    if is_public_suffix(c.as_slice()) {
        let mut m = String::from_str("'");
        m.append(d);
        if lang == EN {
            m.append("' is a public suffix — block scope too broad");
        } else if lang == ZH {
            m.append("' 属于公共后缀 — 屏蔽范围过宽");
        } else {
            m.append("' là public suffix — phạm vi chặn quá rộng");
        }
        return Err(m);
    }
    match check_labels(c.as_slice()) {
        LabelCheck::Valid => {},
        LabelCheck::BadLength => {
            return Err(
                String::from_str(
                    tr_with(
                        lang,
                        "Label không hợp lệ (rỗng hoặc dài hơn 63 ký tự)",
                        "Invalid label (empty or longer than 63 characters)",
                        "标签无效（为空或超过 63 个字符）",
                    ),
                ),
            );
        },
        LabelCheck::BadChar => {
            return Err(
                String::from_str(
                    tr_with(
                        lang,
                        "Tên miền chứa ký tự không hợp lệ",
                        "Domain contains invalid characters",
                        "域名包含无效字符",
                    ),
                ),
            );
        },
    }
    proof {
        lemma_ascii_len(d@);
    }
    Ok(string_from_chars(c.as_slice()))
}

/// Outcome of checking the labels of a domain.
pub enum LabelCheck {
    Valid,
    BadLength,
    BadChar,
}

/// Whether `d` is one of the refused public suffixes.
pub fn is_public_suffix(d: &[char]) -> (r: bool)
    ensures
        r == public_suffixes().contains(d@),
{
    let list: [&str; 20] = [
        "com.vn",
        "net.vn",
        "org.vn",
        "edu.vn",
        "gov.vn",
        "ac.vn",
        "co.uk",
        "org.uk",
        "com.au",
        "net.au",
        "co.jp",
        "com.cn",
        "com.br",
        "co.in",
        "com.mx",
        "github.io",
        "gitlab.io",
        "pages.dev",
        "vercel.app",
        "netlify.app",
    ];
    assert(forall|j: int| 0 <= j < 20 ==> list@[j]@ == #[trigger] public_suffixes()[j]);
    let mut i: usize = 0;
    while i < 20
        invariant
            i <= 20,
            public_suffixes().len() == 20,
            forall|j: int| 0 <= j < 20 ==> list@[j]@ == #[trigger] public_suffixes()[j],
            forall|j: int| 0 <= j < i ==> public_suffixes()[j] != d@,
        decreases 20 - i,
    {
        if eq_str(d, list[i]) {
            assert(public_suffixes()[i as int] == d@);
            return true;
        }
        i += 1;
    }
    false
}

/// Checks the labels: every dot-separated part is non-empty, at most 63 characters
/// and made of letters, digits, `-` and `_`. The first failing label decides.
pub fn check_labels(d: &[char]) -> (r: LabelCheck)
    ensures
        (r is Valid) <==> (labels_nonempty(d@) && labels_short(d@) && forall|i: int|
            0 <= i < d@.len() ==> label_char(#[trigger] d@[i]) || d@[i] == '.'),
        labels_verdict(d@, 0) == match r {
            LabelCheck::Valid => 0int,
            LabelCheck::BadLength => 1int,
            LabelCheck::BadChar => 2int,
        },
{
    let n = d.len();
    let mut start: usize = 0;
    let mut i: usize = 0;
    loop
        invariant
            n == d@.len(),
            start <= i <= n,
            start == 0 || (1 <= start <= n && d@[start - 1] == '.'),
            start > 0 ==> d@[0] != '.',
            forall|k: int| start <= k < i ==> d@[k] != '.',
            forall|k: int| 0 <= k < start ==> label_char(#[trigger] d@[k]) || d@[k] == '.',
            forall|k: int| 0 <= k < start - 1 ==> !(d@[k] == '.' && #[trigger] d@[k + 1] == '.'),
            forall|a: int, b: int| 0 <= a <= b <= start && #[trigger] dot_free(d@, a, b) ==> b - a <= 63,
            labels_verdict(d@, 0) == labels_verdict(d@, start as int),
        decreases n - i,
    {
        if i == n || d[i] == '.' {
            proof {
                let sub = d@.subrange(start as int, n as int);
                lemma_first_pos_at(sub, '.', i - start);
                assert(label_end(d@, start as int) == i);
            }
            let len = i - start;
            if len == 0 {
                proof {
                    if start == 0 {
                        if i == n {
                            assert(d@.len() == 0);
                        } else {
                            assert(d@[0] == '.');
                        }
                    } else if i == n {
                        assert(d@.last() == '.');
                    } else {
                        let k = start - 1;
                        assert(d@[k] == '.' && d@[k + 1] == '.');
                        assert(0 <= k < d@.len() - 1);
                    }
                    assert(!labels_nonempty(d@));
                }
                return LabelCheck::BadLength;
            }
            if len > 63 {
                proof {
                    assert(dot_free(d@, start as int, i as int));
                }
                return LabelCheck::BadLength;
            }
            let mut j = start;
            while j < i
                invariant
                    start <= j <= i <= n,
                    n == d@.len(),
                    forall|k: int| start <= k < i ==> d@[k] != '.',
                    forall|k: int| start <= k < j ==> label_char(#[trigger] d@[k]),
                    label_end(d@, start as int) == i,
                    1 <= i - start <= 63,
                    labels_verdict(d@, 0) == labels_verdict(d@, start as int),
                decreases i - j,
            {
                let ch = d[j];
                if !(('a' <= ch && ch <= 'z') || ('A' <= ch && ch <= 'Z') || ('0' <= ch && ch
                    <= '9') || ch == '-' || ch == '_') {
                    proof {
                        assert(!label_char(d@[j as int]) && d@[j as int] != '.');
                    }
                    proof {
                        assert(start <= j < label_end(d@, start as int) && !label_char(d@[j as int]));
                    }
                    return LabelCheck::BadChar;
                }
                j += 1;
            }
            if i == n {
                proof {
                    assert(d@[0] != '.') by {
                        if start == 0 {
                            assert(0 <= 0 < i);
                        }
                    }
                    assert(d@.last() != '.') by {
                        assert(start <= n - 1 < i);
                    }
                    assert forall|k: int| 0 <= k < d@.len() - 1 implies !(d@[k] == '.' && #[trigger] d@[k + 1] == '.') by {
                        if k < start - 1 {
                        } else if k == start - 1 {
                            assert(d@[start as int] != '.');
                        } else {
                            assert(d@[k] != '.');
                        }
                    }
                    assert forall|a: int, b: int|
                                0 <= a <= b <= d@.len() && #[trigger] dot_free(d@, a, b) implies b - a <= 63 by {
                        if b <= start {
                        } else if a < start {
                            assert(d@[start - 1] != '.');
                        }
                    }
                    assert forall|k: int| 0 <= k < d@.len() implies label_char(#[trigger] d@[k]) || d@[k] == '.' by {
                        if k < start {
                        } else {
                            assert(label_char(d@[k]));
                        }
                    }
                }
                return LabelCheck::Valid;
            }
            proof {
                let ns = (i + 1) as int;
                assert forall|a: int, b: int|
                    0 <= a <= b <= ns && #[trigger] dot_free(d@, a, b) implies b - a <= 63 by {
                    if b <= start {
                    } else {
                        if a < start {
                            assert(d@[start - 1] != '.');
                        }
                        if b == ns && a <= i {
                            assert(d@[i as int] != '.');
                        }
                    }
                }
                assert forall|k: int| 0 <= k < ns implies label_char(#[trigger] d@[k]) || d@[k] == '.' by {
                    if k < start {
                    } else if k < i {
                        assert(label_char(d@[k]));
                    }
                }
                assert forall|k: int| 0 <= k < ns - 1 implies !(d@[k] == '.' && #[trigger] d@[k + 1] == '.') by {
                    if k < start - 1 {
                    } else if k == start - 1 {
                        assert(d@[start as int] != '.');
                    } else {
                        assert(d@[k] != '.');
                    }
                }
                if start == 0 {
                    assert(d@[0] != '.');
                }
            }
            start = i + 1;
        }
        i += 1;
    }
}

} // verus!

verus! {

/// `s` with every leading `||` removed, as `trim_start_matches("||")` gives it.
pub open spec fn strip_pipes(s: Seq<char>) -> Seq<char>
    decreases s.len(),
{
    if s.len() >= 2 && s[0] == '|' && s[1] == '|' {
        strip_pipes(s.subrange(2, s.len() as int))
    } else {
        s
    }
}

/// The domain a blocklist line names before lower-casing, if any. Comment lines and
/// section headers name none; `||d^` filter rules, `|d|` rules, hosts-file lines
/// that map to `0.0.0.0` or `127.0.0.1`, and bare dotted names are understood.
pub open spec fn line_candidate(line: Seq<char>) -> Option<Seq<char>> {
    let l = trim(line);
    if l.len() == 0 || l[0] == '#' || l[0] == '!' || l[0] == '[' {
        None
    } else if starts_with(l, "||"@) {
        let d0 = trim_end_char(strip_pipes(l), '^');
        let d = take_until(take_until(take_until(d0, '/'), '$'), '^');
        if d.len() > 0 && !d.contains('*') {
            Some(d)
        } else {
            None
        }
    } else if l[0] == '|' && l.last() == '|' && l.len() > 2 {
        let d = l.subrange(1, l.len() - 1);
        if !d.contains('*') && !d.contains('/') {
            Some(d)
        } else {
            None
        }
    } else if first_ws(l) < l.len() {
        let ip = l.subrange(0, first_ws(l) as int);
        if ip == "0.0.0.0"@ || ip == "127.0.0.1"@ {
            let d = ws_token(take_until(trim(l.subrange(first_ws(l) as int, l.len() as int)), '#'));
            if d.len() > 0 && d != "localhost"@ && d != "broadcasthost"@ && d != "local"@ {
                Some(d)
            } else {
                None
            }
        } else {
            None
        }
    } else if !l.contains(' ') && !l.contains('/') && !l.contains('*') && l.contains('.') {
        let d = trim(take_until(l, '#'));
        if d.len() > 0 && d != "localhost"@ && d != "broadcasthost"@ {
            Some(d)
        } else {
            None
        }
    } else {
        None
    }
}

/// The lower-cased domain a blocklist line names, if any.
pub open spec fn spec_parse_line(line: Seq<char>) -> Option<Seq<char>> {
    match line_candidate(line) {
        Some(d) => Some(spec_unicode_lowercase(d)),
        None => None,
    }
}

fn strip_pipes_vec(s: &[char]) -> (r: Vec<char>)
    ensures
        r@ == strip_pipes(s@),
{
    let mut i: usize = 0;
    assert(s@.subrange(0, s@.len() as int) =~= s@);
    while s.len() - i >= 2 && s[i] == '|' && s[i + 1] == '|'
        invariant
            i <= s.len(),
            strip_pipes(s@) == strip_pipes(s@.subrange(i as int, s@.len() as int)),
        decreases s.len() - i,
    {
        let ghost t = s@.subrange(i as int, s@.len() as int);
        assert(t.subrange(2, t.len() as int) =~= s@.subrange(i + 2, s@.len() as int));
        i += 2;
    }
    let r = slice_vec(s, i, s.len());
    proof {
        let t = s@.subrange(i as int, s@.len() as int);
        if t.len() >= 2 {
            assert(t[0] == s@[i as int] && t[1] == s@[i + 1]);
        }
    }
    r
}

/// The domain word of a line, before lower-casing.
pub fn line_candidate_exec(line: &str) -> (r: Option<Vec<char>>)
    ensures
        match r {
            Some(d) => line_candidate(line@) == Some(d@),
            None => line_candidate(line@) is None,
        },
{
    let raw = chars_of(line);
    let l = trim_vec(raw.as_slice());
    let n = l.len();
    if n == 0 || l[0] == '#' || l[0] == '!' || l[0] == '[' {
        return None;
    }
    if starts_with_str(l.as_slice(), "||") {
        let d0 = trim_end_char_vec(strip_pipes_vec(l.as_slice()).as_slice(), '^');
        let d1 = take_until_vec(d0.as_slice(), '/');
        let d2 = take_until_vec(d1.as_slice(), '$');
        let d = take_until_vec(d2.as_slice(), '^');
        if d.len() > 0 && !has_char(d.as_slice(), '*') {
            return Some(d);
        }
        return None;
    }
    if l[0] == '|' && l[n - 1] == '|' && n > 2 {
        let d = slice_vec(l.as_slice(), 1, n - 1);
        if !has_char(d.as_slice(), '*') && !has_char(d.as_slice(), '/') {
            return Some(d);
        }
        return None;
    }
    let pos = first_ws_index(l.as_slice());
    if pos < n {
        let ip = slice_vec(l.as_slice(), 0, pos);
        if eq_str(ip.as_slice(), "0.0.0.0") || eq_str(ip.as_slice(), "127.0.0.1") {
            let rest = trim_vec(slice_vec(l.as_slice(), pos, n).as_slice());
            let before = take_until_vec(rest.as_slice(), '#');
            let d = crate::text::ws_token_vec(before.as_slice());
            if d.len() > 0 && !eq_str(d.as_slice(), "localhost") && !eq_str(
                d.as_slice(),
                "broadcasthost",
            ) && !eq_str(d.as_slice(), "local") {
                return Some(d);
            }
        }
        return None;
    }
    if !has_char(l.as_slice(), ' ') && !has_char(l.as_slice(), '/') && !has_char(
        l.as_slice(),
        '*',
    ) && has_char(l.as_slice(), '.') {
        let d = trim_vec(take_until_vec(l.as_slice(), '#').as_slice());
        if d.len() > 0 && !eq_str(d.as_slice(), "localhost") && !eq_str(
            d.as_slice(),
            "broadcasthost",
        ) {
            return Some(d);
        }
    }
    None
}

impl DnsBlocker {
    /// The lower-cased domain that a blocklist line names, if any.
    pub fn parse_line(line: &str) -> (r: Option<String>)
        ensures
            match r {
                Some(d) => spec_parse_line(line@) == Some(d@),
                None => spec_parse_line(line@) is None,
            },
            match line_candidate(line@) {
                Some(c) => all_ascii(c) ==> (r matches Some(d) && d@ == lower_seq(c)),
                None => r is None,
            },
    {
        match line_candidate_exec(line) {
            Some(d) => {
                let s = string_from_chars(d.as_slice());
                Some(unicode_lowercase(s.as_str()))
            },
            None => None,
        }
    }

    /// Normalizes and checks a user-supplied domain: trimmed, trailing dots removed,
    /// lower-cased, then held to the rule-domain conditions. The error is the localized
    /// reason of the first check that fails (`validation_error`).
    pub fn validate_domain(domain: &str, lang: u8) -> (r: Result<String, String>)
        ensures
            r is Ok <==> spec_validate(domain@) is Some,
            r matches Ok(s) ==> spec_validate(domain@) == Some(s@),
            r matches Err(e) ==> e@ == validation_error(spec_normalize(domain@), lang),
    {
        let c = chars_of(domain);
        let t = trim_vec(c.as_slice());
        let t2 = trim_end_char_vec(t.as_slice(), '.');
        let s = string_from_chars(t2.as_slice());
        let low = unicode_lowercase(s.as_str());
        validate_normalized(low.as_str(), lang)
    }
}

/// No character before the first `c` of `s` is `c`, and that position is within `s`.
proof fn lemma_first_pos_bound(s: Seq<char>, c: char)
    ensures
        first_pos(s, c) <= s.len(),
        forall|k: int| 0 <= k < first_pos(s, c) ==> s[k] != c,
        first_pos(s, c) < s.len() ==> s[first_pos(s, c) as int] == c,
    decreases s.len(),
{
    if s.len() > 0 && s[0] != c {
        lemma_first_pos_bound(s.drop_first(), c);
        assert forall|k: int| 0 <= k < first_pos(s, c) implies s[k] != c by {
            if k > 0 {
                assert(s[k] == s.drop_first()[k - 1]);
            }
        }
    }
}

/// The part of `s` before its first `c` holds no `c`, and is a prefix of `s`.
proof fn lemma_take_until_free(s: Seq<char>, c: char)
    ensures
        !take_until(s, c).contains(c),
        take_until(s, c).len() <= s.len(),
        take_until(s, c) == s.subrange(0, take_until(s, c).len() as int),
{
    lemma_first_pos_bound(s, c);
}

/// When `s` starts with `p`, none of whose characters is `c`, the first `c` of `s`
/// lies at or after the end of `p`.
proof fn lemma_first_pos_after(s: Seq<char>, c: char, j: int)
    requires
        0 <= j <= s.len(),
        forall|k: int| 0 <= k < j ==> s[k] != c,
    ensures
        first_pos(s, c) >= j,
    decreases j,
{
    if j > 0 {
        lemma_first_pos_after(s.drop_first(), c, j - 1);
    }
}

/// Trailing copies of `c` stop at a character other than `c`.
proof fn lemma_trail_char_bound(s: Seq<char>, c: char, j: int)
    requires
        0 <= j < s.len(),
        s[j] != c,
    ensures
        trail_char(s, c) <= s.len() - j - 1,
    decreases s.len(),
{
    if s.len() > 0 && s.last() == c {
        lemma_trail_char_bound(s.drop_last(), c, j);
    }
}

/// The domain that a filter rule (`||…`) names holds none of the rule syntax: no
/// `^`, `$`, `/` or `*`. When it is ASCII, `parse_line` gives it lower-cased.
pub proof fn lemma_filter_rule_domain_is_clean(line: Seq<char>, d: Seq<char>)
    requires
        starts_with(trim(line), "||"@),
        line_candidate(line) == Some(d),
    ensures
        !d.contains('^'),
        !d.contains('$'),
        !d.contains('/'),
        !d.contains('*'),
        all_ascii(d) ==> spec_parse_line(line) == Some(spec_unicode_lowercase(d)),
{
    reveal_strlit("||");
    let l = trim(line);
    assert(l.subrange(0, 2) == "||"@);
    assert(l[0] == l.subrange(0, 2)[0]);
    let d0 = trim_end_char(strip_pipes(l), '^');
    let t1 = take_until(d0, '/');
    let t2 = take_until(t1, '$');
    let t3 = take_until(t2, '^');
    assert(l.len() >= 2 && l[0] == '|');
    assert(d == t3);
    lemma_take_until_free(d0, '/');
    lemma_take_until_free(t1, '$');
    lemma_take_until_free(t2, '^');
    assert forall|k: int| 0 <= k < t3.len() implies t3[k] != '$' && t3[k] != '/' by {
        assert(t3[k] == t2[k]);
        assert(t2[k] == t1[k]);
        assert(!t2.contains('$'));
        assert(!t1.contains('/'));
    }
}

/// A filter rule `||d^…` names `d` itself, whatever follows the `^` (options such as
/// `$third-party`, a path, more carets), for a non-empty `d` made of label characters
/// and dots.
pub proof fn lemma_filter_rule_names_domain(line: Seq<char>, d: Seq<char>, rest: Seq<char>)
    requires
        trim(line) == "||"@ + d + "^"@ + rest,
        d.len() > 0,
        forall|i: int| 0 <= i < d.len() ==> label_char(#[trigger] d[i]) || d[i] == '.',
    ensures
        line_candidate(line) == Some(d),
{
    reveal_strlit("||");
    reveal_strlit("^");
    let l = trim(line);
    let x = d + "^"@ + rest;
    assert(l[0] == '|' && l[1] == '|');
    assert(starts_with(l, "||"@)) by {
        assert(l.subrange(0, 2) =~= "||"@);
    }
    assert(l.subrange(2, l.len() as int) =~= x);
    assert(x[0] == d[0]);
    assert(strip_pipes(x) == x);
    assert(strip_pipes(l) == x);
    let n = d.len() as int;
    assert(x[n] == '^');
    assert(x[n - 1] == d[n - 1]);
    lemma_trail_char_bound(x, '^', n - 1);
    let d0 = trim_end_char(x, '^');
    assert(d0.len() >= n);
    assert(forall|k: int| 0 <= k < n ==> d0[k] == d[k]);
    assert(d0.len() > n ==> d0[n] == '^');
    lemma_first_pos_after(d0, '/', n);
    lemma_first_pos_bound(d0, '/');
    let t1 = take_until(d0, '/');
    assert(t1.len() >= n);
    assert(forall|k: int| 0 <= k < n ==> t1[k] == d[k]);
    assert(t1.len() > n ==> t1[n] == '^');
    lemma_first_pos_after(t1, '$', n);
    lemma_first_pos_bound(t1, '$');
    let t2 = take_until(t1, '$');
    assert(t2.len() >= n);
    assert(forall|k: int| 0 <= k < n ==> t2[k] == d[k]);
    assert(t2.len() > n ==> t2[n] == '^');
    lemma_first_pos_at(t2, '^', n);
    let t3 = take_until(t2, '^');
    assert(t3 =~= d);
    assert(!d.contains('*'));
}

} // verus!
