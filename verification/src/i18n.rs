//! Interface languages and the choice of a localized text.
use vstd::prelude::*;

verus! {

/// Vietnamese, the default interface language.
pub const VI: u8 = 0;

/// English.
pub const EN: u8 = 1;

/// Simplified Chinese.
pub const ZH: u8 = 2;

/// Russian.
pub const RU: u8 = 3;

/// The language index that a code selects; unknown codes select Vietnamese.
pub open spec fn spec_code_to_index(code: Seq<char>) -> u8 {
    if code == "en"@ {
        EN
    } else if code == "zh"@ {
        ZH
    } else if code == "ru"@ {
        RU
    } else {
        VI
    }
}

/// The code of a language index; unknown indices give Vietnamese.
pub open spec fn spec_index_to_code(idx: u8) -> Seq<char> {
    if idx == EN {
        "en"@
    } else if idx == ZH {
        "zh"@
    } else if idx == RU {
        "ru"@
    } else {
        "vi"@
    }
}

/// The three-way text choice: Russian falls back to English, unknown indices to Vietnamese.
pub open spec fn spec_tr_with(lang: u8, vi: Seq<char>, en: Seq<char>, zh: Seq<char>) -> Seq<char> {
    if lang == EN || lang == RU {
        en
    } else if lang == ZH {
        zh
    } else {
        vi
    }
}

/// The four-way text choice; unknown indices give Vietnamese.
pub open spec fn spec_tr4_with(
    lang: u8,
    vi: Seq<char>,
    en: Seq<char>,
    zh: Seq<char>,
    ru: Seq<char>,
) -> Seq<char> {
    if lang == EN {
        en
    } else if lang == ZH {
        zh
    } else if lang == RU {
        ru
    } else {
        vi
    }
}

/// Maps a language code to its index.
pub fn code_to_index(code: &str) -> (r: u8)
    ensures
        r == spec_code_to_index(code@),
{
    let c = crate::text::chars_of(code);
    if crate::text::eq_str(c.as_slice(), "en") {
        EN
    } else if crate::text::eq_str(c.as_slice(), "zh") {
        ZH
    } else if crate::text::eq_str(c.as_slice(), "ru") {
        RU
    } else {
        VI
    }
}

/// Maps a language index to its code.
pub fn index_to_code(idx: u8) -> (r: &'static str)
    ensures
        r@ == spec_index_to_code(idx),
{
    if idx == EN {
        "en"
    } else if idx == ZH {
        "zh"
    } else if idx == RU {
        "ru"
    } else {
        "vi"
    }
}

/// Picks the text of `lang` among three; Russian falls back to English.
pub fn tr_with(lang: u8, vi: &'static str, en: &'static str, zh: &'static str) -> (r: &'static str)
    ensures
        r@ == spec_tr_with(lang, vi@, en@, zh@),
{
    if lang == EN {
        en
    } else if lang == ZH {
        zh
    } else if lang == RU {
        en
    } else {
        vi
    }
}

/// Picks the text of `lang` among four.
pub fn tr4_with(
    lang: u8,
    vi: &'static str,
    en: &'static str,
    zh: &'static str,
    ru: &'static str,
) -> (r: &'static str)
    ensures
        r@ == spec_tr4_with(lang, vi@, en@, zh@, ru@),
{
    if lang == EN {
        en
    } else if lang == ZH {
        zh
    } else if lang == RU {
        ru
    } else {
        vi
    }
}

} // verus!
