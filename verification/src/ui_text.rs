//! Small rules of the user interface: saturating counters for display, change
//! detection of cached texts, and the tray menu's labels.
use vstd::prelude::*;
use crate::i18n::{spec_tr_with, tr_with};

verus! {

/// A count for an `i32` display field: the count itself, or `i32::MAX` when larger.
pub fn sat_i32_usize(v: usize) -> (r: i32)
    ensures
        r == if v <= i32::MAX { v as i32 } else { i32::MAX },
{
    if v <= 2147483647usize {
        v as i32
    } else {
        i32::MAX
    }
}

/// A 64-bit count for an `i32` display field, saturated at `i32::MAX`.
pub fn sat_i32_u64(v: u64) -> (r: i32)
    ensures
        r == if v <= i32::MAX { v as i32 } else { i32::MAX },
{
    if v <= 2147483647u64 {
        v as i32
    } else {
        i32::MAX
    }
}

/// A 32-bit count for an `i32` display field, saturated at `i32::MAX`.
pub fn sat_i32_u32(v: u32) -> (r: i32)
    ensures
        r == if v <= i32::MAX { v as i32 } else { i32::MAX },
{
    if v <= 2147483647u32 {
        v as i32
    } else {
        i32::MAX
    }
}

/// Stores `incoming` in `slot` when it differs and says whether it did.
pub fn cached_text_changed(slot: &mut String, incoming: &str) -> (r: bool)
    ensures
        r == (old(slot)@ != incoming@),
        final(slot)@ == incoming@,
{
    let a = crate::text::chars_of(slot.as_str());
    let b = crate::text::chars_of(incoming);
    if crate::text::eq_chars(a.as_slice(), b.as_slice()) {
        false
    } else {
        *slot = String::from_str(incoming);
        true
    }
}

/// The tray menu's labels in `lang`: open the window, toggle protection, quit.
pub fn update_tray_menu_language(lang: u8) -> (r: (&'static str, &'static str, &'static str))
    ensures
        r.0@ == spec_tr_with(lang, "Mở giao diện Shield Ghita"@, "Open Shield Ghita"@, "打开 Shield Ghita 界面"@),
        r.1@ == spec_tr_with(lang, "Bật / Tắt bảo vệ"@, "Toggle Protection"@, "开启 / 关闭防护"@),
        r.2@ == spec_tr_with(lang, "Thoát hoàn toàn"@, "Quit Completely"@, "彻底退出"@),
{
    (
        tr_with(lang, "Mở giao diện Shield Ghita", "Open Shield Ghita", "打开 Shield Ghita 界面"),
        tr_with(lang, "Bật / Tắt bảo vệ", "Toggle Protection", "开启 / 关闭防护"),
        tr_with(lang, "Thoát hoàn toàn", "Quit Completely", "彻底退出"),
    )
}

} // verus!
