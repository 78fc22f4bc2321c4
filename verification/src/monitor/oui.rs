//! The vendor of a network interface, told by the first three bytes of its MAC.
use vstd::prelude::*;
use crate::i18n::{spec_tr_with, tr_with};
use crate::monitor::oui_table::{oui_entry, oui_entry_at};
use crate::text::{chars_of, starts_with, starts_with_str};

verus! {


/// The vendor text of a vendor index.
pub open spec fn vendor_text(g: u8, lang: u8) -> Seq<char> {
    if g == 0 {
        "Apple Inc. (iPhone / iPad / Mac)"@
    } else if g == 1 {
        "Samsung Electronics (Galaxy / Smart TV)"@
    } else if g == 2 {
        "Hikvision / Ezviz (Camera an ninh)"@
    } else if g == 3 {
        "Dahua / Imou (Camera an ninh)"@
    } else if g == 4 {
        "Axis Communications (CCTV Camera)"@
    } else if g == 5 {
        "Tuya Smart / Yoosee (IP Camera / IoT)"@
    } else if g == 6 {
        "Uniview (UNV IP Camera)"@
    } else if g == 7 {
        "KBVision (Camera giám sát)"@
    } else if g == 8 {
        "Reolink (IP / Battery Camera)"@
    } else if g == 9 {
        "Tiandy Technologies (Camera CCTV)"@
    } else if g == 10 {
        "Vstarcam / Eye4 (Camera)"@
    } else if g == 11 {
        "Xiaomi (Điện thoại / Camera / Mi IoT)"@
    } else if g == 12 {
        "OPPO / Realme (Điện thoại)"@
    } else if g == 13 {
        "Vivo Mobile (Điện thoại)"@
    } else if g == 14 {
        "OnePlus Technology (Điện thoại)"@
    } else if g == 15 {
        "Huawei Technologies (Phone / Router / ONT)"@
    } else if g == 16 {
        "TP-Link Technologies (Router / Deco / Tapo)"@
    } else if g == 17 {
        "Tenda Technology (Router / Mesh)"@
    } else if g == 18 {
        "TOTOLINK / Zioncom (Router / Wi-Fi)"@
    } else if g == 19 {
        "DrayTek Corp. (Vigor Router / Firewall)"@
    } else if g == 20 {
        "MikroTik (RouterBOARD / Switch)"@
    } else if g == 21 {
        "Ubiquiti Inc. (UniFi / EdgeMAX)"@
    } else if g == 22 {
        "Cisco Systems (Enterprise Router / Catalyst)"@
    } else if g == 23 {
        "Cisco Meraki (Cloud Managed Wi-Fi)"@
    } else if g == 24 {
        "Aruba Networks / HPE (Access Point)"@
    } else if g == 25 {
        "Ruijie Networks / Reyee (Enterprise AP)"@
    } else if g == 26 {
        "Netgear (Nighthawk / Orbi)"@
    } else if g == 27 {
        "D-Link Systems (Router)"@
    } else if g == 28 {
        "Linksys (Velop Mesh / Router)"@
    } else if g == 29 {
        "Zyxel Communications (Security Gateway)"@
    } else if g == 30 {
        "VNPT Technology (iGate / Dasan GPON ONT)"@
    } else if g == 31 {
        "Viettel Group (ZTE / Huawei H646W GPON)"@
    } else if g == 32 {
        "FPT Telecom (Archer / G-97RG6M GPON)"@
    } else if g == 33 {
        "ZTE Corporation (GPON ONT / Modem)"@
    } else if g == 34 {
        "Intel Corp. (PC / Wi-Fi Card)"@
    } else if g == 35 {
        "Dell Inc. (Máy tính PC / Laptop Alienware)"@
    } else if g == 36 {
        "HP Inc. (Máy tính PC / Laptop / Máy in)"@
    } else if g == 37 {
        "ASUSTeK Computer (Laptop ROG / Mainboard)"@
    } else if g == 38 {
        "Acer Inc. (Laptop Predator / Nitro)"@
    } else if g == 39 {
        "Lenovo (ThinkPad / Legion Laptop)"@
    } else if g == 40 {
        "MSI Micro-Star (Gaming Laptop / Mainboard)"@
    } else if g == 41 {
        "Gigabyte Technology (Aorus)"@
    } else if g == 42 {
        "ASRock Inc. (Motherboard)"@
    } else if g == 43 {
        "Microsoft Corp. (Surface Tablet / Laptop)"@
    } else if g == 44 {
        "Realtek Semiconductor (Ethernet / Wi-Fi)"@
    } else if g == 45 {
        "Sony Corp. (PlayStation 5 / 4 / Bravia Smart TV)"@
    } else if g == 46 {
        "LG Electronics (webOS Smart TV)"@
    } else if g == 47 {
        "Panasonic Corp. (Smart TV / Audio)"@
    } else if g == 48 {
        "TCL King Electrical (Smart TV)"@
    } else if g == 49 {
        "Casper Electric (Smart TV / Máy lạnh)"@
    } else if g == 50 {
        "Skyworth Digital (Smart TV)"@
    } else if g == 51 {
        "Hisense Broadband (Smart TV)"@
    } else if g == 52 {
        "Espressif Systems (ESP8266 / ESP32 / Tuya / Smart Socket)"@
    } else if g == 53 {
        "Raspberry Pi Foundation (Microcomputer / Pi-hole)"@
    } else if g == 54 {
        "ITEAD Intelligent Systems (Sonoff Smart Switch)"@
    } else if g == 55 {
        "Lumi United Technology (Aqara Smart Hub)"@
    } else if g == 56 {
        "Broadlink Technology (Smart IR Remote / Switch)"@
    } else if g == 57 {
        spec_tr_with(lang, "Philips Hue (Đèn thông minh)"@, "Philips Hue (Smart Lighting)"@, "Philips Hue (智能照明)"@)
    } else if g == 58 {
        "Google LLC (Nest Hub / Chromecast)"@
    } else if g == 59 {
        "Amazon Technologies (Echo Dot / Fire TV Stick)"@
    } else if g == 60 {
        "Canon Inc. (Máy in / Máy quét / ImageRunner)"@
    } else if g == 61 {
        "Brother Industries (Máy in đa năng / Fax)"@
    } else if g == 62 {
        "Seiko Epson Corp. (Máy in phun màu EcoTank)"@
    } else if g == 63 {
        "Xerox Corp. (Máy photocopy / Máy in laser)"@
    } else if g == 64 {
        "Nintendo Co., Ltd. (Switch / Wii)"@
    } else if g == 65 {
        "Microsoft Xbox (Xbox One / Series X/S)"@
    } else if g == 66 {
        "VMware Inc. (Máy ảo ESXi / Workstation)"@
    } else if g == 67 {
        "Oracle VirtualBox (Máy ảo VM)"@
    } else if g == 68 {
        "Microsoft Hyper-V / WSL2 (Máy ảo Windows)"@
    } else {
        "Docker Container (Mạng cầu ảo)"@
    }
}

fn vendor_text_of(g: u8, lang: u8) -> (r: &'static str)
    ensures
        r@ == vendor_text(g, lang),
{
    if g == 0 {
        "Apple Inc. (iPhone / iPad / Mac)"
    } else if g == 1 {
        "Samsung Electronics (Galaxy / Smart TV)"
    } else if g == 2 {
        "Hikvision / Ezviz (Camera an ninh)"
    } else if g == 3 {
        "Dahua / Imou (Camera an ninh)"
    } else if g == 4 {
        "Axis Communications (CCTV Camera)"
    } else if g == 5 {
        "Tuya Smart / Yoosee (IP Camera / IoT)"
    } else if g == 6 {
        "Uniview (UNV IP Camera)"
    } else if g == 7 {
        "KBVision (Camera giám sát)"
    } else if g == 8 {
        "Reolink (IP / Battery Camera)"
    } else if g == 9 {
        "Tiandy Technologies (Camera CCTV)"
    } else if g == 10 {
        "Vstarcam / Eye4 (Camera)"
    } else if g == 11 {
        "Xiaomi (Điện thoại / Camera / Mi IoT)"
    } else if g == 12 {
        "OPPO / Realme (Điện thoại)"
    } else if g == 13 {
        "Vivo Mobile (Điện thoại)"
    } else if g == 14 {
        "OnePlus Technology (Điện thoại)"
    } else if g == 15 {
        "Huawei Technologies (Phone / Router / ONT)"
    } else if g == 16 {
        "TP-Link Technologies (Router / Deco / Tapo)"
    } else if g == 17 {
        "Tenda Technology (Router / Mesh)"
    } else if g == 18 {
        "TOTOLINK / Zioncom (Router / Wi-Fi)"
    } else if g == 19 {
        "DrayTek Corp. (Vigor Router / Firewall)"
    } else if g == 20 {
        "MikroTik (RouterBOARD / Switch)"
    } else if g == 21 {
        "Ubiquiti Inc. (UniFi / EdgeMAX)"
    } else if g == 22 {
        "Cisco Systems (Enterprise Router / Catalyst)"
    } else if g == 23 {
        "Cisco Meraki (Cloud Managed Wi-Fi)"
    } else if g == 24 {
        "Aruba Networks / HPE (Access Point)"
    } else if g == 25 {
        "Ruijie Networks / Reyee (Enterprise AP)"
    } else if g == 26 {
        "Netgear (Nighthawk / Orbi)"
    } else if g == 27 {
        "D-Link Systems (Router)"
    } else if g == 28 {
        "Linksys (Velop Mesh / Router)"
    } else if g == 29 {
        "Zyxel Communications (Security Gateway)"
    } else if g == 30 {
        "VNPT Technology (iGate / Dasan GPON ONT)"
    } else if g == 31 {
        "Viettel Group (ZTE / Huawei H646W GPON)"
    } else if g == 32 {
        "FPT Telecom (Archer / G-97RG6M GPON)"
    } else if g == 33 {
        "ZTE Corporation (GPON ONT / Modem)"
    } else if g == 34 {
        "Intel Corp. (PC / Wi-Fi Card)"
    } else if g == 35 {
        "Dell Inc. (Máy tính PC / Laptop Alienware)"
    } else if g == 36 {
        "HP Inc. (Máy tính PC / Laptop / Máy in)"
    } else if g == 37 {
        "ASUSTeK Computer (Laptop ROG / Mainboard)"
    } else if g == 38 {
        "Acer Inc. (Laptop Predator / Nitro)"
    } else if g == 39 {
        "Lenovo (ThinkPad / Legion Laptop)"
    } else if g == 40 {
        "MSI Micro-Star (Gaming Laptop / Mainboard)"
    } else if g == 41 {
        "Gigabyte Technology (Aorus)"
    } else if g == 42 {
        "ASRock Inc. (Motherboard)"
    } else if g == 43 {
        "Microsoft Corp. (Surface Tablet / Laptop)"
    } else if g == 44 {
        "Realtek Semiconductor (Ethernet / Wi-Fi)"
    } else if g == 45 {
        "Sony Corp. (PlayStation 5 / 4 / Bravia Smart TV)"
    } else if g == 46 {
        "LG Electronics (webOS Smart TV)"
    } else if g == 47 {
        "Panasonic Corp. (Smart TV / Audio)"
    } else if g == 48 {
        "TCL King Electrical (Smart TV)"
    } else if g == 49 {
        "Casper Electric (Smart TV / Máy lạnh)"
    } else if g == 50 {
        "Skyworth Digital (Smart TV)"
    } else if g == 51 {
        "Hisense Broadband (Smart TV)"
    } else if g == 52 {
        "Espressif Systems (ESP8266 / ESP32 / Tuya / Smart Socket)"
    } else if g == 53 {
        "Raspberry Pi Foundation (Microcomputer / Pi-hole)"
    } else if g == 54 {
        "ITEAD Intelligent Systems (Sonoff Smart Switch)"
    } else if g == 55 {
        "Lumi United Technology (Aqara Smart Hub)"
    } else if g == 56 {
        "Broadlink Technology (Smart IR Remote / Switch)"
    } else if g == 57 {
        tr_with(lang, "Philips Hue (Đèn thông minh)", "Philips Hue (Smart Lighting)", "Philips Hue (智能照明)")
    } else if g == 58 {
        "Google LLC (Nest Hub / Chromecast)"
    } else if g == 59 {
        "Amazon Technologies (Echo Dot / Fire TV Stick)"
    } else if g == 60 {
        "Canon Inc. (Máy in / Máy quét / ImageRunner)"
    } else if g == 61 {
        "Brother Industries (Máy in đa năng / Fax)"
    } else if g == 62 {
        "Seiko Epson Corp. (Máy in phun màu EcoTank)"
    } else if g == 63 {
        "Xerox Corp. (Máy photocopy / Máy in laser)"
    } else if g == 64 {
        "Nintendo Co., Ltd. (Switch / Wii)"
    } else if g == 65 {
        "Microsoft Xbox (Xbox One / Series X/S)"
    } else if g == 66 {
        "VMware Inc. (Máy ảo ESXi / Workstation)"
    } else if g == 67 {
        "Oracle VirtualBox (Máy ảo VM)"
    } else if g == 68 {
        "Microsoft Hyper-V / WSL2 (Máy ảo Windows)"
    } else {
        "Docker Container (Mạng cầu ảo)"
    }
}

/// The vendor index of an identifier: that of the first table entry carrying it,
/// searching from entry `i`.
pub open spec fn oui_group_from(o: u32, i: int) -> Option<u8>
    decreases 1361 - i,
{
    if i < 0 || i >= 1361 {
        None
    } else if oui_entry(i).0 == o {
        Some(oui_entry(i).1)
    } else {
        oui_group_from(o, i + 1)
    }
}

/// The vendor index of an identifier, if the table knows it.
pub open spec fn oui_group(o: u32) -> Option<u8> {
    oui_group_from(o, 0)
}

/// An ASCII hexadecimal digit.
pub open spec fn is_hex_digit(c: char) -> bool {
    ('0' <= c && c <= '9') || ('a' <= c && c <= 'f') || ('A' <= c && c <= 'F')
}

/// The value of a hexadecimal digit.
pub open spec fn hex_value(c: char) -> int {
    if '0' <= c && c <= '9' {
        c as int - '0' as int
    } else if 'a' <= c && c <= 'f' {
        c as int - 'a' as int + 10
    } else {
        c as int - 'A' as int + 10
    }
}

/// The hexadecimal digits of `s` in upper case, in order.
pub open spec fn hex_digits(s: Seq<char>) -> Seq<char>
    decreases s.len(),
{
    if s.len() == 0 {
        Seq::empty()
    } else if is_hex_digit(s.last()) {
        hex_digits(s.drop_last()).push(crate::text::upper_char(s.last()))
    } else {
        hex_digits(s.drop_last())
    }
}

/// The first twelve hexadecimal digits of a MAC.
pub open spec fn mac_digits(mac: Seq<char>) -> Seq<char> {
    let h = hex_digits(mac);
    if h.len() > 12 {
        h.subrange(0, 12)
    } else {
        h
    }
}

/// The identifier written by the first six hexadecimal digits of `h`.
pub open spec fn oui_value(h: Seq<char>) -> int {
    hex_value(h[0]) * 0x100000 + hex_value(h[1]) * 0x10000 + hex_value(h[2]) * 0x1000 + hex_value(h[3]) * 0x100
        + hex_value(h[4]) * 0x10 + hex_value(h[5])
}

/// The vendor text of a MAC: too few digits give "unknown"; a locally administered
/// address (bit 1 of the first byte) is a private MAC; otherwise the vendor of its
/// first three bytes, or a loopback or plain LAN-host text when the table has none.
pub open spec fn spec_lookup_vendor(mac: Seq<char>, lang: u8) -> Seq<char> {
    let h = mac_digits(mac);
    if h.len() < 6 {
        spec_tr_with(lang, "Không xác định / Generic"@, "Unknown / Generic"@, "未知设备 / Generic"@)
    } else if (hex_value(h[1]) / 2) % 2 == 1 {
        spec_tr_with(
            lang,
            "Thiết bị di động (Địa chỉ MAC riêng tư)"@,
            "Mobile device (Private MAC address)"@,
            "移动设备 (随机 MAC 地址)"@,
        )
    } else {
        match oui_group(oui_value(h) as u32) {
            Some(g) => vendor_text(g, lang),
            None => if starts_with(mac, "00:00:00"@) {
                "Cục bộ (Virtual / Loopback)"@
            } else {
                "Thiết bị mạng (LAN Host)"@
            },
        }
    }
}

fn hex_val(c: char) -> (r: u32)
    requires
        is_hex_digit(c),
    ensures
        r == hex_value(c),
        r < 16,
{
    if '0' <= c && c <= '9' {
        (c as u32) - 48
    } else if 'a' <= c && c <= 'f' {
        (c as u32) - 97 + 10
    } else {
        (c as u32) - 65 + 10
    }
}

/// The vendor index of an identifier.
fn find_oui(o: u32) -> (r: Option<u8>)
    ensures
        r == oui_group(o),
{
    let mut i: usize = 0;
    while i < 1361
        invariant
            i <= 1361,
            oui_group(o) == oui_group_from(o, i as int),
        decreases 1361 - i,
    {
        let e = oui_entry_at(i);
        if e.0 == o {
            return Some(e.1);
        }
        i += 1;
    }
    None
}

/// The vendor of the network interface with this MAC.
pub fn lookup_vendor(mac: &str, lang: u8) -> (r: String)
    ensures
        r@ == spec_lookup_vendor(mac@, lang),
{
    let c = chars_of(mac);
    let mut h: Vec<char> = Vec::new();
    let mut i: usize = 0;
    while i < c.len() && h.len() < 12
        invariant
            i <= c@.len(),
            h@.len() <= 12,
            h@ == hex_digits(c@.subrange(0, i as int)),
            h@.len() < 12 ==> true,
        decreases c@.len() - i,
    {
        proof {
            assert(c@.subrange(0, i + 1).drop_last() =~= c@.subrange(0, i as int));
        }
        let ch = c[i];
        if ('0' <= ch && ch <= '9') || ('a' <= ch && ch <= 'f') || ('A' <= ch && ch <= 'F') {
            h.push(crate::text::to_upper_char(ch));
        }
        i += 1;
    }
    proof {
        lemma_hex_digits_prefix(c@, i as int);
        lemma_hex_digits_upper(c@);
    }
    assert(h@ == mac_digits(mac@));
    if h.len() < 6 {
        return String::from_str(tr_with(lang, "Không xác định / Generic", "Unknown / Generic", "未知设备 / Generic"));
    }
    let d1 = hex_val(h[1]);
    if (d1 / 2) % 2 == 1 {
        return String::from_str(
            tr_with(lang, "Thiết bị di động (Địa chỉ MAC riêng tư)", "Mobile device (Private MAC address)", "移动设备 (随机 MAC 地址)"),
        );
    }
    let o: u32 = hex_val(h[0]) * 0x100000 + hex_val(h[1]) * 0x10000 + hex_val(h[2]) * 0x1000 + hex_val(h[3]) * 0x100
        + hex_val(h[4]) * 0x10 + hex_val(h[5]);
    match find_oui(o) {
        Some(g) => String::from_str(vendor_text_of(g, lang)),
        None => {
            if starts_with_str(c.as_slice(), "00:00:00") {
                String::from_str("Cục bộ (Virtual / Loopback)")
            } else {
                String::from_str("Thiết bị mạng (LAN Host)")
            }
        },
    }
}

/// Every digit that `hex_digits` keeps is an upper-case hexadecimal digit.
proof fn lemma_hex_digits_upper(s: Seq<char>)
    ensures
        forall|k: int| 0 <= k < hex_digits(s).len() ==> is_hex_digit(#[trigger] hex_digits(s)[k]),
    decreases s.len(),
{
    if s.len() > 0 {
        lemma_hex_digits_upper(s.drop_last());
        let c = s.last();
        if is_hex_digit(c) {
            let u = crate::text::upper_char(c);
            if 'a' <= c && c <= 'f' {
                assert(97 <= c as u32 <= 102);
                assert(u as u32 == c as u32 - 32);
            }
            assert(is_hex_digit(u));
            let h = hex_digits(s);
            assert forall|k: int| 0 <= k < h.len() implies is_hex_digit(#[trigger] h[k]) by {
                if k < h.len() - 1 {
                    assert(h[k] == hex_digits(s.drop_last())[k]);
                }
            }
        }
    }
}

/// Digits gathered from a prefix are a prefix of all the digits; once twelve are
/// gathered, the rest do not matter.
proof fn lemma_hex_digits_prefix(s: Seq<char>, i: int)
    requires
        0 <= i <= s.len(),
        hex_digits(s.subrange(0, i)).len() <= 12,
        i < s.len() ==> hex_digits(s.subrange(0, i)).len() == 12,
    ensures
        mac_digits(s) == hex_digits(s.subrange(0, i)),
    decreases s.len() - i,
{
    if i < s.len() {
        lemma_hex_digits_extend(s, i, s.len() as int);
        assert(s.subrange(0, s.len() as int) =~= s);
        assert(hex_digits(s).len() >= 12);
        assert(hex_digits(s).subrange(0, 12) =~= hex_digits(s.subrange(0, i)));
    } else {
        assert(s.subrange(0, i) =~= s);
    }
}

/// `hex_digits` of a longer prefix extends that of a shorter one.
proof fn lemma_hex_digits_extend(s: Seq<char>, i: int, j: int)
    requires
        0 <= i <= j <= s.len(),
    ensures
        hex_digits(s.subrange(0, j)).len() >= hex_digits(s.subrange(0, i)).len(),
        hex_digits(s.subrange(0, j)).subrange(0, hex_digits(s.subrange(0, i)).len() as int) =~= hex_digits(
            s.subrange(0, i),
        ),
    decreases j - i,
{
    if j > i {
        lemma_hex_digits_extend(s, i, j - 1);
        assert(s.subrange(0, j).drop_last() =~= s.subrange(0, j - 1));
        let a = hex_digits(s.subrange(0, i));
        let b = hex_digits(s.subrange(0, j - 1));
        let c = hex_digits(s.subrange(0, j));
        assert(c.subrange(0, a.len() as int) =~= b.subrange(0, a.len() as int));
    }
    if i == j {
        assert(hex_digits(s.subrange(0, j)).subrange(0, hex_digits(s.subrange(0, i)).len() as int) =~= hex_digits(s.subrange(0, i)));
    }
}

} // verus!
