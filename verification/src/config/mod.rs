//! The application settings: their defaults, the merge of new default sources into
//! saved settings, and the first-run language.
use vstd::prelude::*;
use crate::text::{chars_of, eq_str, trim, trim_end_char, trim_end_char_vec, trim_vec};

pub mod legacy;

verus! {

/// The texts of a list of strings.
pub open spec fn texts(v: Seq<String>) -> Seq<Seq<char>> {
    Seq::new(v.len(), |i: int| v[i]@)
}

/// The default upstream resolvers (DNS over HTTPS).
pub open spec fn spec_default_upstream() -> Seq<Seq<char>> {
    seq!["https://1.1.1.1/dns-query"@, "https://8.8.8.8/dns-query"@, "https://9.9.9.9/dns-query"@]
}

/// The default blocklist sources.
pub open spec fn spec_default_blocklists() -> Seq<Seq<char>> {
    seq!["https://adguardteam.github.io/HostlistsRegistry/assets/filter_1.txt"@, "https://small.oisd.nl"@, "https://raw.githubusercontent.com/StevenBlack/hosts/master/hosts"@, "https://raw.githubusercontent.com/anudeepND/blacklist/master/adservers.txt"@, "https://raw.githubusercontent.com/bigdargon/hostsVN/master/hosts"@, "https://raw.githubusercontent.com/hagezi/dns-blocklists/main/hosts/pro.txt"@]
}

/// The default upstream resolvers.
pub fn default_upstream_dns() -> (r: Vec<String>)
    ensures
        texts(r@) == spec_default_upstream(),
{
    let r = vec![String::from_str("https://1.1.1.1/dns-query"), String::from_str("https://8.8.8.8/dns-query"), String::from_str("https://9.9.9.9/dns-query")];
    assert(texts(r@) =~= spec_default_upstream());
    r
}

/// The default blocklist sources.
pub fn default_blocklist_urls() -> (r: Vec<String>)
    ensures
        texts(r@) == spec_default_blocklists(),
{
    let r = vec![String::from_str("https://adguardteam.github.io/HostlistsRegistry/assets/filter_1.txt"), String::from_str("https://small.oisd.nl"), String::from_str("https://raw.githubusercontent.com/StevenBlack/hosts/master/hosts"), String::from_str("https://raw.githubusercontent.com/anudeepND/blacklist/master/adservers.txt"), String::from_str("https://raw.githubusercontent.com/bigdargon/hostsVN/master/hosts"), String::from_str("https://raw.githubusercontent.com/hagezi/dns-blocklists/main/hosts/pro.txt")];
    assert(texts(r@) =~= spec_default_blocklists());
    r
}

/// The application settings.
#[derive(Clone, Debug)]
pub struct AppConfig {
    pub dns_listen_addr: String,
    pub dns_listen_port: u16,
    pub upstream_dns: Vec<String>,
    pub blocklist_urls: Vec<String>,
    pub custom_blocked_domains: Vec<String>,
    pub custom_allowed_domains: Vec<String>,
    pub protection_enabled: bool,
    pub start_with_windows: bool,
    pub minimize_to_tray: bool,
    pub language: String,
    pub enable_block_notifications: bool,
    pub log_max_entries: usize,
    pub auto_update_blocklist_hours: u64,
    pub last_blocklist_update: Option<String>,
    pub network_wide_adblock_enabled: bool,
    pub attack_detection_enabled: bool,
    pub auto_block_attacks: bool,
    pub arp_spoof_detection: bool,
    pub dns_flood_rate_limit: u32,
    pub window_width: u32,
    pub window_height: u32,
    pub window_x: i32,
    pub window_y: i32,
    pub window_maximized: bool,
    pub minimize_to_tray_on_minimize: bool,
    pub start_hidden_in_tray: bool,
    pub admin_panel_enabled: bool,
    pub rammap_auto_clean_enabled: bool,
    pub rammap_auto_clean_threshold_mb: u64,
}

impl Default for AppConfig {
    /// The settings of a fresh installation.
    fn default() -> (r: Self)
        ensures
            r.dns_listen_addr@ == "127.0.0.1"@,
            r.dns_listen_port == 53,
            texts(r.upstream_dns@) == spec_default_upstream(),
            texts(r.blocklist_urls@) == spec_default_blocklists(),
            r.custom_blocked_domains@.len() == 0,
            r.custom_allowed_domains@.len() == 0,
            r.protection_enabled,
            r.start_with_windows,
            r.minimize_to_tray,
            r.language@ == "vi"@,
            r.enable_block_notifications,
            r.log_max_entries == 1000,
            r.auto_update_blocklist_hours == 24,
            r.last_blocklist_update is None,
            !r.network_wide_adblock_enabled,
            !r.attack_detection_enabled,
            !r.auto_block_attacks,
            !r.arp_spoof_detection,
            r.dns_flood_rate_limit == 80,
            r.window_width == 1160,
            r.window_height == 800,
            r.window_x == -1,
            r.window_y == -1,
            !r.window_maximized,
            r.minimize_to_tray_on_minimize,
            !r.start_hidden_in_tray,
            r.admin_panel_enabled,
            !r.rammap_auto_clean_enabled,
            r.rammap_auto_clean_threshold_mb == 512,
    {
        AppConfig {
            dns_listen_addr: String::from_str("127.0.0.1"),
            dns_listen_port: 53,
            upstream_dns: default_upstream_dns(),
            blocklist_urls: default_blocklist_urls(),
            custom_blocked_domains: Vec::new(),
            custom_allowed_domains: Vec::new(),
            protection_enabled: true,
            start_with_windows: true,
            minimize_to_tray: true,
            language: String::from_str("vi"),
            enable_block_notifications: true,
            log_max_entries: 1000,
            auto_update_blocklist_hours: 24,
            last_blocklist_update: None,
            network_wide_adblock_enabled: false,
            attack_detection_enabled: false,
            auto_block_attacks: false,
            arp_spoof_detection: false,
            dns_flood_rate_limit: 80,
            window_width: 1160,
            window_height: 800,
            window_x: -1,
            window_y: -1,
            window_maximized: false,
            minimize_to_tray_on_minimize: true,
            start_hidden_in_tray: false,
            admin_panel_enabled: true,
            rammap_auto_clean_enabled: false,
            rammap_auto_clean_threshold_mb: 512,
        }
    }
}

/// `items` extended by each of `defaults`, in order, that it does not hold yet.
pub open spec fn merged_sources(items: Seq<Seq<char>>, defaults: Seq<Seq<char>>) -> Seq<Seq<char>>
    decreases defaults.len(),
{
    if defaults.len() == 0 {
        items
    } else {
        let m = merged_sources(items, defaults.drop_last());
        if m.contains(defaults.last()) {
            m
        } else {
            m.push(defaults.last())
        }
    }
}

impl AppConfig {
    /// Adds the default blocklist sources that the settings lack, keeping the order;
    /// returns how many were added.
    pub fn merge_default_blocklists(&mut self) -> (r: usize)
        ensures
            texts(final(self).blocklist_urls@) == merged_sources(texts(old(self).blocklist_urls@), spec_default_blocklists()),
            r == final(self).blocklist_urls@.len() - old(self).blocklist_urls@.len(),
    {
        let defaults = default_blocklist_urls();
        let before = self.blocklist_urls.len();
        let ghost start = texts(self.blocklist_urls@);
        let mut i: usize = 0;
        assert(spec_default_blocklists().subrange(0, 0) =~= Seq::<Seq<char>>::empty());
        while i < defaults.len()
            invariant
                i <= defaults@.len(),
                texts(defaults@) == spec_default_blocklists(),
                texts(self.blocklist_urls@) == merged_sources(start, spec_default_blocklists().subrange(0, i as int)),
                self.blocklist_urls@.len() >= before,
                before == old(self).blocklist_urls@.len(),
                start == texts(old(self).blocklist_urls@),
            decreases defaults@.len() - i,
        {
            proof {
                assert(spec_default_blocklists().subrange(0, i + 1).drop_last() =~= spec_default_blocklists().subrange(0, i as int));
            }
            let url = defaults[i].clone();
            let mut found = false;
            let mut k: usize = 0;
            let uc = chars_of(url.as_str());
            while k < self.blocklist_urls.len()
                invariant
                    k <= self.blocklist_urls@.len(),
                    uc@ == url@,
                    found == exists|j: int| 0 <= j < k && texts(self.blocklist_urls@)[j] == url@,
                decreases self.blocklist_urls@.len() - k,
            {
                if eq_str(uc.as_slice(), self.blocklist_urls[k].as_str()) {
                    found = true;
                    assert(texts(self.blocklist_urls@)[k as int] == url@);
                }
                k += 1;
            }
            assert(found == texts(self.blocklist_urls@).contains(url@));
            if !found {
                let ghost b = self.blocklist_urls@;
                self.blocklist_urls.push(url);
                assert(texts(self.blocklist_urls@) =~= texts(b).push(url@));
            }
            i += 1;
        }
        assert(spec_default_blocklists().subrange(0, 6) =~= spec_default_blocklists());
        self.blocklist_urls.len() - before
    }

    /// Moves a listener left on the mDNS port 5353 back to port 53; returns whether
    /// it did.
    pub fn normalize_listen_port(&mut self) -> (r: bool)
        ensures
            r == (old(self).dns_listen_port == 5353),
            final(self).dns_listen_port == if r { 53 } else { old(self).dns_listen_port },
    {
        if self.dns_listen_port == 5353 {
            self.dns_listen_port = 53;
            true
        } else {
            false
        }
    }
}

/// The interface language of a Windows UI language id: Vietnamese and Chinese by
/// their primary language, English otherwise.
pub open spec fn spec_ui_language(langid: u16) -> Seq<char> {
    if langid % 1024 == 0x2a {
        "vi"@
    } else if langid % 1024 == 0x04 {
        "zh"@
    } else {
        "en"@
    }
}

/// The interface language code for a Windows UI language id.
pub fn map_ui_language_to_code(langid: u16) -> (r: String)
    ensures
        r@ == spec_ui_language(langid),
{
    let primary: u16 = langid & 0x03ff;
    assert(langid & 0x03ff == langid % 1024) by (bit_vector);
    if primary == 0x002a {
        String::from_str("vi")
    } else if primary == 0x0004 {
        String::from_str("zh")
    } else {
        String::from_str("en")
    }
}

/// The language an installer left in the registry, if it is one the interface has:
/// the text trimmed of NULs and whitespace must be `vi`, `en` or `zh`.
pub open spec fn spec_installer_language(text: Seq<char>) -> Option<Seq<char>> {
    let t = trim(trim_end_char(text, '\0'));
    if t == "vi"@ || t == "en"@ || t == "zh"@ {
        Some(t)
    } else {
        None
    }
}

/// The installer's language choice, if usable.
pub fn installer_language(text: &str) -> (r: Option<String>)
    ensures
        match r {
            Some(s) => spec_installer_language(text@) == Some(s@),
            None => spec_installer_language(text@) is None,
        },
{
    let c = chars_of(text);
    let a = trim_end_char_vec(c.as_slice(), '\0');
    let t = trim_vec(a.as_slice());
    if eq_str(t.as_slice(), "vi") || eq_str(t.as_slice(), "en") || eq_str(t.as_slice(), "zh") {
        Some(crate::text::string_from_chars(t.as_slice()))
    } else {
        None
    }
}

/// The language of a first run: the installer's choice when it left a usable one,
/// otherwise the one the Windows UI language suggests.
pub fn detect_first_run_language(installer_value: Option<&str>, ui_langid: u16) -> (r: String)
    ensures
        r@ == match installer_value {
            Some(v) => match spec_installer_language(v@) {
                Some(l) => l,
                None => spec_ui_language(ui_langid),
            },
            None => spec_ui_language(ui_langid),
        },
        r@ == "vi"@ || r@ == "en"@ || r@ == "zh"@,
{
    match installer_value {
        Some(v) => match installer_language(v) {
            Some(l) => {
                return l;
            },
            None => {},
        },
        None => {},
    }
    map_ui_language_to_code(ui_langid)
}

} // verus!
