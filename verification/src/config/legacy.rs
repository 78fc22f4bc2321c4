//! The settings of the first releases, kept so that their files still load.
use vstd::prelude::*;
use crate::config::texts;

verus! {

/// The blocklist sources of the first releases.
pub open spec fn spec_legacy_blocklists() -> Seq<Seq<char>> {
    seq!["https://adguardteam.github.io/HostlistsRegistry/assets/filter_1.txt"@, "https://small.oisd.nl"@, "https://raw.githubusercontent.com/StevenBlack/hosts/master/hosts"@, "https://raw.githubusercontent.com/anudeepND/blacklist/master/adservers.txt"@]
}

/// The blocklist sources of the first releases.
pub fn legacy_blocklist_urls() -> (r: Vec<String>)
    ensures
        texts(r@) == spec_legacy_blocklists(),
{
    let r = vec![String::from_str("https://adguardteam.github.io/HostlistsRegistry/assets/filter_1.txt"), String::from_str("https://small.oisd.nl"), String::from_str("https://raw.githubusercontent.com/StevenBlack/hosts/master/hosts"), String::from_str("https://raw.githubusercontent.com/anudeepND/blacklist/master/adservers.txt")];
    assert(texts(r@) =~= spec_legacy_blocklists());
    r
}

/// The settings of the first releases.
pub struct AppConfig {
    pub dns_listen_addr: String,
    pub dns_listen_port: u16,
    pub upstream_dns: Vec<String>,
    pub blocklist_urls: Vec<String>,
    pub custom_blocked_domains: Vec<String>,
    pub custom_allowed_domains: Vec<String>,
    pub protection_enabled: bool,
    pub start_with_windows: bool,
    pub minimize_to_tray: bool,
    pub language: String,
    pub enable_block_notifications: bool,
    pub log_max_entries: usize,
    pub auto_update_blocklist_hours: u64,
    pub last_blocklist_update: Option<String>,
}

impl Default for AppConfig {
    /// The settings of a fresh installation of the first releases.
    fn default() -> (r: Self)
        ensures
            r.dns_listen_addr@ == "127.0.0.1"@,
            r.dns_listen_port == 53,
            texts(r.upstream_dns@) == crate::config::spec_default_upstream(),
            texts(r.blocklist_urls@) == spec_legacy_blocklists(),
            r.custom_blocked_domains@.len() == 0,
            r.custom_allowed_domains@.len() == 0,
            r.protection_enabled,
            r.start_with_windows,
            r.minimize_to_tray,
            r.language@ == "vi"@,
            r.enable_block_notifications,
            r.log_max_entries == 1000,
            r.auto_update_blocklist_hours == 24,
            r.last_blocklist_update is None,
    {
        AppConfig {
            dns_listen_addr: String::from_str("127.0.0.1"),
            dns_listen_port: 53,
            upstream_dns: crate::config::default_upstream_dns(),
            blocklist_urls: legacy_blocklist_urls(),
            custom_blocked_domains: Vec::new(),
            custom_allowed_domains: Vec::new(),
            protection_enabled: true,
            start_with_windows: true,
            minimize_to_tray: true,
            language: String::from_str("vi"),
            enable_block_notifications: true,
            log_max_entries: 1000,
            auto_update_blocklist_hours: 24,
            last_blocklist_update: None,
        }
    }
}

impl AppConfig {
    /// Moves a listener left on port 5353 back to port 53; returns whether it did.
    pub fn normalize_listen_port(&mut self) -> (r: bool)
        ensures
            r == (old(self).dns_listen_port == 5353),
            final(self).dns_listen_port == if r { 53 } else { old(self).dns_listen_port },
    {
        if self.dns_listen_port == 5353 {
            self.dns_listen_port = 53;
            true
        } else {
            false
        }
    }
}

} // verus!
