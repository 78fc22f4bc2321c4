//! A DNS filter and LAN security toolkit: blocklist rules and the DNS wire format,
//! intrusion heuristics over DNS and ARP traffic, quarantine and incident records,
//! and the helpers of the network and file scanners.
use vstd::prelude::*;

pub mod backup;
pub mod blocker;
pub mod config;
pub mod dns;
pub mod i18n;
pub mod logger;
pub mod monitor;
pub mod rammap;
pub mod security;
pub mod text;
pub mod ui_text;

verus! {

} // verus!
