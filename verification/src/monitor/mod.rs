//! Helpers of the network monitor: vendor lookup, device classification, port risk
//! and service discovery.
use vstd::prelude::*;

pub mod connections;
pub mod diagnostics;
pub mod discovery;
pub mod lan;
pub mod lan_scan;
pub mod oui;
pub mod oui_table;
pub mod ports;

verus! {

} // verus!
