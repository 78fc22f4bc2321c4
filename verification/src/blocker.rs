//! The custom IP and port block rules handed to the platform packet filter, and the
//! decisions taken around them where no filtering engine is available.
use vstd::prelude::*;
use crate::security::address::{parse_ipv4, spec_ipv4};
use crate::text::{chars_of, trim, trim_vec};

verus! {

/// The custom block rules and whether blocking is on.
pub struct WfpBlocker {
    enabled: bool,
    blocked_ips: Vec<String>,
    blocked_ports: Vec<u16>,
}

/// The error of enabling custom rules without a filtering engine.
pub open spec fn no_engine_error() -> Seq<char> {
    "WFP custom IP/port rules are only available on Windows"@
}

impl WfpBlocker {
    /// Whether blocking is on.
    pub closed spec fn on(&self) -> bool {
        self.enabled
    }

    /// The addresses to block.
    pub closed spec fn ips(&self) -> Seq<Seq<char>> {
        crate::config::texts(self.blocked_ips@)
    }

    /// The local ports to block.
    pub closed spec fn ports(&self) -> Seq<u16> {
        self.blocked_ports@
    }

    /// Off, with no rules.
    pub fn new() -> (r: Self)
        ensures
            !r.on(),
            r.ips().len() == 0,
            r.ports().len() == 0,
    {
        WfpBlocker { enabled: false, blocked_ips: Vec::new(), blocked_ports: Vec::new() }
    }

    /// Whether blocking is on.
    pub fn is_enabled(&self) -> (r: bool)
        ensures
            r == self.on(),
    {
        self.enabled
    }

    /// A copy of the addresses to block.
    pub fn get_blocked_ips(&self) -> (r: Vec<String>)
        ensures
            crate::config::texts(r@) == self.ips(),
    {
        let mut out: Vec<String> = Vec::new();
        let mut i: usize = 0;
        while i < self.blocked_ips.len()
            invariant
                i <= self.blocked_ips@.len(),
                out@.len() == i,
                forall|k: int| 0 <= k < i ==> (#[trigger] out@[k])@ == self.blocked_ips@[k]@,
            decreases self.blocked_ips@.len() - i,
        {
            out.push(self.blocked_ips[i].clone());
            i += 1;
        }
        assert(crate::config::texts(out@) =~= crate::config::texts(self.blocked_ips@));
        out
    }

    /// A copy of the ports to block.
    pub fn get_blocked_ports(&self) -> (r: Vec<u16>)
        ensures
            r@ == self.ports(),
    {
        self.blocked_ports.clone()
    }

    /// Replaces the addresses to block.
    pub fn set_blocked_ips(&mut self, ips: Vec<String>)
        ensures
            final(self).ips() == crate::config::texts(ips@),
            final(self).ports() == old(self).ports(),
            final(self).on() == old(self).on(),
    {
        self.blocked_ips = ips;
    }

    /// Replaces the ports to block.
    pub fn set_blocked_ports(&mut self, ports: Vec<u16>)
        ensures
            final(self).ports() == ports@,
            final(self).ips() == old(self).ips(),
            final(self).on() == old(self).on(),
    {
        self.blocked_ports = ports;
    }

    /// Turns blocking on where no filtering engine exists: this succeeds only while
    /// no custom rule is configured, as the DNS filter then does all the blocking.
    pub fn enable(&mut self) -> (r: Result<(), String>)
        ensures
            final(self).ips() == old(self).ips(),
            final(self).ports() == old(self).ports(),
            r is Ok <==> (old(self).ips().len() == 0 && old(self).ports().len() == 0),
            r is Ok ==> final(self).on(),
            r matches Err(e) ==> e@ == no_engine_error() && final(self).on() == old(self).on(),
    {
        if self.blocked_ips.len() != 0 || self.blocked_ports.len() != 0 {
            return Err(String::from_str("WFP custom IP/port rules are only available on Windows"));
        }
        self.enabled = true;
        Ok(())
    }

    /// Turns blocking off.
    pub fn disable(&mut self) -> (r: Result<(), String>)
        ensures
            r is Ok,
            !final(self).on(),
            final(self).ips() == old(self).ips(),
            final(self).ports() == old(self).ports(),
    {
        self.enabled = false;
        Ok(())
    }
}

/// A dotted-quad IPv4 address (surrounding whitespace ignored) as the host-order
/// number the filter conditions take.
pub open spec fn spec_ipv4_host_order(ip: Seq<char>) -> Option<u32> {
    match spec_ipv4(trim(ip)) {
        Some(o) => Some((o[0] * 0x1000000 + o[1] * 0x10000 + o[2] * 0x100 + o[3]) as u32),
        None => None,
    }
}

/// The host-order number of an IPv4 address, or the error naming the text.
pub fn parse_ipv4_host_order(ip: &str) -> (r: Result<u32, String>)
    ensures
        match r {
            Ok(v) => spec_ipv4_host_order(ip@) == Some(v),
            Err(e) => spec_ipv4_host_order(ip@) is None && e@ == "invalid IPv4 address: "@ + ip@,
        },
{
    let c = chars_of(ip);
    let t = trim_vec(c.as_slice());
    match parse_ipv4(t.as_slice()) {
        Some(o) => {
            assert(o@.len() == 4);
            let v: u32 = (o[0] as u32) * 0x1000000 + (o[1] as u32) * 0x10000 + (o[2] as u32) * 0x100 + o[3] as u32;
            Ok(v)
        },
        None => {
            let mut e = String::from_str("invalid IPv4 address: ");
            e.append(ip);
            Err(e)
        },
    }
}

} // verus!
