//! Memory tools: the labels of the purge operations, protected processes, and the
//! walk over a process's memory regions that looks for private executable memory.
use vstd::prelude::*;
use crate::text::{chars_of, decimal, eq_str, lower_seq, lower_vec, spec_decimal};

verus! {

/// A memory purge operation.
#[derive(Clone, Copy, Debug, PartialEq, Eq, Structural)]
pub enum EmptyOp {
    WorkingSets,
    SystemWorkingSet,
    ModifiedPageList,
    StandbyList,
    Priority0StandbyList,
}

/// The label of a purge operation.
pub open spec fn op_label(op: EmptyOp) -> Seq<char> {
    match op {
        EmptyOp::WorkingSets => "Empty Working Sets"@,
        EmptyOp::SystemWorkingSet => "Empty System Working Set"@,
        EmptyOp::ModifiedPageList => "Empty Modified Page List"@,
        EmptyOp::StandbyList => "Empty Standby List"@,
        EmptyOp::Priority0StandbyList => "Empty Priority 0 Standby List"@,
    }
}

impl EmptyOp {
    /// The label shown for the operation.
    pub fn label(self) -> (r: &'static str)
        ensures
            r@ == op_label(self),
    {
        match self {
            EmptyOp::WorkingSets => "Empty Working Sets",
            EmptyOp::SystemWorkingSet => "Empty System Working Set",
            EmptyOp::ModifiedPageList => "Empty Modified Page List",
            EmptyOp::StandbyList => "Empty Standby List",
            EmptyOp::Priority0StandbyList => "Empty Priority 0 Standby List",
        }
    }
}

/// No two purge operations share a label.
pub proof fn lemma_op_labels_distinct(a: EmptyOp, b: EmptyOp)
    requires
        a != b,
    ensures
        op_label(a) != op_label(b),
{
    reveal_strlit("Empty Working Sets");
    reveal_strlit("Empty System Working Set");
    reveal_strlit("Empty Modified Page List");
    reveal_strlit("Empty Standby List");
    reveal_strlit("Empty Priority 0 Standby List");
    assert(op_label(a).len() != op_label(b).len() || op_label(a)[6] != op_label(b)[6]);
}

/// The guard flag of a page protection.
pub const PAGE_GUARD: u32 = 0x100;

/// A page protection allows execution (guard flag ignored).
pub open spec fn spec_is_executable(protect: u32) -> bool {
    (protect & !PAGE_GUARD) & (0x10u32 | 0x20u32 | 0x40u32 | 0x80u32) != 0
}

/// A page protection is writable and executable (low protection byte only).
pub open spec fn spec_is_rwx(protect: u32) -> bool {
    (protect & 0xFF) == 0x40 || (protect & 0xFF) == 0x80
}

/// Whether pages with this protection can be executed.
pub fn is_executable(protect: u32) -> (r: bool)
    ensures
        r == spec_is_executable(protect),
{
    let base = protect & !PAGE_GUARD;
    base & (0x10u32 | 0x20u32 | 0x40u32 | 0x80u32) != 0
}

/// Whether pages with this protection are writable and executable.
pub fn is_rwx(protect: u32) -> (r: bool)
    ensures
        r == spec_is_rwx(protect),
{
    let base = protect & 0xFF;
    base == 0x40 || base == 0x80
}

/// How far the memory walk of a process got.
#[derive(Clone, Copy, Debug, PartialEq, Eq, Structural)]
pub enum ScanStatus {
    Checked,
    Skipped,
    AccessDenied,
    Error,
    Partial,
}

/// The coverage of one process by the memory walk.
pub struct ProcessScanCoverage {
    pub pid: u32,
    pub status: ScanStatus,
    pub regions_checked: usize,
    pub detail: String,
}

/// The status a failed region query leaves: only the end-of-address-space error
/// (87) after at least one region counts as a complete walk; a failure before any
/// region is access denied (5) or an error, never checked.
pub open spec fn spec_stop_status(regions_checked: usize, error: u32) -> ScanStatus {
    if regions_checked > 0 && error == 87 {
        ScanStatus::Checked
    } else if regions_checked > 0 {
        ScanStatus::Partial
    } else if error == 5 {
        ScanStatus::AccessDenied
    } else {
        ScanStatus::Error
    }
}

/// The status of a walk that a failed region query ended.
pub fn query_stop_status(regions_checked: usize, error: u32) -> (r: ScanStatus)
    ensures
        r == spec_stop_status(regions_checked, error),
{
    if regions_checked > 0 && error == 87 {
        ScanStatus::Checked
    } else if regions_checked > 0 {
        ScanStatus::Partial
    } else if error == 5 {
        ScanStatus::AccessDenied
    } else {
        ScanStatus::Error
    }
}

/// The address after a region, if the region is non-empty, contains `address` and
/// ends inside the address space.
pub open spec fn spec_next_region(address: usize, base: usize, size: usize) -> Option<usize> {
    if base + size <= usize::MAX && size > 0 && base <= address && base + size > address {
        Some((base + size) as usize)
    } else {
        None
    }
}

/// The address that continues the walk after the region `base`, `size` returned for
/// `address`; none when the region would not move the walk forward or overflows.
pub fn next_region_address(address: usize, base: usize, size: usize) -> (r: Option<usize>)
    ensures
        r == spec_next_region(address, base, size),
{
    match base.checked_add(size) {
        Some(next) => {
            if size > 0 && base <= address && next > address {
                Some(next)
            } else {
                None
            }
        },
        None => None,
    }
}

/// Number of coverage entries with a given status.
pub open spec fn status_count(c: Seq<ProcessScanCoverage>, s: ScanStatus) -> nat
    decreases c.len(),
{
    if c.len() == 0 {
        0
    } else {
        status_count(c.drop_last(), s) + if c.last().status == s {
            1nat
        } else {
            0nat
        }
    }
}

/// Number of processes whose walk ended with status `status`.
pub fn coverage_count(coverage: &[ProcessScanCoverage], status: ScanStatus) -> (r: usize)
    ensures
        r == status_count(coverage@, status),
{
    let mut n: usize = 0;
    let mut i: usize = 0;
    assert(coverage@.subrange(0, 0) =~= Seq::<ProcessScanCoverage>::empty());
    while i < coverage.len()
        invariant
            i <= coverage@.len(),
            n == status_count(coverage@.subrange(0, i as int), status),
            n <= i,
        decreases coverage@.len() - i,
    {
        proof {
            assert(coverage@.subrange(0, i + 1).drop_last() =~= coverage@.subrange(0, i as int));
        }
        if coverage[i].status == status {
            n += 1;
        }
        i += 1;
    }
    assert(coverage@.subrange(0, coverage@.len() as int) =~= coverage@);
    n
}

/// Processes that must never be touched, by executable name.
pub const CRITICAL_PROCESS_NAMES: [&'static str; 12] = [
    "smss.exe",
    "csrss.exe",
    "wininit.exe",
    "services.exe",
    "lsass.exe",
    "svchost.exe",
    "fontdrvhost.exe",
    "dwm.exe",
    "registry",
    "memory compression",
    "shield_ghita.exe",
    "shield_ghita_admin.exe",
];

/// A process is critical: the idle or system process, this process, or one whose
/// name (ignoring ASCII case) is a core Windows or Shield Ghita executable.
pub open spec fn spec_is_critical(pid: u32, name: Seq<char>, self_pid: u32) -> bool {
    pid == 0 || pid == 4 || pid == self_pid || crate::security::file_analyzer::strs_view(
        CRITICAL_PROCESS_NAMES@,
    ).contains(lower_seq(name))
}

/// Whether a process must be left alone; `self_pid` is this process's id.
pub fn is_critical_process(pid: u32, name: &str, self_pid: u32) -> (r: bool)
    ensures
        r == spec_is_critical(pid, name@, self_pid),
{
    if pid == 0 || pid == 4 || pid == self_pid {
        return true;
    }
    let n = chars_of(name);
    let lower = lower_vec(n.as_slice());
    crate::security::file_analyzer::contains_text(&CRITICAL_PROCESS_NAMES, lower.as_slice())
}

/// Lower-case hexadecimal digits of `n`, without leading zeros (`0` for zero).
pub open spec fn hex_digits(n: nat) -> Seq<char>
    decreases n,
{
    if n < 16 {
        seq![crate::security::file_analyzer::payload::hex_digit(n as int)]
    } else {
        hex_digits(n / 16) + seq![crate::security::file_analyzer::payload::hex_digit((n % 16) as int)]
    }
}

fn hex_digits_exec(n: usize) -> (r: Vec<char>)
    ensures
        r@ == hex_digits(n as nat),
    decreases n,
{
    let d: u8 = (n % 16) as u8;
    let c: char = if d < 10 {
        (d + 48) as char
    } else {
        (d + 87) as char
    };
    if n < 16 {
        let mut v: Vec<char> = Vec::new();
        v.push(c);
        v
    } else {
        let mut v = hex_digits_exec(n / 16);
        v.push(c);
        v
    }
}

/// The walk over the memory regions of one process: where it is, how many regions
/// it checked, its status so far, and the private executable regions it counted.
pub struct RegionWalk {
    pub address: usize,
    pub regions_checked: usize,
    pub status: ScanStatus,
    pub detail: String,
    pub exec_regions: usize,
    pub rwx_regions: usize,
}

impl RegionWalk {
    /// A walk at address 0 that counts as partial until it ends properly.
    pub fn new() -> (r: Self)
        ensures
            r.address == 0 && r.regions_checked == 0 && r.exec_regions == 0 && r.rwx_regions == 0,
            r.status == ScanStatus::Partial,
            r.detail@ == "Region query budget exhausted"@,
    {
        RegionWalk {
            address: 0,
            regions_checked: 0,
            status: ScanStatus::Partial,
            detail: String::from_str("Region query budget exhausted"),
            exec_regions: 0,
            rwx_regions: 0,
        }
    }

    /// Ends the walk on a failed region query with Win32 error `error`.
    pub fn query_failed(&mut self, error: u32)
        ensures
            final(self).status == spec_stop_status(old(self).regions_checked, error),
            final(self).detail@ == if final(self).status == ScanStatus::Checked {
                "Reached end of queryable address space"@
            } else {
                "VirtualQueryEx at 0x"@ + hex_digits(old(self).address as nat) + ": Win32 error "@ + spec_decimal(error as nat)
            },
            final(self).regions_checked == old(self).regions_checked,
            final(self).exec_regions == old(self).exec_regions,
            final(self).rwx_regions == old(self).rwx_regions,
    {
        self.status = query_stop_status(self.regions_checked, error);
        if self.status == ScanStatus::Checked {
            self.detail = String::from_str("Reached end of queryable address space");
        } else {
            let mut d = String::from_str("VirtualQueryEx at 0x");
            let h = hex_digits_exec(self.address);
            d.append(crate::text::string_from_chars(h.as_slice()).as_str());
            d.append(": Win32 error ");
            d.append(decimal(error as u128).as_str());
            self.detail = d;
        }
    }

    /// Ends the walk on a region answer of the wrong size.
    pub fn short_answer(&mut self)
        ensures
            final(self).status == if old(self).regions_checked > 0 { ScanStatus::Partial } else { ScanStatus::Error },
            final(self).detail@ == "VirtualQueryEx returned a short structure"@,
            final(self).regions_checked == old(self).regions_checked,
            final(self).exec_regions == old(self).exec_regions,
    {
        self.status = if self.regions_checked > 0 {
            ScanStatus::Partial
        } else {
            ScanStatus::Error
        };
        self.detail = String::from_str("VirtualQueryEx returned a short structure");
    }

    /// Takes the region `base`, `size` answered for the current address: a region
    /// that does not move the walk forward ends it; otherwise it is counted, and when
    /// it is committed private executable memory of at least the requested size
    /// (`counts`) it adds to the findings, as writable-executable too if its
    /// protection says so. Returns whether the walk goes on.
    pub fn region(&mut self, base: usize, size: usize, counts: bool, protect: u32) -> (r: bool)
        requires
            old(self).regions_checked < usize::MAX,
            old(self).exec_regions < usize::MAX,
            old(self).rwx_regions < usize::MAX,
        ensures
            r == spec_next_region(old(self).address, base, size) is Some,
            !r ==> final(self).detail@ == "Invalid, overflowing, or non-advancing memory region"@
                && final(self).address == old(self).address && final(self).regions_checked == old(self).regions_checked
                && final(self).exec_regions == old(self).exec_regions && final(self).rwx_regions == old(self).rwx_regions
                && final(self).status == old(self).status,
            r ==> final(self).address == spec_next_region(old(self).address, base, size)->0
                && final(self).regions_checked == old(self).regions_checked + 1
                && final(self).exec_regions == old(self).exec_regions + if counts { 1int } else { 0int }
                && final(self).rwx_regions == old(self).rwx_regions + if counts && spec_is_rwx(protect) { 1int } else { 0int }
                && final(self).status == old(self).status && final(self).detail == old(self).detail,
    {
        match next_region_address(self.address, base, size) {
            None => {
                self.detail = String::from_str("Invalid, overflowing, or non-advancing memory region");
                false
            },
            Some(next) => {
                self.regions_checked = self.regions_checked + 1;
                if counts {
                    self.exec_regions = self.exec_regions + 1;
                    if is_rwx(protect) {
                        self.rwx_regions = self.rwx_regions + 1;
                    }
                }
                self.address = next;
                true
            },
        }
    }
}

} // verus!
