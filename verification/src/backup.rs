//! Configuration backups: the legacy checksum, the length-prefixed MAC payload, the
//! HMAC-SHA256 that binds a package to its machine, and the checks on restore.
use vstd::prelude::*;
use crate::security::file_analyzer::payload::{hex_lower, hex_text, spec_sha256};
use crate::text::{chars_of, decimal, lower_seq, lower_vec, spec_decimal, trim, trim_end_char, trim_end_char_vec, trim_vec};

verus! {

/// A configuration backup: the settings, the custom rules and known devices, and the
/// integrity data (legacy checksum, machine-bound HMAC when present).
pub struct ShieldGhitaBackupPackage {
    pub app_version: String,
    pub created_at: String,
    pub config_toml: String,
    pub custom_blocked_domains: Vec<String>,
    pub custom_allowed_domains: Vec<String>,
    pub known_devices: Vec<String>,
    pub checksum: u32,
    pub mac: Option<String>,
}

/// Creates and checks configuration backups.
pub struct ConfigBackupManager;

/// The UTF-8 bytes of a text.
pub open spec fn text_bytes(s: Seq<char>) -> Seq<u8> {
    vstd::utf8::encode_utf8(s)
}

/// The texts of a list of strings.
pub open spec fn texts(v: Seq<String>) -> Seq<Seq<char>> {
    Seq::new(v.len(), |i: int| v[i]@)
}

/// One byte folded into the legacy checksum.
pub open spec fn ck_byte(sum: u32, b: u8) -> u32 {
    sum.wrapping_add(b as u32).wrapping_mul(31)
}

/// Bytes folded into the legacy checksum, in order.
pub open spec fn ck_bytes(sum: u32, bytes: Seq<u8>) -> u32
    decreases bytes.len(),
{
    if bytes.len() == 0 {
        sum
    } else {
        ck_byte(ck_bytes(sum, bytes.drop_last()), bytes.last())
    }
}

/// A length-prefixed field folded into the legacy checksum: its length (truncated to
/// 32 bits), then its bytes.
pub open spec fn ck_feed(sum: u32, bytes: Seq<u8>) -> u32 {
    ck_bytes(sum.wrapping_add(bytes.len() as u32).wrapping_mul(31), bytes)
}

/// Texts folded into the legacy checksum, in order.
pub open spec fn ck_list(sum: u32, items: Seq<Seq<char>>) -> u32
    decreases items.len(),
{
    if items.len() == 0 {
        sum
    } else {
        ck_feed(ck_list(sum, items.drop_last()), text_bytes(items.last()))
    }
}

/// The legacy checksum: the configuration, then the blocked, allowed and device
/// entries, each length-prefixed.
pub open spec fn spec_checksum(cfg: Seq<char>, entries: Seq<Seq<char>>) -> u32 {
    ck_list(ck_feed(0, text_bytes(cfg)), entries)
}

/// The eight little-endian bytes of `n`.
pub open spec fn le_u64(n: u64) -> Seq<u8> {
    seq![
        (n % 0x100) as u8,
        (n / 0x100 % 0x100) as u8,
        (n / 0x10000 % 0x100) as u8,
        (n / 0x1000000 % 0x100) as u8,
        (n / 0x100000000 % 0x100) as u8,
        (n / 0x10000000000 % 0x100) as u8,
        (n / 0x1000000000000 % 0x100) as u8,
        (n / 0x100000000000000 % 0x100) as u8,
    ]
}

/// A field framed by its 64-bit little-endian length.
pub open spec fn framed(bytes: Seq<u8>) -> Seq<u8> {
    le_u64(bytes.len() as u64) + bytes
}

/// Texts framed one after the other.
pub open spec fn framed_list(items: Seq<Seq<char>>) -> Seq<u8>
    decreases items.len(),
{
    if items.len() == 0 {
        Seq::empty()
    } else {
        framed_list(items.drop_last()) + framed(text_bytes(items.last()))
    }
}

/// The message the MAC covers: version, creation time, configuration, then every
/// blocked, allowed and device entry, each framed by its length.
pub open spec fn spec_mac_payload(cfg: Seq<char>, entries: Seq<Seq<char>>, created_at: Seq<char>, app_version: Seq<char>) -> Seq<u8> {
    framed(text_bytes(app_version)) + framed(text_bytes(created_at)) + framed(text_bytes(cfg))
        + framed_list(entries)
}

/// The HMAC key block: the key, or its SHA-256 when longer than 64 bytes, padded with
/// zeros to 64 bytes.
pub open spec fn key_block(key: Seq<u8>) -> Seq<u8> {
    let k = if key.len() > 64 {
        spec_sha256(key)
    } else {
        key
    };
    Seq::new(64, |i: int| if i < k.len() { k[i] } else { 0u8 })
}

/// The key block XOR-ed with a pad byte.
pub open spec fn padded(block: Seq<u8>, pad: u8) -> Seq<u8> {
    Seq::new(64, |i: int| block[i] ^ pad)
}

/// HMAC-SHA256 as RFC 2104 defines it.
pub open spec fn spec_hmac_sha256(key: Seq<u8>, msg: Seq<u8>) -> Seq<u8> {
    let b = key_block(key);
    spec_sha256(padded(b, 0x5c) + spec_sha256(padded(b, 0x36) + msg))
}

/// Folds `bytes` into the checksum, length first.
fn ck_feed_exec(sum: u32, bytes: &[u8]) -> (r: u32)
    ensures
        r == ck_feed(sum, bytes@),
{
    let mut s: u32 = sum.wrapping_add(bytes.len() as u32).wrapping_mul(31);
    let mut i: usize = 0;
    assert(bytes@.subrange(0, 0) =~= Seq::<u8>::empty());
    while i < bytes.len()
        invariant
            i <= bytes@.len(),
            s == ck_bytes(sum.wrapping_add(bytes@.len() as u32).wrapping_mul(31), bytes@.subrange(0, i as int)),
        decreases bytes@.len() - i,
    {
        proof {
            assert(bytes@.subrange(0, i + 1).drop_last() =~= bytes@.subrange(0, i as int));
        }
        s = s.wrapping_add(bytes[i] as u32).wrapping_mul(31);
        i += 1;
    }
    assert(bytes@.subrange(0, bytes@.len() as int) =~= bytes@);
    s
}

/// The blocked, allowed and device entries, in that order.
pub open spec fn all_entries(blocked: Seq<String>, allowed: Seq<String>, devices: Seq<String>) -> Seq<Seq<char>> {
    texts(blocked) + texts(allowed) + texts(devices)
}

fn entries_of<'a>(blocked: &'a [String], allowed: &'a [String], devices: &'a [String]) -> (r: Vec<&'a str>)
    ensures
        r@.len() == blocked@.len() + allowed@.len() + devices@.len(),
        forall|i: int| 0 <= i < r@.len() ==> (#[trigger] r@[i])@ == all_entries(blocked@, allowed@, devices@)[i],
{
    let mut out: Vec<&str> = Vec::new();
    let mut i: usize = 0;
    while i < blocked.len()
        invariant
            i <= blocked@.len(),
            out@.len() == i,
            forall|k: int| 0 <= k < i ==> (#[trigger] out@[k])@ == blocked@[k]@,
        decreases blocked@.len() - i,
    {
        out.push(blocked[i].as_str());
        i += 1;
    }
    let mut j: usize = 0;
    while j < allowed.len()
        invariant
            j <= allowed@.len(),
            out@.len() == blocked@.len() + j,
            forall|k: int| 0 <= k < blocked@.len() ==> (#[trigger] out@[k])@ == blocked@[k]@,
            forall|k: int| 0 <= k < j ==> (#[trigger] out@[blocked@.len() + k])@ == allowed@[k]@,
        decreases allowed@.len() - j,
    {
        out.push(allowed[j].as_str());
        j += 1;
    }
    let mut d: usize = 0;
    while d < devices.len()
        invariant
            d <= devices@.len(),
            out@.len() == blocked@.len() + allowed@.len() + d,
            forall|k: int| 0 <= k < blocked@.len() ==> (#[trigger] out@[k])@ == blocked@[k]@,
            forall|k: int| 0 <= k < allowed@.len() ==> (#[trigger] out@[blocked@.len() + k])@ == allowed@[k]@,
            forall|k: int| 0 <= k < d ==> (#[trigger] out@[blocked@.len() + allowed@.len() + k])@ == devices@[k]@,
        decreases devices@.len() - d,
    {
        out.push(devices[d].as_str());
        d += 1;
    }
    let ghost all = all_entries(blocked@, allowed@, devices@);
    assert forall|i: int| 0 <= i < out@.len() implies (#[trigger] out@[i])@ == all[i] by {
        if i < blocked@.len() {
        } else if i < blocked@.len() + allowed@.len() {
            assert(out@[blocked@.len() + (i - blocked@.len())]@ == allowed@[i - blocked@.len()]@);
        } else {
            assert(out@[blocked@.len() + allowed@.len() + (i - blocked@.len() - allowed@.len())]@
                == devices@[i - blocked@.len() - allowed@.len()]@);
        }
    }
    out
}

fn push_le_u64(out: &mut Vec<u8>, n: u64)
    ensures
        final(out)@ == old(out)@ + le_u64(n),
{
    let ghost before = out@;
    out.push((n % 0x100) as u8);
    out.push((n / 0x100 % 0x100) as u8);
    out.push((n / 0x10000 % 0x100) as u8);
    out.push((n / 0x1000000 % 0x100) as u8);
    out.push((n / 0x100000000 % 0x100) as u8);
    out.push((n / 0x10000000000 % 0x100) as u8);
    out.push((n / 0x1000000000000 % 0x100) as u8);
    out.push((n / 0x100000000000000 % 0x100) as u8);
    assert(out@ =~= before + le_u64(n));
}

pub(crate) fn push_bytes(out: &mut Vec<u8>, bytes: &[u8])
    ensures
        final(out)@ == old(out)@ + bytes@,
{
    let ghost before = out@;
    let mut i: usize = 0;
    while i < bytes.len()
        invariant
            i <= bytes@.len(),
            out@ == before + bytes@.subrange(0, i as int),
        decreases bytes@.len() - i,
    {
        out.push(bytes[i]);
        i += 1;
        assert(out@ =~= before + bytes@.subrange(0, i as int));
    }
    assert(bytes@.subrange(0, bytes@.len() as int) =~= bytes@);
}

fn push_framed(out: &mut Vec<u8>, s: &str)
    ensures
        final(out)@ == old(out)@ + framed(text_bytes(s@)),
{
    let bytes = s.as_bytes();
    push_le_u64(out, bytes.len() as u64);
    push_bytes(out, bytes);
    assert(final(out)@ =~= old(out)@ + framed(text_bytes(s@)));
}

/// The length-prefixed message that the MAC covers: version, creation time,
/// configuration, then each blocked, allowed and device entry. The length prefixes
/// keep different splits of the same characters apart.
pub fn mac_payload(
    cfg_toml: &str,
    blocked: &[String],
    allowed: &[String],
    devices: &[String],
    created_at: &str,
    app_version: &str,
) -> (r: Vec<u8>)
    ensures
        r@ == spec_mac_payload(cfg_toml@, all_entries(blocked@, allowed@, devices@), created_at@, app_version@),
{
    let entries = entries_of(blocked, allowed, devices);
    let ghost all = all_entries(blocked@, allowed@, devices@);
    let mut msg: Vec<u8> = Vec::new();
    push_framed(&mut msg, app_version);
    push_framed(&mut msg, created_at);
    push_framed(&mut msg, cfg_toml);
    let ghost head = msg@;
    let mut i: usize = 0;
    assert(all.subrange(0, 0) =~= Seq::<Seq<char>>::empty());
    while i < entries.len()
        invariant
            i <= entries@.len(),
            entries@.len() == all.len(),
            forall|k: int| 0 <= k < entries@.len() ==> (#[trigger] entries@[k])@ == all[k],
            msg@ == head + framed_list(all.subrange(0, i as int)),
        decreases entries@.len() - i,
    {
        proof {
            assert(all.subrange(0, i + 1).drop_last() =~= all.subrange(0, i as int));
        }
        push_framed(&mut msg, entries[i]);
        i += 1;
        assert(msg@ =~= head + framed_list(all.subrange(0, i as int)));
    }
    assert(all.subrange(0, all.len() as int) =~= all);
    msg
}

/// HMAC-SHA256 of `msg` under `key`.
pub fn hmac_sha256(key: &[u8], msg: &[u8]) -> (r: Vec<u8>)
    ensures
        r@ == spec_hmac_sha256(key@, msg@),
{
    let hashed: Vec<u8>;
    let k: &[u8] = if key.len() > 64 {
        hashed = crate::security::file_analyzer::payload::sha256_digest(key);
        hashed.as_slice()
    } else {
        key
    };
    let ghost kk = if key@.len() > 64 {
        spec_sha256(key@)
    } else {
        key@
    };
    assert(k@ == kk);
    let mut ipad: Vec<u8> = Vec::new();
    let mut opad: Vec<u8> = Vec::new();
    let mut i: usize = 0;
    while i < 64
        invariant
            i <= 64,
            k@ == kk,
            kk == (if key@.len() > 64 { spec_sha256(key@) } else { key@ }),
            k@.len() <= 64,
            ipad@.len() == i,
            opad@.len() == i,
            forall|j: int| 0 <= j < i ==> #[trigger] ipad@[j] == key_block(key@)[j] ^ 0x36u8,
            forall|j: int| 0 <= j < i ==> #[trigger] opad@[j] == key_block(key@)[j] ^ 0x5cu8,
        decreases 64 - i,
    {
        let kb: u8 = if i < k.len() {
            k[i]
        } else {
            0
        };
        assert(key_block(key@)[i as int] == kb);
        ipad.push(kb ^ 0x36);
        opad.push(kb ^ 0x5c);
        i += 1;
    }
    assert(ipad@ =~= padded(key_block(key@), 0x36));
    assert(opad@ =~= padded(key_block(key@), 0x5c));
    let mut inner_msg = ipad;
    push_bytes(&mut inner_msg, msg);
    let inner = crate::security::file_analyzer::payload::sha256_digest(inner_msg.as_slice());
    let mut outer_msg = opad;
    push_bytes(&mut outer_msg, inner.as_slice());
    crate::security::file_analyzer::payload::sha256_digest(outer_msg.as_slice())
}

/// The MAC key material of a machine: its machine GUID when one is known (ends
/// trimmed of NULs and whitespace, and not empty), otherwise host and user names.
pub open spec fn spec_key_material(guid: Option<Seq<char>>, host: Option<Seq<char>>, user: Option<Seq<char>>) -> Seq<u8> {
    let g = match guid {
        Some(x) => trim(trim_end_char(x, '\0')),
        None => Seq::empty(),
    };
    if g.len() > 0 {
        text_bytes("SG-BACKUP-MAC-v1|MachineGuid|"@) + text_bytes(g)
    } else {
        text_bytes("SG-BACKUP-MAC-v1|fallback|"@) + text_bytes(
            match host {
                Some(h) => h,
                None => "unknown-host"@,
            },
        ) + text_bytes("|"@) + text_bytes(
            match user {
                Some(u) => u,
                None => "unknown-user"@,
            },
        )
    }
}

/// The MAC key of this machine, from its machine GUID if the registry gave one, else
/// from the host and user names (each defaulted when unknown).
pub fn machine_key_material(guid: Option<&str>, host: Option<&str>, user: Option<&str>) -> (r: Vec<u8>)
    ensures
        r@ == spec_key_material(
            match guid {
                Some(g) => Some(g@),
                None => None,
            },
            match host {
                Some(h) => Some(h@),
                None => None,
            },
            match user {
                Some(u) => Some(u@),
                None => None,
            },
        ),
{
    let mut material: Vec<u8> = Vec::new();
    let g: Vec<char> = match guid {
        Some(x) => {
            let c = chars_of(x);
            let t = trim_end_char_vec(c.as_slice(), '\0');
            trim_vec(t.as_slice())
        },
        None => Vec::new(),
    };
    if g.len() > 0 {
        push_bytes(&mut material, "SG-BACKUP-MAC-v1|MachineGuid|".as_bytes());
        let gs = crate::text::string_from_chars(g.as_slice());
        push_bytes(&mut material, gs.as_str().as_bytes());
    } else {
        push_bytes(&mut material, "SG-BACKUP-MAC-v1|fallback|".as_bytes());
        let h: &str = match host {
            Some(h) => h,
            None => "unknown-host",
        };
        push_bytes(&mut material, h.as_bytes());
        push_bytes(&mut material, "|".as_bytes());
        let u: &str = match user {
            Some(u) => u,
            None => "unknown-user",
        };
        push_bytes(&mut material, u.as_bytes());
    }
    material
}

/// Why a backup package was refused.
#[derive(Clone, Copy, Debug, PartialEq, Eq, Structural)]
pub enum BackupRejection {
    /// The legacy checksum does not match the content.
    ChecksumMismatch,
    /// The HMAC does not match the content under this machine's key.
    MacMismatch,
}

impl BackupRejection {
    /// The error text of the refusal.
    pub fn message(&self) -> (r: &'static str)
        ensures
            r@ == match *self {
                BackupRejection::ChecksumMismatch => "Backup checksum mismatch — the file is corrupted or was modified"@,
                BackupRejection::MacMismatch => "Backup HMAC verification failed — file was modified or was created on another machine"@,
            },
    {
        match self {
            BackupRejection::ChecksumMismatch => "Backup checksum mismatch — the file is corrupted or was modified",
            BackupRejection::MacMismatch => "Backup HMAC verification failed — file was modified or was created on another machine",
        }
    }
}

/// The MAC of a package's content under `key`, in hexadecimal.
pub open spec fn spec_package_mac(key: Seq<u8>, cfg: Seq<char>, entries: Seq<Seq<char>>, created_at: Seq<char>, app_version: Seq<char>) -> Seq<char> {
    hex_text(spec_hmac_sha256(key, spec_mac_payload(cfg, entries, created_at, app_version)))
}

/// A package passes: its checksum matches, and its MAC, when present, matches in any
/// letter case.
pub open spec fn package_check(p: ShieldGhitaBackupPackage, key: Seq<u8>) -> Result<(), BackupRejection> {
    let entries = all_entries(p.custom_blocked_domains@, p.custom_allowed_domains@, p.known_devices@);
    if spec_checksum(p.config_toml@, entries) != p.checksum {
        Err(BackupRejection::ChecksumMismatch)
    } else {
        match p.mac {
            Some(m) => if lower_seq(m@) == lower_seq(
                spec_package_mac(key, p.config_toml@, entries, p.created_at@, p.app_version@),
            ) {
                Ok(())
            } else {
                Err(BackupRejection::MacMismatch)
            },
            None => Ok(()),
        }
    }
}

fn copy_strings(v: &[String]) -> (r: Vec<String>)
    ensures
        r@ == v@,
{
    let mut out: Vec<String> = Vec::new();
    let mut i: usize = 0;
    while i < v.len()
        invariant
            i <= v@.len(),
            out@ == v@.subrange(0, i as int),
        decreases v@.len() - i,
    {
        out.push(v[i].clone());
        i += 1;
        assert(out@ =~= v@.subrange(0, i as int));
    }
    assert(v@.subrange(0, v@.len() as int) =~= v@);
    out
}

impl ConfigBackupManager {
    /// The legacy length-prefixed byte checksum; it detects corruption, it is no MAC.
    pub fn checksum(cfg_toml: &str, blocked: &[String], allowed: &[String], devices: &[String]) -> (r: u32)
        ensures
            r == spec_checksum(cfg_toml@, all_entries(blocked@, allowed@, devices@)),
    {
        let entries = entries_of(blocked, allowed, devices);
        let ghost all = all_entries(blocked@, allowed@, devices@);
        let mut sum = ck_feed_exec(0, cfg_toml.as_bytes());
        let ghost start = sum;
        let mut i: usize = 0;
        assert(all.subrange(0, 0) =~= Seq::<Seq<char>>::empty());
        while i < entries.len()
            invariant
                i <= entries@.len(),
                entries@.len() == all.len(),
                forall|k: int| 0 <= k < entries@.len() ==> (#[trigger] entries@[k])@ == all[k],
                sum == ck_list(start, all.subrange(0, i as int)),
            decreases entries@.len() - i,
        {
            proof {
                assert(all.subrange(0, i + 1).drop_last() =~= all.subrange(0, i as int));
            }
            sum = ck_feed_exec(sum, entries[i].as_bytes());
            i += 1;
        }
        assert(all.subrange(0, all.len() as int) =~= all);
        sum
    }

    /// The hexadecimal HMAC-SHA256, under `key`, of the package content.
    pub fn compute_mac(
        key: &[u8],
        cfg_toml: &str,
        blocked: &[String],
        allowed: &[String],
        devices: &[String],
        created_at: &str,
        app_version: &str,
    ) -> (r: String)
        ensures
            r@ == spec_package_mac(key@, cfg_toml@, all_entries(blocked@, allowed@, devices@), created_at@, app_version@),
    {
        let msg = mac_payload(cfg_toml, blocked, allowed, devices, created_at, app_version);
        let mac = hmac_sha256(key, msg.as_slice());
        hex_lower(mac.as_slice())
    }

    /// A package of the given content with its checksum and its MAC under `key`.
    pub fn build_package(
        key: &[u8],
        cfg_toml: &str,
        blocked: &[String],
        allowed: &[String],
        devices: &[String],
        created_at: &str,
        app_version: &str,
    ) -> (r: ShieldGhitaBackupPackage)
        ensures
            r.app_version@ == app_version@,
            r.created_at@ == created_at@,
            r.config_toml@ == cfg_toml@,
            r.custom_blocked_domains@ == blocked@,
            r.custom_allowed_domains@ == allowed@,
            r.known_devices@ == devices@,
            r.checksum == spec_checksum(cfg_toml@, all_entries(blocked@, allowed@, devices@)),
            r.mac matches Some(m) && m@ == spec_package_mac(
                key@,
                cfg_toml@,
                all_entries(blocked@, allowed@, devices@),
                created_at@,
                app_version@,
            ),
    {
        let sum = Self::checksum(cfg_toml, blocked, allowed, devices);
        let mac = Self::compute_mac(key, cfg_toml, blocked, allowed, devices, created_at, app_version);
        ShieldGhitaBackupPackage {
            app_version: String::from_str(app_version),
            created_at: String::from_str(created_at),
            config_toml: String::from_str(cfg_toml),
            custom_blocked_domains: copy_strings(blocked),
            custom_allowed_domains: copy_strings(allowed),
            known_devices: copy_strings(devices),
            checksum: sum,
            mac: Some(mac),
        }
    }

    /// Checks a package read back from disk: the checksum must match, and a MAC, when
    /// the package has one, must match under `key` (legacy packages have none).
    pub fn check_package(pkg: &ShieldGhitaBackupPackage, key: &[u8]) -> (r: Result<(), BackupRejection>)
        ensures
            r == package_check(*pkg, key@),
    {
        let sum = Self::checksum(
            pkg.config_toml.as_str(),
            pkg.custom_blocked_domains.as_slice(),
            pkg.custom_allowed_domains.as_slice(),
            pkg.known_devices.as_slice(),
        );
        if sum != pkg.checksum {
            return Err(BackupRejection::ChecksumMismatch);
        }
        match &pkg.mac {
            Some(expected) => {
                let actual = Self::compute_mac(
                    key,
                    pkg.config_toml.as_str(),
                    pkg.custom_blocked_domains.as_slice(),
                    pkg.custom_allowed_domains.as_slice(),
                    pkg.known_devices.as_slice(),
                    pkg.created_at.as_str(),
                    pkg.app_version.as_str(),
                );
                let e = chars_of(expected.as_str());
                let a = chars_of(actual.as_str());
                let el = lower_vec(e.as_slice());
                let al = lower_vec(a.as_slice());
                if crate::text::eq_chars(el.as_slice(), al.as_slice()) {
                    Ok(())
                } else {
                    Err(BackupRejection::MacMismatch)
                }
            },
            None => Ok(()),
        }
    }
}

/// `n`, below 1000, in three digits.
pub open spec fn three_digits(n: nat) -> Seq<char> {
    if n < 10 {
        "00"@ + spec_decimal(n)
    } else if n < 100 {
        "0"@ + spec_decimal(n)
    } else {
        spec_decimal(n)
    }
}

/// The file name of a backup: stamp, process id and milliseconds, and the attempt
/// number after the first.
pub fn backup_file_name(timestamp: &str, pid: u32, millis: u32, attempt: u32) -> (r: String)
    requires
        millis < 1000,
    ensures
        r@ == "shieldghita_backup_"@ + timestamp@ + "_"@ + spec_decimal(pid as nat) + "_"@ + three_digits(millis as nat)
            + if attempt == 0 {
            Seq::<char>::empty()
        } else {
            "_"@ + spec_decimal(attempt as nat)
        } + ".sgconfig"@,
{
    let mut out = String::from_str("shieldghita_backup_");
    out.append(timestamp);
    out.append("_");
    out.append(decimal(pid as u128).as_str());
    out.append("_");
    if millis < 10 {
        out.append("00");
    } else if millis < 100 {
        out.append("0");
    }
    out.append(decimal(millis as u128).as_str());
    if attempt != 0 {
        out.append("_");
        out.append(decimal(attempt as u128).as_str());
    }
    out.append(".sgconfig");
    out
}

} // verus!
