use shield_ghita::backup::{
    backup_file_name, hmac_sha256, mac_payload, machine_key_material, BackupRejection,
    ConfigBackupManager,
};
use shield_ghita::config::{detect_first_run_language, installer_language, map_ui_language_to_code, AppConfig};
use shield_ghita::i18n::{code_to_index, index_to_code, tr4_with, tr_with, EN, RU, VI, ZH};
use shield_ghita::logger::{is_expired_log, record_debug_text, record_str_text, AppLogBuffer};
use shield_ghita::rammap::{
    coverage_count, is_critical_process, is_executable, is_rwx, next_region_address,
    query_stop_status, EmptyOp, ProcessScanCoverage, RegionWalk, ScanStatus, PAGE_GUARD,
};
use shield_ghita::ui_text::{cached_text_changed, sat_i32_u64, sat_i32_usize, update_tray_menu_language};

#[test]
fn reports_change_only_when_text_differs() {
    let mut slot = String::new();
    assert!(cached_text_changed(&mut slot, "a"));
    assert_eq!(slot, "a");
    assert!(!cached_text_changed(&mut slot, "a"));
    assert!(cached_text_changed(&mut slot, "b"));
    assert_eq!(slot, "b");
}

#[test]
fn saturating_counters_clamp_at_i32_max() {
    assert_eq!(sat_i32_usize(7), 7);
    assert_eq!(sat_i32_usize(usize::MAX), i32::MAX);
    assert_eq!(sat_i32_u64(1u64 << 40), i32::MAX);
}

#[test]
fn tray_labels_follow_language() {
    assert_eq!(update_tray_menu_language(EN).2, "Quit Completely");
    assert_eq!(update_tray_menu_language(VI).0, "Mở giao diện Shield Ghita");
}

#[test]
fn hmac_is_deterministic_and_key_sensitive() {
    let msg = b"payload";
    let a = hmac_sha256(b"key-one", msg);
    let b = hmac_sha256(b"key-one", msg);
    let c = hmac_sha256(b"key-two", msg);
    assert_eq!(a, b);
    assert_ne!(a, c);
}

#[test]
fn hmac_matches_rfc4231_case_two() {
    let mac = hmac_sha256(b"Jefe", b"what do ya want for nothing?");
    let hex: String = mac.iter().map(|b| format!("{:02x}", b)).collect();
    assert_eq!(hex, "5bdcc146bf60754e6a042426089575c75a003f089d2739839dec58b964ec3843");
}

#[test]
fn mac_payload_length_prefixes_prevent_concatenation_ambiguity() {
    let p1 = mac_payload("ab", &["c".into()], &[], &[], "t", "v");
    let p2 = mac_payload("a", &["bc".into()], &[], &[], "t", "v");
    assert_ne!(p1, p2);
}

#[test]
fn mac_payload_frames_each_field() {
    let p = mac_payload("c", &[], &[], &[], "t", "v");
    let mut expected = Vec::new();
    for field in ["v", "t", "c"] {
        expected.extend_from_slice(&(field.len() as u64).to_le_bytes());
        expected.extend_from_slice(field.as_bytes());
    }
    assert_eq!(p, expected);
}

#[test]
fn mac_detects_tampered_config() {
    let key = machine_key_material(None, None, None);
    let blocked: Vec<String> = vec![];
    let allowed: Vec<String> = vec![];
    let devices: Vec<String> = vec![];
    let cfg = "language = \"en\"\n";
    let created = "2026-01-01T00:00:00+00:00";
    let ver = "0.1.1-alpha";
    let good = ConfigBackupManager::compute_mac(&key, cfg, &blocked, &allowed, &devices, created, ver);
    let evil = ConfigBackupManager::compute_mac(
        &key,
        "language = \"vi\"\n",
        &blocked,
        &allowed,
        &devices,
        created,
        ver,
    );
    assert_ne!(good, evil);
}

#[test]
fn machine_key_prefers_guid_and_defaults_names() {
    assert_eq!(
        machine_key_material(Some(" abc\0"), Some("h"), Some("u")),
        b"SG-BACKUP-MAC-v1|MachineGuid|abc".to_vec()
    );
    assert_eq!(
        machine_key_material(None, Some("h"), None),
        b"SG-BACKUP-MAC-v1|fallback|h|unknown-user".to_vec()
    );
}

#[test]
fn built_package_passes_check_and_tampering_is_refused() {
    let key = b"machine-key".to_vec();
    let blocked = vec!["ads.example.com".to_string()];
    let allowed: Vec<String> = vec![];
    let devices: Vec<String> = vec![];
    let mut pkg = ConfigBackupManager::build_package(
        &key,
        "language = \"en\"\n",
        &blocked,
        &allowed,
        &devices,
        "2026-01-01T00:00:00+00:00",
        "0.1.1-alpha",
    );
    assert_eq!(ConfigBackupManager::check_package(&pkg, &key), Ok(()));
    assert_eq!(
        ConfigBackupManager::check_package(&pkg, b"other-machine"),
        Err(BackupRejection::MacMismatch)
    );
    pkg.mac = None;
    assert_eq!(ConfigBackupManager::check_package(&pkg, b"other-machine"), Ok(()));
    pkg.config_toml = "language = \"vi\"\n".to_string();
    assert_eq!(
        ConfigBackupManager::check_package(&pkg, &key),
        Err(BackupRejection::ChecksumMismatch)
    );
    assert!(BackupRejection::ChecksumMismatch.message().contains("checksum"));
}

#[test]
fn backup_file_name_pads_millis_and_adds_attempt() {
    assert_eq!(
        backup_file_name("20260101_000000", 42, 7, 0),
        "shieldghita_backup_20260101_000000_42_007.sgconfig"
    );
    assert_eq!(
        backup_file_name("20260101_000000", 42, 123, 2),
        "shieldghita_backup_20260101_000000_42_123_2.sgconfig"
    );
}

#[test]
fn test_ui_language_mapping() {
    assert_eq!(map_ui_language_to_code(0x042a), "vi");
    assert_eq!(map_ui_language_to_code(0x0804), "zh");
    assert_eq!(map_ui_language_to_code(0x0c04), "zh");
    assert_eq!(map_ui_language_to_code(0x0409), "en");
    assert_eq!(map_ui_language_to_code(0x0419), "en");
    assert_eq!(map_ui_language_to_code(0x0000), "en");
}

#[test]
fn test_detect_first_run_language_returns_supported_code() {
    let code = detect_first_run_language(None, 0x0409);
    assert!(code == "vi" || code == "en" || code == "zh");
}

#[test]
fn installer_choice_wins_over_ui_language() {
    assert_eq!(installer_language(" vi\0"), Some("vi".to_string()));
    assert_eq!(installer_language("fr"), None);
    assert_eq!(detect_first_run_language(Some("vi"), 0x0409), "vi");
    assert_eq!(detect_first_run_language(Some("xx"), 0x0804), "zh");
}

#[test]
fn default_config_normalizes_port_zero() {
    let mut cfg = AppConfig::default();
    assert_eq!(cfg.dns_listen_port, 53);
    assert!(!cfg.normalize_listen_port());
    cfg.dns_listen_port = 5353;
    assert!(cfg.normalize_listen_port());
    assert_eq!(cfg.dns_listen_port, 53);
}

#[test]
fn test_language_code_mapping_roundtrip() {
    assert_eq!(code_to_index("vi"), VI);
    assert_eq!(code_to_index("en"), EN);
    assert_eq!(code_to_index("zh"), ZH);
    assert_eq!(code_to_index("ru"), RU);
    assert_eq!(code_to_index("fr"), VI);
    assert_eq!(code_to_index(""), VI);
    assert_eq!(index_to_code(VI), "vi");
    assert_eq!(index_to_code(EN), "en");
    assert_eq!(index_to_code(ZH), "zh");
    assert_eq!(index_to_code(RU), "ru");
    assert_ne!(VI, EN);
    assert_ne!(EN, ZH);
    assert_ne!(ZH, RU);
}

#[test]
fn test_tr_with_selects_requested_language() {
    assert_eq!(tr_with(VI, "Xin chào", "Hello", "你好"), "Xin chào");
    assert_eq!(tr_with(EN, "Xin chào", "Hello", "你好"), "Hello");
    assert_eq!(tr_with(ZH, "Xin chào", "Hello", "你好"), "你好");
    assert_eq!(tr_with(RU, "Xin chào", "Hello", "你好"), "Hello");
    assert_eq!(tr_with(9, "Xin chào", "Hello", "你好"), "Xin chào");

    assert_eq!(tr4_with(VI, "Xin chào", "Hello", "你好", "Привет"), "Xin chào");
    assert_eq!(tr4_with(EN, "Xin chào", "Hello", "你好", "Привет"), "Hello");
    assert_eq!(tr4_with(ZH, "Xin chào", "Hello", "你好", "Привет"), "你好");
    assert_eq!(tr4_with(RU, "Xin chào", "Hello", "你好", "Привет"), "Привет");
}

#[test]
fn query_failures_never_count_as_checked() {
    assert_eq!(query_stop_status(0, 5), ScanStatus::AccessDenied);
    assert_eq!(query_stop_status(0, 87), ScanStatus::Error);
    assert_eq!(query_stop_status(5, 5), ScanStatus::Partial);
    assert_eq!(query_stop_status(5, 6), ScanStatus::Partial);
    assert_eq!(query_stop_status(5, 87), ScanStatus::Checked);
}

#[test]
fn region_walk_requires_forward_progress_without_overflow() {
    assert_eq!(next_region_address(4096, 4096, 4096), Some(8192));
    assert_eq!(next_region_address(4096, 0, 8192), Some(8192));
    assert_eq!(next_region_address(4096, 8192, 4096), None);
    assert_eq!(next_region_address(4096, 4096, 0), None);
    assert_eq!(next_region_address(4096, 0, 4096), None);
    assert_eq!(next_region_address(usize::MAX, usize::MAX, 1), None);
}

#[test]
fn region_walk_counts_executable_regions() {
    let mut walk = RegionWalk::new();
    assert!(walk.region(0, 4096, true, 0x40));
    assert!(walk.region(4096, 4096, true, 0x20));
    assert!(!walk.region(0, 4096, true, 0x04));
    assert_eq!(walk.exec_regions, 2);
    assert_eq!(walk.rwx_regions, 1);
    walk.query_failed(87);
    assert_eq!(walk.status, ScanStatus::Checked);
}

#[test]
fn empty_report_has_no_checked_processes() {
    let coverage: Vec<ProcessScanCoverage> = Vec::new();
    assert_eq!(coverage_count(&coverage, ScanStatus::Checked), 0);
    let one = vec![ProcessScanCoverage {
        pid: 1,
        status: ScanStatus::Checked,
        regions_checked: 3,
        detail: String::new(),
    }];
    assert_eq!(coverage_count(&one, ScanStatus::Checked), 1);
    assert_eq!(coverage_count(&one, ScanStatus::Error), 0);
}

#[test]
fn test_empty_op_labels_unique() {
    let ops = [
        EmptyOp::WorkingSets,
        EmptyOp::SystemWorkingSet,
        EmptyOp::ModifiedPageList,
        EmptyOp::StandbyList,
        EmptyOp::Priority0StandbyList,
    ];
    let mut labels: Vec<_> = ops.iter().map(|o| o.label()).collect();
    labels.sort();
    labels.dedup();
    assert_eq!(labels.len(), 5);
}

#[test]
fn test_executable_protect_classification() {
    let page_execute_read: u32 = 0x20;
    let page_execute_readwrite: u32 = 0x40;
    assert!(is_executable(page_execute_readwrite));
    assert!(is_executable(page_execute_read));
    assert!(!is_executable(0x04));
    assert!(is_rwx(page_execute_readwrite | PAGE_GUARD));
    assert!(!is_rwx(page_execute_read));
}

#[test]
fn test_critical_process_whitelist() {
    let self_pid = 4242;
    assert!(is_critical_process(0, "System Idle Process", self_pid));
    assert!(is_critical_process(4, "System", self_pid));
    assert!(is_critical_process(9999, "csrss.exe", self_pid));
    assert!(is_critical_process(8888, "dwm.exe", self_pid));
    assert!(!is_critical_process(12345, "notepad.exe", self_pid));
    assert!(is_critical_process(self_pid, "notepad.exe", self_pid));
}

#[test]
fn log_buffer_keeps_newest_entries() {
    let mut buf = AppLogBuffer::new(2);
    buf.push_at("INFO", "one", "10:00:00");
    buf.push_at("WARN", "two", "10:00:01");
    buf.push_at("ERROR", "three", "10:00:02");
    let logs = buf.get_logs();
    assert_eq!(logs.len(), 2);
    assert_eq!(logs[0].message, "three");
    assert_eq!(logs[0].level, "ERROR");
    assert_eq!(logs[1].message, "two");
    assert_eq!(buf.version(), 4);
    buf.clear();
    assert!(buf.get_logs().is_empty());
}

#[test]
fn log_buffer_below_capacity_keeps_every_push() {
    let mut buf = AppLogBuffer::new(5);
    buf.push("INFO", "a");
    buf.push("INFO", "b");
    buf.push("WARN", "c");
    let logs = buf.get_logs();
    assert_eq!(logs.len(), 3);
    assert_eq!(logs[0].message, "c");
    assert_eq!(logs[1].message, "b");
    assert_eq!(logs[2].message, "a");
    assert_eq!(logs[0].time.len(), 8);
    assert_eq!(buf.version(), 4);
}

#[test]
fn log_field_rendering_and_expiry() {
    assert_eq!(record_str_text("", "message", "hi"), "hi");
    assert_eq!(record_debug_text("", "message", "\"x\""), "x");
    assert_eq!(record_debug_text("", "level", "3"), "level: 3");
    assert!(is_expired_log("shield_ghita.log.2026-01-01", true));
    assert!(!is_expired_log("shield_ghita.log.2026-01-01", false));
    assert!(!is_expired_log("shield_ghita.log", true));
    assert!(!is_expired_log("notes.txt", true));
}
