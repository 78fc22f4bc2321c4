use shield_ghita::dns::disk_index::{build_index_image, DiskBlocklist};
use shield_ghita::dns::disk_store::{hash_domain, FastDomainCache};
use shield_ghita::dns::packet::ResponseOverride;
use shield_ghita::dns::pipeline::LocalAnswer;
use shield_ghita::dns::DnsBlocker;

fn query(qtype: u8) -> Vec<u8> {
    vec![
        0xAB, 0xCD, 0x01, 0x00, 0x00, 0x01, 0x00, 0x00, 0x00, 0x00, 0x00, 0x00, 0x03, b'a', b'd',
        b's', 0x06, b'g', b'o', b'o', b'g', b'l', b'e', 0x03, b'c', b'o', b'm', 0x00, 0x00, qtype,
        0x00, 0x01,
    ]
}

#[test]
fn test_fast_domain_cache() {
    let mut cache = FastDomainCache::new();
    let h1 = hash_domain("test.com");
    let h2 = hash_domain("safe.org");

    assert_eq!(cache.get(h1), None);
    cache.insert(h1, true);
    cache.insert(h2, false);

    assert_eq!(cache.get(h1), Some(true));
    assert_eq!(cache.get(h2), Some(false));

    cache.clear();
    assert_eq!(cache.get(h1), None);
}

#[test]
fn domain_hash_ignores_ascii_case_and_matches_fnv1a() {
    assert_eq!(hash_domain("Ads.Example.Com"), hash_domain("ads.example.com"));
    assert_ne!(hash_domain("ads.example.com"), hash_domain("ads.example.org"));
    assert_eq!(hash_domain(""), 0xcbf29ce484222325);
    assert_eq!(hash_domain("a"), 0xaf63dc4c8601ec8c);
}

#[test]
fn mod_test_parse_line() {
    assert_eq!(
        DnsBlocker::parse_line("0.0.0.0 ads.example.com"),
        Some("ads.example.com".to_string())
    );
    assert_eq!(
        DnsBlocker::parse_line("127.0.0.1 tracker.telemetry.io # comment"),
        Some("tracker.telemetry.io".to_string())
    );
    assert_eq!(
        DnsBlocker::parse_line("||doubleclick.net^"),
        Some("doubleclick.net".to_string())
    );
    assert_eq!(DnsBlocker::parse_line("|badware.com|"), Some("badware.com".to_string()));
    assert_eq!(DnsBlocker::parse_line("malware.info"), Some("malware.info".to_string()));
    assert_eq!(DnsBlocker::parse_line("# this is a comment"), None);
    assert_eq!(DnsBlocker::parse_line("! ABP comment"), None);
    assert_eq!(DnsBlocker::parse_line("127.0.0.1 localhost"), None);
}

#[test]
fn mod_test_blocking_and_whitelist_precedence() {
    let mut blocker = DnsBlocker::new();
    let _ = blocker.add_custom_domain("ads.google.com", 0);
    let _ = blocker.add_custom_domain("tracker.net", 0);

    assert!(blocker.should_block("s.youtube.com"));
    assert!(blocker.should_block("ad.youtube.com"));
    assert!(blocker.should_block("spclient.wg.spotify.com"));
    assert!(blocker.should_block("ad.zadn.vn"));

    assert!(blocker.should_block("ads.google.com"));
    assert!(blocker.should_block("sub.tracker.net"));
    assert!(blocker.should_block("a.b.tracker.net"));

    assert!(!blocker.should_block("my-tracker.net"));
    assert!(!blocker.should_block("nottracker.net"));
    assert!(!blocker.should_block("google.com"));
    assert!(!blocker.should_block("github.com"));

    let _ = blocker.add_allowed_domain("ads.google.com", 0);
    assert!(!blocker.should_block("ads.google.com"));
}

#[test]
fn removing_a_custom_rule_unblocks_it() {
    let mut blocker = DnsBlocker::new();
    blocker.add_custom_domain("tracker.test", 0).unwrap();
    assert!(blocker.should_block("x.tracker.test"));
    blocker.remove_custom_domain("tracker.test").unwrap();
    assert!(!blocker.should_block("x.tracker.test"));
}

#[test]
fn mod_test_sinkhole_a_and_aaaa_record_builder() {
    let query_a = query(0x01);
    let (name, qtype) = DnsBlocker::parse_query_info(&query_a).expect("Parse query info");
    assert_eq!(name, "ads.google.com");
    assert_eq!(qtype, 1);

    let sinkhole_a =
        DnsBlocker::build_sinkhole_a_record(&query_a, [0, 0, 0, 0]).expect("Build Sinkhole A record");
    assert_eq!(sinkhole_a[0], 0xAB);
    assert_eq!(sinkhole_a[1], 0xCD);
    assert_eq!(sinkhole_a[2], 0x81);
    assert_eq!(sinkhole_a[3], 0x80);
    let len_a = sinkhole_a.len();
    assert_eq!(&sinkhole_a[len_a - 4..len_a], &[0, 0, 0, 0]);

    let query_aaaa = query(0x1C);
    let (_, qtype_aaaa) = DnsBlocker::parse_query_info(&query_aaaa).expect("Parse query info AAAA");
    assert_eq!(qtype_aaaa, 28);

    let sinkhole_aaaa = DnsBlocker::build_sinkhole_aaaa_record(&query_aaaa, [0u8; 16])
        .expect("Build Sinkhole AAAA record");
    let len_aaaa = sinkhole_aaaa.len();
    assert_eq!(&sinkhole_aaaa[len_aaaa - 16..len_aaaa], &[0u8; 16]);
}

#[test]
fn error_responses_keep_id_and_set_rcode() {
    let q = query(0x01);
    let nx = DnsBlocker::build_nxdomain(&q).unwrap();
    assert_eq!(&nx[0..2], &[0xAB, 0xCD]);
    assert_eq!(nx[3] & 0x0F, 3);
    let sf = DnsBlocker::build_servfail(&q).unwrap();
    assert_eq!(sf[3] & 0x0F, 2);
    assert!(DnsBlocker::build_nxdomain(&[0u8; 5]).is_none());
}

#[test]
fn blocked_answers_depend_on_type_and_sinkhole_mode() {
    let q = query(0x01);
    let silent = DnsBlocker::blocked_response(&q, 1, true).unwrap();
    assert_eq!(&silent[silent.len() - 4..], &[127, 0, 0, 1]);
    let plain = DnsBlocker::blocked_response(&q, 1, false).unwrap();
    assert_eq!(&plain[plain.len() - 4..], &[0, 0, 0, 0]);
    let mx = DnsBlocker::blocked_response(&q, 15, true).unwrap();
    assert_eq!(mx[3] & 0x0F, 3);
}

#[test]
fn test_response_policy_override_applied_per_source() {
    let policy = |src_ip: &str| {
        if src_ip == "192.0.2.50" {
            Some(ResponseOverride { ipv4: [192, 0, 2, 10], ipv6: [0u8; 16] })
        } else {
            None
        }
    };
    let over = policy("192.0.2.50").expect("policy must fire for targeted source");
    assert_eq!(over.ipv4, [192, 0, 2, 10]);
    assert_eq!(over.ipv6, [0u8; 16]);
    assert!(policy("192.0.2.99").is_none());

    let query = vec![
        0xAB, 0xCD, 0x01, 0x00, 0x00, 0x01, 0x00, 0x00, 0x00, 0x00, 0x00, 0x00, 0x03, b'w', b'w',
        b'w', 0x04, b't', b'e', b's', b't', 0x00, 0x00, 0x01, 0x00, 0x01,
    ];
    let redirected = DnsBlocker::override_response(&query, 1, over).expect("Build redirect A record");
    let len_r = redirected.len();
    assert_eq!(&redirected[len_r - 4..len_r], &[192, 0, 2, 10]);

    // The filter answers the targeted source from the policy, and forwards the others.
    let mut blocker = DnsBlocker::new();
    match blocker.answer_locally(&query, "www.test", 1, policy("192.0.2.50"), 1_000) {
        LocalAnswer::Reply(Some(r)) => assert_eq!(&r[r.len() - 4..], &[192, 0, 2, 10]),
        _ => panic!("expected the policy's answer"),
    }
    assert!(matches!(
        blocker.answer_locally(&query, "www.test", 1, policy("192.0.2.99"), 1_000),
        LocalAnswer::Forward
    ));
}

#[test]
fn test_validate_domain() {
    assert!(DnsBlocker::validate_domain("ads.example.com", 0).is_ok());
    assert_eq!(DnsBlocker::validate_domain("  Tracker.NET.  ", 0).unwrap(), "tracker.net");
    assert!(DnsBlocker::validate_domain("", 0).is_err());
    assert!(DnsBlocker::validate_domain("com", 0).is_err());
    assert!(DnsBlocker::validate_domain("com.vn", 0).is_err());
    assert!(DnsBlocker::validate_domain("netlify.app", 0).is_err());
    assert!(DnsBlocker::validate_domain("a..b", 0).is_err());
    assert!(DnsBlocker::validate_domain("bad domain.com", 0).is_err());
    assert!(DnsBlocker::validate_domain(&"x".repeat(300), 0).is_err());
}

#[test]
fn test_add_custom_domain_rejects_invalid() {
    let mut blocker = DnsBlocker::new();
    assert!(blocker.add_custom_domain("com", 0).is_err());
    assert!(blocker.add_custom_domain("", 0).is_err());
    assert!(blocker.add_allowed_domain("com.vn", 0).is_err());
    assert!(blocker.add_custom_domain("ads.example.com", 0).is_ok());
}

#[test]
fn test_set_custom_rules_filters_invalid_entries() {
    let mut blocker = DnsBlocker::new();
    let blocked = vec![
        "ads.example.com".to_string(),
        "com".to_string(),
        "tracker.test".to_string(),
    ];
    let allowed = vec!["ok.example.com".to_string(), "com.vn".to_string()];
    blocker.set_custom_rules(&blocked, &allowed);

    assert!(blocker.should_block("ads.example.com"));
    assert!(blocker.should_block("sub.tracker.test"));
    assert!(
        !blocker.should_block("anything.com"),
        "bare TLD 'com' must never be accepted from persisted config"
    );
    assert!(
        !blocker.should_block("site.com.vn"),
        "public suffix must never be accepted into whitelist"
    );
}

#[test]
fn test_response_matches_query() {
    let query_a = query(0x01);
    let query_aaaa = query(0x1C);

    let resp = DnsBlocker::build_sinkhole_a_record(&query_a, [0, 0, 0, 0]).unwrap();
    assert!(DnsBlocker::response_matches_query(&resp, &query_a));

    let mut wrong_id = resp.clone();
    wrong_id[0] = 0xFF;
    assert!(!DnsBlocker::response_matches_query(&wrong_id, &query_a));

    assert!(!DnsBlocker::response_matches_query(&resp, &query_aaaa));

    assert!(!DnsBlocker::response_matches_query(&query_a, &query_a));
}

#[test]
fn test_extract_min_ttl() {
    let query_a = query(0x01);
    let resp = DnsBlocker::build_sinkhole_a_record(&query_a, [0, 0, 0, 0]).unwrap();
    assert_eq!(DnsBlocker::extract_min_ttl(&resp), Some(10));
    assert_eq!(DnsBlocker::extract_min_ttl(&query_a), None);
    assert_eq!(DnsBlocker::cache_ttl_seconds(&resp), 10);
    assert_eq!(DnsBlocker::cache_ttl_seconds(&query_a), 10);
}

#[test]
fn test_cache_keyed_by_qtype_and_ttl() {
    let mut blocker = DnsBlocker::new();
    let query_a = query(0x01);
    let resp = DnsBlocker::build_sinkhole_a_record(&query_a, [0, 0, 0, 0]).unwrap();

    blocker.store_cache_response("ads.google.com", 1, &resp, 1_000);

    let cached_a = blocker
        .cached_response_for("ads.google.com", 1, &query_a, 2_000)
        .expect("A record must be cached under qtype 1");
    assert_eq!(cached_a[0], 0xAB);
    assert_eq!(cached_a[1], 0xCD);

    assert!(blocker.cached_response_for("ads.google.com", 28, &query_a, 2_000).is_none());

    blocker.store_cache_response("stale.test", 1, &resp, 0);
    assert!(blocker.cached_response_for("stale.test", 1, &query_a, 61_000).is_none());
}

#[test]
fn cached_answer_carries_the_new_query_id() {
    let mut blocker = DnsBlocker::new();
    let query_a = query(0x01);
    let resp = DnsBlocker::build_sinkhole_a_record(&query_a, [0, 0, 0, 0]).unwrap();
    blocker.store_cache_response("ads.google.com", 1, &resp, 0);
    let mut again = query_a.clone();
    again[0] = 0x12;
    again[1] = 0x34;
    let cached = blocker.cached_response_for("ads.google.com", 1, &again, 5_000).unwrap();
    assert_eq!(&cached[0..2], &[0x12, 0x34]);
    assert_eq!(&cached[2..], &resp[2..]);
}

#[test]
fn test_disk_blocklist_build_and_query() {
    let domains = vec![
        "ads.example.com".to_string(),
        "TRACKER.io".to_string(),
        "doubleclick.net".to_string(),
        "malware.badsite.org".to_string(),
    ];
    let (image, count) = build_index_image(domains);
    assert_eq!(count, 4);

    let disk = DiskBlocklist::from_header("test_blocklist.bin", &image[..4096]).expect("open disk blocklist");
    assert_eq!(disk.total_domains(), 4);
    assert_eq!(disk.file_path(), "test_blocklist.bin");

    assert!(disk.contains_in(&image, "ads.example.com"));
    assert!(disk.contains_in(&image, "Ads.Example.Com"));
    assert!(disk.contains_in(&image, "tracker.io"));
    assert!(disk.contains_in(&image, "TRACKER.IO"));
    assert!(disk.contains_in(&image, "doubleclick.net"));
    assert!(disk.contains_in(&image, "malware.badsite.org"));

    assert!(!disk.contains_in(&image, "example.com"));
    assert!(!disk.contains_in(&image, "not-blocked.com"));
    assert!(!disk.contains_in(&image, "google.com"));
    assert!(!disk.contains_in(&image, ""));
}

#[test]
fn disk_blocklist_dedups_and_checks_header() {
    let (image, count) = build_index_image(vec!["a.test".to_string(), "a.test".to_string(), "b.test".to_string()]);
    assert_eq!(count, 2);
    assert_eq!(&image[0..4], b"SGBL");
    assert_eq!(image.len(), 4096 + 14 * 2 + 12);
    let mut bad = image[..4096].to_vec();
    bad[0] = b'X';
    assert_eq!(DiskBlocklist::from_header("x", &bad).err(), Some("invalid magic bytes".to_string()));
    let mut v2 = image[..4096].to_vec();
    v2[4] = 2;
    assert_eq!(DiskBlocklist::from_header("x", &v2).err(), Some("unsupported version".to_string()));
    let (empty, n) = build_index_image(Vec::new());
    assert_eq!(n, 0);
    let disk = DiskBlocklist::from_header("e", &empty[..4096]).unwrap();
    assert!(!disk.contains_in(&empty, "a.test"));
}

#[test]
fn validate_domain_reports_the_first_failing_check() {
    let en = 1u8;
    assert_eq!(DnsBlocker::validate_domain("  ", en).unwrap_err(), "Domain is empty");
    assert_eq!(DnsBlocker::validate_domain(&"x".repeat(300), en).unwrap_err(), "Domain exceeds 253 characters");
    assert_eq!(
        DnsBlocker::validate_domain("COM.", en).unwrap_err(),
        "'com' is missing a dot — blocking a whole TLD would break all browsers"
    );
    assert_eq!(
        DnsBlocker::validate_domain("com.vn", en).unwrap_err(),
        "'com.vn' is a public suffix — block scope too broad"
    );
    assert_eq!(
        DnsBlocker::validate_domain("a..b", en).unwrap_err(),
        "Invalid label (empty or longer than 63 characters)"
    );
    assert_eq!(DnsBlocker::validate_domain("bad domain.com", en).unwrap_err(), "Domain contains invalid characters");
    assert_eq!(DnsBlocker::validate_domain("", 2).unwrap_err(), "域名为空");
    assert_eq!(
        DnsBlocker::validate_domain("com", 3).unwrap_err(),
        "'com' thiếu dấu chấm — chặn cả TLD sẽ làm gãy toàn bộ trình duyệt"
    );
    let mut blocker = DnsBlocker::new();
    assert_eq!(blocker.add_custom_domain("com", en).unwrap_err(), "'com' is missing a dot — blocking a whole TLD would break all browsers");
    assert_eq!(blocker.add_allowed_domain("", 0).unwrap_err(), "Tên miền trống");
}
