use shield_ghita::security::heuristics::is_dga_domain;
use shield_ghita::security::rate::QueryAdmission;
use shield_ghita::security::{csv_escape, QuarantineRejection, SecurityEngine};

fn entropy(s: &str) -> f64 {
    let chars: Vec<char> = s.chars().collect();
    if chars.is_empty() {
        return 0.0;
    }
    let mut counts: Vec<(char, usize)> = Vec::new();
    for c in &chars {
        match counts.iter_mut().find(|(k, _)| k == c) {
            Some(e) => e.1 += 1,
            None => counts.push((*c, 1)),
        }
    }
    let len = chars.len() as f64;
    let mut e = 0.0;
    for (_, n) in counts {
        let p = n as f64 / len;
        e -= p * p.log2();
    }
    e
}

fn label_entropy(domain: &str) -> Vec<Option<String>> {
    domain
        .split('.')
        .map(|l| {
            let e = entropy(l);
            if e >= 3.85 {
                Some(format!("{:.2}", e))
            } else {
                None
            }
        })
        .collect()
}

fn sld_entropy_high(domain: &str) -> bool {
    let parts: Vec<&str> = domain.split('.').collect();
    parts.len() >= 2 && entropy(parts[parts.len() - 2]) >= 3.55
}

#[test]
fn quarantine_binds_owner_and_protects_routes() {
    let mut sec = SecurityEngine::new();
    let self_ips = vec!["192.0.2.10".to_string()];
    let gateways = vec!["192.0.2.1".to_string()];
    let observed = vec![("192.0.2.24".to_string(), "02:00:00:00:00:24".to_string())];
    let t0: u64 = 1_000_000;
    assert_eq!(
        sec.quarantine_ip("192.0.2.24", t0),
        Err(QuarantineRejection::InventoryUnavailable)
    );
    sec.update_quarantine_inventory(&observed, &self_ips, &gateways, t0);
    assert_eq!(sec.quarantine_ip("192.0.2.10", t0), Err(QuarantineRejection::SelfAddress));
    assert_eq!(sec.quarantine_ip("192.0.2.1", t0), Err(QuarantineRejection::GatewayAddress));
    assert_eq!(
        sec.quarantine_ip("192.0.2.25", t0),
        Err(QuarantineRejection::IdentityUnknown)
    );
    for ip in ["invalid", "127.0.0.2", "::1", "0.0.0.0", "224.0.0.1", "255.255.255.255"] {
        assert!(sec.quarantine_ip(ip, t0).is_err());
    }
    sec.quarantine_ip("192.0.2.24", t0).unwrap();
    let count = sec.incidents_count();
    sec.quarantine_ip("192.0.2.24", t0).unwrap();
    assert_eq!(sec.incidents_count(), count);
    assert!(sec.is_quarantined("192.0.2.24"));
    sec.update_quarantine_inventory(&[], &self_ips, &gateways, t0);
    assert!(sec.is_quarantined("192.0.2.24"));
    sec.update_quarantine_inventory(
        &[("192.0.2.24".to_string(), "02:00:00:00:00:25".to_string())],
        &self_ips,
        &gateways,
        t0,
    );
    assert!(!sec.is_quarantined("192.0.2.24"));
    sec.quarantine_ip("192.0.2.24", t0).unwrap();
    sec.unquarantine_ip("192.0.2.24");
    assert!(!sec.is_quarantined("192.0.2.24"));
    assert_eq!(
        sec.quarantine_ip("192.0.2.24", t0 + 601_000),
        Err(QuarantineRejection::InventoryUnavailable)
    );
}

#[test]
fn quarantine_rejections_have_messages() {
    assert!(!QuarantineRejection::SelfAddress.message(1).is_empty());
    assert_ne!(
        QuarantineRejection::SelfAddress.message(1),
        QuarantineRejection::GatewayAddress.message(1)
    );
}

#[test]
fn test_dns_flood_detection() {
    let mut sec = SecurityEngine::new();
    sec.set_detection_enabled(true);
    sec.set_auto_block(true);

    let test_ip = "192.168.1.150";
    let domain = "google.com";
    let mut alert = None;
    let mut now: u64 = 10_000;
    for _ in 0..100 {
        now += 1;
        if let Some(inc) =
            sec.inspect_dns_query(test_ip, domain, now, 0, &label_entropy(domain), sld_entropy_high(domain))
        {
            alert = Some(inc);
            break;
        }
    }

    assert!(alert.is_some());
    assert!(sec.is_ip_temporarily_blocked(test_ip, now + 1));
    assert!(!sec.is_ip_temporarily_blocked(test_ip, now + 300_000));
}

#[test]
fn test_dns_tunneling_detection() {
    let mut sec = SecurityEngine::new();
    sec.set_detection_enabled(true);

    let tunneling_domain = "a8f9c1b3e70d42fa89b2c3d4e5f6.exfil.attacker.com";
    let alert = sec.inspect_dns_query(
        "192.168.1.55",
        tunneling_domain,
        5_000,
        0,
        &label_entropy(tunneling_domain),
        sld_entropy_high(tunneling_domain),
    );
    assert!(alert.is_some());
    assert!(alert.unwrap().incident_type.contains("Tunneling"));
}

#[test]
fn dns_inspection_is_silent_with_detection_off() {
    let mut sec = SecurityEngine::new();
    let d = "a8f9c1b3e70d42fa89b2c3d4e5f6.exfil.attacker.com";
    assert!(sec
        .inspect_dns_query("192.168.1.55", d, 5_000, 0, &label_entropy(d), sld_entropy_high(d))
        .is_none());
    assert_eq!(sec.incidents_count(), 0);
}

#[test]
fn test_dga_domain_detection() {
    for d in ["bcdfghjklmn.com", "x987bfdsklfjq93.biz"] {
        assert!(is_dga_domain(d, sld_entropy_high(d)), "{d}");
    }
    for d in ["google.com", "facebook.com", "vnexpress.net"] {
        assert!(!is_dga_domain(d, sld_entropy_high(d)), "{d}");
    }
}

#[test]
fn test_entropy_calculation() {
    assert_eq!(entropy("aaaaaaaaaa"), 0.0);
    assert!(entropy("9f8c2b7e1a0d3f6c8b4e2a1") > 3.0);
}

#[test]
fn test_hard_rate_limit_without_ids() {
    let mut sec = SecurityEngine::new();
    sec.set_detection_enabled(false);

    let test_ip = "192.168.1.77";
    let mut tripped = false;
    let mut now: u64 = 1_000;
    for _ in 0..400 {
        now += 1;
        if sec.enforce_hard_rate_limit(test_ip, now) {
            tripped = true;
            break;
        }
    }
    assert!(tripped);
    assert!(sec.is_ip_temporarily_blocked(test_ip, now));
    assert_eq!(sec.hard_drop_count(), 1);
}

#[test]
fn test_hard_rate_limit_ignores_loopback() {
    let mut sec = SecurityEngine::new();
    sec.set_detection_enabled(false);
    for i in 0..500u64 {
        assert!(!sec.enforce_hard_rate_limit("127.0.0.1", 1_000 + i));
    }
    assert_eq!(sec.hard_drop_count(), 0);
}

#[test]
fn temporary_block_expires() {
    let mut sec = SecurityEngine::new();
    sec.block_ip_temporarily("192.0.2.5", 60_000, 1_000);
    assert!(sec.is_ip_temporarily_blocked("192.0.2.5", 60_999));
    assert!(!sec.is_ip_temporarily_blocked("192.0.2.5", 61_000));
    assert!(!sec.is_ip_temporarily_blocked("192.0.2.5", 2_000));
}

#[test]
fn test_inbound_port_scan_detection() {
    let mut sec = SecurityEngine::new();
    sec.set_detection_enabled(true);

    let scanner_ip = "192.0.2.77";
    let mut alert = None;
    let mut now: u64 = 1_000;
    for port in 40000u16..40100 {
        now += 1;
        if let Some(inc) = sec.record_inbound_port_probe(scanner_ip, port, now, 0) {
            alert = Some(inc);
            break;
        }
    }
    let alert = alert.expect("port scan must be flagged after threshold ports");
    assert!(alert.incident_type.contains("Port Scan"));

    assert!(sec.record_inbound_port_probe(scanner_ip, 50000, now + 1, 0).is_none());
    assert!(sec.record_inbound_port_probe("127.0.0.1", 60000, now + 2, 0).is_none());
}

#[test]
fn test_port_scan_disabled_with_ids_off() {
    let mut sec = SecurityEngine::new();
    sec.set_detection_enabled(false);
    let mut now: u64 = 1_000;
    for port in 41000u16..41100 {
        now += 1;
        assert!(sec.record_inbound_port_probe("192.0.2.90", port, now, 0).is_none());
    }
}

#[test]
fn security_score_and_csv_follow_incidents() {
    let mut sec = SecurityEngine::new();
    assert_eq!(sec.get_security_score(), 60);
    sec.set_detection_enabled(true);
    sec.set_auto_block(true);
    assert_eq!(sec.get_security_score(), 100);
    let inc = sec.record_incident_at("10:00:00".to_string(), "Flood", "192.0.2.1", "x", "CRITICAL", "none");
    assert_eq!(inc.id, 1);
    assert_eq!(sec.get_security_score(), 95);
    let csv = sec.incidents_csv();
    assert!(csv.contains("Flood"));
    assert_eq!(csv_escape("a,b"), "\"a,b\"");
    sec.clear_incidents();
    assert_eq!(sec.incidents_count(), 0);
}

#[test]
fn flood_counts_survive_history_cleanup() {
    let mut sec = SecurityEngine::new();
    sec.set_detection_enabled(true);
    sec.set_dns_flood_rate_limit(1);
    let d = "example.com";
    for i in 0..1000u32 {
        let ip = format!("10.{}.{}.1", i / 250, i % 250);
        assert!(sec
            .inspect_dns_query(&ip, d, 10_000, 1, &label_entropy(d), sld_entropy_high(d))
            .is_none());
    }
    let target = "192.0.2.77";
    assert!(sec
        .inspect_dns_query(target, d, 10_001, 1, &label_entropy(d), sld_entropy_high(d))
        .is_none());
    // The table now holds 1001 sources: this query cleans it up first, and the target,
    // the most recent source, keeps its earlier query.
    let alert = sec.inspect_dns_query(target, d, 10_002, 1, &label_entropy(d), sld_entropy_high(d));
    assert!(alert.is_some());
    assert!(alert.unwrap().incident_type.contains("Flood"));
}

#[test]
fn admission_drops_blocked_sources() {
    let mut sec = SecurityEngine::new();
    sec.block_ip_temporarily("192.0.2.5", 60_000, 1_000);
    let d = "example.com";
    let r = sec.admit_query("192.0.2.5", d, 2_000, 1, &label_entropy(d), sld_entropy_high(d));
    assert!(matches!(r, QueryAdmission::Drop));
    let r = sec.admit_query("192.0.2.6", d, 2_000, 1, &label_entropy(d), sld_entropy_high(d));
    assert!(matches!(r, QueryAdmission::Proceed(None)));
}

#[test]
fn admission_refuses_attacks_under_auto_block() {
    let d = "a8f9c1b3e70d42fa89b2c3d4e5f6.exfil.attacker.com";
    let mut sec = SecurityEngine::new();
    sec.set_detection_enabled(true);
    let r = sec.admit_query("192.168.1.55", d, 5_000, 1, &label_entropy(d), sld_entropy_high(d));
    assert!(matches!(r, QueryAdmission::Proceed(Some(_))));

    let mut sec = SecurityEngine::new();
    sec.set_detection_enabled(true);
    sec.set_auto_block(true);
    let r = sec.admit_query("192.168.1.55", d, 5_000, 1, &label_entropy(d), sld_entropy_high(d));
    match r {
        QueryAdmission::Refuse(Some(inc)) => assert!(inc.incident_type.contains("Tunneling")),
        _ => panic!("expected a refusal"),
    }
    let r = sec.admit_query("192.168.1.55", "example.com", 6_000, 1, &label_entropy("example.com"), false);
    assert!(matches!(r, QueryAdmission::Drop));
}

#[test]
fn admission_drops_over_the_hard_limit() {
    let mut sec = SecurityEngine::new();
    let d = "example.com";
    let mut dropped = false;
    for i in 0..400u64 {
        if let QueryAdmission::Drop = sec.admit_query("192.168.1.77", d, 1_000 + i, 1, &label_entropy(d), false) {
            dropped = true;
            break;
        }
    }
    assert!(dropped);
    assert_eq!(sec.hard_drop_count(), 1);
}

#[test]
fn darknet_names_are_refused_without_auto_block() {
    let d = "market.onion";
    let mut sec = SecurityEngine::new();
    sec.set_detection_enabled(true);
    match sec.admit_query("192.168.1.60", d, 5_000, 1, &label_entropy(d), sld_entropy_high(d)) {
        QueryAdmission::Refuse(Some(inc)) => assert!(inc.mitigation.contains("NXDOMAIN")),
        _ => panic!("expected a refusal with an incident"),
    }
    let mut quiet = SecurityEngine::new();
    let r = quiet.admit_query("192.168.1.60", "Node.BIT.", 5_000, 1, &label_entropy("Node.BIT."), false);
    assert!(matches!(r, QueryAdmission::Refuse(None)));
    let r = quiet.admit_query("192.168.1.60", "example.com", 5_001, 1, &label_entropy("example.com"), false);
    assert!(matches!(r, QueryAdmission::Proceed(None)));
}
