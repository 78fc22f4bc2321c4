use shield_ghita::monitor::diagnostics::{
    benchmark_test_domain, clean_ping_target, ping_sample_count, NetworkDiagnostics,
};
use shield_ghita::monitor::discovery::{extract_mdns_services, mdns_keyword, read_dns_name, ssdp_keyword};
use shield_ghita::monitor::lan::LanScanner;
use shield_ghita::monitor::lan_scan::{arp_line_fields, best_service_hit, netbios_query_packet};
use shield_ghita::monitor::oui::lookup_vendor;
use shield_ghita::monitor::ports::{
    common_ports, format_ports_summary, highest_risk, open_port_record, port_entry,
    worst_port_advice, OpenPort, PortRisk,
};

#[test]
fn test_ssdp_keyword() {
    assert_eq!(ssdp_keyword("Linux UPnP/1.0 Chromecast", 0), Some("📺 Smart TV / Chromecast"));
    assert_eq!(
        ssdp_keyword("HP Printer IPP Server", 0),
        Some("🖨️ Máy in mạng (Printer - AirPrint / IPP)")
    );
    assert_eq!(ssdp_keyword("Random Device", 0), None);
}

#[test]
fn test_mdns_keyword() {
    assert!(mdns_keyword("_googlecast._tcp.local", 0).unwrap().contains("Chromecast"));
    assert!(mdns_keyword("_ipp._tcp.local", 0).unwrap().contains("Printer"));
    assert_eq!(mdns_keyword("_unknown._tcp.local", 0), None);
}

#[test]
fn test_read_dns_name_plain() {
    let buf = b"\x00\x09_services\x07_dns-sd\x04_udp\x05local\x00";
    let mut pos = 1usize;
    let name = read_dns_name(buf, &mut pos).unwrap();
    assert_eq!(name, "_services._dns-sd._udp.local");
    assert_eq!(pos, buf.len());
}

#[test]
fn test_read_dns_name_compression() {
    let mut buf = vec![0x00, 0x03, b'a', b'b', b'c', 0x00];
    buf.push(0xC0);
    buf.push(0x01);
    let mut pos = 6usize;
    let name = read_dns_name(&buf, &mut pos).unwrap();
    assert_eq!(name, "abc");
    assert_eq!(pos, buf.len());
}

#[test]
fn read_dns_name_rejects_truncated_label() {
    let buf = vec![0x05, b'a', b'b'];
    let mut pos = 0usize;
    assert!(read_dns_name(&buf, &mut pos).is_none());
}

#[test]
fn test_extract_mdns_services() {
    let mut resp = vec![0x00, 0x00, 0x84, 0x00, 0x00, 0x00, 0x00, 0x01, 0x00, 0x00, 0x00, 0x00];
    for label in ["_services", "_dns-sd", "_udp", "local"] {
        resp.push(label.len() as u8);
        resp.extend_from_slice(label.as_bytes());
    }
    resp.push(0x00);
    resp.extend_from_slice(&12u16.to_be_bytes());
    resp.extend_from_slice(&1u16.to_be_bytes());
    resp.extend_from_slice(&60u32.to_be_bytes());
    resp.extend_from_slice(&16u16.to_be_bytes());
    for label in ["_googlecast", "_tcp", "local"] {
        resp.push(label.len() as u8);
        resp.extend_from_slice(label.as_bytes());
    }
    resp.push(0x00);

    let services = extract_mdns_services(&resp);
    assert_eq!(services, vec!["_googlecast._tcp.local".to_string()]);
}

#[test]
fn test_lookup_vendor() {
    assert!(LanScanner::lookup_vendor("00:17:F2:11:22:33", 0).contains("Apple"));
    assert!(LanScanner::lookup_vendor("00:07:AB:44:55:66", 0).contains("Samsung"));
    assert!(LanScanner::lookup_vendor("00:18:82:77:88:99", 0).contains("Hikvision"));
    assert!(LanScanner::lookup_vendor("00:0A:3A:AA:BB:CC", 0).contains("TP-Link"));
    assert!(LanScanner::lookup_vendor("00:00:00:00:00:00", 0).contains("Cục bộ"));
}

#[test]
fn test_lookup_vendor_common_brands() {
    assert!(lookup_vendor("00:17:F2:11:22:33", 0).contains("Apple"));
    assert!(lookup_vendor("00:07:AB:44:55:66", 0).contains("Samsung"));
    assert!(lookup_vendor("00:18:82:77:88:99", 0).contains("Hikvision"));
    assert!(lookup_vendor("38:AF:29:11:22:33", 0).contains("Dahua"));
    assert!(lookup_vendor("00:0A:3A:AA:BB:CC", 0).contains("TP-Link"));
    assert!(lookup_vendor("00:00:00:00:00:00", 0).contains("Cục bộ"));
    assert!(lookup_vendor("00:00:00", 0).contains("Cục bộ"));
    assert!(lookup_vendor("00:00", 0).contains("Không xác định"));
}

#[test]
fn test_lookup_vendor_vietnam_isps_and_extended() {
    assert!(lookup_vendor("00:0C:43:11:22:33", 0).contains("VNPT"));
    assert!(lookup_vendor("00:1A:79:11:22:33", 0).contains("Viettel"));
    assert!(lookup_vendor("00:19:A8:11:22:33", 0).contains("FPT"));
    assert!(lookup_vendor("08:00:27:11:22:33", 0).contains("VirtualBox"));
}

#[test]
fn test_lookup_vendor_merged_admin_groups() {
    assert!(lookup_vendor("00:0C:29:AA:BB:CC", 0).contains("VMware"));
    assert!(lookup_vendor("00:15:5D:AA:BB:CC", 0).contains("Hyper-V"));
    assert!(lookup_vendor("F4:92:BF:AA:BB:CC", 0).contains("Ubiquiti"));
    assert!(lookup_vendor("3C:28:6D:AA:BB:CC", 0).contains("Google"));
}

#[test]
fn test_lookup_vendor_randomized_mac() {
    assert!(lookup_vendor("DA:A1:19:AA:BB:CC", 0).contains("MAC riêng tư"));
}

#[test]
fn test_confidence_score() {
    assert_eq!(LanScanner::confidence_score(true, true, true, true, true), 100);
    assert_eq!(LanScanner::confidence_score(false, false, false, false, false), 0);
    assert_eq!(LanScanner::confidence_score(true, true, false, false, false), 50);
    assert_eq!(LanScanner::confidence_score(true, true, true, true, false), 80);
}

#[test]
fn test_classify_final() {
    let (label, tag) = LanScanner::classify_final("192.168.1.1", "TP-Link", None, None, 0);
    assert_eq!(tag, "ROUTER");
    assert!(label.contains("Router"));

    let (label_cam, tag_cam) = LanScanner::classify_final("192.168.1.50", "Hikvision", None, None, 0);
    assert_eq!(tag_cam, "CAMERA");
    assert!(label_cam.contains("Camera"));

    let (label_phone, tag_phone) =
        LanScanner::classify_final("192.168.1.100", "Apple Inc.", None, Some("iPhone-15"), 0);
    assert_eq!(tag_phone, "PHONE");
    assert!(label_phone.contains("Điện thoại"));
}

#[test]
fn test_common_ports_table_sanity() {
    let ports = common_ports();
    assert!(ports.len() >= 38);
    let mut seen: Vec<u16> = Vec::new();
    for (port, label, _, _) in &ports {
        assert!(*port > 0, "port must be positive");
        assert!(!label.is_empty(), "label must not be empty");
        assert!(!seen.contains(port), "duplicate port {} in table", port);
        seen.push(*port);
    }
}

#[test]
fn test_port_entry_lookup() {
    let rdp = port_entry(3389).expect("RDP entry");
    assert_eq!(rdp.1, "RDP");
    assert_eq!(rdp.2, PortRisk::High);
    let ipp = port_entry(631).expect("IPP entry");
    assert_eq!(ipp.2, PortRisk::Low);
    assert!(port_entry(65001).is_none());
}

#[test]
fn test_highest_risk_and_advice() {
    let ports = vec![
        OpenPort {
            port: 22,
            label: "SSH".to_string(),
            risk: PortRisk::Medium,
            advice: "SSH advice".to_string(),
        },
        OpenPort {
            port: 23,
            label: "Telnet".to_string(),
            risk: PortRisk::High,
            advice: "Telnet advice".to_string(),
        },
    ];
    assert_eq!(highest_risk(&ports), Some(PortRisk::High));
    assert!(worst_port_advice(&ports).contains("Telnet"));
    assert_eq!(highest_risk(&[]), None);
}

#[test]
fn test_format_ports_summary() {
    let ports = vec![OpenPort {
        port: 3389,
        label: "RDP".to_string(),
        risk: PortRisk::High,
        advice: "close".to_string(),
    }];
    assert_eq!(format_ports_summary(&ports, 0), "3389/RDP");
    assert!(format_ports_summary(&[], 0).contains("Không có cổng"));
}

#[test]
fn open_port_record_uses_table_or_unknown() {
    let rec = open_port_record(3389, 1);
    assert_eq!(rec.port, 3389);
    assert_eq!(rec.label, "RDP");
    assert_eq!(rec.risk, PortRisk::High);
    assert_eq!(PortRisk::High.as_str(), "HIGH");
}

#[test]
fn best_service_prefers_probe_order_and_reports_latency() {
    let (class, ms) = best_service_hit(&[(80, 12), (554, 30)], 1);
    assert!(class.unwrap().contains("Camera"));
    assert_eq!(ms, Some(30));
    let (web, web_ms) = best_service_hit(&[(80, 0), (9999, 5)], 1);
    assert_eq!(web, Some("🌐 Network Device / Web"));
    assert_eq!(web_ms, Some(1));
    assert_eq!(best_service_hit(&[], 1), (None, None));
}

#[test]
fn netbios_query_is_a_node_status_request() {
    let p = netbios_query_packet();
    assert_eq!(p.len(), 50);
    assert_eq!(&p[p.len() - 4..], &[0x00, 0x21, 0x00, 0x01]);
}

#[test]
fn arp_lines_give_address_and_normalized_mac() {
    assert_eq!(
        arp_line_fields("  192.168.1.20    aa-bb-cc-dd-ee-ff     dynamic"),
        Some(("192.168.1.20".to_string(), "AA:BB:CC:DD:EE:FF".to_string()))
    );
    assert_eq!(arp_line_fields("192.168.1.255 ff-ff-ff-ff-ff-ff static"), None);
    assert_eq!(arp_line_fields("Interface: 192.168.1.5"), None);
}

#[test]
fn ping_statistics_and_verdicts() {
    assert_eq!(ping_sample_count(1), 3);
    assert_eq!(ping_sample_count(50), 10);
    let r = NetworkDiagnostics::ping_result("1.1.1.1", &[10, 20, 30], 4, 1);
    assert_eq!(r.min_ms, 10);
    assert_eq!(r.avg_ms, 20);
    assert_eq!(r.max_ms, 30);
    assert_eq!(r.jitter_ms, 10);
    assert_eq!(r.loss_pct, 25);
    let none = NetworkDiagnostics::ping_result("1.1.1.1", &[], 3, 1);
    assert_eq!(none.avg_ms, -1);
    assert_eq!(none.loss_pct, 100);
    assert_eq!(NetworkDiagnostics::fastest_ping(&[None, Some(40), Some(25)]), 25);
    assert_eq!(NetworkDiagnostics::fastest_ping(&[None, None]), -1);
    assert_eq!(NetworkDiagnostics::internet_verdict(-1, 1).1, 0);
    assert_eq!(NetworkDiagnostics::internet_verdict(20, 1).1, 30);
    assert_eq!(NetworkDiagnostics::dns_verdict(None, None, Some(9), 1).1, 25);
    assert_eq!(NetworkDiagnostics::gateway_verdict(100, -1, None, 1).1, 5);
}

#[test]
fn ping_targets_and_benchmark_domain_are_cleaned() {
    assert_eq!(benchmark_test_domain("   "), "google.com");
    assert_eq!(benchmark_test_domain(" example.org "), "example.org");
    assert_eq!(clean_ping_target(" https://8.8.8.8/ "), "8.8.8.8");
    assert_eq!(clean_ping_target("   "), "1.1.1.1");
}

#[test]
fn benchmark_rows_are_sorted_and_mark_fastest() {
    let rows = NetworkDiagnostics::benchmark_results(
        &[("A", "1.1.1.1:53", Some(40)), ("B", "8.8.8.8:53", None), ("C", "9.9.9.9:53", Some(15))],
        1,
    );
    assert_eq!(rows.len(), 3);
    assert_eq!(rows[0].provider_name, "C");
    assert!(rows[0].is_fastest);
    assert_eq!(rows[2].latency_ms, 9999);
    assert!(!rows[1].is_fastest);
}

#[test]
fn dns_probe_roundtrip() {
    let q = NetworkDiagnostics::dns_probe_query([0x12, 0x34], "example.com").unwrap();
    assert_eq!(&q[0..2], &[0x12, 0x34]);
    let mut reply = q.clone();
    reply[2] |= 0x80;
    assert!(NetworkDiagnostics::dns_probe_reply_ok(&reply, [0x12, 0x34]));
    assert!(!NetworkDiagnostics::dns_probe_reply_ok(&reply, [0x00, 0x34]));
}

#[test]
fn health_report_clamps_any_scores() {
    let r = NetworkDiagnostics::health_report(
        ("g".to_string(), i32::MAX),
        ("d".to_string(), i32::MAX),
        ("i".to_string(), 5),
        ("s".to_string(), 0),
        1,
    );
    assert_eq!(r.summary_score, 100);
    let r = NetworkDiagnostics::health_report(
        ("g".to_string(), i32::MIN),
        ("d".to_string(), 40),
        ("i".to_string(), 40),
        ("s".to_string(), 20),
        1,
    );
    assert_eq!(r.summary_score, 0);
}
