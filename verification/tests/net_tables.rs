use shield_ghita::blocker::{parse_ipv4_host_order, WfpBlocker};
use shield_ghita::monitor::connections::{
    connection_process_name, group_connections, keep_first_connections, parse_netstat_line,
    process_name_is_safe, summarize_group, tcp_state_name, ActiveConnection,
};

fn conn(name: &str, pid: u32, remote: &str, proto: &str, state: &str, safe: bool) -> ActiveConnection {
    ActiveConnection {
        process_name: name.to_string(),
        pid,
        local_addr: "0.0.0.0:1".to_string(),
        remote_addr: remote.to_string(),
        protocol: proto.to_string(),
        state: state.to_string(),
        is_safe: safe,
    }
}

#[test]
fn parse_ipv4_accepts_dotted_quad() {
    assert_eq!(parse_ipv4_host_order("1.2.3.4").unwrap(), 0x01020304);
    assert!(parse_ipv4_host_order("not-an-ip").is_err());
    assert!(parse_ipv4_host_order("2001:db8::1").is_err());
    assert_eq!(parse_ipv4_host_order(" 10.0.0.1 ").unwrap(), 0x0a000001);
    assert_eq!(parse_ipv4_host_order("x").unwrap_err(), "invalid IPv4 address: x");
}

#[test]
fn empty_rules_do_not_claim_custom_enforcement() {
    let b = WfpBlocker::new();
    assert!(b.get_blocked_ips().is_empty());
    assert!(b.get_blocked_ports().is_empty());
    assert!(!b.is_enabled());
}

#[test]
fn set_blocked_lists_roundtrip() {
    let mut b = WfpBlocker::new();
    b.set_blocked_ips(vec!["10.0.0.1".into()]);
    b.set_blocked_ports(vec![445, 3389]);
    assert_eq!(b.get_blocked_ips(), vec!["10.0.0.1".to_string()]);
    assert_eq!(b.get_blocked_ports(), vec![445, 3389]);
}

#[test]
fn enabling_without_engine_needs_empty_rules() {
    let mut b = WfpBlocker::new();
    assert!(b.enable().is_ok());
    assert!(b.is_enabled());
    assert!(b.disable().is_ok());
    b.set_blocked_ports(vec![445]);
    assert_eq!(
        b.enable().unwrap_err(),
        "WFP custom IP/port rules are only available on Windows"
    );
    assert!(!b.is_enabled());
}

#[test]
fn netstat_lines_become_connections() {
    let known = vec![(1234u32, "chrome.exe".to_string())];
    let c = parse_netstat_line("  TCP    192.168.1.5:50000    142.250.1.1:443    ESTABLISHED     1234", &known).unwrap();
    assert_eq!(c.process_name, "chrome.exe");
    assert_eq!(c.pid, 1234);
    assert_eq!(c.remote_addr, "142.250.1.1:443");
    assert_eq!(c.protocol, "TCP");
    assert_eq!(c.state, "ESTABLISHED");
    assert!(c.is_safe);
    let u = parse_netstat_line("udp 0.0.0.0:5353 10.0.0.2:5353 4", &known).unwrap();
    assert_eq!(u.process_name, "System Core");
    assert_eq!(u.state, "ACTIVE");
    assert!(parse_netstat_line("TCP 0.0.0.0:135 0.0.0.0:0 LISTENING 900", &known).is_none());
    assert!(parse_netstat_line("UDP 0.0.0.0:500 *:* 900", &known).is_none());
    assert!(parse_netstat_line("Active Connections", &known).is_none());
    let idle = parse_netstat_line("TCP 1.1.1.1:1 2.2.2.2:2 TIME_WAIT 0", &known).unwrap();
    assert_eq!(idle.process_name, "System Idle");
    let bad_pid = parse_netstat_line("TCP 1.1.1.1:1 2.2.2.2:2 TIME_WAIT x9", &known).unwrap();
    assert_eq!(bad_pid.pid, 0);
    let plus = parse_netstat_line("TCP 1.1.1.1:1 2.2.2.2:2 TIME_WAIT +77", &known).unwrap();
    assert_eq!(plus.process_name, "PID: 77");
}

#[test]
fn process_names_and_states() {
    assert!(!process_name_is_safe("CoinMiner.exe"));
    assert!(!process_name_is_safe("TROJAN-x"));
    assert!(process_name_is_safe("explorer.exe"));
    assert_eq!(tcp_state_name(5), "ESTABLISHED");
    assert_eq!(tcp_state_name(99), "ACTIVE");
    assert_eq!(connection_process_name(&[], 0, false), "PID: 0");
}

#[test]
fn connection_table_keeps_first_150() {
    let mut list: Vec<ActiveConnection> = (0..200).map(|i| conn("a", i, "x", "TCP", "ACTIVE", true)).collect();
    keep_first_connections(&mut list);
    assert_eq!(list.len(), 150);
    assert_eq!(list[149].pid, 149);
}

#[test]
fn connections_group_per_process_largest_first() {
    let conns = vec![
        conn("a.exe", 1, "1.1.1.1:443", "TCP", "SYN_SENT", true),
        conn("b.exe", 2, "2.2.2.2:53", "UDP", "ACTIVE", true),
        conn("b.exe", 2, "3.3.3.3:53", "UDP", "ACTIVE", false),
        conn("b.exe", 2, "4.4.4.4:443", "TCP", "ESTABLISHED", true),
        conn("b.exe", 2, "2.2.2.2:53", "UDP", "ACTIVE", true),
    ];
    let groups = group_connections(&conns);
    assert_eq!(groups.len(), 2);
    assert_eq!(groups[0].process_name, "b.exe");
    assert_eq!(groups[0].connection_count, 4);
    assert_eq!(groups[0].destinations_summary, "2.2.2.2:53, 3.3.3.3:53 (+1 khác)");
    assert_eq!(groups[0].protocol_summary, "TCP/UDP");
    assert_eq!(groups[0].state_summary, "ESTABLISHED");
    assert!(!groups[0].is_safe);
    assert_eq!(groups[1].destinations_summary, "1.1.1.1:443");
    assert_eq!(groups[1].state_summary, "SYN_SENT");
    assert_eq!(groups[1].protocol_summary, "TCP");
    let total: usize = groups.iter().map(|g| g.connection_count).sum();
    assert_eq!(total, conns.len());
    let one = summarize_group(&conns, "a.exe", 1);
    assert_eq!(one.connection_count, 1);
}
