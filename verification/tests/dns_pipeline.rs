use shield_ghita::dns::packet::ResponseOverride;
use shield_ghita::dns::pipeline::LocalAnswer;
use shield_ghita::dns::sources::{text_lines, BlocklistFetch};
use shield_ghita::dns::DnsBlocker;

fn query(name: &[&str], qtype: u8) -> Vec<u8> {
    let mut q = vec![0x12, 0x34, 0x01, 0x00, 0x00, 0x01, 0x00, 0x00, 0x00, 0x00, 0x00, 0x00];
    for l in name {
        q.push(l.len() as u8);
        q.extend_from_slice(l.as_bytes());
    }
    q.extend_from_slice(&[0x00, 0x00, qtype, 0x00, 0x01]);
    q
}

#[test]
fn lines_split_like_str_lines() {
    let lines: Vec<String> = text_lines("a\r\nb\n\nc").into_iter().map(|v| v.into_iter().collect()).collect();
    assert_eq!(lines, vec!["a", "b", "", "c"]);
    let lines: Vec<String> = text_lines("x\n").into_iter().map(|v| v.into_iter().collect()).collect();
    assert_eq!(lines, vec!["x"]);
    assert!(text_lines("").is_empty());
}

#[test]
fn fetched_lists_replace_the_blocklist_and_keep_etags() {
    let mut b = DnsBlocker::new();
    let base = b.get_rules_count();
    let urls = vec!["https://a.example/hosts".to_string(), "https://b.example/list".to_string()];
    let results = vec![
        BlocklistFetch::Fetched(
            urls[0].clone(),
            "# comment\r\n0.0.0.0 ads.fetched.test\r\n||tracker.fetched.test^\n".to_string(),
            Some("\"v1\"".to_string()),
        ),
        BlocklistFetch::NotModified(urls[1].clone()),
    ];
    let count = b.apply_blocklist_fetches(&urls, &results);
    assert_eq!(count, base + 2);
    assert!(b.should_block("ads.fetched.test"));
    assert!(b.should_block("x.tracker.fetched.test"));
    assert_eq!(b.etag_for("https://a.example/hosts"), Some("\"v1\"".to_string()));
    assert_eq!(b.etag_entries().len(), 1);

    let unchanged = vec![
        BlocklistFetch::NotModified(urls[0].clone()),
        BlocklistFetch::NotModified(urls[1].clone()),
    ];
    assert_eq!(b.apply_blocklist_fetches(&urls, &unchanged), base + 2);
    assert!(b.should_block("ads.fetched.test"));

    let failed = vec![BlocklistFetch::Failed, BlocklistFetch::Failed];
    assert_eq!(b.apply_blocklist_fetches(&urls, &failed), base);
    assert!(b.should_block("ads.fetched.test"));
}

#[test]
fn etags_of_unlisted_sources_are_dropped() {
    let mut b = DnsBlocker::new();
    b.remember_etag("https://old.example/list", "t0");
    let urls = vec!["https://a.example/hosts".to_string()];
    let results = vec![BlocklistFetch::Fetched(urls[0].clone(), "ads.z.test\n".to_string(), Some("t1".to_string()))];
    b.apply_blocklist_fetches(&urls, &results);
    assert_eq!(b.etag_for("https://old.example/list"), None);
    assert_eq!(b.etag_for("https://a.example/hosts"), Some("t1".to_string()));
}

#[test]
fn local_answers_follow_policy_block_and_cache() {
    let mut b = DnsBlocker::new();
    let q = query(&["ads", "google", "com"], 1);
    b.add_custom_domain("ads.google.com", 1).unwrap();
    match b.answer_locally(&q, "ads.google.com", 1, None, 0) {
        LocalAnswer::Blocked(Some(r)) => assert_eq!(&r[r.len() - 4..], &[127, 0, 0, 1]),
        _ => panic!("blocked name must get the sinkhole answer"),
    }
    let over = ResponseOverride { ipv4: [192, 0, 2, 10], ipv6: [0u8; 16] };
    match b.answer_locally(&q, "ads.google.com", 1, Some(over), 0) {
        LocalAnswer::Reply(Some(r)) => assert_eq!(&r[r.len() - 4..], &[192, 0, 2, 10]),
        _ => panic!("a policy override answers first"),
    }
    let q2 = query(&["example", "org"], 1);
    match b.answer_locally(&q2, "example.org", 1, None, 0) {
        LocalAnswer::Forward => {}
        _ => panic!("an unknown name goes upstream"),
    }
    let upstream = DnsBlocker::build_sinkhole_a_record(&q2, [93, 184, 216, 34]).unwrap();
    let sent = b.finish_forwarded(&q2, "example.org", 1, Some(upstream.clone()), 0).unwrap();
    assert_eq!(sent, upstream);
    match b.answer_locally(&q2, "example.org", 1, None, 1_000) {
        LocalAnswer::Reply(Some(r)) => assert_eq!(r, upstream),
        _ => panic!("the cached answer is reused"),
    }
    let fail = b.finish_forwarded(&q2, "none.test", 1, None, 0).unwrap();
    assert_eq!(fail[3] & 0x0F, 2);
    let refused = b.refuse_attack(&q2).unwrap();
    assert_eq!(refused[3] & 0x0F, 3);
    b.count_query();
}
