use domain_probe::grade::{letter_grade, perf_score};
use domain_probe::probe::http::{collect_headers, length_from, parse_length};
use domain_probe::probe::tls::{connect_timeout_secs, handshake_timeout_secs, protocol_label, unparsed_cert, TlsVersion};
use domain_probe::streaming::{need_render, plan_renders, Arrived, Rendered};
use domain_probe::text::truncate_str;

#[test]
fn letters_follow_thresholds() {
    assert_eq!(letter_grade(100), "A+");
    assert_eq!(letter_grade(95), "A+");
    assert_eq!(letter_grade(94), "A");
    assert_eq!(letter_grade(85), "A");
    assert_eq!(letter_grade(75), "B");
    assert_eq!(letter_grade(65), "C");
    assert_eq!(letter_grade(50), "D");
    assert_eq!(letter_grade(49), "F");
}

#[test]
fn higher_score_never_lower_letter() {
    let rank = |g: &str| ["F", "D", "C", "B", "A", "A+"].iter().position(|x| *x == g).unwrap();
    let mut last = 0;
    for s in 0..=100u32 {
        let r = rank(&letter_grade(s));
        assert!(r >= last);
        last = r;
    }
}

#[test]
fn slower_probes_never_score_higher() {
    assert_eq!(perf_score(0), 10);
    assert_eq!(perf_score(499), 10);
    assert_eq!(perf_score(500), 9);
    assert_eq!(perf_score(8000), 1);
    let mut last = 10;
    for ms in (0..10_000u128).step_by(250) {
        let s = perf_score(ms);
        assert!(s <= last && s >= 1);
        last = s;
    }
}

#[test]
fn content_length_parsing() {
    assert_eq!(parse_length("42"), Some(42));
    assert_eq!(parse_length("+7"), Some(7));
    assert_eq!(parse_length("-1"), None);
    assert_eq!(parse_length(""), None);
    assert_eq!(parse_length("18446744073709551616"), None);
    assert_eq!(length_from(Some("10".to_string()), Some("bytes 0-0/99".to_string())), Some(10));
    assert_eq!(length_from(Some("x".to_string()), Some("bytes 0-0/99".to_string())), Some(99));
    assert_eq!(length_from(None, Some("bytes 0-0/*".to_string())), None);
    assert_eq!(length_from(None, None), None);
}

#[test]
fn headers_are_collected_lower_case_last_wins() {
    let m = collect_headers(vec![
        ("Server".to_string(), "a".to_string()),
        ("X-Test".to_string(), "1".to_string()),
        ("SERVER".to_string(), "b".to_string()),
    ]);
    assert_eq!(m.get("server"), Some("b".to_string()));
    assert_eq!(m.get("x-test"), Some("1".to_string()));
    assert!(!m.contains_key("Server"));
}

#[test]
fn tls_labels_and_timeouts() {
    assert_eq!(protocol_label(Some(TlsVersion::Tls13)), "TLS 1.3");
    assert_eq!(protocol_label(Some(TlsVersion::Tls10)), "TLS 1.0");
    assert_eq!(protocol_label(Some(TlsVersion::Other)), "unknown");
    assert_eq!(protocol_label(None), "unknown");
    assert_eq!(connect_timeout_secs(0), 1);
    assert_eq!(connect_timeout_secs(5), 5);
    assert_eq!(connect_timeout_secs(100), 8);
    assert_eq!(handshake_timeout_secs(0), 1);
    assert_eq!(handshake_timeout_secs(30), 30);
    let c = unparsed_cert(true);
    assert_eq!(c.subject, "(parse error)");
    assert_eq!(c.issuer, "(parse error)");
    assert!(c.is_leaf && c.san.is_empty() && c.not_after.is_none());
}

#[test]
fn each_section_renders_once() {
    let mut r = Rendered::none();
    let none = Arrived { http: false, redirect: false, alt_redirect: false, rdap: false, tls: false };
    assert!(!need_render(&r, &none));
    let some = Arrived { http: true, redirect: true, alt_redirect: false, rdap: false, tls: false };
    assert!(need_render(&r, &some));
    let p = plan_renders(&mut r, &some);
    assert!(p.http && p.headers && p.tech && !p.redirects && !p.tls && !p.whois);
    assert!(!need_render(&r, &some));
    let all = Arrived { http: true, redirect: true, alt_redirect: true, rdap: true, tls: true };
    let p2 = plan_renders(&mut r, &all);
    assert!(!p2.http && !p2.headers && !p2.tech && p2.redirects && p2.tls && p2.whois);
    assert!(r.http && r.tls && r.headers && r.tech && r.redirects && r.whois);
    let p3 = plan_renders(&mut r, &all);
    assert!(!(p3.http || p3.tls || p3.headers || p3.redirects || p3.tech || p3.whois));
}

#[test]
fn truncation_fits_the_limit() {
    assert_eq!(truncate_str("hello", 10), "hello");
    assert_eq!(truncate_str("hello world", 8), "hello...");
    let t = truncate_str("ééééé", 6);
    assert!(t.len() <= 6);
    assert_eq!(t, "é...");
    assert_eq!(truncate_str("hello", 2), "..");
    assert_eq!(truncate_str("hello", 0), "");
    assert_eq!(truncate_str("hi", 2), "hi");
}

