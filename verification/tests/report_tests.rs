use domain_probe::cli::{parse_sections, parse_target_url, SectionSet};
use domain_probe::grade::GradeResult;
use domain_probe::probe::dns::{DnsProbe, MxRecord};
use domain_probe::probe::headers::{HeaderCheck, HeaderMap, HeaderStatus, SecurityHeadersProbe};
use domain_probe::probe::http::{HttpProbe, HttpVersion};
use domain_probe::probe::rdap::RdapProbe;
use domain_probe::probe::redirect::{RedirectHop, RedirectProbe};
use domain_probe::probe::tech::{TechMatch, TechProbe};
use domain_probe::probe::tls::{CertInfo, TlsProbe};
use domain_probe::report::{
    fmt_datetime, format_duration, format_redirect_summary, http_version, paint_expiry, paint_status, perf_entries,
    perf_max_ms, render_dns_section, render_headers_section, render_http_section, render_methodology_section,
    render_perf_section, render_quick, render_redirects_section, render_summary_section, render_tech_section,
    render_tls_section, render_whois_section, row, row_type,
};
use domain_probe::style::{default_palette_values, Style};
use domain_probe::time::{Span, Timestamp};

const DAY: i128 = 86_400_000_000_000;

fn plain() -> Style {
    Style { use_color: false, is_tty: false, palette: default_palette_values() }
}

fn all() -> SectionSet {
    parse_sections(&[]).unwrap()
}

fn r(label: &str, value: &str) -> String {
    format!("  {:<20}{}", label, value)
}

fn http_probe() -> HttpProbe {
    HttpProbe {
        status: 200,
        version: HttpVersion::Http2,
        content_type: Some("text/html".to_string()),
        content_length: Some(1234),
        server: None,
        headers: HeaderMap::new(),
        elapsed_ms: 42,
    }
}

fn ts(secs: i64) -> Timestamp {
    Timestamp { secs, nanos: 0 }
}

#[test]
fn rows_pad_labels() {
    assert_eq!(row(&plain(), "URL", "x"), "  URL                 x");
    assert_eq!(row_type(&plain(), "MX", "m"), "  MX     m");
}

#[test]
fn status_labels_use_reason_phrases() {
    assert_eq!(paint_status(&plain(), 200), "200 OK");
    assert_eq!(paint_status(&plain(), 404), "404 Not Found");
    assert_eq!(paint_status(&plain(), 299), "299 Unknown");
    assert_eq!(http_version(HttpVersion::Http11), "HTTP/1.1");
    assert_eq!(http_version(HttpVersion::Other), "HTTP/?");
}

#[test]
fn durations_keep_two_units_and_ignore_sign() {
    assert_eq!(format_duration(Span { nanos: 90_061 * 1_000_000_000 }), "1d 1h");
    assert_eq!(format_duration(Span { nanos: -90_061 * 1_000_000_000 }), "1d 1h");
    assert_eq!(format_duration(Span { nanos: 7_500 * 1_000_000_000 }), "2h 5m");
    assert_eq!(format_duration(Span { nanos: 59 * 1_000_000_000 }), "0m");
}

#[test]
fn expiry_text_by_urgency() {
    assert_eq!(paint_expiry(&plain(), Span { nanos: 10 * DAY }), "in 10d 0h");
    assert_eq!(paint_expiry(&plain(), Span { nanos: 200 * DAY }), "in 200d 0h");
    assert_eq!(paint_expiry(&plain(), Span { nanos: -DAY }), "expired 1d 0h ago");
    let color = Style { use_color: true, is_tty: true, palette: default_palette_values() };
    let soon = paint_expiry(&color, Span { nanos: 10 * DAY });
    let later = paint_expiry(&color, Span { nanos: 200 * DAY });
    assert!(soon.starts_with("\x1b[38;2;252;165;165m"));
    assert!(later.starts_with("\x1b[38;2;134;239;172m"));
}

#[test]
fn datetimes_in_utc() {
    assert_eq!(fmt_datetime(ts(0)), "1970-01-01 00:00:00 UTC");
    assert_eq!(fmt_datetime(ts(1_577_934_245)), "2020-01-02 03:04:05 UTC");
}

#[test]
fn redirect_summaries() {
    assert_eq!(
        format_redirect_summary(&plain(), 0, "https://x/", None),
        "No redirect (0 hops, final: https://x/)"
    );
    assert_eq!(
        format_redirect_summary(&plain(), 2, "https://y/", Some(200)),
        "Redirected (2 hops, final: https://y/, status: 200 OK)"
    );
    assert_eq!(
        format_redirect_summary(&plain(), 1, "https://y/", None),
        "Redirected (1 hops, final: https://y/, status: unknown)"
    );
}

#[test]
fn http_section_lines() {
    let lines = render_http_section(&plain(), 40, "https://e.com/", "e.com", &Ok(http_probe()), &all(), true);
    assert_eq!(
        lines,
        vec![
            String::new(),
            format!("HTTP Target {}", "─".repeat(27)),
            "  Sends HEAD request to target URL, captures status code, server, and content-type.".to_string(),
            r("URL", "https://e.com/"),
            r("Host", "e.com"),
            r("HTTP", "200 OK (h2)"),
            r("Server", "unknown"),
            r("Content-Type", "text/html"),
            r("Content-Length", "1,234 bytes"),
            r("HTTP Probe Time", "42 ms"),
        ]
    );
    let failed = render_http_section(&plain(), 40, "u", "h", &Err("boom".to_string()), &all(), false);
    assert_eq!(failed.last().unwrap(), &r("HTTP", "probe failed: boom"));
    let only_dns = parse_sections(&["dns".to_string()]).unwrap();
    assert!(render_http_section(&plain(), 40, "u", "h", &Ok(http_probe()), &only_dns, false).is_empty());
}

#[test]
fn whois_section_lines() {
    let rdap = RdapProbe {
        rdap_url: "https://rdap/x".to_string(),
        registrar: Some("Reg".to_string()),
        registrar_iana_id: Some("7".to_string()),
        registered_on: Some(ts(0)),
        expires_on: Some(ts(86_400 * 400)),
        status_codes: vec!["a".to_string(), "b".to_string()],
        registrant_name: Some("DATA REDACTED".to_string()),
        registrant_contact_uri: None,
        abuse_email: Some("e@x".to_string()),
        abuse_phone: Some("+1".to_string()),
        elapsed_ms: 3,
    };
    let now = ts(86_400 * 10);
    let lines = render_whois_section(&plain(), 40, now, &Ok(rdap), &all(), false);
    assert_eq!(
        lines[2..].to_vec(),
        vec![
            r("Registrar", "Reg (IANA Registrar ID: 7)"),
            r("Registered On", "1970-01-01 00:00:00 UTC (10d 0h ago)"),
            r("Expires On", "1971-02-05 00:00:00 UTC (in 390d 0h)"),
            r("Domain Status", "a, b"),
            r("Registrant", "DATA REDACTED"),
            r("Abuse Contact", "e@x | +1"),
            r("RDAP Source", "https://rdap/x"),
        ]
    );
    let failed = render_whois_section(&plain(), 40, now, &Err("x".to_string()), &all(), false);
    assert_eq!(failed.last().unwrap(), &r("RDAP", "lookup failed: x"));
}

#[test]
fn redirects_section_lines() {
    let p = RedirectProbe {
        hops: vec![RedirectHop { status: 301, from: "http://a/".to_string(), to: "https://a/".to_string() }],
        final_url: "https://a/".to_string(),
        final_status: Some(200),
        truncated: true,
        elapsed_ms: 1,
    };
    let alt_url = parse_target_url("http://a/").unwrap();
    let alt = (alt_url, Ok(RedirectProbe {
        hops: vec![],
        final_url: "http://a/".to_string(),
        final_status: Some(200),
        truncated: false,
        elapsed_ms: 1,
    }));
    let lines = render_redirects_section(&plain(), 40, &Ok(p), Some(&alt), &all(), false);
    assert_eq!(
        lines[2..].to_vec(),
        vec![
            "  ● http://a/".to_string(),
            "  │ → 301 → https://a/".to_string(),
            "  ● https://a/ (200 OK)".to_string(),
            "  max redirect hops reached".to_string(),
            String::new(),
            r("HTTP variant", "No redirect (0 hops, final: http://a/)"),
        ]
    );
}

#[test]
fn tls_section_lines() {
    let cert = |subject: &str, issuer: &str, leaf: bool, not_after: Option<Timestamp>, san: Vec<&str>| CertInfo {
        subject: subject.to_string(),
        issuer: issuer.to_string(),
        not_before: None,
        not_after,
        san: san.into_iter().map(|s| s.to_string()).collect(),
        is_leaf: leaf,
    };
    let tls = TlsProbe {
        protocol_version: "TLS 1.3".to_string(),
        cipher_suite: "TLS13_AES_256_GCM_SHA384".to_string(),
        certificate_chain: vec![
            cert("e.com", "CA", true, Some(ts(86_400 * 5)), vec!["a", "b", "c", "d", "e", "f", "g"]),
            cert("", "Mid CA", false, None, vec![]),
            cert("Root", "Root", false, None, vec![]),
        ],
        elapsed_ms: 9,
    };
    let lines = render_tls_section(&plain(), 40, ts(86_400 * 7), &Ok(tls), &all(), false);
    assert_eq!(
        lines[2..].to_vec(),
        vec![
            r("Protocol", "TLS 1.3"),
            r("Cipher", "TLS13_AES_256_GCM_SHA384"),
            String::new(),
            "    ┌─ e.com (leaf)".to_string(),
            "    ├─ Mid CA".to_string(),
            "    └─ Root (root)".to_string(),
            String::new(),
            r("Expires", "1970-01-06 00:00:00 UTC (expired 2 days ago)"),
            r("SANs", "a, b, c, d, e (+2 more)"),
        ]
    );
}

#[test]
fn headers_section_lines() {
    let sh = SecurityHeadersProbe {
        checks: vec![
            HeaderCheck { name: "Strict-Transport-Security".to_string(), status: HeaderStatus::Pass, value: "max-age=1".to_string() },
            HeaderCheck { name: "X-XSS-Protection".to_string(), status: HeaderStatus::Info, value: "absent".to_string() },
        ],
        score: 7,
    };
    let lines = render_headers_section(&plain(), 40, Some(&sh), &all(), false);
    assert_eq!(
        lines[2..].to_vec(),
        vec![
            format!("  PASS  {:<30} max-age=1", "Strict-Transport-Security"),
            format!("  INFO  {:<30} absent", "X-XSS-Protection"),
            String::new(),
            r("Score", "███████░░░ 7/10"),
        ]
    );
    let none = render_headers_section(&plain(), 40, None, &all(), false);
    assert_eq!(none.last().unwrap(), &r("Security Headers", "unavailable (HTTP probe failed)"));
}

fn dns_probe() -> DnsProbe {
    DnsProbe {
        ipv4: vec!["1.2.3.4".to_string(), "5.6.7.8".to_string()],
        ipv6: vec![],
        mx: vec![MxRecord { priority: 10, exchange: "mx.e.com".to_string() }],
        ns: vec!["ns1".to_string(), "ns2".to_string()],
        txt: vec!["x".repeat(85)],
        caa: vec!["0 issue \"ca\"".to_string()],
        elapsed_ms: 5,
    }
}

#[test]
fn dns_single_column_lines() {
    let lines = render_dns_section(&plain(), 80, &Ok(dns_probe()), None, &all(), false);
    assert_eq!(
        lines[2..].to_vec(),
        vec![
            "  A      1.2.3.4, 5.6.7.8".to_string(),
            "  AAAA   none".to_string(),
            "  MX     mx.e.com (pri 10)".to_string(),
            "  NS     ns1, ns2".to_string(),
            format!("  TXT    {}...", "x".repeat(80)),
            "  CAA    0 issue \"ca\"".to_string(),
        ]
    );
}

#[test]
fn dns_two_columns_on_wide_terminals() {
    let lines = render_dns_section(&plain(), 120, &Ok(dns_probe()), None, &all(), false);
    let col = (120 - 8) / 2;
    let val_max = col - 9;
    let txt = format!("TXT    {}...", "x".repeat(val_max - 3));
    assert_eq!(lines[2], format!("  {:<width$}    {}", "A      1.2.3.4, 5.6.7.8", txt, width = col));
    assert_eq!(lines[3], format!("  {:<width$}    CAA    0 issue \"ca\"", "AAAA   none", width = col));
    assert_eq!(lines[4], format!("  {:<width$}    ", "MX     mx.e.com (pri 10)", width = col));
    assert_eq!(lines.len(), 6);
}

#[test]
fn dns_cloudflare_note() {
    let mut http = http_probe();
    http.server = Some("CloudFlare".to_string());
    let lines = render_dns_section(&plain(), 80, &Ok(dns_probe()), Some(&http), &all(), false);
    assert_eq!(lines.last().unwrap(), &r("Note", "Cloudflare anycast edge IPs can vary by client location"));
}

#[test]
fn tech_tags_wrap_to_terminal() {
    let tech = TechProbe {
        technologies: vec![
            TechMatch { name: "Cloudflare".to_string(), category: "CDN".to_string(), icon: "*".to_string() },
            TechMatch { name: "nginx".to_string(), category: "Server".to_string(), icon: "+".to_string() },
        ],
    };
    let lines = render_tech_section(&plain(), 40, Some(&tech), &all(), false);
    assert_eq!(lines[2..].to_vec(), vec!["  [* Cloudflare] [+ nginx] ".to_string()]);
    let narrow = render_tech_section(&plain(), 20, Some(&tech), &all(), false);
    assert_eq!(narrow[2..].to_vec(), vec!["  [* Cloudflare] ".to_string(), "  [+ nginx] ".to_string()]);
    let none = render_tech_section(&plain(), 40, None, &all(), false);
    assert_eq!(none.last().unwrap(), &r("Technologies", "none detected"));
}

#[test]
fn perf_section_lines() {
    let entries = perf_entries(
        &Ok(http_probe()),
        &Err("x".to_string()),
        &Ok(dns_probe()),
        &Err("y".to_string()),
        &Err("z".to_string()),
    );
    assert_eq!(entries.len(), 2);
    assert_eq!(perf_max_ms(&entries), 42);
    let lines = render_perf_section(&plain(), 40, &entries, &[20, 2], 100, &all(), false);
    assert_eq!(
        lines[2..].to_vec(),
        vec![
            format!("  {:<20}{:>6} ms  {}", "HTTP", 42, "█".repeat(20)),
            format!("  {:<20}{:>6} ms  {}{}", "DNS", 5, "█".repeat(2), "░".repeat(18)),
            format!("  {}", "─".repeat(29)),
            format!("  {:<20}{:>6} ms", "Total", 100),
        ]
    );
    assert_eq!(perf_max_ms(&[]), 1);
}

#[test]
fn summary_box_lines() {
    let g = GradeResult {
        grade: "A".to_string(),
        overall_score: 90,
        tls_score: 10,
        headers_score: 5,
        dns_score: 9,
        http_score: 10,
        perf_score: 1,
    };
    let lines = render_summary_section(&plain(), 80, &g, 1500, &all(), false);
    assert_eq!(lines[3], format!("  ╭{}╮", "─".repeat(48)));
    assert_eq!(lines[4], format!("  │  {:^12}  {:<14}{} 10/10  │", "A", "HTTP", "█".repeat(10)));
    assert_eq!(lines[5], format!("  │  {:^12}  {:<14}{} 10/10  │", "OVERALL", "TLS", "█".repeat(10)));
    assert_eq!(lines[8], format!("  │{}{:<14}{}{} 1/10   │", " ".repeat(16), "Performance", "█", "░".repeat(9)));
    assert_eq!(lines[9], format!("  ╰{}╯", "─".repeat(48)));
    assert_eq!(lines.last().unwrap(), &r("Completed", "1500 ms"));
}

#[test]
fn methodology_only_when_verbose() {
    assert!(render_methodology_section(&plain(), 40, false, true).is_empty());
    let lines = render_methodology_section(&plain(), 40, true, true);
    assert_eq!(lines[2], r("Execution Mode", "sequential (--sequential)"));
    assert_eq!(lines.len(), 18);
}

#[test]
fn quick_view_lines() {
    let tls = TlsProbe {
        protocol_version: "TLS 1.3".to_string(),
        cipher_suite: "c".to_string(),
        certificate_chain: vec![CertInfo {
            subject: "e".to_string(),
            issuer: "i".to_string(),
            not_before: None,
            not_after: Some(ts(86_400 * 30)),
            san: vec![],
            is_leaf: true,
        }],
        elapsed_ms: 1,
    };
    let sh = SecurityHeadersProbe {
        checks: vec![HeaderCheck { name: "Strict-Transport-Security".to_string(), status: HeaderStatus::Pass, value: String::new() }],
        score: 2,
    };
    let lines = render_quick(
        &plain(),
        ts(0),
        "e.com",
        &Ok(http_probe()),
        &Ok(dns_probe()),
        &Err("n/a".to_string()),
        &Ok(tls),
        Some(&sh),
        None,
        "B",
        321,
    );
    assert_eq!(
        lines,
        vec![
            "  e.com".to_string(),
            "  TLS 1.3  h2  200 OK  321ms  B".to_string(),
            "  1.2.3.4 · HSTS ✓ · CSP ✗ · Cert 30d".to_string(),
        ]
    );
}
