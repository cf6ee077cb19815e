use domain_probe::cli::parse_target_url;
use domain_probe::grade::GradeResult;
use domain_probe::probe::dns::{DnsProbe, MxRecord};
use domain_probe::probe::headers::{HeaderCheck, HeaderMap, HeaderStatus, SecurityHeadersProbe};
use domain_probe::probe::http::{HttpProbe, HttpVersion};
use domain_probe::probe::rdap::{JsonValue, RdapProbe};
use domain_probe::probe::redirect::{RedirectHop, RedirectProbe};
use domain_probe::probe::tech::{TechMatch, TechProbe};
use domain_probe::probe::tls::{CertInfo, TlsProbe};
use domain_probe::report::json_report;
use domain_probe::time::Timestamp;

/// A compact text form, members in the order the library wrote them.
fn show(v: &JsonValue) -> String {
    match v {
        JsonValue::Null => "null".to_string(),
        JsonValue::Bool(b) => b.to_string(),
        JsonValue::Number(n) => n.clone(),
        JsonValue::Str(s) => format!("{:?}", s),
        JsonValue::Array(items) => format!("[{}]", items.iter().map(show).collect::<Vec<_>>().join(",")),
        JsonValue::Object(members) => format!(
            "{{{}}}",
            members.iter().map(|(k, v)| format!("{:?}:{}", k, show(v))).collect::<Vec<_>>().join(",")
        ),
    }
}

fn member<'a>(v: &'a JsonValue, key: &str) -> &'a JsonValue {
    match v {
        JsonValue::Object(members) => &members.iter().find(|(k, _)| k == key).unwrap().1,
        _ => panic!("not an object"),
    }
}

fn grade() -> GradeResult {
    GradeResult {
        grade: "B".to_string(),
        overall_score: 78,
        tls_score: 9,
        headers_score: 5,
        dns_score: 8,
        http_score: 10,
        perf_score: 7,
    }
}

#[test]
fn json_report_members_and_failures() {
    let target = parse_target_url("https://example.com/").unwrap();
    let alt = (parse_target_url("http://example.com/").unwrap(), Err("timed out".to_string()));
    let http = Ok(HttpProbe {
        status: 404,
        version: HttpVersion::Http2,
        content_type: Some("text/html".to_string()),
        content_length: None,
        server: Some("nginx".to_string()),
        headers: HeaderMap::new(),
        elapsed_ms: 42,
    });
    let redirect = Ok(RedirectProbe {
        hops: vec![RedirectHop { status: 301, from: "http://a/".to_string(), to: "https://a/".to_string() }],
        final_url: "https://a/".to_string(),
        final_status: Some(200),
        truncated: false,
        elapsed_ms: 7,
    });
    let dns = Ok(DnsProbe {
        ipv4: vec!["93.184.215.14".to_string()],
        ipv6: vec![],
        mx: vec![MxRecord { priority: 10, exchange: "mx.example.com".to_string() }],
        ns: vec!["a.iana-servers.net".to_string()],
        txt: vec![],
        caa: vec![],
        elapsed_ms: 3,
    });
    let rdap: Result<RdapProbe, String> = Err("no RDAP service".to_string());
    let tls = Ok(TlsProbe {
        protocol_version: "TLS 1.3".to_string(),
        cipher_suite: "TLS13_AES_256_GCM_SHA384".to_string(),
        certificate_chain: vec![CertInfo {
            subject: "example.com".to_string(),
            issuer: "CA".to_string(),
            not_before: Some(Timestamp { secs: 0, nanos: 0 }),
            not_after: None,
            san: vec!["example.com".to_string(), "www.example.com".to_string()],
            is_leaf: true,
        }],
        elapsed_ms: 11,
    });
    let sec = SecurityHeadersProbe {
        checks: vec![HeaderCheck { name: "HSTS".to_string(), status: HeaderStatus::Warn, value: "max-age=1".to_string() }],
        score: 5,
    };
    let tech = TechProbe {
        technologies: vec![TechMatch { name: "nginx".to_string(), category: "server".to_string(), icon: "x".to_string() }],
    };
    let j = json_report(
        &target,
        "example.com",
        &http,
        &redirect,
        Some(&alt),
        &dns,
        &rdap,
        &tls,
        Some(&sec),
        Some(&tech),
        &grade(),
        1234,
    );
    assert_eq!(show(member(&j, "target")), r#"{"url":"https://example.com/","host":"example.com"}"#);
    assert_eq!(
        show(member(&j, "http")),
        r#"{"status_code":404,"status_text":"Not Found","http_version":"h2","server":"nginx","content_type":"text/html","content_length":null,"elapsed_ms":42}"#
    );
    assert_eq!(
        show(member(&j, "redirects")),
        r#"{"hops":[{"status_code":301,"from":"http://a/","to":"https://a/"}],"final_url":"https://a/","final_status_code":200,"truncated":false,"elapsed_ms":7}"#
    );
    assert_eq!(show(member(&j, "scheme_variant")), r#"{"scheme":"http","error":"timed out"}"#);
    assert_eq!(
        show(member(&j, "dns")),
        r#"{"ipv4":["93.184.215.14"],"ipv6":[],"mx":[{"priority":10,"exchange":"mx.example.com"}],"ns":["a.iana-servers.net"],"txt":[],"caa":[],"elapsed_ms":3}"#
    );
    assert_eq!(show(member(&j, "rdap")), r#"{"error":"no RDAP service"}"#);
    assert_eq!(
        show(member(&j, "tls")),
        r#"{"protocol_version":"TLS 1.3","cipher_suite":"TLS13_AES_256_GCM_SHA384","certificate_chain":[{"subject":"example.com","issuer":"CA","not_before":"1970-01-01T00:00:00+00:00","not_after":null,"san":["example.com","www.example.com"],"is_leaf":true}],"elapsed_ms":11}"#
    );
    assert_eq!(
        show(member(&j, "security_headers")),
        r#"{"checks":[{"name":"HSTS","status":"warn","value":"max-age=1"}],"score":5}"#
    );
    assert_eq!(show(member(&j, "technology")), r#"[{"name":"nginx","category":"server"}]"#);
    assert_eq!(
        show(member(&j, "grade")),
        r#"{"grade":"B","overall_score":78,"tls_score":9,"headers_score":5,"dns_score":8,"http_score":10,"perf_score":7}"#
    );
    assert_eq!(show(member(&j, "total_elapsed_ms")), "1234");
}

#[test]
fn json_report_without_optional_parts() {
    let target = parse_target_url("http://example.org/x").unwrap();
    let http: Result<HttpProbe, String> = Err("connection refused".to_string());
    let redirect: Result<RedirectProbe, String> = Err("connection refused".to_string());
    let dns: Result<DnsProbe, String> = Err("no resolver".to_string());
    let rdap = Ok(RdapProbe {
        rdap_url: "https://rdap.example/domain/example.org".to_string(),
        registrar: Some("Registrar".to_string()),
        registrar_iana_id: None,
        registered_on: Some(Timestamp { secs: 86_400, nanos: 500_000_000 }),
        expires_on: None,
        status_codes: vec!["active".to_string()],
        registrant_name: None,
        registrant_contact_uri: None,
        abuse_email: Some("abuse@example.org".to_string()),
        abuse_phone: None,
        elapsed_ms: 9,
    });
    let tls: Result<TlsProbe, String> = Err("not an HTTPS target".to_string());
    let j = json_report(&target, "example.org", &http, &redirect, None, &dns, &rdap, &tls, None, None, &grade(), 5);
    assert_eq!(show(member(&j, "http")), r#"{"error":"connection refused"}"#);
    assert_eq!(show(member(&j, "scheme_variant")), "null");
    assert_eq!(show(member(&j, "security_headers")), "null");
    assert_eq!(show(member(&j, "technology")), "null");
    assert_eq!(
        show(member(&j, "rdap")),
        r#"{"rdap_url":"https://rdap.example/domain/example.org","registrar":"Registrar","registrar_iana_id":null,"registered_on":"1970-01-02T00:00:00.500+00:00","expires_on":null,"status_codes":["active"],"registrant_name":null,"registrant_contact_uri":null,"abuse_email":"abuse@example.org","abuse_phone":null,"elapsed_ms":9}"#
    );
}
