use domain_probe::cli::{
    alt_scheme_url, client_timeouts, effective_timeout, parse_sections, parse_target_url, should_show, SectionName,
    SectionSet,
};

#[test]
fn section_names_and_aliases() {
    assert_eq!(SectionName::parse("target"), Some(SectionName::Target));
    assert_eq!(SectionName::parse(" HTTP "), Some(SectionName::Target));
    assert_eq!(SectionName::parse("rdap"), Some(SectionName::Whois));
    assert_eq!(SectionName::parse("Redirect"), Some(SectionName::Redirects));
    assert_eq!(SectionName::parse("ip"), Some(SectionName::Dns));
    assert_eq!(SectionName::parse("CERTIFICATE"), Some(SectionName::Tls));
    assert_eq!(SectionName::parse("security-headers"), Some(SectionName::Headers));
    assert_eq!(SectionName::parse("fingerprint"), Some(SectionName::Tech));
    assert_eq!(SectionName::parse("perf"), Some(SectionName::Performance));
    assert_eq!(SectionName::parse("\tgrade\n"), Some(SectionName::Summary));
    assert_eq!(SectionName::parse("whoisx"), None);
    assert_eq!(SectionName::parse(""), None);
}

#[test]
fn parse_sections_collects_a_set() {
    let set = parse_sections(&["dns".to_string(), "tls".to_string(), "DNS".to_string()]).unwrap();
    assert!(set.contains(SectionName::Dns));
    assert!(set.contains(SectionName::Tls));
    assert!(!set.contains(SectionName::Whois));
    assert!(should_show(&set, SectionName::Dns));
    assert!(!should_show(&set, SectionName::Summary));
}

#[test]
fn parse_sections_names_the_first_unknown() {
    let err = parse_sections(&["dns".to_string(), "bogus".to_string(), "nope".to_string()]).err().unwrap();
    assert_eq!(
        err,
        "unknown section `bogus` (supported: target, whois, redirects, dns, tls, headers, tech, performance, summary)"
    );
}

#[test]
fn empty_selection_shows_every_section() {
    let set = parse_sections(&[]).unwrap();
    assert!(set.is_empty());
    for s in [
        SectionName::Target,
        SectionName::Whois,
        SectionName::Redirects,
        SectionName::Dns,
        SectionName::Tls,
        SectionName::Headers,
        SectionName::Tech,
        SectionName::Performance,
        SectionName::Summary,
    ] {
        assert!(should_show(&set, s));
    }
    let mut one = SectionSet::new();
    one.insert(SectionName::Tech);
    assert!(!one.is_empty());
    assert!(should_show(&one, SectionName::Tech));
    assert!(!should_show(&one, SectionName::Dns));
}

#[test]
fn bare_host_gets_https() {
    let u = parse_target_url("example.com").unwrap();
    assert_eq!(u.as_str(), "https://example.com/");
    assert_eq!(u.scheme(), "https");
    assert_eq!(u.host(), Some("example.com".to_string()));
    assert_eq!(u.path(), "/");
    assert!(u.is_https());
}

#[test]
fn full_url_is_kept() {
    let u = parse_target_url("http://models.dev/api.json").unwrap();
    assert_eq!(u.as_str(), "http://models.dev/api.json");
    assert!(!u.is_https());
    assert_eq!(u.url().as_str(), "http://models.dev/api.json");
}

#[test]
fn url_without_host_is_refused() {
    let err = parse_target_url("mailto:someone@example.com").err().unwrap();
    assert_eq!(err, "unable to parse a hostname from input");
}

#[test]
fn unparsable_target_reports_parse_error() {
    let err = parse_target_url("").err().unwrap();
    assert_eq!(err, "empty host");
}

#[test]
fn alt_scheme_swaps_http_and_https() {
    let https = parse_target_url("https://example.com/a?b=1").unwrap();
    let alt = alt_scheme_url(&https).unwrap();
    assert_eq!(alt.as_str(), "http://example.com/a?b=1");
    let back = alt_scheme_url(&alt).unwrap();
    assert_eq!(back.as_str(), "https://example.com/a?b=1");
    let ftp = parse_target_url("ftp://example.com/").unwrap();
    assert!(alt_scheme_url(&ftp).is_none());
}

#[test]
fn timeouts_follow_cli_then_config() {
    assert_eq!(effective_timeout(10, 30), 30);
    assert_eq!(effective_timeout(5, 30), 5);
    assert_eq!(client_timeouts(0), (1, 1));
    assert_eq!(client_timeouts(5), (5, 5));
    assert_eq!(client_timeouts(20), (8, 20));
}
