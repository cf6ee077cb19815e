use domain_probe::probe::rdap::{
    build_rdap_domain_url, cloudflare_rdap_url, domain_tld, eq_ignore_ascii_case, extract_entity_fields,
    fields_of_entities, find_event_date, find_related_rdap_url, find_with_role, first_vcard_value,
    is_cloudflare_registrar, merge_entity_fields, needs_related_rdap, rdap_base_for, rdap_probe, strip_tel_prefix,
    vcard_values, JsonValue, RdapDomain, RdapEntity, RdapEntityFields, RdapEvent, RdapLink, RdapPublicId,
    RdapService,
};

fn s(x: &str) -> JsonValue {
    JsonValue::Str(x.to_string())
}

fn row(name: &str, value: JsonValue) -> JsonValue {
    JsonValue::Array(vec![s(name), JsonValue::Object(vec![]), s("text"), value])
}

fn card(rows: Vec<JsonValue>) -> JsonValue {
    JsonValue::Array(vec![s("vcard"), JsonValue::Array(rows)])
}

fn entity(roles: &[&str], card_rows: Vec<JsonValue>, children: Vec<RdapEntity>) -> RdapEntity {
    RdapEntity {
        roles: Some(roles.iter().map(|r| r.to_string()).collect()),
        entities: if children.is_empty() { None } else { Some(children) },
        vcard_array: Some(card(card_rows)),
        public_ids: None,
    }
}

fn no_fields() -> RdapEntityFields {
    RdapEntityFields {
        registrar: None,
        registrar_iana_id: None,
        registrant_name: None,
        registrant_contact_uri: None,
        abuse_email: None,
        abuse_phone: None,
    }
}

#[test]
fn vcard_values_trim_join_and_skip_empty() {
    let c = card(vec![
        row("version", s("4.0")),
        row("fn", s("  ACME Inc ")),
        row("FN", s("   ")),
        row("adr", JsonValue::Array(vec![s(""), s(" Main St "), JsonValue::Null, s("Town")])),
        JsonValue::Array(vec![s("fn"), JsonValue::Object(vec![])]),
        row("fn", s("Second")),
    ]);
    assert_eq!(vcard_values(&c, "fn"), vec!["ACME Inc".to_string(), "Second".to_string()]);
    assert_eq!(vcard_values(&c, "adr"), vec!["Main St Town".to_string()]);
    assert!(vcard_values(&c, "email").is_empty());
    assert!(vcard_values(&s("vcard"), "fn").is_empty());
}

#[test]
fn roles_match_ignoring_ascii_case() {
    assert!(eq_ignore_ascii_case("Registrar", "registrar"));
    assert!(!eq_ignore_ascii_case("registrar", "registrant"));
    let es = vec![entity(&["technical"], vec![], vec![entity(&["ABUSE"], vec![row("email", s("a@x"))], vec![])])];
    let found = find_with_role(&es, "abuse").unwrap();
    assert_eq!(first_vcard_value(found, "email"), Some("a@x".to_string()));
    assert!(find_with_role(&es, "registrar").is_none());
}

#[test]
fn fields_come_from_the_right_entities() {
    let mut registrar = entity(
        &["registrar"],
        vec![row("fn", s("Example Registrar"))],
        vec![entity(&["abuse"], vec![row("email", s("abuse@example.com")), row("tel", s("tel:tel:+1.5550100"))], vec![])],
    );
    registrar.public_ids = Some(vec![
        RdapPublicId { kind: Some("other".to_string()), identifier: Some("1".to_string()) },
        RdapPublicId { kind: Some("IANA Registrar ID".to_string()), identifier: None },
        RdapPublicId { kind: Some("IANA Registrar ID".to_string()), identifier: Some("292".to_string()) },
    ]);
    let admin = entity(&["administrative"], vec![row("fn", s("Admin")), row("contact-uri", s("https://c"))], vec![]);
    let f = fields_of_entities(&[registrar, admin]);
    assert_eq!(f.registrar, Some("Example Registrar".to_string()));
    assert_eq!(f.registrar_iana_id, Some("292".to_string()));
    assert_eq!(f.registrant_name, Some("Admin".to_string()));
    assert_eq!(f.registrant_contact_uri, Some("https://c".to_string()));
    assert_eq!(f.abuse_email, Some("abuse@example.com".to_string()));
    assert_eq!(f.abuse_phone, Some("+1.5550100".to_string()));
    assert!(!needs_related_rdap(&f));
}

#[test]
fn domain_without_entities_has_no_fields() {
    let d = RdapDomain { events: None, status: None, entities: None, links: None };
    let f = extract_entity_fields(&d);
    assert!(f.registrar.is_none() && f.abuse_phone.is_none());
    assert!(needs_related_rdap(&f));
}

#[test]
fn merge_keeps_found_fields_and_fills_missing() {
    let mut target = no_fields();
    target.registrar = Some("Kept".to_string());
    let mut incoming = no_fields();
    incoming.registrar = Some("Other".to_string());
    incoming.abuse_email = Some("e@x".to_string());
    merge_entity_fields(&mut target, incoming);
    assert_eq!(target.registrar, Some("Kept".to_string()));
    assert_eq!(target.abuse_email, Some("e@x".to_string()));
    assert_eq!(target.abuse_phone, None);
}

#[test]
fn tel_prefixes_are_stripped() {
    assert_eq!(strip_tel_prefix("tel:tel:+1"), "+1");
    assert_eq!(strip_tel_prefix("+1 tel:"), "+1 tel:");
    assert_eq!(strip_tel_prefix("tel:"), "");
}

#[test]
fn tld_is_last_label_lowercased() {
    assert_eq!(domain_tld("www.Example.COM").iter().collect::<String>(), "com");
    assert_eq!(domain_tld("localhost").iter().collect::<String>(), "localhost");
    assert_eq!(domain_tld("trailing.").iter().collect::<String>(), "");
}

#[test]
fn bootstrap_picks_first_serving_service_with_a_url() {
    let services = vec![
        RdapService { tlds: vec!["net".to_string()], urls: vec!["https://net/".to_string()] },
        RdapService { tlds: vec!["COM".to_string()], urls: vec![] },
        RdapService { tlds: vec!["org".to_string(), "com".to_string()], urls: vec!["https://a/".to_string(), "https://b/".to_string()] },
    ];
    assert_eq!(rdap_base_for(&services, "com"), Ok("https://a/".to_string()));
    assert_eq!(rdap_base_for(&services, "xyz"), Err("no RDAP service found for .xyz".to_string()));
}

#[test]
fn domain_url_joins_under_base_path() {
    assert_eq!(
        build_rdap_domain_url("https://rdap.verisign.com/com/v1", "example.com"),
        Ok("https://rdap.verisign.com/com/v1/domain/example.com".to_string())
    );
    assert_eq!(
        build_rdap_domain_url("https://rdap.example/base/", "a.b"),
        Ok("https://rdap.example/base/domain/a.b".to_string())
    );
    assert_eq!(build_rdap_domain_url("not a url", "a.b"), Err("invalid RDAP base URL: not a url".to_string()));
}

#[test]
fn event_dates_parse_rfc3339() {
    let events = vec![
        RdapEvent { event_action: "last changed".to_string(), event_date: "2021-01-01T00:00:00Z".to_string() },
        RdapEvent { event_action: "Registration".to_string(), event_date: "2020-01-02T03:04:05Z".to_string() },
        RdapEvent { event_action: "expiration".to_string(), event_date: "garbage".to_string() },
    ];
    let t = find_event_date(&events, "registration").unwrap();
    assert_eq!((t.secs, t.nanos), (1_577_934_245, 0));
    assert!(find_event_date(&events, "expiration").is_none());
    assert!(find_event_date(&events, "transfer").is_none());
    let offset = vec![RdapEvent { event_action: "expiry".to_string(), event_date: "2020-01-01T01:00:00+01:00".to_string() }];
    assert_eq!(find_event_date(&offset, "expiry").unwrap().secs, 1_577_836_800);
}

#[test]
fn probe_result_uses_expiry_fallbacks() {
    let domain = RdapDomain {
        events: Some(vec![RdapEvent { event_action: "expiry".to_string(), event_date: "1970-01-02T00:00:00Z".to_string() }]),
        status: Some(vec!["active".to_string()]),
        entities: None,
        links: None,
    };
    let p = rdap_probe("https://r/x".to_string(), domain, no_fields(), 12);
    assert_eq!(p.expires_on.unwrap().secs, 86_400);
    assert!(p.registered_on.is_none());
    assert_eq!(p.status_codes, vec!["active".to_string()]);
    assert_eq!(p.rdap_url, "https://r/x");
    assert_eq!(p.elapsed_ms, 12);
}

#[test]
fn related_link_found_ignoring_case() {
    let d = RdapDomain {
        events: None,
        status: None,
        entities: None,
        links: Some(vec![
            RdapLink { rel: Some("self".to_string()), href: Some("https://self".to_string()) },
            RdapLink { rel: Some("RELATED".to_string()), href: None },
            RdapLink { rel: Some("Related".to_string()), href: Some("https://registrar/rdap".to_string()) },
        ]),
    };
    assert_eq!(find_related_rdap_url(&d), Some("https://registrar/rdap".to_string()));
}

#[test]
fn cloudflare_registrar_detection() {
    let mut f = no_fields();
    assert!(!is_cloudflare_registrar(&f));
    f.registrar = Some("CloudFlare, Inc.".to_string());
    assert!(is_cloudflare_registrar(&f));
    assert_eq!(cloudflare_rdap_url("a.com"), "https://rdap.cloudflare.com/rdap/v1/domain/a.com");
}
