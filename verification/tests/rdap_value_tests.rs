use domain_probe::probe::rdap::JsonValue;
use domain_probe::probe::rdap_value::{
    array_of, entity_first_vcard_value, entity_has_role, entity_iana_id, extract_entity_fields_from_value,
    find_entity_value, member_of, str_of,
};

fn s(x: &str) -> JsonValue {
    JsonValue::Str(x.to_string())
}

fn obj(members: Vec<(&str, JsonValue)>) -> JsonValue {
    JsonValue::Object(members.into_iter().map(|(k, v)| (k.to_string(), v)).collect())
}

fn arr(items: Vec<JsonValue>) -> JsonValue {
    JsonValue::Array(items)
}

fn card(rows: Vec<(&str, &str)>) -> JsonValue {
    arr(vec![
        s("vcard"),
        arr(rows.into_iter().map(|(n, v)| arr(vec![s(n), obj(vec![]), s("text"), s(v)])).collect()),
    ])
}

#[test]
fn members_are_found_by_exact_name() {
    let v = obj(vec![("type", s("IANA")), ("identifier", s("292")), ("roles", arr(vec![s("x")]))]);
    assert!(matches!(member_of(&v, "type"), Some(JsonValue::Str(t)) if t == "IANA"));
    assert!(member_of(&v, "Type").is_none());
    assert_eq!(str_of(&v, "identifier").map(|x| x.as_str()), Some("292"));
    assert!(str_of(&v, "roles").is_none());
    assert_eq!(array_of(&v, "roles").map(|a| a.len()), Some(1));
    assert!(array_of(&v, "type").is_none());
    assert!(member_of(&s("type"), "type").is_none());
}

#[test]
fn roles_skip_entries_that_are_not_strings() {
    let e = obj(vec![("roles", arr(vec![JsonValue::Null, JsonValue::Bool(true), s("Registrar")]))]);
    assert!(entity_has_role(&e, "registrar"));
    assert!(!entity_has_role(&e, "abuse"));
    let not_array = obj(vec![("roles", s("registrar"))]);
    assert!(!entity_has_role(&not_array, "registrar"));
}

#[test]
fn search_passes_over_values_that_are_not_objects() {
    let hidden = obj(vec![("roles", arr(vec![s("abuse")])), ("vcardArray", card(vec![("email", "hidden@x")]))]);
    let list = vec![
        arr(vec![hidden]),
        obj(vec![
            ("roles", arr(vec![s("technical")])),
            ("entities", arr(vec![obj(vec![("roles", arr(vec![s("ABUSE")])), ("vcardArray", card(vec![("email", "a@x")]))])])),
        ]),
    ];
    let found = find_entity_value(&list, "abuse").unwrap();
    assert_eq!(entity_first_vcard_value(found, "email"), Some("a@x".to_string()));
    assert!(find_entity_value(&list, "registrar").is_none());
}

#[test]
fn iana_id_needs_a_type_and_an_identifier() {
    let e = obj(vec![(
        "publicIds",
        arr(vec![
            obj(vec![("type", s("other")), ("identifier", s("1"))]),
            obj(vec![("type", s("IANA Registrar ID"))]),
            s("IANA"),
            obj(vec![("type", s("iana registrar id")), ("identifier", s("292"))]),
        ]),
    )]);
    assert_eq!(entity_iana_id(&e), Some("292".to_string()));
    assert_eq!(entity_iana_id(&obj(vec![])), None);
}

#[test]
fn fields_from_a_related_record() {
    let root = obj(vec![(
        "entities",
        arr(vec![
            s("noise"),
            obj(vec![
                ("roles", arr(vec![s("registrar")])),
                ("vcardArray", card(vec![("fn", " Example Registrar ")])),
                ("publicIds", arr(vec![obj(vec![("type", s("IANA Registrar ID")), ("identifier", s("1910"))])])),
                (
                    "entities",
                    arr(vec![obj(vec![
                        ("roles", arr(vec![s("abuse")])),
                        ("vcardArray", card(vec![("email", "abuse@example.com"), ("tel", "tel:+1.5550100")])),
                    ])]),
                ),
            ]),
            obj(vec![
                ("roles", arr(vec![s("technical")])),
                ("vcardArray", card(vec![("fn", "Tech"), ("contact-uri", "https://contact")])),
            ]),
        ]),
    )]);
    let f = extract_entity_fields_from_value(&root);
    assert_eq!(f.registrar, Some("Example Registrar".to_string()));
    assert_eq!(f.registrar_iana_id, Some("1910".to_string()));
    assert_eq!(f.registrant_name, Some("Tech".to_string()));
    assert_eq!(f.registrant_contact_uri, Some("https://contact".to_string()));
    assert_eq!(f.abuse_email, Some("abuse@example.com".to_string()));
    assert_eq!(f.abuse_phone, Some("+1.5550100".to_string()));

    let empty = extract_entity_fields_from_value(&arr(vec![]));
    assert_eq!(empty.registrar, None);
    assert_eq!(empty.abuse_phone, None);
}
