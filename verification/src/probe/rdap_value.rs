//! Registry records read without a schema: the related records that fill
//! missing contacts are taken as plain JSON and searched as they stand.
//! Values that are not of the expected kind are passed over: an entity
//! that is not an object (with all it holds), a role that is not a string,
//! a member that is not an array or not a string.

use vstd::prelude::*;
use crate::probe::rdap::{
    eq_ignore_ascii_case, eq_ignore_case, strip_tel, strip_tel_prefix, vcard_values, vcard_values_spec,
    JsonValue, RdapEntityFields,
};
use crate::text::{chars_of, contains_folded, contains_seq, lower, same_chars};

verus! {

/// The value of the first member named `key` among an object's members.
pub open spec fn member_in(pairs: Seq<(String, JsonValue)>, key: Seq<char>) -> Option<JsonValue>
    decreases pairs.len(),
{
    if pairs.len() == 0 {
        None
    } else if pairs[0].0@ == key {
        Some(pairs[0].1)
    } else {
        member_in(pairs.subrange(1, pairs.len() as int), key)
    }
}

/// The member `key` of an object; nothing for any other value.
pub open spec fn member(v: JsonValue, key: Seq<char>) -> Option<JsonValue> {
    match v {
        JsonValue::Object(pairs) => member_in(pairs@, key),
        _ => None,
    }
}

/// The items of the array under `key`; none when the member is missing or
/// is not an array.
pub open spec fn array_member(v: JsonValue, key: Seq<char>) -> Seq<JsonValue> {
    match member(v, key) {
        Some(JsonValue::Array(items)) => items@,
        _ => Seq::empty(),
    }
}

/// The text of the string under `key`; none when the member is missing or
/// is not a string.
pub open spec fn str_member(v: JsonValue, key: Seq<char>) -> Option<Seq<char>> {
    match member(v, key) {
        Some(JsonValue::Str(s)) => Some(s@),
        _ => None,
    }
}

/// A member value lies among the object's members.
pub proof fn lemma_member_in_index(pairs: Seq<(String, JsonValue)>, key: Seq<char>)
    ensures
        member_in(pairs, key) matches Some(x) ==> exists|i: int|
            0 <= i < pairs.len() && #[trigger] pairs[i].1 == x,
    decreases pairs.len(),
{
    if pairs.len() > 0 && pairs[0].0@ != key {
        let rest = pairs.subrange(1, pairs.len() as int);
        lemma_member_in_index(rest, key);
        if let Some(x) = member_in(pairs, key) {
            let i = choose|i: int| 0 <= i < rest.len() && #[trigger] rest[i].1 == x;
            assert(pairs[i + 1].1 == x);
        }
    }
}

/// The items of a member array lie inside the object.
pub proof fn lemma_array_member_smaller(v: JsonValue, key: Seq<char>)
    ensures
        array_member(v, key).len() > 0 ==> decreases_to!(v => array_member(v, key)),
{
    match v {
        JsonValue::Object(pairs) => {
            lemma_member_in_index(pairs@, key);
            match member_in(pairs@, key) {
                Some(JsonValue::Array(items)) => {
                    let x = JsonValue::Array(items);
                    let i = choose|i: int| 0 <= i < pairs@.len() && #[trigger] pairs@[i].1 == x;
                    assert(decreases_to!(v => pairs));
                    assert(decreases_to!(pairs => pairs@));
                    assert(decreases_to!(pairs@ => pairs@[i]));
                    assert(decreases_to!(pairs@[i] => pairs@[i].1));
                    assert(decreases_to!(x => items));
                    assert(decreases_to!(items => items@));
                },
                _ => {},
            }
        },
        _ => {},
    }
}

pub open spec fn entities_key() -> Seq<char> {
    seq!['e', 'n', 't', 'i', 't', 'i', 'e', 's']
}

pub open spec fn roles_key() -> Seq<char> {
    seq!['r', 'o', 'l', 'e', 's']
}

pub open spec fn public_ids_key() -> Seq<char> {
    seq!['p', 'u', 'b', 'l', 'i', 'c', 'I', 'd', 's']
}

pub open spec fn type_key() -> Seq<char> {
    seq!['t', 'y', 'p', 'e']
}

pub open spec fn identifier_key() -> Seq<char> {
    seq!['i', 'd', 'e', 'n', 't', 'i', 'f', 'i', 'e', 'r']
}

pub open spec fn vcard_key() -> Seq<char> {
    seq!['v', 'c', 'a', 'r', 'd', 'A', 'r', 'r', 'a', 'y']
}

/// Whether a roles entry is the string `role`, up to ASCII case.
pub open spec fn role_entry(v: JsonValue, role: Seq<char>) -> bool {
    match v {
        JsonValue::Str(s) => eq_ignore_case(s@, role),
        _ => false,
    }
}

/// Whether the entity's `roles` array holds `role`, up to ASCII case.
pub open spec fn value_has_role(e: JsonValue, role: Seq<char>) -> bool {
    let rs = array_member(e, roles_key());
    exists|i: int| 0 <= i < rs.len() && #[trigger] role_entry(rs[i], role)
}

/// The first entity object with the role in document order: an object
/// comes before the objects of its `entities`, and those before its later
/// siblings.
pub open spec fn find_role_value(vs: Seq<JsonValue>, role: Seq<char>) -> Option<JsonValue>
    decreases vs,
{
    if vs.len() == 0 {
        None
    } else {
        let rest = find_role_value(vs.subrange(1, vs.len() as int), role);
        if !(vs[0] is Object) {
            rest
        } else if value_has_role(vs[0], role) {
            Some(vs[0])
        } else {
            let cs = array_member(vs[0], entities_key());
            let inner = if cs.len() > 0 {
                proof {
                    lemma_array_member_smaller(vs[0], entities_key());
                    assert(decreases_to!(vs => vs[0]));
                }
                find_role_value(cs, role)
            } else {
                None
            };
            match inner {
                Some(x) => Some(x),
                None => rest,
            }
        }
    }
}

/// The identifier of the first public id whose `type` mentions `iana` (in
/// any case) and that has a string `identifier`.
pub open spec fn iana_in_values(ids: Seq<JsonValue>) -> Option<Seq<char>>
    decreases ids.len(),
{
    if ids.len() == 0 {
        None
    } else {
        let is_iana = match str_member(ids[0], type_key()) {
            Some(t) => contains_seq(lower(t), seq!['i', 'a', 'n', 'a']),
            None => false,
        };
        if is_iana && str_member(ids[0], identifier_key()) is Some {
            str_member(ids[0], identifier_key())
        } else {
            iana_in_values(ids.subrange(1, ids.len() as int))
        }
    }
}

/// The first value of the entity's jCard property `key`.
pub open spec fn value_first(e: JsonValue, key: Seq<char>) -> Option<Seq<char>> {
    match member(e, vcard_key()) {
        Some(card) => {
            let vs = vcard_values_spec(card, key);
            if vs.len() > 0 {
                Some(vs[0])
            } else {
                None
            }
        },
        None => None,
    }
}

/// A jCard value of an optional entity.
pub open spec fn value_first_of(e: Option<JsonValue>, key: Seq<char>) -> Option<Seq<char>> {
    match e {
        Some(x) => value_first(x, key),
        None => None,
    }
}

/// The registrant: the first entity with role `registrant`, else
/// `administrative`, else `technical`.
pub open spec fn registrant_value(es: Seq<JsonValue>) -> Option<JsonValue> {
    match find_role_value(es, seq!['r', 'e', 'g', 'i', 's', 't', 'r', 'a', 'n', 't']) {
        Some(e) => Some(e),
        None => match find_role_value(
            es,
            seq!['a', 'd', 'm', 'i', 'n', 'i', 's', 't', 'r', 'a', 't', 'i', 'v', 'e'],
        ) {
            Some(e) => Some(e),
            None => find_role_value(es, seq!['t', 'e', 'c', 'h', 'n', 'i', 'c', 'a', 'l']),
        },
    }
}

/// The contact details of a record read as plain JSON, picked as for a
/// typed record: the registrar's name and IANA id, the registrant's name
/// and contact URI, the abuse contact's email and phone (without `tel:`).
pub open spec fn fields_from_value(root: JsonValue) -> <RdapEntityFields as View>::V {
    let es = array_member(root, entities_key());
    let registrar = find_role_value(es, seq!['r', 'e', 'g', 'i', 's', 't', 'r', 'a', 'r']);
    let abuse = find_role_value(es, seq!['a', 'b', 'u', 's', 'e']);
    let registrant = registrant_value(es);
    (
        value_first_of(registrar, seq!['f', 'n']),
        match registrar {
            Some(r) => iana_in_values(array_member(r, public_ids_key())),
            None => None,
        },
        value_first_of(registrant, seq!['f', 'n']),
        value_first_of(registrant, seq!['c', 'o', 'n', 't', 'a', 'c', 't', '-', 'u', 'r', 'i']),
        value_first_of(abuse, seq!['e', 'm', 'a', 'i', 'l']),
        match value_first_of(abuse, seq!['t', 'e', 'l']) {
            Some(t) => Some(strip_tel(t)),
            None => None,
        },
    )
}

/// The member `key` of an object.
pub fn member_of<'a>(v: &'a JsonValue, key: &str) -> (r: Option<&'a JsonValue>)
    ensures
        match member(*v, key@) {
            Some(x) => r matches Some(y) && *y == x,
            None => r is None,
        },
{
    match v {
        JsonValue::Object(pairs) => {
            let kc = chars_of(key);
            let mut i: usize = 0;
            assert(pairs@.subrange(0, pairs@.len() as int) =~= pairs@);
            while i < pairs.len()
                invariant
                    i <= pairs.len(),
                    kc@ == key@,
                    *v == JsonValue::Object(*pairs),
                    member_in(pairs@, key@) == member_in(pairs@.subrange(i as int, pairs@.len() as int), key@),
                decreases pairs.len() - i,
            {
                let ghost rest = pairs@.subrange(i as int, pairs@.len() as int);
                assert(rest[0] == pairs@[i as int]);
                assert(rest.subrange(1, rest.len() as int) =~= pairs@.subrange(i + 1, pairs@.len() as int));
                let name = chars_of(pairs[i].0.as_str());
                if same_chars(name.as_slice(), kc.as_slice()) {
                    return Some(&pairs[i].1);
                }
                i = i + 1;
            }
            None
        },
        _ => None,
    }
}

/// The items of the array under `key`.
pub fn array_of<'a>(v: &'a JsonValue, key: &str) -> (r: Option<&'a Vec<JsonValue>>)
    ensures
        match r {
            Some(a) => a@ == array_member(*v, key@),
            None => array_member(*v, key@) == Seq::<JsonValue>::empty(),
        },
{
    match member_of(v, key) {
        Some(JsonValue::Array(items)) => Some(items),
        _ => None,
    }
}

/// The text of the string under `key`.
pub fn str_of<'a>(v: &'a JsonValue, key: &str) -> (r: Option<&'a String>)
    ensures
        match str_member(*v, key@) {
            Some(s) => r matches Some(x) && x@ == s,
            None => r is None,
        },
{
    match member_of(v, key) {
        Some(JsonValue::Str(s)) => Some(s),
        _ => None,
    }
}

/// Whether the entity object lists the role.
pub fn entity_has_role(entity: &JsonValue, role: &str) -> (b: bool)
    ensures
        b == value_has_role(*entity, role@),
{
    proof {
        reveal_strlit("roles");
        assert("roles"@ =~= roles_key());
    }
    match array_of(entity, "roles") {
        Some(rs) => {
            let mut i: usize = 0;
            while i < rs.len()
                invariant
                    i <= rs.len(),
                    rs@ == array_member(*entity, roles_key()),
                    forall|k: int| 0 <= k < i ==> !role_entry(#[trigger] rs@[k], role@),
                decreases rs.len() - i,
            {
                match &rs[i] {
                    JsonValue::Str(s) => {
                        if eq_ignore_ascii_case(s.as_str(), role) {
                            assert(role_entry(rs@[i as int], role@));
                            return true;
                        }
                    },
                    _ => {},
                }
                i = i + 1;
            }
            false
        },
        None => false,
    }
}

/// The first entity object with the role, in document order.
pub fn find_entity_value<'a>(entities: &'a [JsonValue], role: &str) -> (r: Option<&'a JsonValue>)
    ensures
        match find_role_value(entities@, role@) {
            Some(e) => r matches Some(x) && *x == e,
            None => r is None,
        },
    decreases entities@,
{
    proof {
        reveal_strlit("entities");
        assert("entities"@ =~= entities_key());
    }
    let mut i: usize = 0;
    assert(entities@.subrange(0, entities@.len() as int) =~= entities@);
    while i < entities.len()
        invariant
            i <= entities.len(),
            "entities"@ == entities_key(),
            find_role_value(entities@, role@) == find_role_value(
                entities@.subrange(i as int, entities@.len() as int),
                role@,
            ),
        decreases entities.len() - i,
    {
        let ghost rest = entities@.subrange(i as int, entities@.len() as int);
        assert(rest[0] == entities@[i as int]);
        assert(rest.subrange(1, rest.len() as int) =~= entities@.subrange(i + 1, entities@.len() as int));
        let e = &entities[i];
        match e {
            JsonValue::Object(_) => {
                if entity_has_role(e, role) {
                    return Some(e);
                }
                match array_of(e, "entities") {
                    Some(children) => {
                        if children.len() > 0 {
                            proof {
                                lemma_array_member_smaller(*e, entities_key());
                                assert(children@ == array_member(rest[0], entities_key()));
                                assert(decreases_to!(entities@ => entities@[i as int]));
                                assert(decreases_to!(entities@ => children@));
                            }
                            match find_entity_value(children.as_slice(), role) {
                                Some(x) => {
                                    return Some(x);
                                },
                                None => {},
                            }
                        }
                    },
                    None => {},
                }
            },
            _ => {},
        }
        i = i + 1;
    }
    None
}

/// The entity's IANA registrar id, from its `publicIds`.
pub fn entity_iana_id(entity: &JsonValue) -> (r: Option<String>)
    ensures
        match iana_in_values(array_member(*entity, public_ids_key())) {
            Some(s) => r matches Some(x) && x@ == s,
            None => r is None,
        },
{
    proof {
        reveal_strlit("publicIds");
        assert("publicIds"@ =~= public_ids_key());
        reveal_strlit("type");
        assert("type"@ =~= type_key());
        reveal_strlit("identifier");
        assert("identifier"@ =~= identifier_key());
    }
    let ids = match array_of(entity, "publicIds") {
        Some(ids) => ids,
        None => {
            return None;
        },
    };
    let mut i: usize = 0;
    assert(ids@.subrange(0, ids@.len() as int) =~= ids@);
    while i < ids.len()
        invariant
            i <= ids.len(),
            ids@ == array_member(*entity, public_ids_key()),
            "type"@ == type_key(),
            "identifier"@ == identifier_key(),
            iana_in_values(ids@) == iana_in_values(ids@.subrange(i as int, ids@.len() as int)),
        decreases ids.len() - i,
    {
        let ghost rest = ids@.subrange(i as int, ids@.len() as int);
        assert(rest[0] == ids@[i as int]);
        assert(rest.subrange(1, rest.len() as int) =~= ids@.subrange(i + 1, ids@.len() as int));
        let id = &ids[i];
        let is_iana = match str_of(id, "type") {
            Some(t) => contains_folded(chars_of(t.as_str()).as_slice(), &['i', 'a', 'n', 'a']),
            None => false,
        };
        if is_iana {
            match str_of(id, "identifier") {
                Some(x) => {
                    return Some(x.clone());
                },
                None => {},
            }
        }
        i = i + 1;
    }
    None
}

/// The first value of the entity's jCard property `key`.
pub fn entity_first_vcard_value(entity: &JsonValue, key: &str) -> (r: Option<String>)
    ensures
        match value_first(*entity, key@) {
            Some(s) => r matches Some(x) && x@ == s,
            None => r is None,
        },
{
    proof {
        reveal_strlit("vcardArray");
        assert("vcardArray"@ =~= vcard_key());
    }
    match member_of(entity, "vcardArray") {
        Some(card) => {
            let mut vs = vcard_values(card, key);
            if vs.len() > 0 {
                let ghost all = vs@.map_values(|v: String| v@);
                assert(all[0] == vs@[0]@);
                Some(vs.swap_remove(0))
            } else {
                assert(vs@.map_values(|v: String| v@).len() == 0);
                None
            }
        },
        None => None,
    }
}

/// The jCard value of an optional entity.
fn first_value_of(entity: Option<&JsonValue>, key: &str) -> (r: Option<String>)
    ensures
        match value_first_of(
            match entity {
                Some(e) => Some(*e),
                None => None,
            },
            key@,
        ) {
            Some(s) => r matches Some(x) && x@ == s,
            None => r is None,
        },
{
    match entity {
        Some(e) => entity_first_vcard_value(e, key),
        None => None,
    }
}

/// The contact details of a record read as plain JSON: those of the
/// entities under its `entities` member.
pub fn extract_entity_fields_from_value(root: &JsonValue) -> (f: RdapEntityFields)
    ensures
        f@ == fields_from_value(*root),
{
    proof {
        reveal_strlit("entities");
        assert("entities"@ =~= entities_key());
        reveal_strlit("registrar");
        assert("registrar"@ =~= seq!['r', 'e', 'g', 'i', 's', 't', 'r', 'a', 'r']);
        reveal_strlit("abuse");
        assert("abuse"@ =~= seq!['a', 'b', 'u', 's', 'e']);
        reveal_strlit("registrant");
        assert("registrant"@ =~= seq!['r', 'e', 'g', 'i', 's', 't', 'r', 'a', 'n', 't']);
        reveal_strlit("administrative");
        assert("administrative"@ =~= seq!['a', 'd', 'm', 'i', 'n', 'i', 's', 't', 'r', 'a', 't', 'i', 'v', 'e']);
        reveal_strlit("technical");
        assert("technical"@ =~= seq!['t', 'e', 'c', 'h', 'n', 'i', 'c', 'a', 'l']);
        reveal_strlit("fn");
        assert("fn"@ =~= seq!['f', 'n']);
        reveal_strlit("contact-uri");
        assert("contact-uri"@ =~= seq!['c', 'o', 'n', 't', 'a', 'c', 't', '-', 'u', 'r', 'i']);
        reveal_strlit("email");
        assert("email"@ =~= seq!['e', 'm', 'a', 'i', 'l']);
        reveal_strlit("tel");
        assert("tel"@ =~= seq!['t', 'e', 'l']);
    }
    let none: Vec<JsonValue> = Vec::new();
    let es: &[JsonValue] = match array_of(root, "entities") {
        Some(a) => a.as_slice(),
        None => none.as_slice(),
    };
    assert(es@ == array_member(*root, entities_key()));
    let registrar = find_entity_value(es, "registrar");
    let abuse = find_entity_value(es, "abuse");
    let registrant = match find_entity_value(es, "registrant") {
        Some(e) => Some(e),
        None => match find_entity_value(es, "administrative") {
            Some(e) => Some(e),
            None => find_entity_value(es, "technical"),
        },
    };
    let registrar_name = first_value_of(registrar, "fn");
    let registrar_iana_id = match registrar {
        Some(e) => entity_iana_id(e),
        None => None,
    };
    let registrant_name = first_value_of(registrant, "fn");
    let registrant_contact_uri = first_value_of(registrant, "contact-uri");
    let abuse_email = first_value_of(abuse, "email");
    let abuse_phone = match first_value_of(abuse, "tel") {
        Some(t) => Some(strip_tel_prefix(t.as_str())),
        None => None,
    };
    RdapEntityFields {
        registrar: registrar_name,
        registrar_iana_id,
        registrant_name,
        registrant_contact_uri,
        abuse_email,
        abuse_phone,
    }
}

} // verus!
