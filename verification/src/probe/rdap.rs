//! Registration data (RDAP): the records a registry returns, and the rules
//! that pick the registrar, registrant, abuse contact and dates out of them.

use vstd::prelude::*;
use crate::text::{
    append_str, chars_of, contains_seq, contains_folded, lower, occurs_at, push_char, same_chars, string_of, to_lower,
    trim, trimmed,
};
use crate::cli::{TargetUrl, joined, parse_url, url_join, url_parse, url_set_path, with_path};
use crate::time::Timestamp;

verus! {

/// What the registry reports about the domain.
pub struct RdapProbe {
    pub rdap_url: String,
    pub registrar: Option<String>,
    pub registrar_iana_id: Option<String>,
    pub registered_on: Option<Timestamp>,
    pub expires_on: Option<Timestamp>,
    pub status_codes: Vec<String>,
    pub registrant_name: Option<String>,
    pub registrant_contact_uri: Option<String>,
    pub abuse_email: Option<String>,
    pub abuse_phone: Option<String>,
    pub elapsed_ms: u64,
}

/// A JSON value: a document a registry sent, or the report the tool writes.
/// Object members keep their order and keys are distinct; numbers are
/// held as their text.
pub enum JsonValue {
    Null,
    Bool(bool),
    Number(String),
    Str(String),
    Array(Vec<JsonValue>),
    Object(Vec<(String, JsonValue)>),
}

/// The mathematical form of a JSON value: texts as character sequences.
#[verifier::ext_equal]
pub enum JsonView {
    Null,
    Bool(bool),
    Number(Seq<char>),
    Str(Seq<char>),
    Array(Seq<JsonView>),
    Object(Seq<(Seq<char>, JsonView)>),
}

/// The form of a JSON value.
pub open spec fn json_view(v: JsonValue) -> JsonView
    decreases v,
{
    match v {
        JsonValue::Null => JsonView::Null,
        JsonValue::Bool(b) => JsonView::Bool(b),
        JsonValue::Number(n) => JsonView::Number(n@),
        JsonValue::Str(s) => JsonView::Str(s@),
        JsonValue::Array(items) => JsonView::Array(items_view(items@)),
        JsonValue::Object(members) => JsonView::Object(members_view(members@)),
    }
}

/// The forms of array items, in order.
pub open spec fn items_view(items: Seq<JsonValue>) -> Seq<JsonView>
    decreases items,
{
    if items.len() == 0 {
        Seq::empty()
    } else {
        items_view(items.subrange(0, items.len() - 1)).push(json_view(items[items.len() - 1]))
    }
}

/// The forms of object members, in order.
pub open spec fn members_view(members: Seq<(String, JsonValue)>) -> Seq<(Seq<char>, JsonView)>
    decreases members,
{
    if members.len() == 0 {
        Seq::empty()
    } else {
        let last = members[members.len() - 1];
        members_view(members.subrange(0, members.len() - 1)).push((last.0@, json_view(last.1)))
    }
}

impl View for JsonValue {
    type V = JsonView;

    open spec fn view(&self) -> JsonView {
        json_view(*self)
    }
}

/// Adding an item adds its form.
pub proof fn lemma_items_view_push(items: Seq<JsonValue>, v: JsonValue)
    ensures
        items_view(items.push(v)) == items_view(items).push(json_view(v)),
{
    assert(items.push(v).subrange(0, items.len() as int) =~= items);
}

/// Adding a member adds its form.
pub proof fn lemma_members_view_push(members: Seq<(String, JsonValue)>, key: String, v: JsonValue)
    ensures
        members_view(members.push((key, v))) == members_view(members).push((key@, json_view(v))),
{
    assert(members.push((key, v)).subrange(0, members.len() as int) =~= members);
}

/// ASCII case-insensitive equality (`str::eq_ignore_ascii_case`).
pub open spec fn eq_ignore_case(a: Seq<char>, b: Seq<char>) -> bool {
    lower(a) == lower(b)
}

/// Whether two strings are equal up to ASCII case.
pub fn eq_ignore_ascii_case(a: &str, b: &str) -> (r: bool)
    ensures
        r == eq_ignore_case(a@, b@),
{
    let la = to_lower(chars_of(a).as_slice());
    let lb = to_lower(chars_of(b).as_slice());
    same_chars(la.as_slice(), lb.as_slice())
}

/// The rows of a jCard (`["vcard", [rows...]]`): its second element, when
/// both it and the card are arrays.
pub open spec fn vcard_rows(card: JsonValue) -> Option<Seq<JsonValue>> {
    match card {
        JsonValue::Array(a) => if a@.len() > 1 {
            match a@[1] {
                JsonValue::Array(rows) => Some(rows@),
                _ => None,
            }
        } else {
            None
        },
        _ => None,
    }
}

/// The trimmed, non-empty strings among `items`, in order.
pub open spec fn text_pieces(items: Seq<JsonValue>) -> Seq<Seq<char>>
    decreases items.len(),
{
    if items.len() == 0 {
        seq![]
    } else {
        let rest = text_pieces(items.drop_last());
        match items.last() {
            JsonValue::Str(s) => if trim(s@).len() > 0 {
                rest.push(trim(s@))
            } else {
                rest
            },
            _ => rest,
        }
    }
}

/// The pieces joined with single spaces.
pub open spec fn join_spaced(ps: Seq<Seq<char>>) -> Seq<char>
    decreases ps.len(),
{
    if ps.len() == 0 {
        seq![]
    } else if ps.len() == 1 {
        ps[0]
    } else {
        join_spaced(ps.drop_last()) + seq![' '] + ps.last()
    }
}

/// The value a jCard row `[name, params, type, value]` gives for `key`:
/// rows of another name, shorter rows and empty values give none; a text
/// value is trimmed; a structured value joins its non-empty text parts.
pub open spec fn row_value(row: JsonValue, key: Seq<char>) -> Option<Seq<char>> {
    match row {
        JsonValue::Array(parts) => if parts@.len() < 4 {
            None
        } else {
            match parts@[0] {
                JsonValue::Str(name) => if !eq_ignore_case(name@, key) {
                    None
                } else {
                    match parts@[3] {
                        JsonValue::Str(val) => if trim(val@).len() > 0 {
                            Some(trim(val@))
                        } else {
                            None
                        },
                        JsonValue::Array(items) => {
                            let j = join_spaced(text_pieces(items@));
                            if j.len() > 0 {
                                Some(j)
                            } else {
                                None
                            }
                        },
                        _ => None,
                    }
                },
                _ => None,
            }
        },
        _ => None,
    }
}

/// The values the rows give for `key`, in order.
pub open spec fn row_values(rows: Seq<JsonValue>, key: Seq<char>) -> Seq<Seq<char>>
    decreases rows.len(),
{
    if rows.len() == 0 {
        seq![]
    } else {
        let rest = row_values(rows.drop_last(), key);
        match row_value(rows.last(), key) {
            Some(v) => rest.push(v),
            None => rest,
        }
    }
}

/// All values of a jCard property, in order.
pub open spec fn vcard_values_spec(card: JsonValue, key: Seq<char>) -> Seq<Seq<char>> {
    match vcard_rows(card) {
        Some(rows) => row_values(rows, key),
        None => seq![],
    }
}

/// The trimmed non-empty strings of a structured value, joined by spaces.
fn join_text(items: &Vec<JsonValue>) -> (s: String)
    ensures
        s@ == join_spaced(text_pieces(items@)),
{
    let mut s = String::new();
    let mut count: usize = 0;
    let mut i: usize = 0;
    assert(items@.take(0) =~= Seq::<JsonValue>::empty());
    while i < items.len()
        invariant
            i <= items.len(),
            count <= i,
            count == text_pieces(items@.take(i as int)).len(),
            s@ == join_spaced(text_pieces(items@.take(i as int))),
        decreases items.len() - i,
    {
        let ghost before = text_pieces(items@.take(i as int));
        assert(items@.take(i + 1).drop_last() =~= items@.take(i as int));
        match &items[i] {
            JsonValue::Str(t) => {
                let piece = trimmed(chars_of(t.as_str()).as_slice());
                if piece.len() > 0 {
                    if count > 0 {
                        push_char(&mut s, ' ');
                    }
                    let ps = string_of(piece.as_slice());
                    append_str(&mut s, ps.as_str());
                    assert(text_pieces(items@.take(i + 1)) == before.push(piece@));
                    assert(before.push(piece@).drop_last() =~= before);
                    if count > 0 {
                        assert(s@ =~= join_spaced(before) + seq![' '] + piece@);
                    } else {
                        assert(s@ =~= piece@);
                    }
                    count = count + 1;
                }
            },
            _ => {},
        }
        i = i + 1;
    }
    assert(items@.take(items.len() as int) =~= items@);
    s
}

/// The value of one jCard row for `key`.
fn row_value_of(row: &JsonValue, key: &str) -> (r: Option<String>)
    ensures
        match row_value(*row, key@) {
            Some(v) => r matches Some(s) && s@ == v,
            None => r is None,
        },
{
    match row {
        JsonValue::Array(parts) => {
            if parts.len() < 4 {
                return None;
            }
            match &parts[0] {
                JsonValue::Str(name) => {
                    if !eq_ignore_ascii_case(name.as_str(), key) {
                        return None;
                    }
                    match &parts[3] {
                        JsonValue::Str(val) => {
                            let clean = trimmed(chars_of(val.as_str()).as_slice());
                            if clean.len() > 0 {
                                Some(string_of(clean.as_slice()))
                            } else {
                                None
                            }
                        },
                        JsonValue::Array(items) => {
                            let joined = join_text(items);
                            if !joined.as_str().is_empty() {
                                Some(joined)
                            } else {
                                None
                            }
                        },
                        _ => None,
                    }
                },
                _ => None,
            }
        },
        _ => None,
    }
}

/// All values of the jCard property `key`, in row order: text values
/// trimmed, structured values joined by spaces, empty values left out.
pub fn vcard_values(vcard_array: &JsonValue, key: &str) -> (values: Vec<String>)
    ensures
        values@.map_values(|v: String| v@) == vcard_values_spec(*vcard_array, key@),
{
    let mut values: Vec<String> = Vec::new();
    let rows = match vcard_array {
        JsonValue::Array(a) => {
            if a.len() > 1 {
                match &a[1] {
                    JsonValue::Array(rows) => rows,
                    _ => {
                        assert(values@.map_values(|v: String| v@) =~= Seq::<Seq<char>>::empty());
                        return values;
                    },
                }
            } else {
                assert(values@.map_values(|v: String| v@) =~= Seq::<Seq<char>>::empty());
                return values;
            }
        },
        _ => {
            assert(values@.map_values(|v: String| v@) =~= Seq::<Seq<char>>::empty());
            return values;
        },
    };
    let mut i: usize = 0;
    assert(rows@.take(0) =~= Seq::<JsonValue>::empty());
    assert(values@.map_values(|v: String| v@) =~= Seq::<Seq<char>>::empty());
    while i < rows.len()
        invariant
            i <= rows.len(),
            vcard_rows(*vcard_array) == Some(rows@),
            values@.map_values(|v: String| v@) == row_values(rows@.take(i as int), key@),
        decreases rows.len() - i,
    {
        assert(rows@.take(i + 1).drop_last() =~= rows@.take(i as int));
        assert(rows@.take(i + 1).last() == rows@[i as int]);
        let ghost before = values@.map_values(|v: String| v@);
        match row_value_of(&rows[i], key) {
            Some(v) => {
                values.push(v);
                assert(values@.map_values(|v: String| v@) =~= before.push(v@));
            },
            None => {},
        }
        i = i + 1;
    }
    assert(rows@.take(rows.len() as int) =~= rows@);
    values
}

/// A public identifier of an entity (`publicIds`).
pub struct RdapPublicId {
    pub kind: Option<String>,
    pub identifier: Option<String>,
}

/// An entity (registrar, registrant, contact...), with the entities it
/// contains.
pub struct RdapEntity {
    pub roles: Option<Vec<String>>,
    pub entities: Option<Vec<RdapEntity>>,
    pub vcard_array: Option<JsonValue>,
    pub public_ids: Option<Vec<RdapPublicId>>,
}

/// A dated event of the domain's life (`registration`, `expiration`...).
pub struct RdapEvent {
    pub event_action: String,
    pub event_date: String,
}

/// A link to another record.
pub struct RdapLink {
    pub rel: Option<String>,
    pub href: Option<String>,
}

/// A domain record.
pub struct RdapDomain {
    pub events: Option<Vec<RdapEvent>>,
    pub status: Option<Vec<String>>,
    pub entities: Option<Vec<RdapEntity>>,
    pub links: Option<Vec<RdapLink>>,
}

/// The contact details picked out of a record.
pub struct RdapEntityFields {
    pub registrar: Option<String>,
    pub registrar_iana_id: Option<String>,
    pub registrant_name: Option<String>,
    pub registrant_contact_uri: Option<String>,
    pub abuse_email: Option<String>,
    pub abuse_phone: Option<String>,
}

/// The character view of an optional string.
pub open spec fn opt_chars(o: Option<String>) -> Option<Seq<char>> {
    match o {
        Some(s) => Some(s@),
        None => None,
    }
}

impl View for RdapEntityFields {
    /// Registrar, IANA id, registrant name, registrant contact, abuse email,
    /// abuse phone.
    type V = (
        Option<Seq<char>>,
        Option<Seq<char>>,
        Option<Seq<char>>,
        Option<Seq<char>>,
        Option<Seq<char>>,
        Option<Seq<char>>,
    );

    open spec fn view(&self) -> Self::V {
        (
            opt_chars(self.registrar),
            opt_chars(self.registrar_iana_id),
            opt_chars(self.registrant_name),
            opt_chars(self.registrant_contact_uri),
            opt_chars(self.abuse_email),
            opt_chars(self.abuse_phone),
        )
    }
}

/// Whether one of the entity's roles is `role`, up to ASCII case.
pub open spec fn has_role_spec(e: RdapEntity, role: Seq<char>) -> bool {
    match e.roles {
        Some(rs) => exists|i: int| 0 <= i < rs@.len() && eq_ignore_case(#[trigger] rs@[i]@, role),
        None => false,
    }
}

/// The first entity with the role in document order: each entity comes
/// before the entities it contains, and those before its later siblings.
pub open spec fn find_role(es: Seq<RdapEntity>, role: Seq<char>) -> Option<RdapEntity>
    decreases es,
{
    if es.len() == 0 {
        None
    } else if has_role_spec(es[0], role) {
        Some(es[0])
    } else {
        let inner = match es[0].entities {
            Some(children) => find_role(children@, role),
            None => None,
        };
        match inner {
            Some(x) => Some(x),
            None => find_role(es.subrange(1, es.len() as int), role),
        }
    }
}

/// Whether the entity has the role.
pub fn has_role(entity: &RdapEntity, role: &str) -> (b: bool)
    ensures
        b == has_role_spec(*entity, role@),
{
    match &entity.roles {
        Some(rs) => {
            let mut i: usize = 0;
            while i < rs.len()
                invariant
                    i <= rs.len(),
                    entity.roles == Some(*rs),
                    forall|k: int| 0 <= k < i ==> !eq_ignore_case(#[trigger] (*rs)@[k]@, role@),
                decreases rs.len() - i,
            {
                let ri = rs[i].as_str();
                assert(ri@ == (*rs)@[i as int]@);
                if eq_ignore_ascii_case(ri, role) {
                    assert(eq_ignore_case((*rs)@[i as int]@, role@));
                    let ghost v = entity.roles->0;
                    assert(v == *rs);
                    assert(v@[i as int]@ == (*rs)@[i as int]@);
                    assert(exists|j: int| 0 <= j < v@.len() && eq_ignore_case(#[trigger] v@[j]@, role@));
                    return true;
                }
                i = i + 1;
            }
            false
        },
        None => false,
    }
}

/// The first entity with the role, in document order.
pub fn find_with_role<'a>(entities: &'a [RdapEntity], role: &str) -> (r: Option<&'a RdapEntity>)
    ensures
        match find_role(entities@, role@) {
            Some(e) => r matches Some(x) && *x == e,
            None => r is None,
        },
    decreases entities@,
{
    let mut i: usize = 0;
    assert(entities@.subrange(0, entities@.len() as int) =~= entities@);
    while i < entities.len()
        invariant
            i <= entities.len(),
            find_role(entities@, role@) == find_role(
                entities@.subrange(i as int, entities@.len() as int),
                role@,
            ),
        decreases entities.len() - i,
    {
        let ghost rest = entities@.subrange(i as int, entities@.len() as int);
        assert(rest[0] == entities@[i as int]);
        assert(rest.subrange(1, rest.len() as int) =~= entities@.subrange(i + 1, entities@.len() as int));
        let e = &entities[i];
        if has_role(e, role) {
            return Some(e);
        }
        match &e.entities {
            Some(children) => {
                match find_with_role(children.as_slice(), role) {
                    Some(x) => {
                        return Some(x);
                    },
                    None => {},
                }
            },
            None => {},
        }
        i = i + 1;
    }
    None
}

/// The first IANA registrar id among public ids: the identifier of the
/// first id whose type mentions `iana` (in any case) and that has one.
pub open spec fn iana_id_in(ids: Seq<RdapPublicId>) -> Option<Seq<char>>
    decreases ids.len(),
{
    if ids.len() == 0 {
        None
    } else {
        let id = ids[0];
        let is_iana = match id.kind {
            Some(k) => contains_seq(lower(k@), seq!['i', 'a', 'n', 'a']),
            None => false,
        };
        if is_iana && id.identifier is Some {
            Some(id.identifier->0@)
        } else {
            iana_id_in(ids.subrange(1, ids.len() as int))
        }
    }
}

/// The entity's IANA registrar id.
pub open spec fn iana_id_spec(e: RdapEntity) -> Option<Seq<char>> {
    match e.public_ids {
        Some(ids) => iana_id_in(ids@),
        None => None,
    }
}

/// The first value of a jCard property of the entity.
pub open spec fn first_value_spec(e: RdapEntity, key: Seq<char>) -> Option<Seq<char>> {
    match e.vcard_array {
        Some(card) => {
            let vs = vcard_values_spec(card, key);
            if vs.len() > 0 {
                Some(vs[0])
            } else {
                None
            }
        },
        None => None,
    }
}

/// `tel:` prefixes removed from the front, as often as they occur.
pub open spec fn strip_tel(s: Seq<char>) -> Seq<char>
    decreases s.len(),
{
    if s.len() >= 4 && s.subrange(0, 4) == seq!['t', 'e', 'l', ':'] {
        strip_tel(s.subrange(4, s.len() as int))
    } else {
        s
    }
}

/// The registrant: the first entity with role `registrant`, else
/// `administrative`, else `technical`.
pub open spec fn registrant_of(es: Seq<RdapEntity>) -> Option<RdapEntity> {
    match find_role(es, seq!['r', 'e', 'g', 'i', 's', 't', 'r', 'a', 'n', 't']) {
        Some(e) => Some(e),
        None => match find_role(es, seq!['a', 'd', 'm', 'i', 'n', 'i', 's', 't', 'r', 'a', 't', 'i', 'v', 'e']) {
            Some(e) => Some(e),
            None => find_role(es, seq!['t', 'e', 'c', 'h', 'n', 'i', 'c', 'a', 'l']),
        },
    }
}

/// A jCard value of an optional entity.
pub open spec fn value_of(e: Option<RdapEntity>, key: Seq<char>) -> Option<Seq<char>> {
    match e {
        Some(x) => first_value_spec(x, key),
        None => None,
    }
}

/// The contact details a set of entities gives: the registrar's name and
/// IANA id, the registrant's name and contact URI, the abuse contact's
/// email and phone (without `tel:`).
pub open spec fn fields_from(es: Seq<RdapEntity>) -> <RdapEntityFields as View>::V {
    let registrar = find_role(es, seq!['r', 'e', 'g', 'i', 's', 't', 'r', 'a', 'r']);
    let abuse = find_role(es, seq!['a', 'b', 'u', 's', 'e']);
    let registrant = registrant_of(es);
    (
        value_of(registrar, seq!['f', 'n']),
        match registrar {
            Some(r) => iana_id_spec(r),
            None => None,
        },
        value_of(registrant, seq!['f', 'n']),
        value_of(registrant, seq!['c', 'o', 'n', 't', 'a', 'c', 't', '-', 'u', 'r', 'i']),
        value_of(abuse, seq!['e', 'm', 'a', 'i', 'l']),
        match value_of(abuse, seq!['t', 'e', 'l']) {
            Some(t) => Some(strip_tel(t)),
            None => None,
        },
    )
}

/// The entity's IANA registrar id.
pub fn extract_iana_id(entity: &RdapEntity) -> (r: Option<String>)
    ensures
        opt_chars(r) == iana_id_spec(*entity),
{
    match &entity.public_ids {
        Some(ids) => {
            let mut i: usize = 0;
            assert(ids@.subrange(0, ids@.len() as int) =~= ids@);
            while i < ids.len()
                invariant
                    i <= ids.len(),
                    entity.public_ids == Some(*ids),
                    iana_id_in((*ids)@) == iana_id_in((*ids)@.subrange(i as int, (*ids)@.len() as int)),
                decreases ids.len() - i,
            {
                let ghost rest = (*ids)@.subrange(i as int, (*ids)@.len() as int);
                assert(rest.subrange(1, rest.len() as int) =~= (*ids)@.subrange(i + 1, (*ids)@.len() as int));
                let id = &ids[i];
                assert(rest[0] == *id);
                let is_iana = match &id.kind {
                    Some(k) => contains_folded(chars_of(k.as_str()).as_slice(), &['i', 'a', 'n', 'a']),
                    None => false,
                };
                if is_iana {
                    match &id.identifier {
                        Some(x) => {
                            return Some(x.clone());
                        },
                        None => {},
                    }
                }
                i = i + 1;
            }
            None
        },
        None => None,
    }
}

/// The first value of the entity's jCard property `key`.
pub fn first_vcard_value(entity: &RdapEntity, key: &str) -> (r: Option<String>)
    ensures
        opt_chars(r) == first_value_spec(*entity, key@),
{
    match &entity.vcard_array {
        Some(card) => {
            let mut vs = vcard_values(card, key);
            if vs.len() > 0 {
                let ghost all = vs@.map_values(|v: String| v@);
                assert(all[0] == vs@[0]@);
                Some(vs.swap_remove(0))
            } else {
                assert(vs@.map_values(|v: String| v@).len() == 0);
                None
            }
        },
        None => None,
    }
}

/// Removes every leading `tel:` from a phone value.
pub fn strip_tel_prefix(s: &str) -> (out: String)
    ensures
        out@ == strip_tel(s@),
{
    let cs = chars_of(s);
    let mut start: usize = 0;
    assert(cs@.subrange(0, cs@.len() as int) =~= cs@);
    while cs.len() - start >= 4 && cs[start] == 't' && cs[start + 1] == 'e' && cs[start + 2] == 'l'
        && cs[start + 3] == ':'
        invariant
            start <= cs.len(),
            cs@ == s@,
            strip_tel(s@) == strip_tel(cs@.subrange(start as int, cs@.len() as int)),
        decreases cs.len() - start,
    {
        let ghost rest = cs@.subrange(start as int, cs@.len() as int);
        assert(rest.subrange(0, 4) =~= seq!['t', 'e', 'l', ':']);
        assert(rest.subrange(4, rest.len() as int) =~= cs@.subrange(start + 4, cs@.len() as int));
        start = start + 4;
    }
    let ghost rest = cs@.subrange(start as int, cs@.len() as int);
    assert(!(rest.len() >= 4 && rest.subrange(0, 4) == seq!['t', 'e', 'l', ':'])) by {
        if rest.len() >= 4 && rest.subrange(0, 4) == seq!['t', 'e', 'l', ':'] {
            assert(rest.subrange(0, 4)[0] == cs@[start as int]);
            assert(rest.subrange(0, 4)[1] == cs@[start + 1]);
            assert(rest.subrange(0, 4)[2] == cs@[start + 2]);
            assert(rest.subrange(0, 4)[3] == cs@[start + 3]);
        }
    }
    let mut out = String::new();
    let mut i = start;
    while i < cs.len()
        invariant
            start <= i <= cs.len(),
            out@ == cs@.subrange(start as int, i as int),
        decreases cs.len() - i,
    {
        push_char(&mut out, cs[i]);
        i = i + 1;
        assert(out@ =~= cs@.subrange(start as int, i as int));
    }
    out
}

/// The contact details a set of entities gives.
pub fn fields_of_entities(entities: &[RdapEntity]) -> (f: RdapEntityFields)
    ensures
        f@ == fields_from(entities@),
{
    let registrar = find_with_role(entities, "registrar");
    let abuse = find_with_role(entities, "abuse");
    let registrant = match find_with_role(entities, "registrant") {
        Some(e) => Some(e),
        None => match find_with_role(entities, "administrative") {
            Some(e) => Some(e),
            None => find_with_role(entities, "technical"),
        },
    };
    proof {
        reveal_strlit("registrar");
        assert("registrar"@ =~= seq!['r', 'e', 'g', 'i', 's', 't', 'r', 'a', 'r']);
        reveal_strlit("abuse");
        assert("abuse"@ =~= seq!['a', 'b', 'u', 's', 'e']);
        reveal_strlit("registrant");
        assert("registrant"@ =~= seq!['r', 'e', 'g', 'i', 's', 't', 'r', 'a', 'n', 't']);
        reveal_strlit("administrative");
        assert("administrative"@ =~= seq!['a', 'd', 'm', 'i', 'n', 'i', 's', 't', 'r', 'a', 't', 'i', 'v', 'e']);
        reveal_strlit("technical");
        assert("technical"@ =~= seq!['t', 'e', 'c', 'h', 'n', 'i', 'c', 'a', 'l']);
        reveal_strlit("fn");
        assert("fn"@ =~= seq!['f', 'n']);
        reveal_strlit("contact-uri");
        assert("contact-uri"@ =~= seq!['c', 'o', 'n', 't', 'a', 'c', 't', '-', 'u', 'r', 'i']);
        reveal_strlit("email");
        assert("email"@ =~= seq!['e', 'm', 'a', 'i', 'l']);
        reveal_strlit("tel");
        assert("tel"@ =~= seq!['t', 'e', 'l']);
    }
    let registrar_name = match registrar {
        Some(e) => first_vcard_value(e, "fn"),
        None => None,
    };
    let registrar_iana_id = match registrar {
        Some(e) => extract_iana_id(e),
        None => None,
    };
    let registrant_name = match registrant {
        Some(e) => first_vcard_value(e, "fn"),
        None => None,
    };
    let registrant_contact_uri = match registrant {
        Some(e) => first_vcard_value(e, "contact-uri"),
        None => None,
    };
    let abuse_email = match abuse {
        Some(e) => first_vcard_value(e, "email"),
        None => None,
    };
    let abuse_phone = match abuse {
        Some(e) => match first_vcard_value(e, "tel") {
            Some(t) => Some(strip_tel_prefix(t.as_str())),
            None => None,
        },
        None => None,
    };
    RdapEntityFields {
        registrar: registrar_name,
        registrar_iana_id,
        registrant_name,
        registrant_contact_uri,
        abuse_email,
        abuse_phone,
    }
}

/// The contact details of a domain record's entities.
pub fn extract_entity_fields(domain: &RdapDomain) -> (f: RdapEntityFields)
    ensures
        f@ == fields_from(
            match domain.entities {
                Some(es) => es@,
                None => Seq::<RdapEntity>::empty(),
            },
        ),
{
    match &domain.entities {
        Some(es) => fields_of_entities(es.as_slice()),
        None => {
            let none: Vec<RdapEntity> = Vec::new();
            fields_of_entities(none.as_slice())
        },
    }
}

/// The instant an RFC 3339 date-time denotes, as seconds since the epoch
/// and nanoseconds past them, when chrono parses the text.
pub uninterp spec fn rfc3339_instant(raw: Seq<char>) -> Option<(i64, u32)>;

/// Parses an RFC 3339 date-time with chrono's
/// `DateTime::parse_from_rfc3339` and converts it to UTC; the result is
/// [`rfc3339_instant`] of the text.
#[verifier::external_body]
fn parse_rfc3339_utc(raw: &str) -> (r: Option<Timestamp>)
    ensures
        match rfc3339_instant(raw@) {
            Some(p) => r matches Some(t) && t.secs == p.0 && t.nanos == p.1,
            None => r is None,
        },
{
    match chrono::DateTime::parse_from_rfc3339(raw) {
        Ok(dt) => {
            let utc = dt.with_timezone(&chrono::Utc);
            Some(Timestamp { secs: utc.timestamp(), nanos: utc.timestamp_subsec_nanos() })
        },
        Err(_) => None,
    }
}

/// The first event whose action, lower-cased, contains `needle`.
pub open spec fn first_event(events: Seq<RdapEvent>, needle: Seq<char>) -> Option<RdapEvent>
    decreases events.len(),
{
    if events.len() == 0 {
        None
    } else if contains_seq(lower(events[0].event_action@), needle) {
        Some(events[0])
    } else {
        first_event(events.subrange(1, events.len() as int), needle)
    }
}

/// The date of the first event whose action mentions `needle`, when it
/// parses; a later event is not consulted.
pub open spec fn event_date(events: Seq<RdapEvent>, needle: Seq<char>) -> Option<(i64, u32)> {
    match first_event(events, needle) {
        Some(e) => rfc3339_instant(e.event_date@),
        None => None,
    }
}

/// The date of the first event whose action mentions `event`.
pub fn find_event_date(events: &[RdapEvent], event: &str) -> (r: Option<Timestamp>)
    ensures
        match event_date(events@, event@) {
            Some(p) => r matches Some(t) && t.secs == p.0 && t.nanos == p.1,
            None => r is None,
        },
{
    let needle = chars_of(event);
    let mut i: usize = 0;
    assert(events@.subrange(0, events@.len() as int) =~= events@);
    while i < events.len()
        invariant
            i <= events.len(),
            needle@ == event@,
            first_event(events@, event@) == first_event(events@.subrange(i as int, events@.len() as int), event@),
        decreases events.len() - i,
    {
        let ghost rest = events@.subrange(i as int, events@.len() as int);
        assert(rest.subrange(1, rest.len() as int) =~= events@.subrange(i + 1, events@.len() as int));
        assert(rest[0] == events@[i as int]);
        let e = &events[i];
        if contains_folded(chars_of(e.event_action.as_str()).as_slice(), needle.as_slice()) {
            return parse_rfc3339_utc(e.event_date.as_str());
        }
        i = i + 1;
    }
    None
}

/// The address of the first link related (`rel`, any case) to the record
/// that has one.
pub open spec fn related_url_in(links: Seq<RdapLink>) -> Option<Seq<char>>
    decreases links.len(),
{
    if links.len() == 0 {
        None
    } else {
        let l = links[0];
        let related = match l.rel {
            Some(r) => eq_ignore_case(r@, seq!['r', 'e', 'l', 'a', 't', 'e', 'd']),
            None => false,
        };
        if related && l.href is Some {
            Some(l.href->0@)
        } else {
            related_url_in(links.subrange(1, links.len() as int))
        }
    }
}

/// The address of the record the domain record links as related.
pub fn find_related_rdap_url(domain: &RdapDomain) -> (r: Option<String>)
    ensures
        opt_chars(r) == match domain.links {
            Some(ls) => related_url_in(ls@),
            None => None,
        },
{
    match &domain.links {
        Some(links) => {
            let mut i: usize = 0;
            assert((*links)@.subrange(0, (*links)@.len() as int) =~= (*links)@);
            while i < links.len()
                invariant
                    i <= links.len(),
                    domain.links == Some(*links),
                    related_url_in((*links)@) == related_url_in((*links)@.subrange(i as int, (*links)@.len() as int)),
                decreases links.len() - i,
            {
                let ghost rest = (*links)@.subrange(i as int, (*links)@.len() as int);
                assert(rest.subrange(1, rest.len() as int) =~= (*links)@.subrange(i + 1, (*links)@.len() as int));
                let l = &links[i];
                assert(rest[0] == *l);
                let related = match &l.rel {
                    Some(r) => {
                        proof {
                            reveal_strlit("related");
                            assert("related"@ =~= seq!['r', 'e', 'l', 'a', 't', 'e', 'd']);
                        }
                        eq_ignore_ascii_case(r.as_str(), "related")
                    },
                    None => false,
                };
                if related {
                    match &l.href {
                        Some(h) => {
                            return Some(h.clone());
                        },
                        None => {},
                    }
                }
                i = i + 1;
            }
            None
        },
        None => None,
    }
}

/// Whether the registrant's name or contact, or the abuse email, is still
/// missing, so that the related record is worth fetching.
pub fn needs_related_rdap(fields: &RdapEntityFields) -> (b: bool)
    ensures
        b == (fields@.2 is None || fields@.3 is None || fields@.4 is None),
{
    fields.registrant_name.is_none() || fields.registrant_contact_uri.is_none() || fields.abuse_email.is_none()
}

/// A field after merging: the one already found, else the incoming one.
pub open spec fn merged(kept: Option<Seq<char>>, incoming: Option<Seq<char>>) -> Option<Seq<char>> {
    if kept is Some {
        kept
    } else {
        incoming
    }
}

/// Fills the fields still missing from `incoming`; a field already found
/// is kept.
pub fn merge_entity_fields(target: &mut RdapEntityFields, incoming: RdapEntityFields)
    ensures
        final(target)@.0 == merged(old(target)@.0, incoming@.0),
        final(target)@.1 == merged(old(target)@.1, incoming@.1),
        final(target)@.2 == merged(old(target)@.2, incoming@.2),
        final(target)@.3 == merged(old(target)@.3, incoming@.3),
        final(target)@.4 == merged(old(target)@.4, incoming@.4),
        final(target)@.5 == merged(old(target)@.5, incoming@.5),
{
    if target.registrar.is_none() {
        target.registrar = incoming.registrar;
    }
    if target.registrar_iana_id.is_none() {
        target.registrar_iana_id = incoming.registrar_iana_id;
    }
    if target.registrant_name.is_none() {
        target.registrant_name = incoming.registrant_name;
    }
    if target.registrant_contact_uri.is_none() {
        target.registrant_contact_uri = incoming.registrant_contact_uri;
    }
    if target.abuse_email.is_none() {
        target.abuse_email = incoming.abuse_email;
    }
    if target.abuse_phone.is_none() {
        target.abuse_phone = incoming.abuse_phone;
    }
}

/// Merging never loses a field and never replaces one: each field is found
/// afterwards exactly when it was found before or in the incoming record,
/// and a field found before is unchanged.
pub proof fn lemma_merge_keeps(kept: Option<Seq<char>>, incoming: Option<Seq<char>>)
    ensures
        merged(kept, incoming) is Some <==> (kept is Some || incoming is Some),
        kept is Some ==> merged(kept, incoming) == kept,
        merged(merged(kept, incoming), incoming) == merged(kept, incoming),
{
}

/// The label after the last dot (the whole text when there is none).
pub open spec fn last_label(s: Seq<char>) -> Seq<char>
    decreases s.len(),
{
    if s.len() == 0 {
        s
    } else if s.last() == '.' {
        seq![]
    } else {
        last_label(s.drop_last()).push(s.last())
    }
}

/// The top-level domain of a host name: its last label, lower-cased.
pub fn domain_tld(domain: &str) -> (tld: Vec<char>)
    ensures
        tld@ == lower(last_label(domain@)),
{
    let cs = chars_of(domain);
    let mut start = cs.len();
    assert(cs@.subrange(0, cs@.len() as int) =~= cs@);
    assert(cs@.subrange(cs@.len() as int, cs@.len() as int) =~= Seq::<char>::empty());
    assert(last_label(cs@) + Seq::<char>::empty() =~= last_label(cs@));
    while start > 0 && cs[start - 1] != '.'
        invariant
            start <= cs.len(),
            cs@ == domain@,
            last_label(cs@) == last_label(cs@.subrange(0, start as int)) + cs@.subrange(start as int, cs@.len() as int),
        decreases start,
    {
        let ghost pre = cs@.subrange(0, start as int);
        assert(pre.drop_last() =~= cs@.subrange(0, start - 1));
        assert(last_label(pre) == last_label(pre.drop_last()).push(pre.last()));
        assert(last_label(pre.drop_last()).push(pre.last()) + cs@.subrange(start as int, cs@.len() as int)
            =~= last_label(cs@.subrange(0, start - 1)) + cs@.subrange(start - 1, cs@.len() as int));
        start = start - 1;
    }
    let ghost pre = cs@.subrange(0, start as int);
    assert(last_label(pre) =~= seq![]) by {
        if start > 0 {
            assert(pre.last() == '.');
        }
    }
    let mut label: Vec<char> = Vec::new();
    let mut i = start;
    while i < cs.len()
        invariant
            start <= i <= cs.len(),
            label@ == cs@.subrange(start as int, i as int),
        decreases cs.len() - i,
    {
        label.push(cs[i]);
        i = i + 1;
        assert(label@ =~= cs@.subrange(start as int, i as int));
    }
    assert(last_label(cs@) =~= label@);
    to_lower(label.as_slice())
}

/// One entry of the IANA bootstrap file: the TLDs it serves and its base
/// URLs.
pub struct RdapService {
    pub tlds: Vec<String>,
    pub urls: Vec<String>,
}

/// Whether a service lists the TLD (ASCII case ignored).
pub open spec fn serves(s: RdapService, tld: Seq<char>) -> bool {
    exists|i: int| 0 <= i < s.tlds@.len() && eq_ignore_case(#[trigger] s.tlds@[i]@, tld)
}

/// The first base URL of the first service that lists the TLD and has one.
pub open spec fn rdap_base_in(services: Seq<RdapService>, tld: Seq<char>) -> Option<Seq<char>>
    decreases services.len(),
{
    if services.len() == 0 {
        None
    } else if serves(services[0], tld) && services[0].urls@.len() > 0 {
        Some(services[0].urls@[0]@)
    } else {
        rdap_base_in(services.subrange(1, services.len() as int), tld)
    }
}

/// The message when no service lists the TLD.
pub open spec fn no_service_message(tld: Seq<char>) -> Seq<char> {
    seq!['n', 'o', ' ', 'R', 'D', 'A', 'P', ' ', 's', 'e', 'r', 'v', 'i', 'c', 'e', ' ']
        + seq!['f', 'o', 'u', 'n', 'd', ' ', 'f', 'o', 'r', ' ', '.'] + tld
}

/// Whether the service lists the TLD.
fn service_lists(service: &RdapService, tld: &str) -> (b: bool)
    ensures
        b == serves(*service, tld@),
{
    let mut i: usize = 0;
    while i < service.tlds.len()
        invariant
            i <= service.tlds.len(),
            forall|k: int| 0 <= k < i ==> !eq_ignore_case(#[trigger] service.tlds@[k]@, tld@),
        decreases service.tlds.len() - i,
    {
        if eq_ignore_ascii_case(service.tlds[i].as_str(), tld) {
            assert(eq_ignore_case(service.tlds@[i as int]@, tld@));
            return true;
        }
        i = i + 1;
    }
    false
}

/// The registry's RDAP base URL for a TLD, from the bootstrap services.
pub fn rdap_base_for(services: &[RdapService], tld: &str) -> (r: Result<String, String>)
    ensures
        match rdap_base_in(services@, tld@) {
            Some(b) => r matches Ok(s) && s@ == b,
            None => r matches Err(m) && m@ == no_service_message(tld@),
        },
{
    let mut i: usize = 0;
    assert(services@.subrange(0, services@.len() as int) =~= services@);
    while i < services.len()
        invariant
            i <= services.len(),
            rdap_base_in(services@, tld@) == rdap_base_in(
                services@.subrange(i as int, services@.len() as int),
                tld@,
            ),
        decreases services.len() - i,
    {
        let ghost rest = services@.subrange(i as int, services@.len() as int);
        assert(rest.subrange(1, rest.len() as int) =~= services@.subrange(i + 1, services@.len() as int));
        assert(rest[0] == services@[i as int]);
        let s = &services[i];
        if service_lists(s, tld) && s.urls.len() > 0 {
            return Ok(s.urls[0].clone());
        }
        i = i + 1;
    }
    let mut m = String::new();
    crate::text::append_chars(&mut m, &['n', 'o', ' ', 'R', 'D', 'A', 'P', ' ', 's', 'e', 'r', 'v', 'i', 'c', 'e', ' ']);
    crate::text::append_chars(&mut m, &['f', 'o', 'u', 'n', 'd', ' ', 'f', 'o', 'r', ' ', '.']);
    append_str(&mut m, tld);
    assert(m@ =~= no_service_message(tld@));
    Err(m)
}

/// The message for a base URL that does not parse.
pub open spec fn invalid_base_message(base: Seq<char>) -> Seq<char> {
    seq!['i', 'n', 'v', 'a', 'l', 'i', 'd', ' ', 'R', 'D', 'A', 'P', ' ']
        + seq!['b', 'a', 's', 'e', ' ', 'U', 'R', 'L', ':', ' '] + base
}

/// The reference `domain/<domain>`.
pub open spec fn domain_reference(domain: Seq<char>) -> Seq<char> {
    seq!['d', 'o', 'm', 'a', 'i', 'n', '/'] + domain
}

/// The domain endpoint under a base URL: the base parsed, its path given a
/// trailing slash when it lacks one, then `domain/<domain>` resolved
/// against it.
pub open spec fn rdap_domain_url(base: Seq<char>, domain: Seq<char>) -> Result<Seq<char>, Seq<char>> {
    match url_parse(base) {
        Err(_) => Err(invalid_base_message(base)),
        Ok(p) => {
            let dir = if p.3.len() > 0 && p.3.last() == '/' {
                p
            } else {
                url_set_path(p.0, p.3.push('/'))
            };
            match url_join(dir.0, domain_reference(domain)) {
                Ok(q) => Ok(q.0),
                Err(m) => Err(m),
            }
        },
    }
}

/// Builds the URL of the domain's record under the registry's base URL.
pub fn build_rdap_domain_url(base: &str, domain: &str) -> (r: Result<String, String>)
    ensures
        match rdap_domain_url(base@, domain@) {
            Ok(u) => r matches Ok(s) && s@ == u,
            Err(m) => r matches Err(e) && e@ == m,
        },
{
    let url = match parse_url(base) {
        Ok(u) => u,
        Err(_) => {
            let mut m = String::new();
            crate::text::append_chars(&mut m, &['i', 'n', 'v', 'a', 'l', 'i', 'd', ' ', 'R', 'D', 'A', 'P', ' ']);
            crate::text::append_chars(&mut m, &['b', 'a', 's', 'e', ' ', 'U', 'R', 'L', ':', ' ']);
            append_str(&mut m, base);
            assert(m@ =~= invalid_base_message(base@));
            return Err(m);
        },
    };
    let path = chars_of(url.path());
    let dir = if path.len() > 0 && path[path.len() - 1] == '/' {
        url
    } else {
        let mut p = string_of(path.as_slice());
        push_char(&mut p, '/');
        with_path(&url, p.as_str())
    };
    let mut reference = String::new();
    crate::text::append_chars(&mut reference, &['d', 'o', 'm', 'a', 'i', 'n', '/']);
    append_str(&mut reference, domain);
    assert(reference@ =~= domain_reference(domain@));
    match joined(&dir, reference.as_str()) {
        Ok(u) => Ok(string_of(chars_of(u.as_str()).as_slice())),
        Err(e) => Err(e),
    }
}

/// Whether the registrar found is Cloudflare (its name, lower-cased,
/// mentions `cloudflare`), whose own RDAP server has fuller records.
pub fn is_cloudflare_registrar(fields: &RdapEntityFields) -> (b: bool)
    ensures
        b == match fields@.0 {
            Some(name) => contains_seq(lower(name), seq!['c', 'l', 'o', 'u', 'd', 'f', 'l', 'a', 'r', 'e']),
            None => false,
        },
{
    match &fields.registrar {
        Some(name) => contains_folded(
            chars_of(name.as_str()).as_slice(),
            &['c', 'l', 'o', 'u', 'd', 'f', 'l', 'a', 'r', 'e'],
        ),
        None => false,
    }
}

/// Cloudflare's RDAP address for the domain.
pub open spec fn cloudflare_url_spec(domain: Seq<char>) -> Seq<char> {
    seq!['h', 't', 't', 'p', 's', ':', '/', '/', 'r', 'd', 'a', 'p', '.']
        + seq!['c', 'l', 'o', 'u', 'd', 'f', 'l', 'a', 'r', 'e', '.', 'c', 'o', 'm']
        + seq!['/', 'r', 'd', 'a', 'p', '/', 'v', '1', '/', 'd', 'o', 'm', 'a', 'i', 'n', '/'] + domain
}

/// Cloudflare's RDAP address for the domain.
pub fn cloudflare_rdap_url(domain: &str) -> (u: String)
    ensures
        u@ == cloudflare_url_spec(domain@),
{
    let mut u = String::new();
    crate::text::append_chars(&mut u, &['h', 't', 't', 'p', 's', ':', '/', '/', 'r', 'd', 'a', 'p', '.']);
    crate::text::append_chars(&mut u, &['c', 'l', 'o', 'u', 'd', 'f', 'l', 'a', 'r', 'e', '.', 'c', 'o', 'm']);
    crate::text::append_chars(
        &mut u,
        &['/', 'r', 'd', 'a', 'p', '/', 'v', '1', '/', 'd', 'o', 'm', 'a', 'i', 'n', '/'],
    );
    append_str(&mut u, domain);
    assert(u@ =~= cloudflare_url_spec(domain@));
    u
}

/// The instant of an optional parsed date.
pub open spec fn instant_of(t: Option<Timestamp>) -> Option<(i64, u32)> {
    match t {
        Some(x) => Some((x.secs, x.nanos)),
        None => None,
    }
}

/// The expiry date: the first event mentioning `expiration`, else
/// `expiry`, else `expiration date`, whose date parses.
pub open spec fn expiry_date(events: Seq<RdapEvent>) -> Option<(i64, u32)> {
    match event_date(events, seq!['e', 'x', 'p', 'i', 'r', 'a', 't', 'i', 'o', 'n']) {
        Some(d) => Some(d),
        None => match event_date(events, seq!['e', 'x', 'p', 'i', 'r', 'y']) {
            Some(d) => Some(d),
            None => event_date(
                events,
                seq!['e', 'x', 'p', 'i', 'r', 'a', 't', 'i', 'o', 'n', ' ', 'd', 'a', 't', 'e'],
            ),
        },
    }
}

/// The events of a domain record (none when it has no list).
pub open spec fn events_of(domain: RdapDomain) -> Seq<RdapEvent> {
    match domain.events {
        Some(es) => es@,
        None => seq![],
    }
}

/// The probe result for a domain record: the record's address, its
/// registration and expiry dates, its status codes (none when it has no
/// list), and the contact details found.
pub fn rdap_probe(rdap_url: String, domain: RdapDomain, fields: RdapEntityFields, elapsed_ms: u64) -> (p: RdapProbe)
    ensures
        p.rdap_url == rdap_url,
        instant_of(p.registered_on) == event_date(
            events_of(domain),
            seq!['r', 'e', 'g', 'i', 's', 't', 'r', 'a', 't', 'i', 'o', 'n'],
        ),
        instant_of(p.expires_on) == expiry_date(events_of(domain)),
        p.status_codes@ == match domain.status {
            Some(s) => s@,
            None => Seq::<String>::empty(),
        },
        opt_chars(p.registrar) == fields@.0,
        opt_chars(p.registrar_iana_id) == fields@.1,
        opt_chars(p.registrant_name) == fields@.2,
        opt_chars(p.registrant_contact_uri) == fields@.3,
        opt_chars(p.abuse_email) == fields@.4,
        opt_chars(p.abuse_phone) == fields@.5,
        p.elapsed_ms == elapsed_ms,
{
    proof {
        reveal_strlit("registration");
        assert("registration"@ =~= seq!['r', 'e', 'g', 'i', 's', 't', 'r', 'a', 't', 'i', 'o', 'n']);
        reveal_strlit("expiration");
        assert("expiration"@ =~= seq!['e', 'x', 'p', 'i', 'r', 'a', 't', 'i', 'o', 'n']);
        reveal_strlit("expiry");
        assert("expiry"@ =~= seq!['e', 'x', 'p', 'i', 'r', 'y']);
        reveal_strlit("expiration date");
        assert("expiration date"@ =~= seq!['e', 'x', 'p', 'i', 'r', 'a', 't', 'i', 'o', 'n', ' ', 'd', 'a', 't', 'e']);
    }
    let empty: Vec<RdapEvent> = Vec::new();
    let (registered_on, expires_on) = {
        let events = match &domain.events {
            Some(es) => es.as_slice(),
            None => empty.as_slice(),
        };
        assert(events@ == events_of(domain));
        let registered_on = find_event_date(events, "registration");
        let expires_on = match find_event_date(events, "expiration") {
            Some(t) => Some(t),
            None => match find_event_date(events, "expiry") {
                Some(t) => Some(t),
                None => find_event_date(events, "expiration date"),
            },
        };
        (registered_on, expires_on)
    };
    let status_codes = match domain.status {
        Some(s) => s,
        None => Vec::new(),
    };
    RdapProbe {
        rdap_url,
        registrar: fields.registrar,
        registrar_iana_id: fields.registrar_iana_id,
        registered_on,
        expires_on,
        status_codes,
        registrant_name: fields.registrant_name,
        registrant_contact_uri: fields.registrant_contact_uri,
        abuse_email: fields.abuse_email,
        abuse_phone: fields.abuse_phone,
        elapsed_ms,
    }
}

/// The first event found for a needle is one whose action mentions it, and
/// no earlier action does.
proof fn lemma_first_event_found(events: Seq<RdapEvent>, needle: Seq<char>)
    ensures
        first_event(events, needle) matches Some(e) ==> exists|i: int|
            0 <= i < events.len() && events[i] == e && contains_seq(lower(#[trigger] events[i].event_action@), needle),
    decreases events.len(),
{
    if events.len() > 0 && !contains_seq(lower(events[0].event_action@), needle) {
        let rest = events.subrange(1, events.len() as int);
        lemma_first_event_found(rest, needle);
        if let Some(e) = first_event(events, needle) {
            let i = choose|i: int|
                0 <= i < rest.len() && rest[i] == e && contains_seq(lower(#[trigger] rest[i].event_action@), needle);
            assert(events[i + 1] == rest[i]);
        }
    } else if events.len() > 0 {
        assert(contains_seq(lower(events[0].event_action@), needle));
    }
}

/// The first event whose action mentions a needle is the one found.
proof fn lemma_first_event_at(events: Seq<RdapEvent>, needle: Seq<char>, i: int)
    requires
        0 <= i < events.len(),
        contains_seq(lower(events[i].event_action@), needle),
        forall|j: int| 0 <= j < i ==> !contains_seq(lower(#[trigger] events[j].event_action@), needle),
    ensures
        first_event(events, needle) == Some(events[i]),
    decreases i,
{
    if i > 0 {
        let rest = events.subrange(1, events.len() as int);
        assert(!contains_seq(lower(events[0].event_action@), needle));
        assert forall|j: int| 0 <= j < i - 1 implies !contains_seq(lower(#[trigger] rest[j].event_action@), needle) by {
            assert(rest[j] == events[j + 1]);
        }
        lemma_first_event_at(rest, needle, i - 1);
    }
}

/// A text that mentions a word beginning with `expir` mentions `expir`.
proof fn lemma_mentions_expir(hay: Seq<char>, needle: Seq<char>)
    requires
        needle.len() >= 5,
        needle.subrange(0, 5) == seq!['e', 'x', 'p', 'i', 'r'],
        contains_seq(hay, needle),
    ensures
        contains_seq(hay, seq!['e', 'x', 'p', 'i', 'r']),
{
    let k = choose|k: int| occurs_at(hay, needle, k);
    assert(hay.subrange(k, k + 5) =~= needle.subrange(0, 5));
    assert(occurs_at(hay, seq!['e', 'x', 'p', 'i', 'r'], k));
}

/// The expiry date only ever comes from an event whose action mentions
/// `expir` (`expiration`, `expiry`, `expiration date`), never from one such
/// as `registration`; and the first event mentioning `expiration`, when
/// its date parses, gives it.
pub proof fn lemma_expiry_from_expiration_events(events: Seq<RdapEvent>)
    ensures
        expiry_date(events) matches Some(x) ==> exists|i: int|
            0 <= i < events.len() && contains_seq(lower(#[trigger] events[i].event_action@), seq!['e', 'x', 'p', 'i', 'r'])
                && rfc3339_instant(events[i].event_date@) == Some(x),
        forall|i: int|
            0 <= i < events.len() && contains_seq(
                lower(#[trigger] events[i].event_action@),
                seq!['e', 'x', 'p', 'i', 'r', 'a', 't', 'i', 'o', 'n'],
            ) && (forall|j: int|
                0 <= j < i ==> !contains_seq(
                    lower(#[trigger] events[j].event_action@),
                    seq!['e', 'x', 'p', 'i', 'r', 'a', 't', 'i', 'o', 'n'],
                )) && rfc3339_instant(events[i].event_date@) is Some ==> expiry_date(events) == rfc3339_instant(
                events[i].event_date@,
            ),
{
    let n1 = seq!['e', 'x', 'p', 'i', 'r', 'a', 't', 'i', 'o', 'n'];
    let n2 = seq!['e', 'x', 'p', 'i', 'r', 'y'];
    let n3 = seq!['e', 'x', 'p', 'i', 'r', 'a', 't', 'i', 'o', 'n', ' ', 'd', 'a', 't', 'e'];
    assert(n1.subrange(0, 5) =~= seq!['e', 'x', 'p', 'i', 'r']);
    assert(n2.subrange(0, 5) =~= seq!['e', 'x', 'p', 'i', 'r']);
    assert(n3.subrange(0, 5) =~= seq!['e', 'x', 'p', 'i', 'r']);
    lemma_first_event_found(events, n1);
    lemma_first_event_found(events, n2);
    lemma_first_event_found(events, n3);
    if let Some(x) = expiry_date(events) {
        let needle = if event_date(events, n1) is Some {
            n1
        } else if event_date(events, n2) is Some {
            n2
        } else {
            n3
        };
        let e = first_event(events, needle)->0;
        let i = choose|i: int|
            0 <= i < events.len() && events[i] == e && contains_seq(lower(#[trigger] events[i].event_action@), needle);
        lemma_mentions_expir(lower(events[i].event_action@), needle);
        assert(rfc3339_instant(events[i].event_date@) == Some(x));
    }
    assert forall|i: int|
        0 <= i < events.len() && contains_seq(lower(#[trigger] events[i].event_action@), n1) && (forall|j: int|
            0 <= j < i ==> !contains_seq(lower(#[trigger] events[j].event_action@), n1))
            && rfc3339_instant(events[i].event_date@) is Some implies expiry_date(events) == rfc3339_instant(
        events[i].event_date@,
    ) by {
        lemma_first_event_at(events, n1, i);
    }
}

} // verus!
