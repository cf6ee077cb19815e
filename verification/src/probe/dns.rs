//! DNS records: their shape, and the clean-up applied to answers.

use vstd::prelude::*;
use vstd::string::StringExecFns;
use crate::text::{append_chars, chars_of, parse_unsigned, parse_unsigned_chars, string_of, trim, trimmed, prefix_of, suffix_from};

verus! {

/// A mail exchanger record.
pub struct MxRecord {
    pub priority: u16,
    pub exchange: String,
}

/// The records found for a host.
pub struct DnsProbe {
    pub ipv4: Vec<String>,
    pub ipv6: Vec<String>,
    pub mx: Vec<MxRecord>,
    pub ns: Vec<String>,
    pub txt: Vec<String>,
    pub caa: Vec<String>,
    pub elapsed_ms: u64,
}

/// Whether a trimmed DNS-over-HTTPS answer is kept for `record_type`:
/// `A` and `AAAA` keep answers that are addresses of that family
/// (`is_address`), other types any non-empty text.
pub open spec fn keeps_answer(record_type: Seq<char>, data: Seq<char>, is_address: bool) -> bool {
    if record_type == "A"@ || record_type == "AAAA"@ {
        is_address
    } else {
        data.len() > 0
    }
}

/// The kept answers, trimmed, in order; `is_address[i]` tells whether the
/// trimmed `answers[i]` parses as an address of the record's family.
pub open spec fn kept_answers(record_type: Seq<char>, answers: Seq<Seq<char>>, is_address: Seq<bool>) -> Seq<Seq<char>>
    decreases answers.len(),
{
    if answers.len() == 0 || is_address.len() == 0 {
        Seq::empty()
    } else {
        let rest = kept_answers(record_type, answers.drop_last(), is_address.drop_last());
        let d = trim(answers.last());
        if keeps_answer(record_type, d, is_address.last()) {
            rest.push(d)
        } else {
            rest
        }
    }
}

/// The views of a vector of strings.
pub open spec fn string_views(v: Seq<String>) -> Seq<Seq<char>> {
    v.map_values(|s: String| s@)
}

/// Trims DNS-over-HTTPS answers and keeps those that fit `record_type`.
/// `is_address[i]` tells whether the trimmed `answers[i]` parses as an
/// address of the record's family (IPv4 for `A`, IPv6 for `AAAA`).
pub fn filter_doh_answers(record_type: &str, answers: &Vec<String>, is_address: &Vec<bool>) -> (kept: Vec<String>)
    requires
        answers.len() == is_address.len(),
    ensures
        string_views(kept@) == kept_answers(record_type@, string_views(answers@), is_address@),
{
    let a_type = String::from_str("A");
    let aaaa_type = String::from_str("AAAA");
    let rt = String::from_str(record_type);
    let mut kept: Vec<String> = Vec::new();
    let mut i: usize = 0;
    assert(string_views(answers@).take(0) =~= Seq::<Seq<char>>::empty());
    assert(is_address@.take(0) =~= Seq::<bool>::empty());
    while i < answers.len()
        invariant
            i <= answers.len(),
            rt@ == record_type@,
            a_type@ == "A"@,
            aaaa_type@ == "AAAA"@,
            answers.len() == is_address.len(),
            string_views(kept@) == kept_answers(record_type@, string_views(answers@).take(i as int), is_address@.take(i as int)),
        decreases answers.len() - i,
    {
        let ghost pre = string_views(answers@).take(i as int);
        assert(string_views(answers@).take(i + 1).drop_last() =~= pre);
        assert(string_views(answers@).take(i + 1).last() == answers@[i as int]@);
        assert(is_address@.take(i + 1).drop_last() =~= is_address@.take(i as int));
        let cs = chars_of(answers[i].as_str());
        let t = trimmed(&cs);
        let data = string_of(&t);
        let keep = if rt == a_type || rt == aaaa_type {
            is_address[i]
        } else {
            t.len() > 0
        };
        if keep {
            let ghost before = string_views(kept@);
            kept.push(data);
            assert(string_views(kept@) =~= before.push(t@));
        }
        i = i + 1;
    }
    assert(string_views(answers@).take(answers.len() as int) =~= string_views(answers@));
    assert(is_address@.take(answers.len() as int) =~= is_address@);
    kept
}

/// Number of trailing `.` characters.
pub open spec fn trailing_dots(s: Seq<char>) -> nat
    decreases s.len(),
{
    if s.len() > 0 && s.last() == '.' {
        1 + trailing_dots(s.drop_last())
    } else {
        0
    }
}

/// `s` without its trailing dots (the DNS root label).
pub open spec fn without_trailing_dots(s: Seq<char>) -> Seq<char> {
    s.take(s.len() - trailing_dots(s))
}

/// Removes every trailing `.` from a DNS name.
pub fn strip_trailing_dots(s: &str) -> (out: String)
    ensures
        out@ == without_trailing_dots(s@),
{
    let cs = chars_of(s);
    let mut i: usize = cs.len();
    assert(cs@.take(cs.len() as int) =~= cs@);
    while i > 0 && cs[i - 1] == '.'
        invariant
            i <= cs.len(),
            cs@ == s@,
            trailing_dots(cs@) == (cs.len() - i) + trailing_dots(cs@.take(i as int)),
        decreases i,
    {
        assert(cs@.take(i as int).drop_last() =~= cs@.take(i - 1));
        i = i - 1;
    }
    assert(trailing_dots(cs@.take(i as int)) == 0);
    let head = prefix_of(&cs, i);
    string_of(&head)
}

/// Index of the first space in `s`, if any.
pub open spec fn first_space(s: Seq<char>) -> Option<int>
    decreases s.len(),
{
    if s.len() == 0 {
        None
    } else if s[0] == ' ' {
        Some(0)
    } else {
        match first_space(s.drop_first()) {
            Some(i) => Some(i + 1),
            None => None,
        }
    }
}

/// An MX answer `priority exchange`: the text before the first space is a
/// 16-bit priority, the rest the exchange without trailing dots.
pub open spec fn doh_mx(entry: Seq<char>) -> Option<(u16, Seq<char>)> {
    match first_space(entry) {
        Some(i) => match parse_unsigned(entry.take(i), 10, 0xffff) {
            Some(p) => Some((p as u16, without_trailing_dots(entry.subrange(i + 1, entry.len() as int)))),
            None => None,
        },
        None => None,
    }
}

proof fn lemma_first_space(s: Seq<char>, k: int)
    requires
        0 <= k <= s.len(),
        forall|j: int| 0 <= j < k ==> s[j] != ' ',
    ensures
        k < s.len() && s[k] == ' ' ==> first_space(s) == Some(k),
        k == s.len() ==> first_space(s) is None,
    decreases k,
{
    if k > 0 {
        lemma_first_space(s.drop_first(), k - 1);
    }
}

/// Reads an MX record from a DNS-over-HTTPS answer.
pub fn parse_doh_mx(entry: &str) -> (r: Option<MxRecord>)
    ensures
        r matches Some(m) ==> doh_mx(entry@) == Some((m.priority, m.exchange@)),
        r is None ==> doh_mx(entry@) is None,
{
    let cs = chars_of(entry);
    let mut i: usize = 0;
    while i < cs.len() && cs[i] != ' '
        invariant
            i <= cs.len(),
            forall|j: int| 0 <= j < i ==> cs@[j] != ' ',
        decreases cs.len() - i,
    {
        i = i + 1;
    }
    proof {
        lemma_first_space(cs@, i as int);
    }
    if i == cs.len() {
        return None;
    }
    let head = prefix_of(&cs, i);
    match parse_unsigned_chars(&head, 10, 0xffff) {
        Some(p) => {
            let rest = suffix_from(&cs, i + 1);
            let rest_s = string_of(&rest);
            let exchange = strip_trailing_dots(rest_s.as_str());
            Some(MxRecord { priority: p as u16, exchange })
        },
        None => None,
    }
}


/// `a` sorts strictly before `b`, comparing characters in order (the order
/// of UTF-8 bytes, which `String`'s `Ord` uses).
pub open spec fn text_less(a: Seq<char>, b: Seq<char>) -> bool
    decreases a.len(),
{
    if a.len() == 0 {
        b.len() > 0
    } else if b.len() == 0 {
        false
    } else if a[0] != b[0] {
        a[0] < b[0]
    } else {
        text_less(a.drop_first(), b.drop_first())
    }
}

/// Each element sorts strictly before the next.
pub open spec fn strictly_sorted(s: Seq<Seq<char>>) -> bool {
    forall|i: int, j: int| 0 <= i < j < s.len() ==> text_less(s[i], s[j])
}

proof fn lemma_text_less_trans(a: Seq<char>, b: Seq<char>, c: Seq<char>)
    requires
        text_less(a, b),
        text_less(b, c),
    ensures
        text_less(a, c),
    decreases a.len(),
{
    if a.len() > 0 && b.len() > 0 && c.len() > 0 && a[0] == b[0] && b[0] == c[0] {
        lemma_text_less_trans(a.drop_first(), b.drop_first(), c.drop_first());
    }
}

proof fn lemma_text_less_total(a: Seq<char>, b: Seq<char>)
    ensures
        a == b || text_less(a, b) || text_less(b, a),
        !(text_less(a, b) && text_less(b, a)),
        !text_less(a, a),
    decreases a.len(),
{
    if a.len() > 0 && b.len() > 0 {
        lemma_text_less_total(a.drop_first(), b.drop_first());
        if a[0] == b[0] && a.drop_first() == b.drop_first() {
            assert(a =~= seq![a[0]] + a.drop_first());
            assert(b =~= seq![b[0]] + b.drop_first());
        }
    } else if a.len() == 0 && b.len() == 0 {
        assert(a =~= b);
    }
    if a.len() > 0 {
        lemma_text_less_total(a.drop_first(), a.drop_first());
    }
}

fn less_than(a: &[char], b: &[char]) -> (r: bool)
    ensures
        r == text_less(a@, b@),
{
    let mut i: usize = 0;
    assert(a@.skip(0) =~= a@);
    assert(b@.skip(0) =~= b@);
    while i < a.len() && i < b.len() && a[i] == b[i]
        invariant
            i <= a.len(),
            i <= b.len(),
            text_less(a@, b@) == text_less(a@.skip(i as int), b@.skip(i as int)),
        decreases a.len() - i,
    {
        assert(a@.skip(i as int).drop_first() =~= a@.skip(i + 1));
        assert(b@.skip(i as int).drop_first() =~= b@.skip(i + 1));
        i = i + 1;
    }
    if i == a.len() {
        i < b.len()
    } else if i == b.len() {
        false
    } else {
        a[i] < b[i]
    }
}

/// The first index of `set` whose string does not sort before `key`.
fn position_of(set: &Vec<String>, key: &Vec<char>) -> (j: usize)
    ensures
        j <= set.len(),
        forall|k: int| 0 <= k < j ==> text_less(#[trigger] string_views(set@)[k], key@),
        j < set.len() ==> !text_less(string_views(set@)[j as int], key@),
{
    let mut j: usize = 0;
    while j < set.len()
        invariant
            j <= set.len(),
            forall|k: int| 0 <= k < j ==> text_less(#[trigger] string_views(set@)[k], key@),
        decreases set.len() - j,
    {
        let sc = chars_of(set[j].as_str());
        if !less_than(&sc, key) {
            return j;
        }
        j = j + 1;
    }
    j
}

/// Adds `item` to the strictly sorted `set` unless it is already there.
fn insert_sorted(set: &mut Vec<String>, item: String)
    requires
        strictly_sorted(string_views(old(set)@)),
    ensures
        strictly_sorted(string_views(final(set)@)),
        forall|x: Seq<char>| string_views(final(set)@).contains(x) <==> (string_views(old(set)@).contains(x) || x == item@),
{
    let ic = chars_of(item.as_str());
    let ghost old_v = string_views(set@);
    let j = position_of(set, &ic);
    if j < set.len() {
        let sc = chars_of(set[j].as_str());
        let equal = !less_than(&ic, &sc);
        if equal {
            proof {
                assert(sc@ == old_v[j as int]);
                lemma_text_less_total(sc@, ic@);
            }
            return;
        }
    }
    proof {
        assert forall|k: int| j <= k < old_v.len() implies text_less(item@, #[trigger] old_v[k]) by {
            lemma_text_less_total(old_v[j as int], item@);
            if k > j {
                lemma_text_less_trans(item@, old_v[j as int], old_v[k]);
            }
        }
    }
    set.insert(j, item);
    let ghost new_v = string_views(set@);
    assert(new_v =~= old_v.take(j as int).push(item@) + old_v.skip(j as int));
    assert forall|a: int, b: int| 0 <= a < b < new_v.len() implies text_less(new_v[a], new_v[b]) by {
        if b == j {
        } else if a == j {
        } else if a < j && b > j {
            lemma_text_less_trans(new_v[a], item@, new_v[b]);
        }
    }
    assert forall|x: Seq<char>| new_v.contains(x) <==> (old_v.contains(x) || x == item@) by {
        if old_v.contains(x) {
            let k = choose|k: int| 0 <= k < old_v.len() && old_v[k] == x;
            if k < j {
                assert(new_v[k] == x);
            } else {
                assert(new_v[k + 1] == x);
            }
        }
        if x == item@ {
            assert(new_v[j as int] == x);
        }
        if new_v.contains(x) {
            let k = choose|k: int| 0 <= k < new_v.len() && new_v[k] == x;
            if k < j {
                assert(old_v[k] == x);
            } else if k > j {
                assert(old_v[k - 1] == x);
            }
        }
    }
}

/// The distinct strings of `items` in ascending order, as a `BTreeSet`
/// iterates them.
pub fn sorted_unique(items: Vec<String>) -> (out: Vec<String>)
    ensures
        strictly_sorted(string_views(out@)),
        forall|x: Seq<char>| string_views(out@).contains(x) <==> string_views(items@).contains(x),
{
    let mut out: Vec<String> = Vec::new();
    let n = items.len();
    let ghost iv = string_views(items@);
    let mut rest = items;
    // consume from the back so that each string moves exactly once
    while rest.len() > 0
        invariant
            rest.len() <= n,
            iv.len() == n,
            string_views(rest@) == iv.take(rest.len() as int),
            strictly_sorted(string_views(out@)),
            forall|x: Seq<char>| string_views(out@).contains(x) <==> exists|k: int| rest.len() <= k < n && iv[k] == x,
        decreases rest.len(),
    {
        let ghost before = string_views(rest@);
        let item = rest.pop().unwrap();
        assert(string_views(rest@) =~= before.drop_last());
        let ghost k0 = rest.len() as int;
        assert(before[k0] == item@);
        assert(iv[k0] == item@);
        insert_sorted(&mut out, item);
        assert forall|x: Seq<char>| string_views(out@).contains(x) <==> exists|k: int| rest.len() <= k < n && iv[k] == x by {
            if x == item@ {
                assert(iv[k0] == x);
            }
        }
    }
    assert forall|x: Seq<char>| string_views(out@).contains(x) <==> iv.contains(x) by {
        if iv.contains(x) {
            let k = choose|k: int| 0 <= k < iv.len() && iv[k] == x;
            assert(0 <= k < n && iv[k] == x);
        }
    }
    out
}


/// An MX record as plain values.
pub open spec fn mx_view(m: MxRecord) -> (u16, Seq<char>) {
    (m.priority, m.exchange@)
}

/// Number of trailing records of `s` with a priority above `p`.
pub open spec fn trailing_above(s: Seq<(u16, Seq<char>)>, p: u16) -> nat
    decreases s.len(),
{
    if s.len() > 0 && s.last().0 > p {
        1 + trailing_above(s.drop_last(), p)
    } else {
        0
    }
}

/// `x` placed after every trailing record whose priority is not above it
/// (keeps equal priorities in arrival order).
pub open spec fn insert_by_priority(s: Seq<(u16, Seq<char>)>, x: (u16, Seq<char>)) -> Seq<(u16, Seq<char>)> {
    let j = s.len() - trailing_above(s, x.0);
    s.take(j).push(x) + s.skip(j)
}

/// Records ordered by priority, keeping arrival order among equal
/// priorities (a stable sort).
pub open spec fn sorted_by_priority(s: Seq<(u16, Seq<char>)>) -> Seq<(u16, Seq<char>)>
    decreases s.len(),
{
    if s.len() == 0 {
        s
    } else {
        insert_by_priority(sorted_by_priority(s.drop_last()), s.last())
    }
}

/// Priorities never decrease along `s`.
pub open spec fn priorities_ascend(s: Seq<(u16, Seq<char>)>) -> bool {
    forall|i: int, j: int| 0 <= i < j < s.len() ==> s[i].0 <= s[j].0
}

proof fn lemma_trailing_above(s: Seq<(u16, Seq<char>)>, p: u16)
    ensures
        trailing_above(s, p) <= s.len(),
        forall|k: int| s.len() - trailing_above(s, p) <= k < s.len() ==> #[trigger] s[k].0 > p,
        trailing_above(s, p) < s.len() ==> s[s.len() - trailing_above(s, p) - 1].0 <= p,
    decreases s.len(),
{
    if s.len() > 0 && s.last().0 > p {
        let t = s.drop_last();
        lemma_trailing_above(t, p);
        assert forall|k: int| s.len() - trailing_above(s, p) <= k < s.len() implies #[trigger] s[k].0 > p by {
            if k < s.len() - 1 {
                assert(s[k] == t[k]);
            }
        }
        if trailing_above(s, p) < s.len() {
            assert(s[s.len() - trailing_above(s, p) - 1] == t[t.len() - trailing_above(t, p) - 1]);
        }
    }
}

/// The stable priority sort yields ascending priorities.
pub proof fn lemma_sorted_by_priority_ascends(s: Seq<(u16, Seq<char>)>)
    ensures
        priorities_ascend(sorted_by_priority(s)),
        sorted_by_priority(s).len() == s.len(),
    decreases s.len(),
{
    if s.len() > 0 {
        lemma_sorted_by_priority_ascends(s.drop_last());
        let t = sorted_by_priority(s.drop_last());
        let x = s.last();
        lemma_trailing_above(t, x.0);
        let j = t.len() - trailing_above(t, x.0);
        let r = insert_by_priority(t, x);
        assert(r.len() == t.len() + 1);
        assert forall|a: int, b: int| 0 <= a < b < r.len() implies r[a].0 <= r[b].0 by {
            if a < j && b < j {
                assert(r[a] == t[a] && r[b] == t[b]);
            } else if a < j && b == j {
                assert(r[a] == t[a]);
                assert(t[a].0 <= t[j - 1].0);
            } else if a < j {
                assert(r[a] == t[a] && r[b] == t[b - 1]);
            } else if a == j {
                assert(r[b] == t[b - 1]);
            } else {
                assert(r[a] == t[a - 1] && r[b] == t[b - 1]);
            }
        }
    }
}

fn copy_mx(m: &MxRecord) -> (c: MxRecord)
    ensures
        mx_view(c) == mx_view(*m),
{
    MxRecord { priority: m.priority, exchange: m.exchange.clone() }
}

/// `x` placed after the trailing records not above its priority.
fn insert_mx(out: &mut Vec<MxRecord>, item: MxRecord)
    ensures
        final(out)@.map_values(|m: MxRecord| mx_view(m)) == insert_by_priority(
            old(out)@.map_values(|m: MxRecord| mx_view(m)),
            mx_view(item),
        ),
{
    let ghost cur = out@.map_values(|m: MxRecord| mx_view(m));
    let ghost x = mx_view(item);
    let p = item.priority;
    let mut j: usize = out.len();
    assert(cur.take(j as int) =~= cur);
    while j > 0 && out[j - 1].priority > p
        invariant
            j <= out.len(),
            out@.map_values(|m: MxRecord| mx_view(m)) == cur,
            trailing_above(cur, p) == (out.len() - j) + trailing_above(cur.take(j as int), p),
        decreases j,
    {
        assert(cur.take(j as int).drop_last() =~= cur.take(j - 1));
        j = j - 1;
    }
    assert(trailing_above(cur.take(j as int), p) == 0);
    out.insert(j, item);
    assert(out@.map_values(|m: MxRecord| mx_view(m)) =~= cur.take(j as int).push(x) + cur.skip(j as int));
}

/// Sorts MX records by priority, keeping the order of equal priorities.
pub fn sort_mx_by_priority(records: &Vec<MxRecord>) -> (out: Vec<MxRecord>)
    ensures
        out@.map_values(|m: MxRecord| mx_view(m)) == sorted_by_priority(records@.map_values(|m: MxRecord| mx_view(m))),
{
    let ghost input = records@.map_values(|m: MxRecord| mx_view(m));
    let mut out: Vec<MxRecord> = Vec::new();
    let mut i: usize = 0;
    assert(sorted_by_priority(input.take(0)) =~= Seq::<(u16, Seq<char>)>::empty());
    while i < records.len()
        invariant
            i <= records.len(),
            input == records@.map_values(|m: MxRecord| mx_view(m)),
            out@.map_values(|m: MxRecord| mx_view(m)) == sorted_by_priority(input.take(i as int)),
        decreases records.len() - i,
    {
        let item = copy_mx(&records[i]);
        assert(input.take(i + 1).drop_last() =~= input.take(i as int));
        assert(input.take(i + 1).last() == mx_view(item));
        insert_mx(&mut out, item);
        i = i + 1;
    }
    assert(input.take(records.len() as int) =~= input);
    out
}


/// Each name without its trailing dots.
pub fn strip_all_trailing_dots(names: &Vec<String>) -> (out: Vec<String>)
    ensures
        out@.len() == names@.len(),
        forall|i: int| 0 <= i < names@.len() ==> #[trigger] out@[i]@ == without_trailing_dots(names@[i]@),
{
    let mut out: Vec<String> = Vec::new();
    let mut i: usize = 0;
    while i < names.len()
        invariant
            i <= names.len(),
            out@.len() == i,
            forall|k: int| 0 <= k < i ==> #[trigger] out@[k]@ == without_trailing_dots(names@[k]@),
        decreases names.len() - i,
    {
        out.push(strip_trailing_dots(names[i].as_str()));
        i = i + 1;
    }
    out
}

/// The DNS result from the gathered answers: address and name-server lists
/// become sorted sets, name servers and mail exchangers lose trailing dots,
/// mail exchangers are ordered by priority, and a host with neither IPv4 nor
/// IPv6 addresses is an error.
pub fn assemble_dns(
    ipv4: Vec<String>,
    ipv6: Vec<String>,
    mx: Vec<MxRecord>,
    ns: Vec<String>,
    txt: Vec<String>,
    caa: Vec<String>,
    elapsed_ms: u64,
) -> (r: Result<DnsProbe, String>)
    ensures
        r is Err <==> (ipv4@.len() == 0 && ipv6@.len() == 0),
        r matches Err(e) ==> e@ == "no A or AAAA records returned"@,
        r matches Ok(d) ==> {
            &&& strictly_sorted(string_views(d.ipv4@))
            &&& (forall|x: Seq<char>| string_views(d.ipv4@).contains(x) <==> string_views(ipv4@).contains(x))
            &&& strictly_sorted(string_views(d.ipv6@))
            &&& (forall|x: Seq<char>| string_views(d.ipv6@).contains(x) <==> string_views(ipv6@).contains(x))
            &&& d.mx@.map_values(|m: MxRecord| mx_view(m)) == sorted_by_priority(
                mx@.map_values(|m: MxRecord| (m.priority, without_trailing_dots(m.exchange@))),
            )
            &&& strictly_sorted(string_views(d.ns@))
            &&& (forall|x: Seq<char>| string_views(d.ns@).contains(x) <==> exists|i: int|
                0 <= i < ns@.len() && x == without_trailing_dots(#[trigger] ns@[i]@))
            &&& string_views(d.txt@) == string_views(txt@)
            &&& string_views(d.caa@) == string_views(caa@)
            &&& d.elapsed_ms == elapsed_ms
        },
{
    if ipv4.len() == 0 && ipv6.len() == 0 {
        return Err(String::from_str("no A or AAAA records returned"));
    }
    let mut cleaned: Vec<MxRecord> = Vec::new();
    let mut i: usize = 0;
    while i < mx.len()
        invariant
            i <= mx.len(),
            cleaned@.map_values(|m: MxRecord| mx_view(m)) == mx@.take(i as int).map_values(
                |m: MxRecord| (m.priority, without_trailing_dots(m.exchange@)),
            ),
        decreases mx.len() - i,
    {
        let ghost before = cleaned@.map_values(|m: MxRecord| mx_view(m));
        let ex = strip_trailing_dots(mx[i].exchange.as_str());
        let rec = MxRecord { priority: mx[i].priority, exchange: ex };
        let ghost rv = mx_view(rec);
        cleaned.push(rec);
        assert(cleaned@.map_values(|m: MxRecord| mx_view(m)) =~= before.push(rv));
        assert(mx@.take(i + 1) =~= mx@.take(i as int).push(mx@[i as int]));
        i = i + 1;
        assert(cleaned@.map_values(|m: MxRecord| mx_view(m)) =~= mx@.take(i as int).map_values(
            |m: MxRecord| (m.priority, without_trailing_dots(m.exchange@)),
        ));
    }
    assert(mx@.take(mx.len() as int) =~= mx@);
    let names = strip_all_trailing_dots(&ns);
    let ns_set = sorted_unique(names);
    assert forall|x: Seq<char>| string_views(ns_set@).contains(x) <==> exists|i: int|
        0 <= i < ns@.len() && x == without_trailing_dots(#[trigger] ns@[i]@) by {
        if exists|i: int| 0 <= i < ns@.len() && x == without_trailing_dots(#[trigger] ns@[i]@) {
            let i = choose|i: int| 0 <= i < ns@.len() && x == without_trailing_dots(#[trigger] ns@[i]@);
            assert(string_views(names@)[i] == x);
        }
        if string_views(names@).contains(x) {
            let i = choose|i: int| 0 <= i < string_views(names@).len() && string_views(names@)[i] == x;
            assert(x == without_trailing_dots(ns@[i]@));
        }
    }
    Ok(DnsProbe {
        ipv4: sorted_unique(ipv4),
        ipv6: sorted_unique(ipv6),
        mx: sort_mx_by_priority(&cleaned),
        ns: ns_set,
        txt,
        caa,
        elapsed_ms,
    })
}

/// The number of answers flagged as addresses.
pub open spec fn count_true(flags: Seq<bool>) -> nat
    decreases flags.len(),
{
    if flags.len() == 0 {
        0
    } else {
        count_true(flags.drop_last()) + if flags.last() {
            1nat
        } else {
            0nat
        }
    }
}

/// `out` is one of the answers, trimmed, and for `A` and `AAAA` records
/// one flagged as an address of that family.
pub open spec fn from_answer(out: Seq<char>, record_type: Seq<char>, answers: Seq<Seq<char>>, is_address: Seq<bool>) -> bool {
    exists|i: int|
        0 <= i < answers.len() && out == trim(#[trigger] answers[i]) && ((record_type == "A"@ || record_type == "AAAA"@)
            ==> is_address[i])
}

/// DNS-over-HTTPS answers are only ever kept as given, trimmed. For `A`
/// and `AAAA` records an answer is kept exactly when it is an address of
/// that family: every kept answer is one flagged as an address, and as many
/// are kept as are flagged. For other records no kept answer is empty.
pub proof fn lemma_doh_keeps_addresses(record_type: Seq<char>, answers: Seq<Seq<char>>, is_address: Seq<bool>)
    requires
        answers.len() == is_address.len(),
    ensures
        forall|k: int|
            0 <= k < kept_answers(record_type, answers, is_address).len() ==> from_answer(
                #[trigger] kept_answers(record_type, answers, is_address)[k],
                record_type,
                answers,
                is_address,
            ),
        (record_type == "A"@ || record_type == "AAAA"@) ==> kept_answers(record_type, answers, is_address).len()
            == count_true(is_address),
        !(record_type == "A"@ || record_type == "AAAA"@) ==> forall|k: int|
            0 <= k < kept_answers(record_type, answers, is_address).len() ==> (#[trigger] kept_answers(
                record_type,
                answers,
                is_address,
            )[k]).len() > 0,
    decreases answers.len(),
{
    let kept = kept_answers(record_type, answers, is_address);
    if answers.len() > 0 {
        let a2 = answers.drop_last();
        let f2 = is_address.drop_last();
        lemma_doh_keeps_addresses(record_type, a2, f2);
        let rest = kept_answers(record_type, a2, f2);
        let last = answers.len() - 1;
        assert forall|k: int| 0 <= k < kept.len() implies from_answer(#[trigger] kept[k], record_type, answers, is_address) by {
            if k < rest.len() {
                assert(kept[k] == rest[k]);
                assert(from_answer(rest[k], record_type, a2, f2));
                let i = choose|i: int|
                    0 <= i < a2.len() && rest[k] == trim(#[trigger] a2[i]) && ((record_type == "A"@ || record_type
                        == "AAAA"@) ==> f2[i]);
                assert(answers[i] == a2[i] && is_address[i] == f2[i]);
            } else {
                assert(kept[k] == trim(answers[last]));
                assert(answers[last] == answers[last]);
            }
        }
    }
}

} // verus!
