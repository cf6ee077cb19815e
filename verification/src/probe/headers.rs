//! Security header analysis.

use vstd::prelude::*;
use vstd::string::StringExecFns;
use crate::text::{
    append_chars, append_str, byte_len, chars_of, contains_folded, contains_seq, fitting_prefix,
    has_prefix, lower, parse_unsigned, parse_unsigned_chars, split_chars, split_on, starts_with, suffix_from,
    to_lower, trim, trimmed, views, prefix_of, lemma_byte_len_push, utf8_width_of,
};

verus! {

/// Response headers: names (lower-cased by the caller) with their values.
/// Setting a name again replaces its value.
pub struct HeaderMap {
    pub entries: Vec<(String, String)>,
}

/// The value of `key` among `entries`: the last entry with that name.
pub open spec fn lookup(entries: Seq<(String, String)>, key: Seq<char>) -> Option<Seq<char>>
    decreases entries.len(),
{
    if entries.len() == 0 {
        None
    } else if entries.last().0@ == key {
        Some(entries.last().1@)
    } else {
        lookup(entries.drop_last(), key)
    }
}

impl HeaderMap {
    /// The value stored for `key`.
    pub open spec fn get_spec(&self, key: Seq<char>) -> Option<Seq<char>> {
        lookup(self.entries@, key)
    }

    /// An empty header map.
    pub fn new() -> (m: Self)
        ensures
            forall|k: Seq<char>| (#[trigger] m.get_spec(k)) is None,
    {
        HeaderMap { entries: Vec::new() }
    }

    /// Sets `name` to `value`.
    pub fn insert(&mut self, name: String, value: String)
        ensures
            final(self).get_spec(name@) == Some(value@),
            forall|k: Seq<char>| k != name@ ==> #[trigger] final(self).get_spec(k) == old(self).get_spec(k),
    {
        let ghost nv = name@;
        let ghost vv = value@;
        let ghost before = self.entries@;
        self.entries.push((name, value));
        assert(self.entries@.drop_last() =~= before);
        assert(self.entries@.last().0@ == nv);
    }

    /// The value stored for `name`.
    pub fn get(&self, name: &str) -> (v: Option<String>)
        ensures
            v matches Some(s) ==> self.get_spec(name@) == Some(s@),
            v is None ==> self.get_spec(name@) is None,
    {
        let key = String::from_str(name);
        let mut i: usize = self.entries.len();
        assert(self.entries@.take(i as int) =~= self.entries@);
        while i > 0
            invariant
                i <= self.entries.len(),
                key@ == name@,
                lookup(self.entries@, key@) == lookup(self.entries@.take(i as int), key@),
            decreases i,
        {
            let ghost front = self.entries@.take(i as int);
            assert(front.drop_last() =~= self.entries@.take(i - 1));
            if self.entries[i - 1].0 == key {
                return Some(self.entries[i - 1].1.clone());
            }
            i = i - 1;
        }
        None
    }

    /// Whether `name` has a value.
    pub fn contains_key(&self, name: &str) -> (b: bool)
        ensures
            b == self.get_spec(name@) is Some,
    {
        self.get(name).is_some()
    }
}

/// Outcome of one header check.
#[derive(PartialEq, Eq, Structural, Clone, Copy)]
pub enum HeaderStatus {
    Pass,
    Warn,
    Fail,
    Info,
}

/// One checked header: its display name, outcome and the shown value.
pub struct HeaderCheck {
    pub name: String,
    pub status: HeaderStatus,
    pub value: String,
}

/// All header checks, with the score (0-10) they add up to.
pub struct SecurityHeadersProbe {
    pub checks: Vec<HeaderCheck>,
    pub score: u32,
}

/// One header check as plain values: name, status, shown value, points.
pub struct CheckSpec {
    pub name: Seq<char>,
    pub status: HeaderStatus,
    pub value: Seq<char>,
    pub points: nat,
}

/// The byte limit for long header values in the report.
pub open spec fn value_limit() -> nat {
    80
}

/// Cutting `s` at `max` bytes falls on a character boundary (or `s` fits).
pub open spec fn cuts_cleanly(s: Seq<char>, max: nat) -> bool {
    byte_len(s) <= max || byte_len(s.take(fitting_prefix(s, max) as int)) == max
}

/// `s` cut to `max` bytes with `...` appended when longer.
pub open spec fn shortened(s: Seq<char>, max: nat) -> Seq<char> {
    if byte_len(s) <= max {
        s
    } else {
        s.take(fitting_prefix(s, max) as int) + seq!['.', '.', '.']
    }
}

/// The `max-age` of an HSTS value: the first `;`-separated part that,
/// trimmed and lower-cased, is `max-age=` followed by an unsigned number.
/// Missing or malformed, it counts as zero.
pub open spec fn max_age_in(parts: Seq<Seq<char>>) -> nat
    decreases parts.len(),
{
    if parts.len() == 0 {
        0
    } else {
        let p = lower(trim(parts[0]));
        if starts_with(p, "max-age="@) && parse_unsigned(p.subrange(8, p.len() as int), 10, 0xffff_ffff_ffff_ffff) is Some {
            parse_unsigned(p.subrange(8, p.len() as int), 10, 0xffff_ffff_ffff_ffff).unwrap()
        } else {
            max_age_in(parts.drop_first())
        }
    }
}

/// HSTS `max-age` of a header value.
pub open spec fn hsts_max_age(value: Seq<char>) -> nat {
    max_age_in(split_on(value, ';'))
}

/// One year, the `max-age` HSTS needs to pass.
pub open spec fn one_year_secs() -> nat {
    31_536_000
}

/// Strict-Transport-Security: passes with a `max-age` of a year or more.
pub open spec fn hsts_check(h: &HeaderMap) -> CheckSpec {
    match h.get_spec("strict-transport-security"@) {
        Some(v) => if hsts_max_age(v) >= one_year_secs() {
            CheckSpec { name: "Strict-Transport-Security"@, status: HeaderStatus::Pass, value: v, points: 2 }
        } else {
            CheckSpec { name: "Strict-Transport-Security"@, status: HeaderStatus::Warn, value: v + " (max-age too low)"@, points: 1 }
        },
        None => CheckSpec { name: "Strict-Transport-Security"@, status: HeaderStatus::Fail, value: "not set"@, points: 0 },
    }
}

/// Content-Security-Policy: passes when set.
pub open spec fn csp_check(h: &HeaderMap) -> CheckSpec {
    match h.get_spec("content-security-policy"@) {
        Some(v) => CheckSpec { name: "Content-Security-Policy"@, status: HeaderStatus::Pass, value: shortened(v, value_limit()), points: 2 },
        None => CheckSpec { name: "Content-Security-Policy"@, status: HeaderStatus::Warn, value: "not set"@, points: 0 },
    }
}

/// X-Frame-Options: passes when set.
pub open spec fn xfo_check(h: &HeaderMap) -> CheckSpec {
    match h.get_spec("x-frame-options"@) {
        Some(v) => CheckSpec { name: "X-Frame-Options"@, status: HeaderStatus::Pass, value: v, points: 1 },
        None => CheckSpec { name: "X-Frame-Options"@, status: HeaderStatus::Warn, value: "not set"@, points: 0 },
    }
}

/// X-Content-Type-Options: passes when it says `nosniff` (any case).
pub open spec fn xcto_check(h: &HeaderMap) -> CheckSpec {
    match h.get_spec("x-content-type-options"@) {
        Some(v) => if contains_seq(lower(v), "nosniff"@) {
            CheckSpec { name: "X-Content-Type-Options"@, status: HeaderStatus::Pass, value: v, points: 1 }
        } else {
            CheckSpec { name: "X-Content-Type-Options"@, status: HeaderStatus::Warn, value: v + " (expected nosniff)"@, points: 0 }
        },
        None => CheckSpec { name: "X-Content-Type-Options"@, status: HeaderStatus::Warn, value: "not set"@, points: 0 },
    }
}

/// Permissions-Policy: passes when set.
pub open spec fn permissions_check(h: &HeaderMap) -> CheckSpec {
    match h.get_spec("permissions-policy"@) {
        Some(v) => CheckSpec { name: "Permissions-Policy"@, status: HeaderStatus::Pass, value: shortened(v, value_limit()), points: 1 },
        None => CheckSpec { name: "Permissions-Policy"@, status: HeaderStatus::Warn, value: "not set"@, points: 0 },
    }
}

/// Cross-Origin-Opener-Policy: passes when set, informational otherwise.
pub open spec fn coop_check(h: &HeaderMap) -> CheckSpec {
    match h.get_spec("cross-origin-opener-policy"@) {
        Some(v) => CheckSpec { name: "Cross-Origin-Opener-Policy"@, status: HeaderStatus::Pass, value: v, points: 1 },
        None => CheckSpec { name: "Cross-Origin-Opener-Policy"@, status: HeaderStatus::Info, value: "not set"@, points: 0 },
    }
}

/// Referrer-Policy: passes when set.
pub open spec fn referrer_check(h: &HeaderMap) -> CheckSpec {
    match h.get_spec("referrer-policy"@) {
        Some(v) => CheckSpec { name: "Referrer-Policy"@, status: HeaderStatus::Pass, value: v, points: 1 },
        None => CheckSpec { name: "Referrer-Policy"@, status: HeaderStatus::Warn, value: "not set"@, points: 0 },
    }
}

/// X-XSS-Protection: deprecated; informational either way, a point when set.
pub open spec fn xss_check(h: &HeaderMap) -> CheckSpec {
    match h.get_spec("x-xss-protection"@) {
        Some(v) => CheckSpec { name: "X-XSS-Protection"@, status: HeaderStatus::Info, value: v + " (deprecated)"@, points: 1 },
        None => CheckSpec { name: "X-XSS-Protection"@, status: HeaderStatus::Info, value: "not set (deprecated header)"@, points: 0 },
    }
}

/// The eight checks for a header map, in report order.
pub open spec fn header_checks(h: &HeaderMap) -> Seq<CheckSpec> {
    seq![hsts_check(h), csp_check(h), xfo_check(h), xcto_check(h), permissions_check(h), coop_check(h), referrer_check(h), xss_check(h)]
}

/// Points of all eight checks.
pub open spec fn header_points(h: &HeaderMap) -> nat {
    hsts_check(h).points + csp_check(h).points + xfo_check(h).points + xcto_check(h).points
        + permissions_check(h).points + coop_check(h).points + referrer_check(h).points + xss_check(h).points
}

/// The header score: the points, at most ten.
pub open spec fn header_score(h: &HeaderMap) -> nat {
    if header_points(h) <= 10 { header_points(h) } else { 10 }
}

/// The headers the analysis cuts to [`value_limit`] bytes can be cut on a
/// character boundary.
pub open spec fn long_values_cut_cleanly(h: &HeaderMap) -> bool {
    &&& (h.get_spec("content-security-policy"@) matches Some(v) ==> cuts_cleanly(v, value_limit()))
    &&& (h.get_spec("permissions-policy"@) matches Some(v) ==> cuts_cleanly(v, value_limit()))
}

/// A check as plain values.
pub open spec fn check_view(c: HeaderCheck) -> (Seq<char>, HeaderStatus, Seq<char>) {
    (c.name@, c.status, c.value@)
}

/// A specified check as plain values.
pub open spec fn spec_view(c: CheckSpec) -> (Seq<char>, HeaderStatus, Seq<char>) {
    (c.name, c.status, c.value)
}


/// The HSTS `max-age` of a header value.
pub fn hsts_max_age_of(value: &str) -> (age: u64)
    ensures
        age == hsts_max_age(value@),
{
    let cs = chars_of(value);
    let parts = split_chars(&cs, ';');
    let mut i: usize = 0;
    assert(views(parts@).skip(0) =~= views(parts@));
    while i < parts.len()
        invariant
            i <= parts.len(),
            hsts_max_age(value@) == max_age_in(views(parts@).skip(i as int)),
            views(parts@) == split_on(cs@, ';'),
            cs@ == value@,
        decreases parts.len() - i,
    {
        let ghost rest = views(parts@).skip(i as int);
        assert(rest.drop_first() =~= views(parts@).skip(i + 1));
        assert(rest[0] == parts@[i as int]@);
        let t = trimmed(&parts[i]);
        let p = to_lower(&t);
        if has_prefix(&p, &['m', 'a', 'x', '-', 'a', 'g', 'e', '=']) {
            assert(seq!['m', 'a', 'x', '-', 'a', 'g', 'e', '='] =~= "max-age="@) by {
                reveal_strlit("max-age=");
            }
            let digits = suffix_from(&p, 8);
            match parse_unsigned_chars(&digits, 10, 0xffff_ffff_ffff_ffff) {
                Some(v) => {
                    return v;
                },
                None => {},
            }
        } else {
            assert(seq!['m', 'a', 'x', '-', 'a', 'g', 'e', '='] =~= "max-age="@) by {
                reveal_strlit("max-age=");
            }
        }
        i = i + 1;
    }
    0
}

/// `value` cut to `max` bytes with `...` appended when it is longer.
pub fn shorten(value: &str, max: usize) -> (out: String)
    requires
        cuts_cleanly(value@, max as nat),
    ensures
        out@ == shortened(value@, max as nat),
{
    let cs = chars_of(value);
    let mut out = String::new();
    if crate::text::fits_in_bytes(&cs, max) {
        append_str(&mut out, value);
        return out;
    }
    let k = crate::text::fitting_prefix_len(&cs, max);
    let head = prefix_of(&cs, k);
    append_chars(&mut out, &head);
    append_chars(&mut out, &['.', '.', '.']);
    out
}

fn check(name: &str, status: HeaderStatus, value: String) -> (c: HeaderCheck)
    ensures
        c.name@ == name@,
        c.status == status,
        c.value@ == value@,
{
    HeaderCheck { name: String::from_str(name), status, value }
}

fn with_suffix(value: &String, suffix: &str) -> (s: String)
    ensures
        s@ == value@ + suffix@,
{
    let mut s = value.clone();
    append_str(&mut s, suffix);
    s
}

fn check_hsts(h: &HeaderMap) -> (r: (HeaderCheck, u32))
    ensures
        check_view(r.0) == spec_view(hsts_check(h)),
        r.1 == hsts_check(h).points,
{
    match h.get("strict-transport-security") {
        Some(val) => {
            if hsts_max_age_of(val.as_str()) >= 31_536_000 {
                (check("Strict-Transport-Security", HeaderStatus::Pass, val), 2)
            } else {
                (check("Strict-Transport-Security", HeaderStatus::Warn, with_suffix(&val, " (max-age too low)")), 1)
            }
        },
        None => (check("Strict-Transport-Security", HeaderStatus::Fail, String::from_str("not set")), 0),
    }
}

fn check_csp(h: &HeaderMap) -> (r: (HeaderCheck, u32))
    requires
        long_values_cut_cleanly(h),
    ensures
        check_view(r.0) == spec_view(csp_check(h)),
        r.1 == csp_check(h).points,
{
    match h.get("content-security-policy") {
        Some(val) => (check("Content-Security-Policy", HeaderStatus::Pass, shorten(val.as_str(), 80)), 2),
        None => (check("Content-Security-Policy", HeaderStatus::Warn, String::from_str("not set")), 0),
    }
}

fn check_xfo(h: &HeaderMap) -> (r: (HeaderCheck, u32))
    ensures
        check_view(r.0) == spec_view(xfo_check(h)),
        r.1 == xfo_check(h).points,
{
    match h.get("x-frame-options") {
        Some(val) => (check("X-Frame-Options", HeaderStatus::Pass, val), 1),
        None => (check("X-Frame-Options", HeaderStatus::Warn, String::from_str("not set")), 0),
    }
}

fn check_xcto(h: &HeaderMap) -> (r: (HeaderCheck, u32))
    ensures
        check_view(r.0) == spec_view(xcto_check(h)),
        r.1 == xcto_check(h).points,
{
    match h.get("x-content-type-options") {
        Some(val) => {
            let vc = chars_of(val.as_str());
            let nosniff = ['n', 'o', 's', 'n', 'i', 'f', 'f'];
            assert(nosniff@ =~= "nosniff"@) by {
                reveal_strlit("nosniff");
            }
            if contains_folded(&vc, &nosniff) {
                (check("X-Content-Type-Options", HeaderStatus::Pass, val), 1)
            } else {
                (check("X-Content-Type-Options", HeaderStatus::Warn, with_suffix(&val, " (expected nosniff)")), 0)
            }
        },
        None => (check("X-Content-Type-Options", HeaderStatus::Warn, String::from_str("not set")), 0),
    }
}

fn check_permissions(h: &HeaderMap) -> (r: (HeaderCheck, u32))
    requires
        long_values_cut_cleanly(h),
    ensures
        check_view(r.0) == spec_view(permissions_check(h)),
        r.1 == permissions_check(h).points,
{
    match h.get("permissions-policy") {
        Some(val) => (check("Permissions-Policy", HeaderStatus::Pass, shorten(val.as_str(), 80)), 1),
        None => (check("Permissions-Policy", HeaderStatus::Warn, String::from_str("not set")), 0),
    }
}

fn check_coop(h: &HeaderMap) -> (r: (HeaderCheck, u32))
    ensures
        check_view(r.0) == spec_view(coop_check(h)),
        r.1 == coop_check(h).points,
{
    match h.get("cross-origin-opener-policy") {
        Some(val) => (check("Cross-Origin-Opener-Policy", HeaderStatus::Pass, val), 1),
        None => (check("Cross-Origin-Opener-Policy", HeaderStatus::Info, String::from_str("not set")), 0),
    }
}

fn check_referrer(h: &HeaderMap) -> (r: (HeaderCheck, u32))
    ensures
        check_view(r.0) == spec_view(referrer_check(h)),
        r.1 == referrer_check(h).points,
{
    match h.get("referrer-policy") {
        Some(val) => (check("Referrer-Policy", HeaderStatus::Pass, val), 1),
        None => (check("Referrer-Policy", HeaderStatus::Warn, String::from_str("not set")), 0),
    }
}

fn check_xss(h: &HeaderMap) -> (r: (HeaderCheck, u32))
    ensures
        check_view(r.0) == spec_view(xss_check(h)),
        r.1 == xss_check(h).points,
{
    match h.get("x-xss-protection") {
        Some(val) => (check("X-XSS-Protection", HeaderStatus::Info, with_suffix(&val, " (deprecated)")), 1),
        None => (check("X-XSS-Protection", HeaderStatus::Info, String::from_str("not set (deprecated header)")), 0),
    }
}

/// Checks the presence and values of eight security headers and scores
/// them out of ten.
pub fn analyze_security_headers(headers: &HeaderMap) -> (probe: SecurityHeadersProbe)
    requires
        long_values_cut_cleanly(headers),
    ensures
        probe.checks@.len() == 8,
        forall|i: int| 0 <= i < 8 ==> #[trigger] check_view(probe.checks@[i]) == spec_view(header_checks(headers)[i]),
        probe.score == header_score(headers),
{
    let (c0, p0) = check_hsts(headers);
    let (c1, p1) = check_csp(headers);
    let (c2, p2) = check_xfo(headers);
    let (c3, p3) = check_xcto(headers);
    let (c4, p4) = check_permissions(headers);
    let (c5, p5) = check_coop(headers);
    let (c6, p6) = check_referrer(headers);
    let (c7, p7) = check_xss(headers);
    let ghost all = seq![c0, c1, c2, c3, c4, c5, c6, c7];
    let checks = vec![c0, c1, c2, c3, c4, c5, c6, c7];
    let mut score: u32 = p0 + p1 + p2 + p3 + p4 + p5 + p6 + p7;
    if score > 10 {
        score = 10;
    }
    assert forall|i: int| 0 <= i < 8 implies #[trigger] check_view(checks@[i]) == spec_view(header_checks(headers)[i]) by {
        assert(checks@ == all);
    }
    SecurityHeadersProbe { checks, score }
}

/// The header score is out of ten.
pub proof fn lemma_header_score_at_most_ten(h: &HeaderMap)
    ensures
        header_score(h) <= 10,
{
}

/// HSTS passes exactly when its `max-age` is at least a year (31,536,000
/// seconds), earning 2 points; a shorter `max-age` is a warning marked
/// `(max-age too low)` earning 1; a missing header fails with none.
pub proof fn lemma_hsts_needs_a_year(h: &HeaderMap)
    ensures
        h.get_spec("strict-transport-security"@) matches Some(v) ==> {
            &&& (header_checks(h)[0].status == HeaderStatus::Pass) == (hsts_max_age(v) >= 31_536_000)
            &&& hsts_max_age(v) >= 31_536_000 ==> header_checks(h)[0].value == v && hsts_check(h).points == 2
            &&& hsts_max_age(v) < 31_536_000 ==> header_checks(h)[0].status == HeaderStatus::Warn
                && header_checks(h)[0].value == v + " (max-age too low)"@ && hsts_check(h).points == 1
        },
        h.get_spec("strict-transport-security"@) is None ==> header_checks(h)[0].status == HeaderStatus::Fail
            && hsts_check(h).points == 0,
{
}

} // verus!
