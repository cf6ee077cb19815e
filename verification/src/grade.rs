//! The summary grade: five component scores out of ten, and the letter an
//! overall score earns.

use vstd::prelude::*;
use vstd::string::StringExecFns;
use crate::probe::dns::DnsProbe;
use crate::probe::headers::SecurityHeadersProbe;
use crate::probe::http::{HttpProbe, HttpVersion, is_redirection, is_success, status_is_redirection, status_is_success};
use crate::probe::rdap::RdapProbe;
use crate::probe::redirect::RedirectProbe;
use crate::probe::tls::{CertInfo, TlsProbe};
use crate::text::{chars_of, contains, contains_folded, contains_seq, lower};
use crate::time::{Timestamp, days_until, nanos_between, whole_days};

verus! {

/// A probe's outcome: its result or the reason it failed.
pub type Outcome<T> = Result<T, String>;

/// The component scores and the grade.
pub struct GradeResult {
    pub grade: String,
    pub overall_score: u32,
    pub tls_score: u32,
    pub headers_score: u32,
    pub dns_score: u32,
    pub http_score: u32,
    pub perf_score: u32,
}

/// The five component scores, each out of ten.
#[derive(Clone, Copy)]
pub struct ComponentScores {
    pub tls: u32,
    pub headers: u32,
    pub dns: u32,
    pub http: u32,
    pub perf: u32,
}

/// `v`, at most ten.
pub open spec fn cap10(v: nat) -> nat {
    if v <= 10 { v } else { 10 }
}

/// Protocol points: TLS 1.3 earns 4, TLS 1.2 earns 2.
pub open spec fn protocol_points(version: Seq<char>) -> nat {
    if contains_seq(version, "1.3"@) {
        4
    } else if contains_seq(version, "1.2"@) {
        2
    } else {
        0
    }
}

/// Cipher points: AES-256 or ChaCha20 earn 3, AES-128 earns 2, others 1.
pub open spec fn cipher_points(suite: Seq<char>) -> nat {
    let l = lower(suite);
    if contains_seq(l, "aes_256"@) || contains_seq(l, "chacha20"@) {
        3
    } else if contains_seq(l, "aes_128"@) {
        2
    } else {
        1
    }
}

/// Certificate points for the leaf: 3 with more than 30 days left, 1 with
/// any days left or no expiry known, 0 once expired or with no certificate.
pub open spec fn cert_points(now: Timestamp, chain: Seq<CertInfo>) -> nat {
    if chain.len() == 0 {
        0
    } else {
        match chain[0].not_after {
            Some(na) => {
                let days = whole_days(nanos_between(na, now));
                if days > 30 {
                    3
                } else if days > 0 {
                    1
                } else {
                    0
                }
            },
            None => 1,
        }
    }
}

/// TLS score: protocol, cipher and certificate points, at most ten; zero
/// when the TLS probe failed.
pub open spec fn tls_score_spec(now: Timestamp, tls: &Outcome<TlsProbe>) -> nat {
    match tls {
        Ok(t) => cap10(protocol_points(t.protocol_version@) + cipher_points(t.cipher_suite@) + cert_points(now, t.certificate_chain@)),
        Err(_) => 0,
    }
}

/// DNS score: IPv4 3, IPv6 2, MX 1, NS 1, TXT 1, CAA 2.
pub open spec fn dns_score_spec(dns: &Outcome<DnsProbe>) -> nat {
    match dns {
        Ok(d) => cap10(
            (if d.ipv4@.len() > 0 { 3nat } else { 0nat }) + (if d.ipv6@.len() > 0 { 2nat } else { 0nat })
                + (if d.mx@.len() > 0 { 1nat } else { 0nat }) + (if d.ns@.len() > 0 { 1nat } else { 0nat })
                + (if d.txt@.len() > 0 { 1nat } else { 0nat }) + (if d.caa@.len() > 0 { 2nat } else { 0nat }),
        ),
        Err(_) => 0,
    }
}

/// Status points: success 5, redirection 3.
pub open spec fn status_points(status: u16) -> nat {
    if is_success(status) {
        5
    } else if is_redirection(status) {
        3
    } else {
        0
    }
}

/// Version points: HTTP/3 4, HTTP/2 3, HTTP/1.1 2, others 1.
pub open spec fn version_points(v: HttpVersion) -> nat {
    match v {
        HttpVersion::Http2 => 3,
        HttpVersion::Http3 => 4,
        HttpVersion::Http11 => 2,
        _ => 1,
    }
}

/// Redirect points: a short complete chain 2, a longer complete chain 1.
pub open spec fn redirect_points(r: &Outcome<RedirectProbe>) -> nat {
    match r {
        Ok(r) => if r.hops@.len() <= 1 && !r.truncated {
            2
        } else if !r.truncated {
            1
        } else {
            0
        },
        Err(_) => 0,
    }
}

/// Registration points: a domain expiring 30 or more days from now earns 1.
pub open spec fn registration_points(now: Timestamp, rdap: &Outcome<RdapProbe>) -> nat {
    match rdap {
        Ok(r) => match r.expires_on {
            Some(exp) => if whole_days(nanos_between(exp, now)) >= 30 { 1 } else { 0 },
            None => 0,
        },
        Err(_) => 0,
    }
}

/// HTTP score: status, version, redirects and registration, at most ten;
/// zero when the HTTP probe failed.
pub open spec fn http_score_spec(
    now: Timestamp,
    http: &Outcome<HttpProbe>,
    redirect: &Outcome<RedirectProbe>,
    rdap: &Outcome<RdapProbe>,
) -> nat {
    match http {
        Ok(h) => cap10(status_points(h.status) + version_points(h.version) + redirect_points(redirect) + registration_points(now, rdap)),
        Err(_) => 0,
    }
}

/// Performance score from the total probe time in milliseconds.
pub open spec fn perf_score_spec(ms: nat) -> nat {
    if ms < 500 {
        10
    } else if ms < 1000 {
        9
    } else if ms < 2000 {
        8
    } else if ms < 3000 {
        7
    } else if ms < 5000 {
        5
    } else if ms < 8000 {
        3
    } else {
        1
    }
}

/// Headers score: the security header analysis score, zero without one.
pub open spec fn headers_score_spec(h: Option<&SecurityHeadersProbe>) -> nat {
    match h {
        Some(p) => p.score as nat,
        None => 0,
    }
}

/// The letter for an overall score out of 100.
pub open spec fn letter(overall: nat) -> Seq<char> {
    if overall >= 95 {
        "A+"@
    } else if overall >= 85 {
        "A"@
    } else if overall >= 75 {
        "B"@
    } else if overall >= 65 {
        "C"@
    } else if overall >= 50 {
        "D"@
    } else {
        "F"@
    }
}

fn days_left(t: Timestamp, now: Timestamp) -> (d: i128)
    ensures
        d == whole_days(nanos_between(t, now)),
{
    days_until(t, now)
}

/// TLS component score.
pub fn tls_score(now: Timestamp, tls: &Outcome<TlsProbe>) -> (s: u32)
    ensures
        s == tls_score_spec(now, tls),
{
    match tls {
        Ok(t) => {
            let mut s: u32 = 0;
            let v = chars_of(t.protocol_version.as_str());
            let v13 = chars_of("1.3");
            let v12 = chars_of("1.2");
            if contains(&v, &v13) {
                s = s + 4;
            } else if contains(&v, &v12) {
                s = s + 2;
            }
            let c = chars_of(t.cipher_suite.as_str());
            let a256 = chars_of("aes_256");
            let cc20 = chars_of("chacha20");
            let a128 = chars_of("aes_128");
            if contains_folded(&c, &a256) || contains_folded(&c, &cc20) {
                s = s + 3;
            } else if contains_folded(&c, &a128) {
                s = s + 2;
            } else {
                s = s + 1;
            }
            if t.certificate_chain.len() > 0 {
                let leaf: &CertInfo = &t.certificate_chain[0];
                match leaf.not_after {
                    Some(na) => {
                        let days = days_left(na, now);
                        if days > 30 {
                            s = s + 3;
                        } else if days > 0 {
                            s = s + 1;
                        }
                    },
                    None => {
                        s = s + 1;
                    },
                }
            }
            if s > 10 {
                10
            } else {
                s
            }
        },
        Err(_) => 0,
    }
}

/// DNS component score.
pub fn dns_score(dns: &Outcome<DnsProbe>) -> (s: u32)
    ensures
        s == dns_score_spec(dns),
{
    match dns {
        Ok(d) => {
            let mut s: u32 = 0;
            if d.ipv4.len() > 0 {
                s = s + 3;
            }
            if d.ipv6.len() > 0 {
                s = s + 2;
            }
            if d.mx.len() > 0 {
                s = s + 1;
            }
            if d.ns.len() > 0 {
                s = s + 1;
            }
            if d.txt.len() > 0 {
                s = s + 1;
            }
            if d.caa.len() > 0 {
                s = s + 2;
            }
            if s > 10 {
                10
            } else {
                s
            }
        },
        Err(_) => 0,
    }
}

/// HTTP component score.
pub fn http_score(
    now: Timestamp,
    http: &Outcome<HttpProbe>,
    redirect: &Outcome<RedirectProbe>,
    rdap: &Outcome<RdapProbe>,
) -> (s: u32)
    ensures
        s == http_score_spec(now, http, redirect, rdap),
{
    match http {
        Ok(h) => {
            let mut s: u32 = 0;
            if status_is_success(h.status) {
                s = s + 5;
            } else if status_is_redirection(h.status) {
                s = s + 3;
            }
            match h.version {
                HttpVersion::Http2 => s = s + 3,
                HttpVersion::Http3 => s = s + 4,
                HttpVersion::Http11 => s = s + 2,
                _ => s = s + 1,
            }
            match redirect {
                Ok(r) => {
                    if r.hops.len() <= 1 && !r.truncated {
                        s = s + 2;
                    } else if !r.truncated {
                        s = s + 1;
                    }
                },
                Err(_) => {},
            }
            match rdap {
                Ok(r) => match r.expires_on {
                    Some(exp) => {
                        let days = days_left(exp, now);
                        if days >= 30 {
                            s = s + 1;
                        }
                    },
                    None => {},
                },
                Err(_) => {},
            }
            if s > 10 {
                10
            } else {
                s
            }
        },
        Err(_) => 0,
    }
}

/// Performance component score.
pub fn perf_score(total_elapsed_ms: u128) -> (s: u32)
    ensures
        s == perf_score_spec(total_elapsed_ms as nat),
{
    let ms = total_elapsed_ms;
    if ms < 500 {
        10
    } else if ms < 1000 {
        9
    } else if ms < 2000 {
        8
    } else if ms < 3000 {
        7
    } else if ms < 5000 {
        5
    } else if ms < 8000 {
        3
    } else {
        1
    }
}

/// The five component scores of a probe run.
pub fn component_scores(
    now: Timestamp,
    http: &Outcome<HttpProbe>,
    redirect: &Outcome<RedirectProbe>,
    rdap: &Outcome<RdapProbe>,
    dns: &Outcome<DnsProbe>,
    tls: &Outcome<TlsProbe>,
    security_headers: Option<&SecurityHeadersProbe>,
    total_elapsed_ms: u128,
) -> (c: ComponentScores)
    ensures
        c.tls == tls_score_spec(now, tls),
        c.headers == headers_score_spec(security_headers),
        c.dns == dns_score_spec(dns),
        c.http == http_score_spec(now, http, redirect, rdap),
        c.perf == perf_score_spec(total_elapsed_ms as nat),
{
    ComponentScores {
        tls: tls_score(now, tls),
        headers: match security_headers {
            Some(sh) => sh.score,
            None => 0,
        },
        dns: dns_score(dns),
        http: http_score(now, http, redirect, rdap),
        perf: perf_score(total_elapsed_ms),
    }
}

/// The letter grade for an overall score: A+ from 95, A from 85, B from 75,
/// C from 65, D from 50, F below.
pub fn letter_grade(overall: u32) -> (g: String)
    ensures
        g@ == letter(overall as nat),
{
    if overall >= 95 {
        String::from_str("A+")
    } else if overall >= 85 {
        String::from_str("A")
    } else if overall >= 75 {
        String::from_str("B")
    } else if overall >= 65 {
        String::from_str("C")
    } else if overall >= 50 {
        String::from_str("D")
    } else {
        String::from_str("F")
    }
}

/// The grade result from the component scores and the overall score
/// computed from their weights.
pub fn grade_result(c: ComponentScores, overall_score: u32) -> (g: GradeResult)
    ensures
        g.grade@ == letter(overall_score as nat),
        g.overall_score == overall_score,
        g.tls_score == c.tls,
        g.headers_score == c.headers,
        g.dns_score == c.dns,
        g.http_score == c.http,
        g.perf_score == c.perf,
{
    GradeResult {
        grade: letter_grade(overall_score),
        overall_score,
        tls_score: c.tls,
        headers_score: c.headers,
        dns_score: c.dns,
        http_score: c.http,
        perf_score: c.perf,
    }
}

/// Rank of a letter grade: F 0, D 1, C 2, B 3, A 4, A+ 5.
pub open spec fn letter_rank(overall: nat) -> nat {
    if overall >= 95 {
        5
    } else if overall >= 85 {
        4
    } else if overall >= 75 {
        3
    } else if overall >= 65 {
        2
    } else if overall >= 50 {
        1
    } else {
        0
    }
}

/// A higher overall score never earns a lower letter, and the letter is
/// the one its rank names.
pub proof fn lemma_letter_monotone(a: nat, b: nat)
    requires
        a <= b,
    ensures
        letter_rank(a) <= letter_rank(b),
        letter_rank(a) == letter_rank(b) ==> letter(a) == letter(b),
{
}

/// Every component score is out of ten.
pub proof fn lemma_components_at_most_ten(
    now: Timestamp,
    http: &Outcome<HttpProbe>,
    redirect: &Outcome<RedirectProbe>,
    rdap: &Outcome<RdapProbe>,
    dns: &Outcome<DnsProbe>,
    tls: &Outcome<TlsProbe>,
    total_elapsed_ms: nat,
)
    ensures
        tls_score_spec(now, tls) <= 10,
        dns_score_spec(dns) <= 10,
        http_score_spec(now, http, redirect, rdap) <= 10,
        perf_score_spec(total_elapsed_ms) <= 10,
        perf_score_spec(total_elapsed_ms) >= 1,
{
}

/// A leaf that expires more than 31 days after `now` has more than 30
/// whole days left.
proof fn lemma_days_left_long(na: Timestamp, now: Timestamp)
    requires
        na.nanos < 1_000_000_000,
        now.nanos < 1_000_000_000,
        na.secs > now.secs + 31 * 86_400,
    ensures
        whole_days(nanos_between(na, now)) > 30,
{
    let n = nanos_between(na, now);
    assert(n >= (31 * 86_400 + 1) * 1_000_000_000 - 1_000_000_000) by (nonlinear_arith)
        requires
            n == (na.secs - now.secs) * 1_000_000_000 + (na.nanos - now.nanos),
            na.secs - now.secs >= 31 * 86_400 + 1,
            na.nanos - now.nanos > -1_000_000_000,
    ;
    assert(crate::time::whole_seconds(n) >= 31 * 86_400);
}

/// A leaf that expired before `now` has no whole day left.
proof fn lemma_days_left_expired(na: Timestamp, now: Timestamp)
    requires
        na.nanos < 1_000_000_000,
        now.nanos < 1_000_000_000,
        na.secs < now.secs,
    ensures
        whole_days(nanos_between(na, now)) <= 0,
{
    let n = nanos_between(na, now);
    assert(n < 0) by (nonlinear_arith)
        requires
            n == (na.secs - now.secs) * 1_000_000_000 + (na.nanos - now.nanos),
            na.secs - now.secs <= -1,
            na.nanos - now.nanos < 1_000_000_000,
    ;
    assert(crate::time::whole_seconds(n) <= 0);
}

/// The certificate's lifetime counts from `now` to the leaf's expiry: with
/// the same protocol and cipher, a leaf that expired before `now` earns
/// nothing for the certificate (at most 7 in all), and a leaf valid for
/// more than 31 more days earns exactly 3 more; so TLS 1.3 with AES-256 and
/// such a leaf scores the full 10.
pub proof fn lemma_tls_score_counts_days_left(now: Timestamp, expired: TlsProbe, valid: TlsProbe)
    requires
        now.nanos < 1_000_000_000,
        expired.protocol_version@ == valid.protocol_version@,
        expired.cipher_suite@ == valid.cipher_suite@,
        expired.certificate_chain@.len() > 0,
        valid.certificate_chain@.len() > 0,
        expired.certificate_chain@[0].not_after matches Some(a) && a.nanos < 1_000_000_000 && a.secs < now.secs,
        valid.certificate_chain@[0].not_after matches Some(b) && b.nanos < 1_000_000_000 && b.secs > now.secs
            + 31 * 86_400,
    ensures
        tls_score_spec(now, &Ok::<TlsProbe, String>(expired)) <= 7,
        tls_score_spec(now, &Ok::<TlsProbe, String>(valid)) == tls_score_spec(now, &Ok::<TlsProbe, String>(expired))
            + 3,
        contains_seq(valid.protocol_version@, "1.3"@) && contains_seq(lower(valid.cipher_suite@), "aes_256"@)
            ==> tls_score_spec(now, &Ok::<TlsProbe, String>(valid)) == 10,
{
    lemma_days_left_expired(expired.certificate_chain@[0].not_after->0, now);
    lemma_days_left_long(valid.certificate_chain@[0].not_after->0, now);
}

/// The performance score never rises as the probes take longer.
pub proof fn lemma_perf_score_monotone(fast: nat, slow: nat)
    requires
        fast <= slow,
    ensures
        perf_score_spec(slow) <= perf_score_spec(fast),
{
}

} // verus!
