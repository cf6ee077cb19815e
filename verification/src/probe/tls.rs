//! The TLS probe's result.

use vstd::prelude::*;
use crate::probe::rdap::{instant_of, opt_chars};
use crate::text::{chars_of, string_of};
use crate::time::Timestamp;
use x509_parser::parse_x509_certificate;
use x509_parser::extensions::GeneralName::{DNSName, IPAddress};
use x509_parser::x509::X509Name;
use crate::probe::tls::SanName::{Dns, Ip, Other};

verus! {

/// One certificate of the presented chain.
pub struct CertInfo {
    pub subject: String,
    pub issuer: String,
    pub not_before: Option<Timestamp>,
    pub not_after: Option<Timestamp>,
    pub san: Vec<String>,
    pub is_leaf: bool,
}

/// The negotiated connection and the server's certificate chain.
pub struct TlsProbe {
    pub protocol_version: String,
    pub cipher_suite: String,
    pub certificate_chain: Vec<CertInfo>,
    pub elapsed_ms: u64,
}

/// TLS protocol versions a connection can negotiate.
#[derive(PartialEq, Eq, Structural, Clone, Copy)]
pub enum TlsVersion {
    Tls10,
    Tls11,
    Tls12,
    Tls13,
    Other,
}

/// The label of a negotiated protocol version (`unknown` when none or
/// another was negotiated).
pub open spec fn protocol_label_spec(v: Option<TlsVersion>) -> Seq<char> {
    match v {
        Some(TlsVersion::Tls10) => "TLS 1.0"@,
        Some(TlsVersion::Tls11) => "TLS 1.1"@,
        Some(TlsVersion::Tls12) => "TLS 1.2"@,
        Some(TlsVersion::Tls13) => "TLS 1.3"@,
        _ => "unknown"@,
    }
}

/// The label of a negotiated protocol version.
pub fn protocol_label(v: Option<TlsVersion>) -> (s: &'static str)
    ensures
        s@ == protocol_label_spec(v),
{
    match v {
        Some(TlsVersion::Tls10) => "TLS 1.0",
        Some(TlsVersion::Tls11) => "TLS 1.1",
        Some(TlsVersion::Tls12) => "TLS 1.2",
        Some(TlsVersion::Tls13) => "TLS 1.3",
        _ => "unknown",
    }
}

/// Seconds allowed for the TCP connection: the timeout kept between one
/// and eight seconds.
pub fn connect_timeout_secs(timeout_secs: u64) -> (t: u64)
    ensures
        t == if timeout_secs < 1 { 1 } else if timeout_secs > 8 { 8 } else { timeout_secs },
{
    if timeout_secs < 1 {
        1
    } else if timeout_secs > 8 {
        8
    } else {
        timeout_secs
    }
}

/// Seconds allowed for the handshake: the timeout, at least one second.
pub fn handshake_timeout_secs(timeout_secs: u64) -> (t: u64)
    ensures
        t == if timeout_secs < 1 { 1 } else { timeout_secs },
{
    if timeout_secs < 1 { 1 } else { timeout_secs }
}

/// The entry for a certificate that did not parse.
pub fn unparsed_cert(is_leaf: bool) -> (c: CertInfo)
    ensures
        c.subject@ == "(parse error)"@,
        c.issuer@ == "(parse error)"@,
        c.not_before is None,
        c.not_after is None,
        c.san@.len() == 0,
        c.is_leaf == is_leaf,
{
    CertInfo {
        subject: crate::text::string_of(crate::text::chars_of("(parse error)").as_slice()),
        issuer: crate::text::string_of(crate::text::chars_of("(parse error)").as_slice()),
        not_before: None,
        not_after: None,
        san: Vec::new(),
        is_leaf,
    }
}

/// One subject alternative name of a certificate: a DNS name, an IP
/// address as its bytes, or a name of another kind.
pub enum SanName {
    Dns(String),
    Ip(Vec<u8>),
    Other,
}

/// What a certificate says: the common names of its subject and issuer,
/// its validity as Unix seconds, and its alternative names in order.
pub struct CertFields {
    pub subject: Option<String>,
    pub issuer: Option<String>,
    pub not_before_secs: i64,
    pub not_after_secs: i64,
    pub san: Vec<SanName>,
}

/// An alternative name as plain values: the DNS name, or the address bytes.
pub open spec fn san_view(n: SanName) -> (Option<Seq<char>>, Option<Seq<u8>>) {
    match n {
        SanName::Dns(d) => (Some(d@), None),
        SanName::Ip(b) => (None, Some(b@)),
        SanName::Other => (None, None),
    }
}

/// A certificate's fields as plain values.
pub open spec fn cert_fields_view(f: CertFields) -> (
    Option<Seq<char>>,
    Option<Seq<char>>,
    i64,
    i64,
    Seq<(Option<Seq<char>>, Option<Seq<u8>>)>,
) {
    (
        opt_chars(f.subject),
        opt_chars(f.issuer),
        f.not_before_secs,
        f.not_after_secs,
        Seq::new(f.san@.len(), |i: int| san_view(f.san@[i])),
    )
}

/// What x509-parser reads from DER bytes: none where the bytes are no
/// certificate; otherwise the first common name of the subject and of the
/// issuer that is text, the validity bounds as Unix seconds, and the
/// alternative names (none where the extension is missing or malformed).
pub uninterp spec fn x509_fields(der: Seq<u8>) -> Option<
    (Option<Seq<char>>, Option<Seq<char>>, i64, i64, Seq<(Option<Seq<char>>, Option<Seq<u8>>)>),
>;

/// Reads a certificate with x509-parser: `X509Certificate::from_der`, then
/// the subject's and issuer's first text common name, the validity bounds'
/// `timestamp`, and the `subject_alternative_name` entries. The result is
/// [`x509_fields`] of the bytes.
#[verifier::external_body]
pub fn parse_cert(der: &[u8]) -> (r: Option<CertFields>)
    ensures
        match r {
            Some(f) => x509_fields(der@) == Some(cert_fields_view(f)),
            None => x509_fields(der@) is None,
        },
{
    let cert = parse_x509_certificate(der).ok()?.1;
    let cn = |n: &X509Name| n.iter_common_name().next().and_then(|c| c.as_str().ok()).map(String::from);
    let san = match cert.subject_alternative_name() {
        Ok(Some(ext)) => ext.value.general_names.iter().map(|g| match g {
            DNSName(d) => Dns(d.to_string()),
            IPAddress(b) => Ip(b.to_vec()),
            _ => Other,
        }).collect(),
        _ => vec![],
    };
    Some(CertFields { subject: cn(cert.subject()), issuer: cn(cert.issuer()), san,
        not_before_secs: cert.validity().not_before.timestamp(), not_after_secs: cert.validity().not_after.timestamp() })
}

/// The instant chrono's `DateTime::from_timestamp` makes of seconds and
/// nanoseconds, when it can represent it.
pub uninterp spec fn utc_instant(secs: i64, nanos: u32) -> Option<(i64, u32)>;

/// An instant through chrono's `DateTime::from_timestamp` (with its
/// `timestamp` and `timestamp_subsec_nanos` read back): the result is
/// [`utc_instant`], and an instant chrono makes keeps its seconds and
/// nanoseconds.
#[verifier::external_body]
fn utc_from_timestamp(secs: i64, nanos: u32) -> (r: Option<Timestamp>)
    ensures
        instant_of(r) == utc_instant(secs, nanos),
        r matches Some(t) ==> t.secs == secs && t.nanos == nanos,
{
    match chrono::DateTime::from_timestamp(secs, nanos) {
        Some(d) => Some(Timestamp { secs: d.timestamp(), nanos: d.timestamp_subsec_nanos() }),
        None => None,
    }
}

/// The number of IP addresses among alternative names.
pub open spec fn ip_count(s: Seq<SanName>) -> nat
    decreases s.len(),
{
    if s.len() == 0 {
        0
    } else {
        ip_count(s.subrange(0, s.len() - 1)) + if s[s.len() - 1] is Ip {
            1nat
        } else {
            0nat
        }
    }
}

/// The alternative names as text: DNS names as they are, the `k`-th IP
/// address as the `k`-th of `ips`, other names left out.
pub open spec fn san_texts(s: Seq<SanName>, ips: Seq<String>) -> Seq<Seq<char>>
    decreases s.len(),
{
    if s.len() == 0 {
        Seq::empty()
    } else {
        let init = s.subrange(0, s.len() - 1);
        let rest = san_texts(init, ips);
        match s[s.len() - 1] {
            SanName::Dns(d) => rest.push(d@),
            SanName::Ip(_) => rest.push(ips[ip_count(init) as int]@),
            SanName::Other => rest,
        }
    }
}

/// A common name, empty where there is none.
pub open spec fn name_or_empty(o: Option<String>) -> Seq<char> {
    match o {
        Some(s) => s@,
        None => Seq::empty(),
    }
}

/// A certificate entry as plain values.
pub open spec fn cert_view(c: CertInfo) -> (
    Seq<char>,
    Seq<char>,
    Option<(i64, u32)>,
    Option<(i64, u32)>,
    Seq<Seq<char>>,
    bool,
) {
    (c.subject@, c.issuer@, instant_of(c.not_before), instant_of(c.not_after), c.san@.map_values(|s: String| s@), c.is_leaf)
}

/// The entry for a certificate: for one that did not parse, `(parse
/// error)` as both names and nothing else; otherwise its common names
/// (empty where missing), its validity bounds as instants, and its
/// alternative names as text.
pub open spec fn cert_info_spec(fields: Option<CertFields>, ips: Seq<String>, is_leaf: bool) -> (
    Seq<char>,
    Seq<char>,
    Option<(i64, u32)>,
    Option<(i64, u32)>,
    Seq<Seq<char>>,
    bool,
) {
    match fields {
        None => ("(parse error)"@, "(parse error)"@, None, None, Seq::empty(), is_leaf),
        Some(f) => (
            name_or_empty(f.subject),
            name_or_empty(f.issuer),
            utc_instant(f.not_before_secs, 0),
            utc_instant(f.not_after_secs, 0),
            san_texts(f.san@, ips),
            is_leaf,
        ),
    }
}

/// The entry for one certificate of the chain, from what the parser read
/// and the text of each IP address among its alternative names, in order.
pub fn cert_info_of(fields: Option<CertFields>, ip_texts: Vec<String>, is_leaf: bool) -> (c: CertInfo)
    requires
        fields matches Some(f) ==> ip_texts@.len() == ip_count(f.san@),
    ensures
        cert_view(c) == cert_info_spec(fields, ip_texts@, is_leaf),
{
    match fields {
        None => {
            let c = unparsed_cert(is_leaf);
            assert(c.san@.map_values(|s: String| s@) =~= Seq::<Seq<char>>::empty());
            c
        },
        Some(f) => {
            let subject = match f.subject {
                Some(s) => s,
                None => String::new(),
            };
            let issuer = match f.issuer {
                Some(s) => s,
                None => String::new(),
            };
            let not_before = utc_from_timestamp(f.not_before_secs, 0);
            let not_after = utc_from_timestamp(f.not_after_secs, 0);
            let mut san: Vec<String> = Vec::new();
            let ip_total = ip_texts.len();
            let mut ip_used: usize = 0;
            let mut i: usize = 0;
            while i < f.san.len()
                invariant
                    i <= f.san.len(),
                    ip_texts@.len() == ip_count(f.san@),
                    ip_total == ip_texts@.len(),
                    ip_used == ip_count(f.san@.subrange(0, i as int)),
                    san@.map_values(|s: String| s@) == san_texts(f.san@.subrange(0, i as int), ip_texts@),
                decreases f.san.len() - i,
            {
                proof {
                    lemma_ip_count_prefix(f.san@, i as int + 1);
                    assert(f.san@.subrange(0, i + 1).subrange(0, i as int) =~= f.san@.subrange(0, i as int));
                    assert(f.san@.subrange(0, i + 1)[i as int] == f.san@[i as int]);
                }
                let ghost before = san@.map_values(|s: String| s@);
                match &f.san[i] {
                    SanName::Dns(d) => {
                        san.push(d.clone());
                        assert(san@.map_values(|s: String| s@) =~= before.push(d@));
                    },
                    SanName::Ip(_) => {
                        assert(ip_count(f.san@.subrange(0, i + 1)) == ip_used + 1);
                        san.push(ip_texts[ip_used].clone());
                        assert(san@.map_values(|s: String| s@) =~= before.push(ip_texts@[ip_used as int]@));
                        ip_used = ip_used + 1;
                    },
                    SanName::Other => {},
                }
                i = i + 1;
            }
            assert(f.san@.subrange(0, f.san@.len() as int) =~= f.san@);
            CertInfo { subject, issuer, not_before, not_after, san, is_leaf }
        },
    }
}

/// IP addresses in a prefix are no more than in the whole.
proof fn lemma_ip_count_prefix(s: Seq<SanName>, k: int)
    requires
        0 <= k <= s.len(),
    ensures
        ip_count(s.subrange(0, k)) <= ip_count(s),
    decreases s.len(),
{
    if k < s.len() {
        let init = s.subrange(0, s.len() - 1);
        assert(init.subrange(0, k) =~= s.subrange(0, k));
        lemma_ip_count_prefix(init, k);
    } else {
        assert(s.subrange(0, k) =~= s);
    }
}

} // verus!
