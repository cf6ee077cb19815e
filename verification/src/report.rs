//! The interactive report: the text of each section, line by line.
//!
//! Every renderer returns the lines it would print; the caller prints them.
//! Probe failures arrive as their messages.

use vstd::prelude::*;
use crate::probe::http::{HttpVersion, is_redirection, is_success, status_is_redirection, status_is_success};
use crate::style::{
    BRIGHT, CYAN, DIM, FG, GREEN, MUTED, ORANGE, PURPLE, RED, Style, YELLOW,
};
use crate::cli::{SectionName, SectionSet, should_show};
use crate::grade::{GradeResult, Outcome};
use crate::probe::dns::{DnsProbe, MxRecord};
use crate::probe::tech::{TechMatch, TechProbe};
use crate::probe::http::HttpProbe;
use crate::probe::rdap::{
    JsonValue, JsonView, RdapProbe, eq_ignore_ascii_case, eq_ignore_case, lemma_items_view_push,
    lemma_members_view_push, members_view, items_view, opt_chars,
};
use crate::probe::redirect::{RedirectHop, RedirectProbe};
use crate::cli::TargetUrl;
use crate::probe::tls::{CertInfo, TlsProbe};
use crate::probe::headers::{HeaderCheck, HeaderStatus, SecurityHeadersProbe};
use crate::time::{days_until, whole_days};
use crate::time::{nanos_between, since};
use crate::text::{
    Align, append_str, decimal, padded, push_char, push_decimal, push_decimal_u128, string_of, with_commas,
    with_commas_spec,
};
use crate::time::{Span, Timestamp, whole_seconds};

verus! {

/// The character views of a list of lines.
pub open spec fn line_views(v: Seq<String>) -> Seq<Seq<char>> {
    Seq::new(v.len(), |i: int| v[i]@)
}

/// A key/value row: two spaces, the muted label padded to twenty columns,
/// the value.
pub open spec fn row_spec(st: Style, label: Seq<char>, value: Seq<char>) -> Seq<char> {
    seq![' ', ' '] + padded(st.painted(label, MUTED as int, false), 20, Align::Left) + value
}

/// A key/value row.
pub fn row(st: &Style, label: &str, value: &str) -> (s: String)
    ensures
        s@ == row_spec(*st, label@, value@),
{
    let l = st.c_muted(label);
    let p = crate::text::pad_visible(l.as_str(), 20, '<');
    let mut s = String::new();
    push_char(&mut s, ' ');
    push_char(&mut s, ' ');
    append_str(&mut s, p.as_str());
    append_str(&mut s, value);
    assert(s@ =~= row_spec(*st, label@, value@));
    s
}

/// A DNS record row: two spaces, the record type in bold purple padded to
/// seven columns, the value.
pub open spec fn row_type_spec(st: Style, record_type: Seq<char>, value: Seq<char>) -> Seq<char> {
    seq![' ', ' '] + padded(st.painted(record_type, PURPLE as int, true), 7, Align::Left) + value
}

/// A DNS record row.
pub fn row_type(st: &Style, record_type: &str, value: &str) -> (s: String)
    ensures
        s@ == row_type_spec(*st, record_type@, value@),
{
    let l = st.c_bold_purple(record_type);
    let p = crate::text::pad_visible(l.as_str(), 7, '<');
    let mut s = String::new();
    push_char(&mut s, ' ');
    push_char(&mut s, ' ');
    append_str(&mut s, p.as_str());
    append_str(&mut s, value);
    assert(s@ =~= row_type_spec(*st, record_type@, value@));
    s
}

/// Label of an HTTP version.
pub open spec fn version_label(v: HttpVersion) -> Seq<char> {
    match v {
        HttpVersion::Http09 => "HTTP/0.9"@,
        HttpVersion::Http10 => "HTTP/1.0"@,
        HttpVersion::Http11 => "HTTP/1.1"@,
        HttpVersion::Http2 => "h2"@,
        HttpVersion::Http3 => "h3"@,
        HttpVersion::Other => "HTTP/?"@,
    }
}

/// Label of an HTTP version.
pub fn http_version(version: HttpVersion) -> (s: &'static str)
    ensures
        s@ == version_label(version),
{
    match version {
        HttpVersion::Http09 => "HTTP/0.9",
        HttpVersion::Http10 => "HTTP/1.0",
        HttpVersion::Http11 => "HTTP/1.1",
        HttpVersion::Http2 => "h2",
        HttpVersion::Http3 => "h3",
        HttpVersion::Other => "HTTP/?",
    }
}

/// The reason phrase the `http` crate's `StatusCode::canonical_reason`
/// gives for a status code, if it knows one.
pub uninterp spec fn reason_phrase(code: u16) -> Option<Seq<char>>;

/// The canonical reason phrase of a status code (`StatusCode::canonical_reason`
/// of the `http` crate, through `reqwest`); the result is [`reason_phrase`]
/// of the code, and none for a number that is no status code.
#[verifier::external_body]
fn canonical_reason(code: u16) -> (r: Option<String>)
    ensures
        100 <= code <= 999 ==> match reason_phrase(code) {
            Some(p) => r matches Some(s) && s@ == p,
            None => r is None,
        },
{
    match reqwest::StatusCode::from_u16(code) {
        Ok(status) => match status.canonical_reason() {
            Some(reason) => Some(reason.to_string()),
            None => None,
        },
        Err(_) => None,
    }
}

/// The status label: the code and its reason phrase (`Unknown` when there
/// is none).
pub open spec fn status_label(code: u16) -> Seq<char> {
    decimal(code as nat) + seq![' '] + match reason_phrase(code) {
        Some(p) => p,
        None => "Unknown"@,
    }
}

/// The palette slot for a status: green for success, yellow for a
/// redirect, red otherwise.
pub open spec fn status_slot(code: u16) -> int {
    if is_success(code) {
        GREEN as int
    } else if is_redirection(code) {
        YELLOW as int
    } else {
        RED as int
    }
}

/// A status code with its reason phrase, colored by its class.
pub fn paint_status(st: &Style, status: u16) -> (s: String)
    requires
        100 <= status <= 999,
    ensures
        s@ == st.painted(status_label(status), status_slot(status), false),
{
    let mut label = String::new();
    push_decimal(&mut label, status as u64);
    push_char(&mut label, ' ');
    match canonical_reason(status) {
        Some(r) => append_str(&mut label, r.as_str()),
        None => append_str(&mut label, "Unknown"),
    }
    assert(label@ =~= status_label(status));
    if status_is_success(status) {
        st.c_green(label.as_str())
    } else if status_is_redirection(status) {
        st.c_yellow(label.as_str())
    } else {
        st.c_red(label.as_str())
    }
}

/// `d`d `h`h, `h`h `m`m or `m`m: the largest two units of a span's
/// whole seconds, ignoring its sign.
pub open spec fn duration_text(secs: int) -> Seq<char> {
    let a = if secs < 0 { -secs } else { secs };
    let days = a / 86_400;
    let hours = (a % 86_400) / 3_600;
    let minutes = (a % 3_600) / 60;
    if days > 0 {
        decimal(days as nat) + seq!['d', ' '] + decimal(hours as nat) + seq!['h']
    } else if hours > 0 {
        decimal(hours as nat) + seq!['h', ' '] + decimal(minutes as nat) + seq!['m']
    } else {
        decimal(minutes as nat) + seq!['m']
    }
}

/// A span as days and hours, hours and minutes, or minutes.
pub fn format_duration(duration: Span) -> (s: String)
    requires
        duration.nanos > i128::MIN,
    ensures
        s@ == duration_text(whole_seconds(duration.nanos as int)),
{
    let secs = duration.num_seconds();
    assert(-0x8000_0000_0000_0000_0000_0000_0000_0000 < whole_seconds(duration.nanos as int)) by {
        assert(duration.nanos >= -0x8000_0000_0000_0000_0000_0000_0000_0000);
    }
    let a: u128 = if secs < 0 { (-secs) as u128 } else { secs as u128 };
    let days = a / 86_400;
    let rem = a % 86_400;
    let hours = rem / 3_600;
    let minutes = (a % 3_600) / 60;
    assert((a % 86_400) % 3_600 == a % 3_600) by (nonlinear_arith)
        requires
            a >= 0,
    {
        vstd::arithmetic::div_mod::lemma_mod_mod(a as int, 3_600, 24);
    }
    let mut s = String::new();
    if days > 0 {
        push_decimal_u128(&mut s, days);
        push_char(&mut s, 'd');
        push_char(&mut s, ' ');
        push_decimal_u128(&mut s, hours);
        push_char(&mut s, 'h');
    } else if hours > 0 {
        push_decimal_u128(&mut s, hours);
        push_char(&mut s, 'h');
        push_char(&mut s, ' ');
        push_decimal_u128(&mut s, minutes);
        push_char(&mut s, 'm');
    } else {
        push_decimal_u128(&mut s, minutes);
        push_char(&mut s, 'm');
    }
    assert(s@ =~= duration_text(whole_seconds(duration.nanos as int)));
    s
}

/// How soon something expires: `expired <span> ago` in red once past;
/// otherwise `in <span>`, red under 30 days, yellow under 120, green beyond.
pub open spec fn expiry_text(st: Style, nanos: int) -> Seq<char> {
    let secs = whole_seconds(nanos);
    let days = crate::time::whole_days(nanos);
    if secs < 0 {
        st.painted("expired "@ + duration_text(secs) + " ago"@, RED as int, false)
    } else {
        let text = "in "@ + duration_text(secs);
        if days < 30 {
            st.painted(text, RED as int, false)
        } else if days < 120 {
            st.painted(text, YELLOW as int, false)
        } else {
            st.painted(text, GREEN as int, false)
        }
    }
}

/// How soon something expires, colored by urgency.
pub fn paint_expiry(st: &Style, delta: Span) -> (s: String)
    requires
        delta.nanos > i128::MIN,
    ensures
        s@ == expiry_text(*st, delta.nanos as int),
{
    let d = format_duration(delta);
    if delta.num_seconds() < 0 {
        let mut t = String::new();
        append_str(&mut t, "expired ");
        append_str(&mut t, d.as_str());
        append_str(&mut t, " ago");
        assert(t@ =~= "expired "@ + duration_text(whole_seconds(delta.nanos as int)) + " ago"@);
        return st.c_red(t.as_str());
    }
    let t = concat("in ", d.as_str());
    let days = delta.num_days();
    if days < 30 {
        st.c_red(t.as_str())
    } else if days < 120 {
        st.c_yellow(t.as_str())
    } else {
        st.c_green(t.as_str())
    }
}

/// The text chrono's `format("%Y-%m-%d %H:%M:%S UTC")` gives for an
/// instant, when chrono can represent it.
pub uninterp spec fn utc_text(secs: i64, nanos: u32) -> Option<Seq<char>>;

/// Formats an instant with chrono: `DateTime::from_timestamp` then
/// `format("%Y-%m-%d %H:%M:%S UTC")`; the result is [`utc_text`].
#[verifier::external_body]
fn chrono_utc_text(secs: i64, nanos: u32) -> (r: Option<String>)
    ensures
        match utc_text(secs, nanos) {
            Some(t) => r matches Some(s) && s@ == t,
            None => r is None,
        },
{
    match chrono::DateTime::from_timestamp(secs, nanos) {
        Some(dt) => Some(dt.format("%Y-%m-%d %H:%M:%S UTC").to_string()),
        None => None,
    }
}

/// An instant as `YYYY-MM-DD HH:MM:SS UTC` (`unknown` for one chrono
/// cannot represent).
pub open spec fn datetime_text(t: Timestamp) -> Seq<char> {
    match utc_text(t.secs, t.nanos) {
        Some(x) => x,
        None => "unknown"@,
    }
}

/// An instant as `YYYY-MM-DD HH:MM:SS UTC`.
pub fn fmt_datetime(t: Timestamp) -> (s: String)
    ensures
        s@ == datetime_text(t),
{
    match chrono_utc_text(t.secs, t.nanos) {
        Some(x) => x,
        None => string_of(crate::text::chars_of("unknown").as_slice()),
    }
}

/// Whether a section shows, given the selection.
pub open spec fn shows(selected: Set<SectionName>, section: SectionName) -> bool {
    selected == Set::<SectionName>::empty() || selected.contains(section)
}

/// The opening of a section: a blank line, then the header.
pub open spec fn section_head(st: Style, icon: Seq<char>, title: Seq<char>, tw: nat) -> Seq<Seq<char>> {
    seq![seq![], st.section_header_spec(icon, title, tw)]
}

/// The explanation a verbose report adds under a section header.
pub open spec fn note_if(st: Style, verbose: bool, note: Seq<char>) -> Seq<Seq<char>> {
    if verbose {
        seq![seq![' ', ' '] + st.painted(note, DIM as int, false)]
    } else {
        seq![]
    }
}

/// Appends a line.
fn push_line(lines: &mut Vec<String>, s: String)
    ensures
        line_views(final(lines)@) == line_views(old(lines)@).push(s@),
{
    let ghost before = line_views(lines@);
    lines.push(s);
    assert(line_views(lines@) =~= before.push(s@));
}

/// Appends the opening of a section.
fn push_head(lines: &mut Vec<String>, st: &Style, icon: &str, title: &str, tw: usize)
    ensures
        line_views(final(lines)@) == line_views(old(lines)@) + section_head(*st, icon@, title@, tw as nat),
{
    let ghost before = line_views(lines@);
    push_line(lines, String::new());
    let h = st.format_section_header(icon, title, tw);
    push_line(lines, h);
    assert(line_views(lines@) =~= before + section_head(*st, icon@, title@, tw as nat));
}

/// Appends the verbose explanation.
fn push_note(lines: &mut Vec<String>, st: &Style, verbose: bool, note: &str)
    ensures
        line_views(final(lines)@) == line_views(old(lines)@) + note_if(*st, verbose, note@),
{
    let ghost before = line_views(lines@);
    if verbose {
        let d = st.c_dim(note);
        let mut s = String::new();
        push_char(&mut s, ' ');
        push_char(&mut s, ' ');
        append_str(&mut s, d.as_str());
        assert(s@ =~= seq![' ', ' '] + st.painted(note@, DIM as int, false));
        push_line(lines, s);
    }
    assert(line_views(lines@) =~= before + note_if(*st, verbose, note@));
}

/// A text, or `unknown` when there is none.
pub open spec fn or_unknown(o: Option<String>) -> Seq<char> {
    match o {
        Some(s) => s@,
        None => "unknown"@,
    }
}

/// `n ms`.
pub open spec fn millis_text(n: nat) -> Seq<char> {
    decimal(n) + " ms"@
}

/// `probe failed: <message>`, in red.
pub open spec fn failure_text(st: Style, prefix: Seq<char>, message: Seq<char>) -> Seq<char> {
    st.painted(prefix + message, RED as int, false)
}

/// The lines of the HTTP target section.
pub open spec fn http_section_spec(
    st: Style,
    tw: nat,
    url: Seq<char>,
    host: Seq<char>,
    http: Outcome<HttpProbe>,
    verbose: bool,
) -> Seq<Seq<char>> {
    section_head(st, "\u{21C4}"@, "HTTP Target"@, tw) + note_if(
        st,
        verbose,
        "Sends HEAD request to target URL, captures status code, server, and content-type."@,
    ) + seq![row_spec(st, "URL"@, url), row_spec(st, "Host"@, host)] + match http {
        Ok(h) => seq![
            row_spec(
                st,
                "HTTP"@,
                st.painted(status_label(h.status), status_slot(h.status), false) + " ("@ + version_label(
                    h.version,
                ) + ")"@,
            ),
            row_spec(st, "Server"@, or_unknown(h.server)),
            row_spec(st, "Content-Type"@, or_unknown(h.content_type)),
            row_spec(
                st,
                "Content-Length"@,
                match h.content_length {
                    Some(v) => with_commas_spec(v as nat) + " bytes"@,
                    None => "unknown"@,
                },
            ),
        ] + if verbose {
            seq![row_spec(st, "HTTP Probe Time"@, millis_text(h.elapsed_ms as nat))]
        } else {
            seq![]
        },
        Err(e) => seq![row_spec(st, "HTTP"@, failure_text(st, "probe failed: "@, e@))],
    }
}

/// A string holding `a` then `b`.
fn concat(a: &str, b: &str) -> (s: String)
    ensures
        s@ == a@ + b@,
{
    let mut s = String::new();
    append_str(&mut s, a);
    append_str(&mut s, b);
    assert(s@ =~= a@ + b@);
    s
}

/// `n ms`.
fn millis(n: u64) -> (s: String)
    ensures
        s@ == millis_text(n as nat),
{
    let mut s = String::new();
    push_decimal(&mut s, n);
    append_str(&mut s, " ms");
    assert(s@ =~= millis_text(n as nat));
    s
}

/// The text, or `unknown`.
fn text_or_unknown(o: &Option<String>) -> (s: String)
    ensures
        s@ == or_unknown(*o),
{
    match o {
        Some(v) => string_of(crate::text::chars_of(v.as_str()).as_slice()),
        None => string_of(crate::text::chars_of("unknown").as_slice()),
    }
}

/// The HTTP target section: URL, host, status with protocol version,
/// server, content type and length (or why the probe failed).
pub fn render_http_section(
    st: &Style,
    tw: usize,
    target: &str,
    host: &str,
    http_result: &Outcome<HttpProbe>,
    selected_sections: &SectionSet,
    verbose: bool,
) -> (lines: Vec<String>)
    requires
        http_result matches Ok(h) ==> 100 <= h.status <= 999,
    ensures
        line_views(lines@) == if shows(selected_sections@, SectionName::Target) {
            http_section_spec(*st, tw as nat, target@, host@, *http_result, verbose)
        } else {
            Seq::<Seq<char>>::empty()
        },
{
    let mut lines: Vec<String> = Vec::new();
    if !should_show(selected_sections, SectionName::Target) {
        assert(line_views(lines@) =~= Seq::<Seq<char>>::empty());
        return lines;
    }
    assert(line_views(lines@) =~= Seq::<Seq<char>>::empty());
    push_head(&mut lines, st, "\u{21C4}", "HTTP Target", tw);
    push_note(&mut lines, st, verbose, "Sends HEAD request to target URL, captures status code, server, and content-type.");
    let r = row(st, "URL", target);
    push_line(&mut lines, r);
    let r = row(st, "Host", host);
    push_line(&mut lines, r);
    let ghost before = line_views(lines@);
    match http_result {
        Ok(h) => {
            let status = paint_status(st, h.status);
            let mut v = String::new();
            append_str(&mut v, status.as_str());
            append_str(&mut v, " (");
            append_str(&mut v, http_version(h.version));
            append_str(&mut v, ")");
            let r = row(st, "HTTP", v.as_str());
            push_line(&mut lines, r);
            let server = text_or_unknown(&h.server);
            let r = row(st, "Server", server.as_str());
            push_line(&mut lines, r);
            let ct = text_or_unknown(&h.content_type);
            let r = row(st, "Content-Type", ct.as_str());
            push_line(&mut lines, r);
            let cl = match h.content_length {
                Some(n) => {
                    let c = with_commas(n);
                    concat(c.as_str(), " bytes")
                },
                None => string_of(crate::text::chars_of("unknown").as_slice()),
            };
            let r = row(st, "Content-Length", cl.as_str());
            push_line(&mut lines, r);
            if verbose {
                let ms = millis(h.elapsed_ms);
                let r = row(st, "HTTP Probe Time", ms.as_str());
                push_line(&mut lines, r);
            }
            assert(v@ =~= st.painted(status_label(h.status), status_slot(h.status), false) + " ("@
                + version_label(h.version) + ")"@);
            let ghost rows = seq![
                row_spec(*st, "HTTP"@, v@),
                row_spec(*st, "Server"@, or_unknown(h.server)),
                row_spec(*st, "Content-Type"@, or_unknown(h.content_type)),
                row_spec(*st, "Content-Length"@, cl@),
            ] + if verbose {
                seq![row_spec(*st, "HTTP Probe Time"@, millis_text(h.elapsed_ms as nat))]
            } else {
                seq![]
            };
            assert(line_views(lines@) =~= before + rows);
        },
        Err(e) => {
            let m = concat("probe failed: ", e.as_str());
            let red = st.c_red(m.as_str());
            let r = row(st, "HTTP", red.as_str());
            push_line(&mut lines, r);
            assert(line_views(lines@) =~= before + seq![row_spec(*st, "HTTP"@, failure_text(*st, "probe failed: "@, e@))]);
        },
    }
    assert(line_views(lines@) =~= http_section_spec(*st, tw as nat, target@, host@, *http_result, verbose));
    lines
}

/// The parts joined with `sep` between them.
pub open spec fn joined_with(parts: Seq<Seq<char>>, sep: Seq<char>) -> Seq<char>
    decreases parts.len(),
{
    if parts.len() == 0 {
        seq![]
    } else if parts.len() == 1 {
        parts[0]
    } else {
        joined_with(parts.drop_last(), sep) + sep + parts.last()
    }
}

/// The strings joined with `sep` between them.
pub fn join_strings(parts: &[String], sep: &str) -> (s: String)
    ensures
        s@ == joined_with(line_views(parts@), sep@),
{
    let mut s = String::new();
    let mut i: usize = 0;
    while i < parts.len()
        invariant
            i <= parts.len(),
            s@ == joined_with(line_views(parts@.take(i as int)), sep@),
        decreases parts.len() - i,
    {
        let ghost pre = line_views(parts@.take(i as int));
        assert(line_views(parts@.take(i + 1)).drop_last() =~= pre);
        assert(line_views(parts@.take(i + 1)).last() == parts@[i as int]@);
        if i > 0 {
            append_str(&mut s, sep);
        }
        append_str(&mut s, parts[i].as_str());
        assert(line_views(parts@.take(i + 1)).len() == i + 1);
        if i == 0 {
            assert(s@ =~= joined_with(line_views(parts@.take(i + 1)), sep@));
        } else {
            assert(s@ =~= joined_with(line_views(parts@.take(i + 1)), sep@));
        }
        i = i + 1;
    }
    assert(parts@.take(parts.len() as int) =~= parts@);
    s
}

/// The registrar with its IANA id, or `unknown`.
pub open spec fn registrar_text(r: RdapProbe) -> Seq<char> {
    match (r.registrar, r.registrar_iana_id) {
        (Some(n), Some(id)) => n@ + " (IANA Registrar ID: "@ + id@ + ")"@,
        (Some(n), None) => n@,
        _ => "unknown"@,
    }
}

/// The abuse contact: email and phone, whichever are known.
pub open spec fn abuse_text(r: RdapProbe) -> Option<Seq<char>> {
    match (r.abuse_email, r.abuse_phone) {
        (Some(e), Some(p)) => Some(e@ + " | "@ + p@),
        (Some(e), None) => Some(e@),
        (None, Some(p)) => Some(p@),
        (None, None) => None,
    }
}

/// A row shown only when its value is known.
pub open spec fn row_if(st: Style, label: Seq<char>, value: Option<Seq<char>>) -> Seq<Seq<char>> {
    match value {
        Some(v) => seq![row_spec(st, label, v)],
        None => seq![],
    }
}

/// The registrar and date rows of the WHOIS section at `now`.
pub open spec fn whois_head_rows(st: Style, now: Timestamp, r: RdapProbe) -> Seq<Seq<char>> {
    seq![
        row_spec(st, "Registrar"@, registrar_text(r)),
        row_spec(
            st,
            "Registered On"@,
            match r.registered_on {
                Some(t) => datetime_text(t) + " ("@ + st.painted(
                    duration_text(whole_seconds(nanos_between(now, t))) + " ago"@,
                    GREEN as int,
                    false,
                ) + ")"@,
                None => "unknown"@,
            },
        ),
        row_spec(
            st,
            "Expires On"@,
            match r.expires_on {
                Some(t) => datetime_text(t) + " ("@ + expiry_text(st, nanos_between(t, now)) + ")"@,
                None => "unknown"@,
            },
        ),
    ] + if r.status_codes@.len() > 0 {
        seq![row_spec(st, "Domain Status"@, joined_with(line_views(r.status_codes@), ", "@))]
    } else {
        seq![]
    }
}

/// The contact rows of the WHOIS section: registrant (a redacted one in
/// yellow), contact URL and abuse contact, each when known.
pub open spec fn whois_contact_rows(st: Style, r: RdapProbe) -> Seq<Seq<char>> {
    row_if(
        st,
        "Registrant"@,
        match r.registrant_name {
            Some(n) => Some(
                if eq_ignore_case(n@, "data redacted"@) {
                    st.painted(n@, YELLOW as int, false)
                } else {
                    n@
                },
            ),
            None => None,
        },
    ) + row_if(
        st,
        "Contact URL"@,
        match r.registrant_contact_uri {
            Some(c) => Some(c@),
            None => None,
        },
    ) + row_if(st, "Abuse Contact"@, abuse_text(r))
}

/// The lines of the WHOIS (RDAP) section at `now`.
pub open spec fn whois_section_spec(st: Style, tw: nat, now: Timestamp, rdap: Outcome<RdapProbe>, verbose: bool) -> Seq<
    Seq<char>,
> {
    section_head(st, "\u{1F4CB}"@, "WHOIS RDAP"@, tw) + note_if(
        st,
        verbose,
        "Queries RDAP registration data via IANA bootstrap."@,
    ) + match rdap {
        Ok(r) => whois_head_rows(st, now, r) + whois_contact_rows(st, r) + seq![
            row_spec(st, "RDAP Source"@, r.rdap_url@),
        ] + if verbose {
            seq![row_spec(st, "RDAP Probe Time"@, millis_text(r.elapsed_ms as nat))]
        } else {
            seq![]
        },
        Err(e) => seq![row_spec(st, "RDAP"@, failure_text(st, "lookup failed: "@, e@))],
    }
}

/// The registrar line value.
fn registrar_value(r: &RdapProbe) -> (s: String)
    ensures
        s@ == registrar_text(*r),
{
    match (&r.registrar, &r.registrar_iana_id) {
        (Some(n), Some(id)) => {
            let mut s = String::new();
            append_str(&mut s, n.as_str());
            append_str(&mut s, " (IANA Registrar ID: ");
            append_str(&mut s, id.as_str());
            append_str(&mut s, ")");
            assert(s@ =~= registrar_text(*r));
            s
        },
        (Some(n), None) => string_of(crate::text::chars_of(n.as_str()).as_slice()),
        _ => string_of(crate::text::chars_of("unknown").as_slice()),
    }
}

/// The registration line value at `now`.
fn registered_value(st: &Style, now: Timestamp, r: &RdapProbe) -> (s: String)
    ensures
        s@ == match r.registered_on {
            Some(t) => datetime_text(t) + " ("@ + st.painted(
                duration_text(whole_seconds(nanos_between(now, t))) + " ago"@,
                GREEN as int,
                false,
            ) + ")"@,
            None => "unknown"@,
        },
{
    match r.registered_on {
        Some(t) => {
            let age = since(now, t);
            let d = format_duration(age);
            let ago = concat(d.as_str(), " ago");
            let g = st.c_green(ago.as_str());
            let dt = fmt_datetime(t);
            let mut s = String::new();
            append_str(&mut s, dt.as_str());
            append_str(&mut s, " (");
            append_str(&mut s, g.as_str());
            append_str(&mut s, ")");
            assert(s@ =~= datetime_text(t) + " ("@ + st.painted(
                duration_text(whole_seconds(nanos_between(now, t))) + " ago"@,
                GREEN as int,
                false,
            ) + ")"@);
            s
        },
        None => string_of(crate::text::chars_of("unknown").as_slice()),
    }
}

/// The expiry line value at `now`.
fn expires_value(st: &Style, now: Timestamp, r: &RdapProbe) -> (s: String)
    ensures
        s@ == match r.expires_on {
            Some(t) => datetime_text(t) + " ("@ + expiry_text(*st, nanos_between(t, now)) + ")"@,
            None => "unknown"@,
        },
{
    match r.expires_on {
        Some(t) => {
            let left = since(t, now);
            let e = paint_expiry(st, left);
            let dt = fmt_datetime(t);
            let mut s = String::new();
            append_str(&mut s, dt.as_str());
            append_str(&mut s, " (");
            append_str(&mut s, e.as_str());
            append_str(&mut s, ")");
            assert(s@ =~= datetime_text(t) + " ("@ + expiry_text(*st, nanos_between(t, now)) + ")"@);
            s
        },
        None => string_of(crate::text::chars_of("unknown").as_slice()),
    }
}

/// The abuse contact value, when known.
fn abuse_value(r: &RdapProbe) -> (o: Option<String>)
    ensures
        match abuse_text(*r) {
            Some(t) => o matches Some(s) && s@ == t,
            None => o is None,
        },
{
    match (&r.abuse_email, &r.abuse_phone) {
        (Some(e), Some(p)) => {
            let mut s = String::new();
            append_str(&mut s, e.as_str());
            append_str(&mut s, " | ");
            append_str(&mut s, p.as_str());
            assert(s@ =~= e@ + " | "@ + p@);
            Some(s)
        },
        (Some(e), None) => Some(string_of(crate::text::chars_of(e.as_str()).as_slice())),
        (None, Some(p)) => Some(string_of(crate::text::chars_of(p.as_str()).as_slice())),
        (None, None) => None,
    }
}

/// Appends all of `more`.
fn push_lines(lines: &mut Vec<String>, more: Vec<String>)
    ensures
        line_views(final(lines)@) == line_views(old(lines)@) + line_views(more@),
{
    let ghost start = line_views(lines@);
    let mut more = more;
    let ghost all = line_views(more@);
    let mut rest: Vec<String> = Vec::new();
    while more.len() > 0
        invariant
            line_views(more@) + line_views(rest@).reverse() == all,
        decreases more.len(),
    {
        let ghost m = line_views(more@);
        let ghost r = line_views(rest@);
        let last = more.pop().unwrap();
        assert(line_views(more@) =~= m.drop_last());
        rest.push(last);
        assert(line_views(rest@) =~= r.push(m.last()));
        assert(line_views(rest@).reverse() =~= seq![m.last()] + r.reverse());
        assert(line_views(more@) + line_views(rest@).reverse() =~= m.drop_last() + (seq![m.last()] + r.reverse()));
        assert(m.drop_last() + (seq![m.last()] + r.reverse()) =~= m + r.reverse());
    }
    assert(line_views(more@) =~= Seq::<Seq<char>>::empty());
    assert(line_views(rest@).reverse() =~= all);
    while rest.len() > 0
        invariant
            line_views(lines@) + line_views(rest@).reverse() == start + all,
        decreases rest.len(),
    {
        let ghost l = line_views(lines@);
        let ghost r = line_views(rest@);
        let x = rest.pop().unwrap();
        assert(line_views(rest@) =~= r.drop_last());
        push_line(lines, x);
        assert(r.reverse() =~= seq![r.last()] + r.drop_last().reverse());
        assert(line_views(lines@) + line_views(rest@).reverse() =~= l + r.reverse());
    }
    assert(line_views(rest@).reverse() =~= Seq::<Seq<char>>::empty());
    assert(line_views(lines@) =~= start + all);
}

/// The registrar and date rows.
fn whois_head(st: &Style, now: Timestamp, r: &RdapProbe) -> (lines: Vec<String>)
    ensures
        line_views(lines@) == whois_head_rows(*st, now, *r),
{
    let mut lines: Vec<String> = Vec::new();
    let v = registrar_value(r);
    push_line(&mut lines, row(st, "Registrar", v.as_str()));
    let v = registered_value(st, now, r);
    push_line(&mut lines, row(st, "Registered On", v.as_str()));
    let v = expires_value(st, now, r);
    push_line(&mut lines, row(st, "Expires On", v.as_str()));
    if r.status_codes.len() > 0 {
        let j = join_strings(r.status_codes.as_slice(), ", ");
        push_line(&mut lines, row(st, "Domain Status", j.as_str()));
    }
    assert(line_views(lines@) =~= whois_head_rows(*st, now, *r));
    lines
}

/// The contact rows.
fn whois_contacts(st: &Style, r: &RdapProbe) -> (lines: Vec<String>)
    ensures
        line_views(lines@) == whois_contact_rows(*st, *r),
{
    let mut lines: Vec<String> = Vec::new();
    assert(line_views(lines@) =~= Seq::<Seq<char>>::empty());
    match &r.registrant_name {
        Some(n) => {
            proof {
                reveal_strlit("data redacted");
            }
            let shown = if eq_ignore_ascii_case(n.as_str(), "data redacted") {
                st.c_yellow(n.as_str())
            } else {
                string_of(crate::text::chars_of(n.as_str()).as_slice())
            };
            push_line(&mut lines, row(st, "Registrant", shown.as_str()));
        },
        None => {},
    }
    let ghost a = line_views(lines@);
    match &r.registrant_contact_uri {
        Some(c) => {
            push_line(&mut lines, row(st, "Contact URL", c.as_str()));
        },
        None => {},
    }
    let ghost b = line_views(lines@);
    match abuse_value(r) {
        Some(x) => {
            push_line(&mut lines, row(st, "Abuse Contact", x.as_str()));
        },
        None => {},
    }
    assert(line_views(lines@) =~= whois_contact_rows(*st, *r));
    lines
}

/// The WHOIS (RDAP) section at `now`: registrar, registration and expiry
/// dates with their distance from now, status codes, registrant, contact,
/// abuse contact and the record's source (or why the lookup failed).
pub fn render_whois_section(
    st: &Style,
    tw: usize,
    now: Timestamp,
    rdap_result: &Outcome<RdapProbe>,
    selected_sections: &SectionSet,
    verbose: bool,
) -> (lines: Vec<String>)
    ensures
        line_views(lines@) == if shows(selected_sections@, SectionName::Whois) {
            whois_section_spec(*st, tw as nat, now, *rdap_result, verbose)
        } else {
            Seq::<Seq<char>>::empty()
        },
{
    let mut lines: Vec<String> = Vec::new();
    assert(line_views(lines@) =~= Seq::<Seq<char>>::empty());
    if !should_show(selected_sections, SectionName::Whois) {
        return lines;
    }
    push_head(&mut lines, st, "\u{1F4CB}", "WHOIS RDAP", tw);
    push_note(&mut lines, st, verbose, "Queries RDAP registration data via IANA bootstrap.");
    let ghost before = line_views(lines@);
    match rdap_result {
        Ok(r) => {
            push_lines(&mut lines, whois_head(st, now, r));
            push_lines(&mut lines, whois_contacts(st, r));
            push_line(&mut lines, row(st, "RDAP Source", r.rdap_url.as_str()));
            if verbose {
                let ms = millis(r.elapsed_ms);
                push_line(&mut lines, row(st, "RDAP Probe Time", ms.as_str()));
            }
        },
        Err(e) => {
            let m = concat("lookup failed: ", e.as_str());
            let red = st.c_red(m.as_str());
            push_line(&mut lines, row(st, "RDAP", red.as_str()));
        },
    }
    assert(line_views(lines@) =~= whois_section_spec(*st, tw as nat, now, *rdap_result, verbose));
    lines
}

/// `"  "` then `s`.
pub open spec fn indented(s: Seq<char>) -> Seq<char> {
    seq![' ', ' '] + s
}

/// The two lines of a hop: the source URL, then the status and target.
pub open spec fn hop_lines(st: Style, h: RedirectHop) -> Seq<Seq<char>> {
    seq![
        indented(st.painted("\u{25CF}"@, MUTED as int, false) + " "@ + st.painted(h.from@, FG as int, false)),
        indented(
            st.painted("\u{2502}"@, DIM as int, false) + " \u{2192} "@ + st.painted(
                decimal(h.status as nat),
                YELLOW as int,
                false,
            ) + " \u{2192} "@ + st.painted(h.to@, DIM as int, false),
        ),
    ]
}

/// The lines of all hops, in order.
pub open spec fn hops_lines(st: Style, hops: Seq<RedirectHop>) -> Seq<Seq<char>>
    decreases hops.len(),
{
    if hops.len() == 0 {
        seq![]
    } else {
        hops_lines(st, hops.drop_last()) + hop_lines(st, hops.last())
    }
}

/// A painted status, or `unknown`.
pub open spec fn status_or_unknown(st: Style, s: Option<u16>) -> Seq<char> {
    match s {
        Some(c) => st.painted(status_label(c), status_slot(c), false),
        None => "unknown"@,
    }
}

/// The chain's lines: the final URL alone when nothing redirected;
/// otherwise each hop, then the final URL with its status.
pub open spec fn chain_lines(st: Style, r: RedirectProbe) -> Seq<Seq<char>> {
    let dot = st.painted("\u{25CF}"@, GREEN as int, false);
    let url = st.painted(r.final_url@, FG as int, false);
    if r.hops@.len() == 0 {
        seq![indented(dot + " "@ + url + " ("@ + status_or_unknown(st, r.final_status) + ")"@)]
    } else {
        hops_lines(st, r.hops@) + seq![
            indented(
                dot + " "@ + url + match r.final_status {
                    Some(c) => " ("@ + st.painted(status_label(c), status_slot(c), false) + ")"@,
                    None => seq![],
                },
            ),
        ]
    }
}

/// One line summing up a redirect chain.
pub open spec fn redirect_summary(st: Style, hops: nat, final_url: Seq<char>, final_status: Option<u16>) -> Seq<char> {
    if hops == 0 {
        st.painted("No redirect"@, GREEN as int, false) + " (0 hops, final: "@ + final_url + ")"@
    } else {
        st.painted("Redirected"@, YELLOW as int, false) + " ("@ + decimal(hops) + " hops, final: "@ + final_url
            + ", status: "@ + status_or_unknown(st, final_status) + ")"@
    }
}

/// The label of the other-scheme variant.
pub open spec fn variant_label(scheme: Seq<char>) -> Seq<char> {
    if scheme == "http"@ {
        "HTTP variant"@
    } else if scheme == "https"@ {
        "HTTPS variant"@
    } else {
        "Scheme variant"@
    }
}

/// Statuses that can be painted: those of real responses.
pub open spec fn statuses_ok(r: Outcome<RedirectProbe>) -> bool {
    r matches Ok(p) ==> (p.final_status matches Some(s) ==> 100 <= s <= 999)
}

/// The lines of the redirects section.
pub open spec fn redirects_section_spec(
    st: Style,
    tw: nat,
    redirect: Outcome<RedirectProbe>,
    alt: Option<(Seq<char>, Outcome<RedirectProbe>)>,
    verbose: bool,
) -> Seq<Seq<char>> {
    section_head(st, "\u{21C4}"@, "Redirects Chain"@, tw) + note_if(
        st,
        verbose,
        "Follows HTTP redirects up to max hops, records each hop status and URL."@,
    ) + match redirect {
        Ok(r) => chain_lines(st, r) + (if r.truncated {
            seq![indented(st.painted("max redirect hops reached"@, YELLOW as int, false))]
        } else {
            seq![]
        }) + if verbose {
            seq![row_spec(st, "Redirect Probe"@, millis_text(r.elapsed_ms as nat))]
        } else {
            seq![]
        },
        Err(e) => seq![row_spec(st, "Redirects"@, failure_text(st, "probe failed: "@, e@))],
    } + match alt {
        Some((scheme, result)) => seq![seq![]] + seq![
            row_spec(
                st,
                variant_label(scheme),
                match result {
                    Ok(v) => redirect_summary(st, v.hops@.len(), v.final_url@, v.final_status),
                    Err(e) => failure_text(st, "probe failed: "@, e@),
                },
            ),
        ],
        None => seq![],
    }
}


/// The status painted, or `unknown`.
fn status_text(st: &Style, s: Option<u16>) -> (t: String)
    requires
        s matches Some(c) ==> 100 <= c <= 999,
    ensures
        t@ == status_or_unknown(*st, s),
{
    match s {
        Some(c) => paint_status(st, c),
        None => string_of(crate::text::chars_of("unknown").as_slice()),
    }
}

/// One line summing up a redirect chain: no redirect, or how many hops
/// led where and with which status.
pub fn format_redirect_summary(st: &Style, hops: usize, final_url: &str, final_status: Option<u16>) -> (s: String)
    requires
        final_status matches Some(c) ==> 100 <= c <= 999,
    ensures
        s@ == redirect_summary(*st, hops as nat, final_url@, final_status),
{
    let mut s = String::new();
    if hops == 0 {
        let g = st.c_green("No redirect");
        append_str(&mut s, g.as_str());
        append_str(&mut s, " (0 hops, final: ");
        append_str(&mut s, final_url);
        append_str(&mut s, ")");
    } else {
        let y = st.c_yellow("Redirected");
        let status = status_text(st, final_status);
        append_str(&mut s, y.as_str());
        append_str(&mut s, " (");
        push_decimal(&mut s, hops as u64);
        append_str(&mut s, " hops, final: ");
        append_str(&mut s, final_url);
        append_str(&mut s, ", status: ");
        append_str(&mut s, status.as_str());
        append_str(&mut s, ")");
    }
    assert(s@ =~= redirect_summary(*st, hops as nat, final_url@, final_status));
    s
}

/// The hop lines.
fn hops_text(st: &Style, hops: &[RedirectHop]) -> (lines: Vec<String>)
    ensures
        line_views(lines@) == hops_lines(*st, hops@),
{
    let mut lines: Vec<String> = Vec::new();
    let mut i: usize = 0;
    assert(line_views(lines@) =~= hops_lines(*st, hops@.take(0)));
    while i < hops.len()
        invariant
            i <= hops.len(),
            line_views(lines@) == hops_lines(*st, hops@.take(i as int)),
        decreases hops.len() - i,
    {
        let h = &hops[i];
        assert(hops@.take(i + 1).drop_last() =~= hops@.take(i as int));
        assert(hops@.take(i + 1).last() == *h);
        let ghost before = line_views(lines@);
        let dot = st.c_muted("\u{25CF}");
        let from = st.c_fg(h.from.as_str());
        let mut a = String::new();
        append_str(&mut a, "  ");
        append_str(&mut a, dot.as_str());
        append_str(&mut a, " ");
        append_str(&mut a, from.as_str());
        let bar = st.c_dim("\u{2502}");
        let mut code = String::new();
        push_decimal(&mut code, h.status as u64);
        let code = st.c_yellow(code.as_str());
        let to = st.c_dim(h.to.as_str());
        let mut b = String::new();
        append_str(&mut b, "  ");
        append_str(&mut b, bar.as_str());
        append_str(&mut b, " \u{2192} ");
        append_str(&mut b, code.as_str());
        append_str(&mut b, " \u{2192} ");
        append_str(&mut b, to.as_str());
        proof {
            reveal_strlit("  ");
            assert("  "@ =~= seq![' ', ' ']);
        }
        assert(a@ =~= hop_lines(*st, *h)[0]);
        assert(b@ =~= hop_lines(*st, *h)[1]);
        push_line(&mut lines, a);
        push_line(&mut lines, b);
        assert(line_views(lines@) =~= before + hop_lines(*st, *h));
        i = i + 1;
    }
    assert(hops@.take(hops.len() as int) =~= hops@);
    lines
}

/// The chain's lines.
fn chain_text(st: &Style, r: &RedirectProbe) -> (lines: Vec<String>)
    requires
        r.final_status matches Some(c) ==> 100 <= c <= 999,
    ensures
        line_views(lines@) == chain_lines(*st, *r),
{
    let dot = st.c_green("\u{25CF}");
    let url = st.c_fg(r.final_url.as_str());
    proof {
        reveal_strlit("  ");
        assert("  "@ =~= seq![' ', ' ']);
    }
    if r.hops.len() == 0 {
        let status = status_text(st, r.final_status);
        let mut s = String::new();
        append_str(&mut s, "  ");
        append_str(&mut s, dot.as_str());
        append_str(&mut s, " ");
        append_str(&mut s, url.as_str());
        append_str(&mut s, " (");
        append_str(&mut s, status.as_str());
        append_str(&mut s, ")");
        let mut lines: Vec<String> = Vec::new();
        assert(s@ =~= chain_lines(*st, *r)[0]);
        push_line(&mut lines, s);
        assert(line_views(lines@) =~= chain_lines(*st, *r));
        lines
    } else {
        let mut lines = hops_text(st, r.hops.as_slice());
        let mut s = String::new();
        append_str(&mut s, "  ");
        append_str(&mut s, dot.as_str());
        append_str(&mut s, " ");
        append_str(&mut s, url.as_str());
        match r.final_status {
            Some(c) => {
                let p = paint_status(st, c);
                append_str(&mut s, " (");
                append_str(&mut s, p.as_str());
                append_str(&mut s, ")");
            },
            None => {},
        }
        assert(s@ =~= indented(
            st.painted("\u{25CF}"@, GREEN as int, false) + " "@ + st.painted(r.final_url@, FG as int, false)
                + match r.final_status {
                Some(c) => " ("@ + st.painted(status_label(c), status_slot(c), false) + ")"@,
                None => seq![],
            },
        ));
        push_line(&mut lines, s);
        assert(line_views(lines@) =~= chain_lines(*st, *r));
        lines
    }
}

/// The redirects section: the chain hop by hop, whether the hop limit cut
/// it short, and a one-line summary of the other-scheme variant.
pub fn render_redirects_section(
    st: &Style,
    tw: usize,
    redirect_result: &Outcome<RedirectProbe>,
    alt_redirect_result: Option<&(TargetUrl, Outcome<RedirectProbe>)>,
    selected_sections: &SectionSet,
    verbose: bool,
) -> (lines: Vec<String>)
    requires
        statuses_ok(*redirect_result),
        alt_redirect_result matches Some(a) ==> statuses_ok(a.1),
    ensures
        line_views(lines@) == if shows(selected_sections@, SectionName::Redirects) {
            redirects_section_spec(
                *st,
                tw as nat,
                *redirect_result,
                match alt_redirect_result {
                    Some(a) => Some((a.0.parts().1, a.1)),
                    None => None,
                },
                verbose,
            )
        } else {
            Seq::<Seq<char>>::empty()
        },
{
    let mut lines: Vec<String> = Vec::new();
    assert(line_views(lines@) =~= Seq::<Seq<char>>::empty());
    if !should_show(selected_sections, SectionName::Redirects) {
        return lines;
    }
    push_head(&mut lines, st, "\u{21C4}", "Redirects Chain", tw);
    push_note(&mut lines, st, verbose, "Follows HTTP redirects up to max hops, records each hop status and URL.");
    let ghost a0 = line_views(lines@);
    match redirect_result {
        Ok(r) => {
            push_lines(&mut lines, chain_text(st, r));
            if r.truncated {
                let y = st.c_yellow("max redirect hops reached");
                let s = concat("  ", y.as_str());
                proof {
                    reveal_strlit("  ");
                    assert("  "@ =~= seq![' ', ' ']);
                }
                push_line(&mut lines, s);
            }
            if verbose {
                let ms = millis(r.elapsed_ms);
                push_line(&mut lines, row(st, "Redirect Probe", ms.as_str()));
            }
        },
        Err(e) => {
            let m = concat("probe failed: ", e.as_str());
            let red = st.c_red(m.as_str());
            push_line(&mut lines, row(st, "Redirects", red.as_str()));
        },
    }
    let ghost a1 = line_views(lines@);
    match alt_redirect_result {
        Some(pair) => {
            let (url, result) = (&pair.0, &pair.1);
            push_line(&mut lines, String::new());
            let sch = crate::text::chars_of(url.scheme());
            let label = if crate::text::same_chars(sch.as_slice(), &['h', 't', 't', 'p']) {
                "HTTP variant"
            } else if crate::text::same_chars(sch.as_slice(), &['h', 't', 't', 'p', 's']) {
                "HTTPS variant"
            } else {
                "Scheme variant"
            };
            proof {
                reveal_strlit("http");
                reveal_strlit("https");
                assert("http"@ =~= seq!['h', 't', 't', 'p']);
                assert("https"@ =~= seq!['h', 't', 't', 'p', 's']);
            }
            assert(label@ == variant_label(url.parts().1));
            let v = match result {
                Ok(p) => format_redirect_summary(st, p.hops.len(), p.final_url.as_str(), p.final_status),
                Err(e) => {
                    let m = concat("probe failed: ", e.as_str());
                    st.c_red(m.as_str())
                },
            };
            push_line(&mut lines, row(st, label, v.as_str()));
        },
        None => {},
    }
    assert(line_views(lines@) =~= redirects_section_spec(
        *st,
        tw as nat,
        *redirect_result,
        match alt_redirect_result {
            Some(a) => Some((a.0.parts().1, a.1)),
            None => None,
        },
        verbose,
    ));
    lines
}

/// The tree connector of certificate `idx` in a chain of `len`.
pub open spec fn connector(idx: int, len: int) -> Seq<char> {
    if len == 1 {
        "\u{2500}\u{2500}"@
    } else if idx == 0 {
        "\u{250C}\u{2500}"@
    } else if idx == len - 1 {
        "\u{2514}\u{2500}"@
    } else {
        "\u{251C}\u{2500}"@
    }
}

/// The line of certificate `idx` in the chain: connector, name (the
/// subject, or the issuer when the subject is empty) in cyan for the leaf,
/// muted for the root, plain otherwise, and a `(leaf)`/`(root)` tag.
pub open spec fn cert_line(st: Style, c: CertInfo, idx: int, len: int) -> Seq<char> {
    let name = if c.subject@.len() == 0 { c.issuer@ } else { c.subject@ };
    let colored = if c.is_leaf {
        st.painted(name, CYAN as int, false)
    } else if idx == len - 1 {
        st.painted(name, MUTED as int, false)
    } else {
        st.painted(name, FG as int, false)
    };
    let label = if c.is_leaf {
        "(leaf)"@
    } else if idx == len - 1 {
        "(root)"@
    } else {
        seq![]
    };
    let label_str = if label.len() == 0 { seq![] } else { " "@ + st.painted(label, MUTED as int, false) };
    "    "@ + st.painted(connector(idx, len), DIM as int, false) + " "@ + colored + label_str
}

/// The chain's lines from certificate `from` on.
pub open spec fn cert_lines(st: Style, chain: Seq<CertInfo>, from: int) -> Seq<Seq<char>>
    decreases chain.len() - from,
{
    if from >= chain.len() || from < 0 {
        seq![]
    } else {
        seq![cert_line(st, chain[from], from, chain.len() as int)] + cert_lines(st, chain, from + 1)
    }
}

/// The leaf's expiry: its date, and the whole days left or since.
pub open spec fn leaf_expiry_text(st: Style, not_after: Timestamp, now: Timestamp) -> Seq<char> {
    let days = whole_days(nanos_between(not_after, now));
    datetime_text(not_after) + " ("@ + if days >= 0 {
        st.painted(decimal(days as nat) + " days remaining"@, GREEN as int, false)
    } else {
        st.painted("expired "@ + decimal((-days) as nat) + " days ago"@, RED as int, false)
    } + ")"@
}

/// The first five names joined by commas, and how many more there are.
pub open spec fn san_text(san: Seq<Seq<char>>) -> Seq<char> {
    if san.len() > 5 {
        joined_with(san.take(5), ", "@) + " (+"@ + decimal((san.len() - 5) as nat) + " more)"@
    } else {
        joined_with(san, ", "@)
    }
}

/// The rows about the leaf certificate: expiry and alternative names.
pub open spec fn leaf_rows(st: Style, leaf: CertInfo, now: Timestamp) -> Seq<Seq<char>> {
    (match leaf.not_after {
        Some(t) => seq![row_spec(st, "Expires"@, leaf_expiry_text(st, t, now))],
        None => seq![],
    }) + if leaf.san@.len() > 0 {
        seq![row_spec(st, "SANs"@, san_text(line_views(leaf.san@)))]
    } else {
        seq![]
    }
}

/// The lines of the TLS section at `now`.
pub open spec fn tls_section_spec(st: Style, tw: nat, now: Timestamp, tls: Outcome<TlsProbe>, verbose: bool) -> Seq<Seq<char>> {
    section_head(st, "\u{1F512}"@, "TLS Certificate"@, tw) + note_if(
        st,
        verbose,
        "Connects to port 443, inspects protocol version, cipher suite, and certificate chain."@,
    ) + match tls {
        Ok(t) => seq![
            row_spec(st, "Protocol"@, st.painted(t.protocol_version@, GREEN as int, false)),
            row_spec(st, "Cipher"@, st.painted(t.cipher_suite@, CYAN as int, false)),
        ] + (if t.certificate_chain@.len() > 0 {
            seq![seq![]] + cert_lines(st, t.certificate_chain@, 0) + seq![seq![]] + leaf_rows(
                st,
                t.certificate_chain@[0],
                now,
            )
        } else {
            seq![]
        }) + if verbose {
            seq![row_spec(st, "TLS Probe Time"@, millis_text(t.elapsed_ms as nat))]
        } else {
            seq![]
        },
        Err(e) => seq![row_spec(st, "TLS"@, failure_text(st, "probe failed: "@, e@))],
    }
}

/// The line of one certificate.
fn cert_text(st: &Style, c: &CertInfo, idx: usize, len: usize) -> (s: String)
    requires
        idx < len,
    ensures
        s@ == cert_line(*st, *c, idx as int, len as int),
{
    let name: &str = if c.subject.as_str().is_empty() { c.issuer.as_str() } else { c.subject.as_str() };
    let colored = if c.is_leaf {
        st.c_cyan(name)
    } else if idx == len - 1 {
        st.c_muted(name)
    } else {
        st.c_fg(name)
    };
    let conn: &str = if len == 1 {
        "\u{2500}\u{2500}"
    } else if idx == 0 {
        "\u{250C}\u{2500}"
    } else if idx == len - 1 {
        "\u{2514}\u{2500}"
    } else {
        "\u{251C}\u{2500}"
    };
    let d = st.c_dim(conn);
    let mut s = String::new();
    append_str(&mut s, "    ");
    append_str(&mut s, d.as_str());
    append_str(&mut s, " ");
    append_str(&mut s, colored.as_str());
    if c.is_leaf {
        let m = st.c_muted("(leaf)");
        append_str(&mut s, " ");
        append_str(&mut s, m.as_str());
    } else if idx == len - 1 {
        let m = st.c_muted("(root)");
        append_str(&mut s, " ");
        append_str(&mut s, m.as_str());
    }
    proof {
        reveal_strlit("(leaf)");
        reveal_strlit("(root)");
    }
    assert(s@ =~= cert_line(*st, *c, idx as int, len as int));
    s
}

/// The leaf certificate rows at `now`.
fn leaf_text(st: &Style, leaf: &CertInfo, now: Timestamp) -> (lines: Vec<String>)
    ensures
        line_views(lines@) == leaf_rows(*st, *leaf, now),
{
    let mut lines: Vec<String> = Vec::new();
    assert(line_views(lines@) =~= Seq::<Seq<char>>::empty());
    match leaf.not_after {
        Some(t) => {
            let days = days_until(t, now);
            let dt = fmt_datetime(t);
            let mut v = String::new();
            append_str(&mut v, dt.as_str());
            append_str(&mut v, " (");
            if days >= 0 {
                let mut g = String::new();
                push_decimal_u128(&mut g, days as u128);
                append_str(&mut g, " days remaining");
                let g = st.c_green(g.as_str());
                append_str(&mut v, g.as_str());
            } else {
                let mut r = String::new();
                append_str(&mut r, "expired ");
                assert(days > i128::MIN) by {
                    assert(whole_days(nanos_between(t, now)) > -0x1_0000_0000_0000_0000_0000) by (nonlinear_arith)
                        requires
                            days == whole_days(nanos_between(t, now)),
                            -0x8000_0000_0000_0000 <= t.secs <= 0x7fff_ffff_ffff_ffff,
                            -0x8000_0000_0000_0000 <= now.secs <= 0x7fff_ffff_ffff_ffff;
                }
                push_decimal_u128(&mut r, (-days) as u128);
                append_str(&mut r, " days ago");
                let r = st.c_red(r.as_str());
                append_str(&mut v, r.as_str());
            }
            append_str(&mut v, ")");
            assert(v@ =~= leaf_expiry_text(*st, t, now));
            push_line(&mut lines, row(st, "Expires", v.as_str()));
        },
        None => {},
    }
    let ghost mid = line_views(lines@);
    let n = leaf.san.len();
    if n > 0 {
        let v = if n > 5 {
            let first = join_strings(&leaf.san.as_slice()[0..5], ", ");
            let mut v = String::new();
            append_str(&mut v, first.as_str());
            append_str(&mut v, " (+");
            push_decimal(&mut v, (n - 5) as u64);
            append_str(&mut v, " more)");
            assert(line_views(leaf.san@.take(5)) =~= line_views(leaf.san@).take(5));
            v
        } else {
            join_strings(leaf.san.as_slice(), ", ")
        };
        assert(v@ =~= san_text(line_views(leaf.san@)));
        push_line(&mut lines, row(st, "SANs", v.as_str()));
    }
    assert(line_views(lines@) =~= leaf_rows(*st, *leaf, now));
    lines
}

/// The TLS section at `now`: protocol, cipher, the certificate chain as a
/// tree, and the leaf's expiry and alternative names.
pub fn render_tls_section(
    st: &Style,
    tw: usize,
    now: Timestamp,
    tls_result: &Outcome<TlsProbe>,
    selected_sections: &SectionSet,
    verbose: bool,
) -> (lines: Vec<String>)
    ensures
        line_views(lines@) == if shows(selected_sections@, SectionName::Tls) {
            tls_section_spec(*st, tw as nat, now, *tls_result, verbose)
        } else {
            Seq::<Seq<char>>::empty()
        },
{
    let mut lines: Vec<String> = Vec::new();
    assert(line_views(lines@) =~= Seq::<Seq<char>>::empty());
    if !should_show(selected_sections, SectionName::Tls) {
        return lines;
    }
    push_head(&mut lines, st, "\u{1F512}", "TLS Certificate", tw);
    push_note(
        &mut lines,
        st,
        verbose,
        "Connects to port 443, inspects protocol version, cipher suite, and certificate chain.",
    );
    match tls_result {
        Ok(t) => {
            let p = st.c_green(t.protocol_version.as_str());
            push_line(&mut lines, row(st, "Protocol", p.as_str()));
            let c = st.c_cyan(t.cipher_suite.as_str());
            push_line(&mut lines, row(st, "Cipher", c.as_str()));
            let ghost base = line_views(lines@);
            let len = t.certificate_chain.len();
            if len > 0 {
                push_line(&mut lines, String::new());
                let ghost start = line_views(lines@);
                let mut i: usize = 0;
                while i < len
                    invariant
                        i <= len,
                        len == t.certificate_chain@.len(),
                        line_views(lines@) + cert_lines(*st, t.certificate_chain@, i as int) == start
                            + cert_lines(*st, t.certificate_chain@, 0),
                    decreases len - i,
                {
                    let ghost before = line_views(lines@);
                    let s = cert_text(st, &t.certificate_chain[i], i, len);
                    push_line(&mut lines, s);
                    assert(before + cert_lines(*st, t.certificate_chain@, i as int) =~= line_views(lines@)
                        + cert_lines(*st, t.certificate_chain@, i + 1));
                    i = i + 1;
                }
                assert(line_views(lines@) =~= start + cert_lines(*st, t.certificate_chain@, 0));
                push_line(&mut lines, String::new());
                push_lines(&mut lines, leaf_text(st, &t.certificate_chain[0], now));
            }
            if verbose {
                let ms = millis(t.elapsed_ms);
                push_line(&mut lines, row(st, "TLS Probe Time", ms.as_str()));
            }
        },
        Err(e) => {
            let m = concat("probe failed: ", e.as_str());
            let red = st.c_red(m.as_str());
            push_line(&mut lines, row(st, "TLS", red.as_str()));
        },
    }
    assert(line_views(lines@) =~= tls_section_spec(*st, tw as nat, now, *tls_result, verbose));
    lines
}

/// `s` padded with spaces to `w` characters, as `format!("{:<w}")` pads.
pub open spec fn pad_chars(s: Seq<char>, w: nat) -> Seq<char> {
    if s.len() < w {
        s + crate::text::repeat(' ', (w - s.len()) as nat)
    } else {
        s
    }
}

/// Pads to `w` characters.
fn pad_chars_to(s: &str, w: usize) -> (out: String)
    ensures
        out@ == pad_chars(s@, w as nat),
{
    let cs = crate::text::chars_of(s);
    let mut out = String::new();
    append_str(&mut out, s);
    if cs.len() < w {
        crate::text::push_repeat(&mut out, ' ', w - cs.len());
    }
    out
}

/// The badge of a check status.
pub open spec fn badge_spec(st: Style, s: HeaderStatus) -> Seq<char> {
    match s {
        HeaderStatus::Pass => st.painted("PASS"@, GREEN as int, true),
        HeaderStatus::Warn => st.painted("WARN"@, YELLOW as int, true),
        HeaderStatus::Fail => st.painted("FAIL"@, RED as int, true),
        HeaderStatus::Info => st.painted("INFO"@, CYAN as int, true),
    }
}

/// The line of one header check: badge, name and shown value.
pub open spec fn check_line(st: Style, c: HeaderCheck) -> Seq<char> {
    "  "@ + pad_chars(badge_spec(st, c.status), 4) + "  "@ + pad_chars(st.painted(c.name@, FG as int, false), 30)
        + " "@ + st.painted(c.value@, MUTED as int, false)
}

/// The lines of the checks.
pub open spec fn check_lines(st: Style, checks: Seq<HeaderCheck>) -> Seq<Seq<char>>
    decreases checks.len(),
{
    if checks.len() == 0 {
        seq![]
    } else {
        check_lines(st, checks.drop_last()) + seq![check_line(st, checks.last())]
    }
}

/// The lines of the security headers section.
pub open spec fn headers_section_spec(st: Style, tw: nat, sh: Option<SecurityHeadersProbe>, verbose: bool) -> Seq<
    Seq<char>,
> {
    section_head(st, "\u{1F6E1}"@, "Security Headers"@, tw) + note_if(st, verbose, headers_note()) + match sh {
        Some(p) => check_lines(st, p.checks@) + seq![seq![], row_spec(st, "Score"@, st.score_bar_spec(p.score as nat, 10))],
        None => seq![
            row_spec(st, "Security Headers"@, st.painted("unavailable (HTTP probe failed)"@, MUTED as int, false)),
        ],
    }
}

/// What the security headers section checks.
pub open spec fn headers_note() -> Seq<char> {
    "Checks presence and correctness of 8 security headers: HSTS, CSP, X-Frame-Options, X-Content-Type-Options, Permissions-Policy, COOP, Referrer-Policy, X-XSS-Protection."@
}

/// The line of one check.
fn check_text(st: &Style, c: &HeaderCheck) -> (s: String)
    ensures
        s@ == check_line(*st, *c),
{
    let badge = match c.status {
        HeaderStatus::Pass => st.badge_pass("PASS"),
        HeaderStatus::Warn => st.badge_warn("WARN"),
        HeaderStatus::Fail => st.badge_fail("FAIL"),
        HeaderStatus::Info => st.badge_info("INFO"),
    };
    let b = pad_chars_to(badge.as_str(), 4);
    let n = st.c_fg(c.name.as_str());
    let n = pad_chars_to(n.as_str(), 30);
    let v = st.c_muted(c.value.as_str());
    let mut s = String::new();
    append_str(&mut s, "  ");
    append_str(&mut s, b.as_str());
    append_str(&mut s, "  ");
    append_str(&mut s, n.as_str());
    append_str(&mut s, " ");
    append_str(&mut s, v.as_str());
    assert(s@ =~= check_line(*st, *c));
    s
}

/// The security headers section: one badge line per check and the score
/// bar (or a note that the HTTP probe failed).
pub fn render_headers_section(
    st: &Style,
    tw: usize,
    security_headers: Option<&SecurityHeadersProbe>,
    selected_sections: &SectionSet,
    verbose: bool,
) -> (lines: Vec<String>)
    requires
        security_headers matches Some(p) ==> p.score <= 10,
    ensures
        line_views(lines@) == if shows(selected_sections@, SectionName::Headers) {
            headers_section_spec(
                *st,
                tw as nat,
                match security_headers {
                    Some(p) => Some(*p),
                    None => None,
                },
                verbose,
            )
        } else {
            Seq::<Seq<char>>::empty()
        },
{
    let mut lines: Vec<String> = Vec::new();
    assert(line_views(lines@) =~= Seq::<Seq<char>>::empty());
    if !should_show(selected_sections, SectionName::Headers) {
        return lines;
    }
    push_head(&mut lines, st, "\u{1F6E1}", "Security Headers", tw);
    push_note(
        &mut lines,
        st,
        verbose,
        "Checks presence and correctness of 8 security headers: HSTS, CSP, X-Frame-Options, X-Content-Type-Options, Permissions-Policy, COOP, Referrer-Policy, X-XSS-Protection.",
    );
    let ghost base = line_views(lines@);
    match security_headers {
        Some(p) => {
            let mut i: usize = 0;
            while i < p.checks.len()
                invariant
                    i <= p.checks.len(),
                    line_views(lines@) == base + check_lines(*st, p.checks@.take(i as int)),
                decreases p.checks.len() - i,
            {
                assert(p.checks@.take(i + 1).drop_last() =~= p.checks@.take(i as int));
                let s = check_text(st, &p.checks[i]);
                push_line(&mut lines, s);
                assert(line_views(lines@) =~= base + check_lines(*st, p.checks@.take(i + 1)));
                i = i + 1;
            }
            assert(p.checks@.take(p.checks.len() as int) =~= p.checks@);
            push_line(&mut lines, String::new());
            assert(crate::style::filled_cells(p.score as nat, 10) <= 10) by (nonlinear_arith)
                requires
                    p.score <= 10,
            {
            }
            let bar = st.score_bar(p.score, 10);
            push_line(&mut lines, row(st, "Score", bar.as_str()));
        },
        None => {
            let m = st.c_muted("unavailable (HTTP probe failed)");
            push_line(&mut lines, row(st, "Security Headers", m.as_str()));
        },
    }
    assert(line_views(lines@) =~= headers_section_spec(
        *st,
        tw as nat,
        match security_headers {
            Some(p) => Some(*p),
            None => None,
        },
        verbose,
    ));
    lines
}

/// The timed probes that succeeded, in report order, with their times.
pub open spec fn perf_entries_spec(
    http: Outcome<HttpProbe>,
    redirect: Outcome<RedirectProbe>,
    dns: Outcome<DnsProbe>,
    tls: Outcome<TlsProbe>,
    rdap: Outcome<RdapProbe>,
) -> Seq<(Seq<char>, u64)> {
    (match http {
        Ok(p) => seq![("HTTP"@, p.elapsed_ms)],
        Err(_) => seq![],
    }) + (match redirect {
        Ok(p) => seq![("Redirect"@, p.elapsed_ms)],
        Err(_) => seq![],
    }) + (match dns {
        Ok(p) => seq![("DNS"@, p.elapsed_ms)],
        Err(_) => seq![],
    }) + (match tls {
        Ok(p) => seq![("TLS"@, p.elapsed_ms)],
        Err(_) => seq![],
    }) + match rdap {
        Ok(p) => seq![("RDAP"@, p.elapsed_ms)],
        Err(_) => seq![],
    }
}

/// A timing entry: the probe's name and its time in milliseconds.
pub struct PerfEntry {
    pub label: String,
    pub ms: u64,
}

/// The character view of timing entries.
pub open spec fn entry_views(v: Seq<PerfEntry>) -> Seq<(Seq<char>, u64)> {
    Seq::new(v.len(), |i: int| (v[i].label@, v[i].ms))
}

/// Appends an entry.
fn push_entry(v: &mut Vec<PerfEntry>, label: &str, ms: u64)
    ensures
        entry_views(final(v)@) == entry_views(old(v)@).push((label@, ms)),
{
    let ghost before = entry_views(v@);
    v.push(PerfEntry { label: string_of(crate::text::chars_of(label).as_slice()), ms });
    assert(entry_views(v@) =~= before.push((label@, ms)));
}

/// The timings of the probes that succeeded, in report order.
pub fn perf_entries(
    http_result: &Outcome<HttpProbe>,
    redirect_result: &Outcome<RedirectProbe>,
    dns_result: &Outcome<DnsProbe>,
    tls_result: &Outcome<TlsProbe>,
    rdap_result: &Outcome<RdapProbe>,
) -> (v: Vec<PerfEntry>)
    ensures
        entry_views(v@) == perf_entries_spec(*http_result, *redirect_result, *dns_result, *tls_result, *rdap_result),
{
    let mut v: Vec<PerfEntry> = Vec::new();
    assert(entry_views(v@) =~= Seq::<(Seq<char>, u64)>::empty());
    if let Ok(p) = http_result {
        push_entry(&mut v, "HTTP", p.elapsed_ms);
    }
    let ghost a = entry_views(v@);
    if let Ok(p) = redirect_result {
        push_entry(&mut v, "Redirect", p.elapsed_ms);
    }
    let ghost b = entry_views(v@);
    if let Ok(p) = dns_result {
        push_entry(&mut v, "DNS", p.elapsed_ms);
    }
    let ghost c = entry_views(v@);
    if let Ok(p) = tls_result {
        push_entry(&mut v, "TLS", p.elapsed_ms);
    }
    let ghost d = entry_views(v@);
    if let Ok(p) = rdap_result {
        push_entry(&mut v, "RDAP", p.elapsed_ms);
    }
    assert(entry_views(v@) =~= perf_entries_spec(*http_result, *redirect_result, *dns_result, *tls_result, *rdap_result));
    v
}

/// The largest time among the entries, at least one.
pub open spec fn max_ms_from(e: Seq<PerfEntry>) -> u64
    decreases e.len(),
{
    if e.len() == 0 {
        1
    } else {
        let rest = max_ms_from(e.drop_last());
        if e.last().ms > rest { e.last().ms } else { rest }
    }
}

/// The time the bars are scaled to: the longest entry, at least one
/// millisecond.
pub fn perf_max_ms(entries: &[PerfEntry]) -> (m: u64)
    ensures
        m == max_ms_from(entries@),
        m >= 1,
        forall|i: int| 0 <= i < entries@.len() ==> #[trigger] entries@[i].ms <= m,
{
    let mut m: u64 = 1;
    let mut i: usize = 0;
    while i < entries.len()
        invariant
            i <= entries.len(),
            m == max_ms_from(entries@.take(i as int)),
            m >= 1,
            forall|k: int| 0 <= k < i ==> #[trigger] entries@[k].ms <= m,
        decreases entries.len() - i,
    {
        assert(entries@.take(i + 1).drop_last() =~= entries@.take(i as int));
        if entries[i].ms > m {
            m = entries[i].ms;
        }
        i = i + 1;
    }
    assert(entries@.take(entries.len() as int) =~= entries@);
    m
}

/// The row of one timing: muted label, right-aligned time, and a dimmed
/// twenty-cell bar with `filled` cells filled.
pub open spec fn perf_row(st: Style, label: Seq<char>, ms: nat, filled: nat) -> Seq<char> {
    "  "@ + padded(st.painted(label, MUTED as int, false), 20, Align::Left) + padded(
        st.painted(decimal(ms), FG as int, false),
        6,
        Align::Right,
    ) + " ms  "@ + st.painted(
        crate::text::repeat('\u{2588}', filled) + crate::text::repeat('\u{2591}', (20 - filled) as nat),
        DIM as int,
        false,
    )
}

/// The rows of the timings.
pub open spec fn perf_rows(st: Style, e: Seq<PerfEntry>, filled: Seq<usize>) -> Seq<Seq<char>>
    decreases e.len(),
{
    if e.len() == 0 {
        seq![]
    } else {
        perf_rows(st, e.drop_last(), filled.drop_last()) + seq![
            perf_row(st, e.last().label@, e.last().ms as nat, filled.last() as nat),
        ]
    }
}

/// The lines of the performance section.
pub open spec fn perf_section_spec(
    st: Style,
    tw: nat,
    e: Seq<PerfEntry>,
    filled: Seq<usize>,
    total_ms: nat,
    verbose: bool,
) -> Seq<Seq<char>> {
    section_head(st, "\u{26A1}"@, "Perf Timings"@, tw) + note_if(st, verbose, perf_note()) + perf_rows(st, e, filled)
        + seq![
        "  "@ + st.painted(crate::text::repeat('\u{2500}', 29), DIM as int, false),
        "  "@ + padded(st.painted("Total"@, MUTED as int, false), 20, Align::Left) + padded(
            st.painted(decimal(total_ms), FG as int, false),
            6,
            Align::Right,
        ) + " ms"@,
    ]
}

/// What the performance section measures.
pub open spec fn perf_note() -> Seq<char> {
    "Wall-clock time per probe. Probes run in parallel by default; use --sequential for isolated timings."@
}

/// `"  "`, the label padded, the number right-aligned.
fn label_and_number(st: &Style, label: &str, n: u64) -> (s: String)
    ensures
        s@ == "  "@ + padded(st.painted(label@, MUTED as int, false), 20, Align::Left) + padded(
            st.painted(decimal(n as nat), FG as int, false),
            6,
            Align::Right,
        ),
{
    let l = st.c_muted(label);
    let l = crate::text::pad_visible(l.as_str(), 20, '<');
    let mut num = String::new();
    push_decimal(&mut num, n);
    let num = st.c_fg(num.as_str());
    let num = crate::text::pad_visible(num.as_str(), 6, '>');
    let mut s = String::new();
    append_str(&mut s, "  ");
    append_str(&mut s, l.as_str());
    append_str(&mut s, num.as_str());
    s
}

/// The performance section: one row per timed probe, its bar filled in
/// proportion to the longest (the caller gives the filled cells, at most
/// twenty, one per entry), then the total.
pub fn render_perf_section(
    st: &Style,
    tw: usize,
    entries: &[PerfEntry],
    filled: &[usize],
    total_elapsed_ms: u64,
    selected_sections: &SectionSet,
    verbose: bool,
) -> (lines: Vec<String>)
    requires
        filled.len() == entries.len(),
        forall|i: int| 0 <= i < filled.len() ==> #[trigger] filled[i] <= 20,
    ensures
        line_views(lines@) == if shows(selected_sections@, SectionName::Performance) {
            perf_section_spec(*st, tw as nat, entries@, filled@, total_elapsed_ms as nat, verbose)
        } else {
            Seq::<Seq<char>>::empty()
        },
{
    let mut lines: Vec<String> = Vec::new();
    assert(line_views(lines@) =~= Seq::<Seq<char>>::empty());
    if !should_show(selected_sections, SectionName::Performance) {
        return lines;
    }
    push_head(&mut lines, st, "\u{26A1}", "Perf Timings", tw);
    push_note(
        &mut lines,
        st,
        verbose,
        "Wall-clock time per probe. Probes run in parallel by default; use --sequential for isolated timings.",
    );
    let ghost base = line_views(lines@);
    let mut i: usize = 0;
    while i < entries.len()
        invariant
            i <= entries.len(),
            filled.len() == entries.len(),
            forall|k: int| 0 <= k < filled.len() ==> #[trigger] filled[k] <= 20,
            line_views(lines@) == base + perf_rows(*st, entries@.take(i as int), filled@.take(i as int)),
        decreases entries.len() - i,
    {
        assert(entries@.take(i + 1).drop_last() =~= entries@.take(i as int));
        assert(filled@.take(i + 1).drop_last() =~= filled@.take(i as int));
        let e = &entries[i];
        let f = filled[i];
        let mut s = label_and_number(st, e.label.as_str(), e.ms);
        append_str(&mut s, " ms  ");
        let mut bar = String::new();
        crate::text::push_repeat(&mut bar, '\u{2588}', f);
        crate::text::push_repeat(&mut bar, '\u{2591}', 20 - f);
        let bar = st.c_dim(bar.as_str());
        append_str(&mut s, bar.as_str());
        assert(s@ =~= perf_row(*st, e.label@, e.ms as nat, f as nat));
        push_line(&mut lines, s);
        assert(line_views(lines@) =~= base + perf_rows(*st, entries@.take(i + 1), filled@.take(i + 1)));
        i = i + 1;
    }
    assert(entries@.take(entries.len() as int) =~= entries@);
    assert(filled@.take(filled.len() as int) =~= filled@);
    let mut rule = String::new();
    crate::text::push_repeat(&mut rule, '\u{2500}', 29);
    let rule = st.c_dim(rule.as_str());
    push_line(&mut lines, concat("  ", rule.as_str()));
    let mut total = label_and_number(st, "Total", total_elapsed_ms);
    append_str(&mut total, " ms");
    push_line(&mut lines, total);
    assert(line_views(lines@) =~= perf_section_spec(
        *st,
        tw as nat,
        entries@,
        filled@,
        total_elapsed_ms as nat,
        verbose,
    ));
    lines
}

/// The grade letter in bold: green for A+ and A, yellow for B, orange for
/// C, red otherwise.
pub open spec fn grade_label(st: Style, grade: Seq<char>) -> Seq<char> {
    if grade == "A+"@ || grade == "A"@ {
        st.painted(grade, GREEN as int, true)
    } else if grade == "B"@ {
        st.painted(grade, YELLOW as int, true)
    } else if grade == "C"@ {
        st.painted(grade, ORANGE as int, true)
    } else {
        st.painted(grade, RED as int, true)
    }
}

/// Inner width of the summary box: 48 columns, less on a narrow terminal.
pub open spec fn box_width(tw: nat) -> nat {
    let t = if tw < 72 { tw } else { 72 };
    let avail = if t >= 6 { (t - 6) as nat } else { 0 };
    if avail < 48 { avail } else { 48 }
}

/// The left part of box row `i`: the grade on the first row, `OVERALL`
/// under it, blank below.
pub open spec fn box_left(st: Style, grade: Seq<char>, i: int) -> Seq<char> {
    if i == 0 {
        padded("  "@ + padded(grade_label(st, grade), 12, Align::Center), 16, Align::Left)
    } else if i == 1 {
        padded("  "@ + padded(st.painted("OVERALL"@, DIM as int, false), 12, Align::Center), 16, Align::Left)
    } else {
        crate::text::repeat(' ', 16)
    }
}

/// Box row `i`: the left part, the component's name, its score bar, padded
/// inside the box's borders.
pub open spec fn box_row(st: Style, grade: Seq<char>, i: int, label: Seq<char>, score: nat, inner: nat) -> Seq<char> {
    "  \u{2502}"@ + padded(
        box_left(st, grade, i) + padded(st.painted(label, FG as int, false), 14, Align::Left) + st.score_bar_spec(
            score,
            10,
        ),
        inner,
        Align::Left,
    ) + "\u{2502}"@
}

/// The grade box: a blank line, the top border, the five component rows
/// and the bottom border.
pub open spec fn summary_box_spec(st: Style, tw: nat, g: GradeResult) -> Seq<Seq<char>> {
    let inner = box_width(tw);
    let border = crate::text::repeat('\u{2500}', inner);
    seq![
        seq![],
        "  "@ + st.painted("\u{256D}"@, DIM as int, false) + st.painted(border, DIM as int, false) + st.painted(
            "\u{256E}"@,
            DIM as int,
            false,
        ),
        box_row(st, g.grade@, 0, "HTTP"@, g.http_score as nat, inner),
        box_row(st, g.grade@, 1, "TLS"@, g.tls_score as nat, inner),
        box_row(st, g.grade@, 2, "Headers"@, g.headers_score as nat, inner),
        box_row(st, g.grade@, 3, "DNS"@, g.dns_score as nat, inner),
        box_row(st, g.grade@, 4, "Performance"@, g.perf_score as nat, inner),
        "  "@ + st.painted("\u{2570}"@, DIM as int, false) + st.painted(border, DIM as int, false) + st.painted(
            "\u{256F}"@,
            DIM as int,
            false,
        ),
    ]
}

/// The note under the grade box.
pub open spec fn summary_footer(st: Style) -> Seq<char> {
    "  "@ + st.painted(
        "Performance score reflects total probe time. Use "@ + st.painted("--sequential"@, CYAN as int, false)
            + " for isolated timings, "@ + st.painted("--verbose"@, CYAN as int, false) + " for scoring methodology."@,
        MUTED as int,
        false,
    )
}

/// The lines of the summary section.
pub open spec fn summary_section_spec(st: Style, tw: nat, g: GradeResult, total_ms: nat, verbose: bool) -> Seq<
    Seq<char>,
> {
    section_head(st, "\u{25C9}"@, "Summary Grade"@, tw) + note_if(st, verbose, summary_note()) + summary_box_spec(
        st,
        tw,
        g,
    ) + seq![summary_footer(st), seq![], row_spec(st, "Completed"@, millis_text(total_ms))]
}

/// How the summary grade is made.
pub open spec fn summary_note() -> Seq<char> {
    "Weighted composite: TLS 25%, HTTP 25%, Headers 20%, DNS 15%, Perf 15%. Grades: A+ >=95, A >=85, B >=75, C >=65, D >=50, F <50."@
}

/// The grade letter, colored.
fn grade_text(st: &Style, grade: &str) -> (s: String)
    ensures
        s@ == grade_label(*st, grade@),
{
    let g = crate::text::chars_of(grade);
    proof {
        reveal_strlit("A+");
        reveal_strlit("A");
        reveal_strlit("B");
        reveal_strlit("C");
        assert("A+"@ =~= seq!['A', '+']);
        assert("A"@ =~= seq!['A']);
        assert("B"@ =~= seq!['B']);
        assert("C"@ =~= seq!['C']);
    }
    let a_plus: [char; 2] = ['A', '+'];
    let a: [char; 1] = ['A'];
    let b: [char; 1] = ['B'];
    let c: [char; 1] = ['C'];
    assert(a_plus@ =~= seq!['A', '+']);
    assert(a@ =~= seq!['A']);
    assert(b@ =~= seq!['B']);
    assert(c@ =~= seq!['C']);
    if crate::text::same_chars(g.as_slice(), a_plus.as_slice()) || crate::text::same_chars(g.as_slice(), a.as_slice()) {
        st.c_bold_green(grade)
    } else if crate::text::same_chars(g.as_slice(), b.as_slice()) {
        st.c_bold_yellow(grade)
    } else if crate::text::same_chars(g.as_slice(), c.as_slice()) {
        st.c_bold_orange(grade)
    } else {
        st.c_bold_red(grade)
    }
}

/// Box row `i`.
fn box_row_text(st: &Style, grade: &str, i: usize, label: &str, score: u32, inner: usize) -> (s: String)
    requires
        score <= 10,
    ensures
        s@ == box_row(*st, grade@, i as int, label@, score as nat, inner as nat),
{
    let left = if i == 0 {
        let g = grade_text(st, grade);
        let g = crate::text::pad_visible(g.as_str(), 12, '^');
        let l = concat("  ", g.as_str());
        crate::text::pad_visible(l.as_str(), 16, '<')
    } else if i == 1 {
        let o = st.c_dim("OVERALL");
        let o = crate::text::pad_visible(o.as_str(), 12, '^');
        let l = concat("  ", o.as_str());
        crate::text::pad_visible(l.as_str(), 16, '<')
    } else {
        let mut l = String::new();
        crate::text::push_repeat(&mut l, ' ', 16);
        l
    };
    let lab = st.c_fg(label);
    let lab = crate::text::pad_visible(lab.as_str(), 14, '<');
    assert(crate::style::filled_cells(score as nat, 10) <= 10) by (nonlinear_arith)
        requires
            score <= 10,
    {
    }
    let bar = st.score_bar(score, 10);
    let mut content = String::new();
    append_str(&mut content, left.as_str());
    append_str(&mut content, lab.as_str());
    append_str(&mut content, bar.as_str());
    let padded_content = crate::text::pad_visible(content.as_str(), inner, '<');
    let mut s = String::new();
    append_str(&mut s, "  \u{2502}");
    append_str(&mut s, padded_content.as_str());
    append_str(&mut s, "\u{2502}");
    assert(s@ =~= box_row(*st, grade@, i as int, label@, score as nat, inner as nat));
    s
}

/// A box border: a corner, the rule, the other corner, all dimmed.
fn border_line(st: &Style, left: &str, rule: &str, right: &str) -> (s: String)
    ensures
        s@ == "  "@ + st.painted(left@, DIM as int, false) + st.painted(rule@, DIM as int, false) + st.painted(
            right@,
            DIM as int,
            false,
        ),
{
    let a = st.c_dim(left);
    let b = st.c_dim(rule);
    let c = st.c_dim(right);
    let mut s = String::new();
    append_str(&mut s, "  ");
    append_str(&mut s, a.as_str());
    append_str(&mut s, b.as_str());
    append_str(&mut s, c.as_str());
    s
}

/// The grade box.
fn summary_box(st: &Style, tw: usize, grade: &GradeResult) -> (lines: Vec<String>)
    requires
        grade.http_score <= 10,
        grade.tls_score <= 10,
        grade.headers_score <= 10,
        grade.dns_score <= 10,
        grade.perf_score <= 10,
    ensures
        line_views(lines@) == summary_box_spec(*st, tw as nat, *grade),
{
    let mut lines: Vec<String> = Vec::new();
    let t: usize = if tw < 72 { tw } else { 72 };
    let avail: usize = if t >= 6 { t - 6 } else { 0 };
    let inner: usize = if avail < 48 { avail } else { 48 };
    let mut rule = String::new();
    crate::text::push_repeat(&mut rule, '\u{2500}', inner);
    push_line(&mut lines, String::new());
    push_line(&mut lines, border_line(st, "\u{256D}", rule.as_str(), "\u{256E}"));
    let g = grade.grade.as_str();
    push_line(&mut lines, box_row_text(st, g, 0, "HTTP", grade.http_score, inner));
    push_line(&mut lines, box_row_text(st, g, 1, "TLS", grade.tls_score, inner));
    push_line(&mut lines, box_row_text(st, g, 2, "Headers", grade.headers_score, inner));
    push_line(&mut lines, box_row_text(st, g, 3, "DNS", grade.dns_score, inner));
    push_line(&mut lines, box_row_text(st, g, 4, "Performance", grade.perf_score, inner));
    push_line(&mut lines, border_line(st, "\u{2570}", rule.as_str(), "\u{256F}"));
    assert(line_views(lines@) =~= summary_box_spec(*st, tw as nat, *grade));
    lines
}

/// The note under the grade box.
fn summary_footer_text(st: &Style) -> (s: String)
    ensures
        s@ == summary_footer(*st),
{
    let seq_flag = st.c_cyan("--sequential");
    let verbose_flag = st.c_cyan("--verbose");
    let mut note = String::new();
    append_str(&mut note, "Performance score reflects total probe time. Use ");
    append_str(&mut note, seq_flag.as_str());
    append_str(&mut note, " for isolated timings, ");
    append_str(&mut note, verbose_flag.as_str());
    append_str(&mut note, " for scoring methodology.");
    let note = st.c_muted(note.as_str());
    let s = concat("  ", note.as_str());
    assert(s@ =~= summary_footer(*st));
    s
}

/// The summary section: the grade and the five component score bars in a
/// box, a note on the performance score, and the total time.
pub fn render_summary_section(
    st: &Style,
    tw: usize,
    grade: &GradeResult,
    total_elapsed_ms: u64,
    selected_sections: &SectionSet,
    verbose: bool,
) -> (lines: Vec<String>)
    requires
        grade.http_score <= 10,
        grade.tls_score <= 10,
        grade.headers_score <= 10,
        grade.dns_score <= 10,
        grade.perf_score <= 10,
    ensures
        line_views(lines@) == if shows(selected_sections@, SectionName::Summary) {
            summary_section_spec(*st, tw as nat, *grade, total_elapsed_ms as nat, verbose)
        } else {
            Seq::<Seq<char>>::empty()
        },
{
    let mut lines: Vec<String> = Vec::new();
    assert(line_views(lines@) =~= Seq::<Seq<char>>::empty());
    if !should_show(selected_sections, SectionName::Summary) {
        return lines;
    }
    push_head(&mut lines, st, "\u{25C9}", "Summary Grade", tw);
    push_note(
        &mut lines,
        st,
        verbose,
        "Weighted composite: TLS 25%, HTTP 25%, Headers 20%, DNS 15%, Perf 15%. Grades: A+ >=95, A >=85, B >=75, C >=65, D >=50, F <50.",
    );
    push_lines(&mut lines, summary_box(st, tw, grade));
    push_line(&mut lines, summary_footer_text(st));
    push_line(&mut lines, String::new());
    let ms = millis(total_elapsed_ms);
    push_line(&mut lines, row(st, "Completed", ms.as_str()));
    assert(line_views(lines@) =~= summary_section_spec(*st, tw as nat, *grade, total_elapsed_ms as nat, verbose));
    lines
}

/// The lines of the methodology section (verbose reports only).
pub open spec fn methodology_spec(st: Style, tw: nat, verbose: bool, is_sequential: bool) -> Seq<Seq<char>> {
    if !verbose {
        seq![]
    } else {
        let dim = |t: Seq<char>| "  "@ + st.painted(t, DIM as int, false);
        let muted = |t: Seq<char>| "  "@ + st.painted(t, MUTED as int, false);
        section_head(st, "\u{2139}"@, "Methodology"@, tw) + seq![
            row_spec(
                st,
                "Execution Mode"@,
                if is_sequential {
                    "sequential (--sequential)"@
                } else {
                    "streaming (parallel probes)"@
                },
            ),
            seq![],
            muted("DNS Resolver"@),
            dim("  System nameservers + Cloudflare, parallel per record type"@),
            dim("  (A, AAAA, MX, NS, TXT, CAA). DoH fallback for failures."@),
            seq![],
            muted("Scoring Weights"@),
            dim("  TLS ............ 25%   protocol, cipher, cert validity"@),
            dim("  HTTP ........... 25%   status, version, redirects, domain health"@),
            dim("  Headers ........ 20%   security header presence and correctness"@),
            dim("  DNS ............ 15%   record coverage (A, AAAA, MX, NS, TXT, CAA)"@),
            dim("  Performance .... 15%   total probe wall-clock time"@),
            seq![],
            muted("Grade Thresholds"@),
            dim("  A+ >= 95 | A >= 85 | B >= 75 | C >= 65 | D >= 50 | F < 50"@),
            seq![],
        ]
    }
}

/// `"  "` then the text in a palette slot.
fn indented_painted(st: &Style, text: &str, slot_dim: bool) -> (s: String)
    ensures
        s@ == "  "@ + st.painted(text@, if slot_dim { DIM as int } else { MUTED as int }, false),
{
    let p = if slot_dim { st.c_dim(text) } else { st.c_muted(text) };
    concat("  ", p.as_str())
}

/// The methodology section, shown in verbose reports: the execution mode,
/// the resolvers, the scoring weights and the grade thresholds.
pub fn render_methodology_section(st: &Style, tw: usize, verbose: bool, is_sequential: bool) -> (lines: Vec<String>)
    ensures
        line_views(lines@) == methodology_spec(*st, tw as nat, verbose, is_sequential),
{
    let mut lines: Vec<String> = Vec::new();
    assert(line_views(lines@) =~= Seq::<Seq<char>>::empty());
    if !verbose {
        return lines;
    }
    push_head(&mut lines, st, "\u{2139}", "Methodology", tw);
    let mode = if is_sequential { "sequential (--sequential)" } else { "streaming (parallel probes)" };
    push_line(&mut lines, row(st, "Execution Mode", mode));
    push_line(&mut lines, String::new());
    push_line(&mut lines, indented_painted(st, "DNS Resolver", false));
    push_line(&mut lines, indented_painted(st, "  System nameservers + Cloudflare, parallel per record type", true));
    push_line(&mut lines, indented_painted(st, "  (A, AAAA, MX, NS, TXT, CAA). DoH fallback for failures.", true));
    push_line(&mut lines, String::new());
    push_line(&mut lines, indented_painted(st, "Scoring Weights", false));
    push_line(&mut lines, indented_painted(st, "  TLS ............ 25%   protocol, cipher, cert validity", true));
    push_line(&mut lines, indented_painted(st, "  HTTP ........... 25%   status, version, redirects, domain health", true));
    push_line(&mut lines, indented_painted(st, "  Headers ........ 20%   security header presence and correctness", true));
    push_line(&mut lines, indented_painted(st, "  DNS ............ 15%   record coverage (A, AAAA, MX, NS, TXT, CAA)", true));
    push_line(&mut lines, indented_painted(st, "  Performance .... 15%   total probe wall-clock time", true));
    push_line(&mut lines, String::new());
    push_line(&mut lines, indented_painted(st, "Grade Thresholds", false));
    push_line(&mut lines, indented_painted(st, "  A+ >= 95 | A >= 85 | B >= 75 | C >= 65 | D >= 50 | F < 50", true));
    push_line(&mut lines, String::new());
    assert(line_views(lines@) =~= methodology_spec(*st, tw as nat, verbose, is_sequential));
    lines
}

/// The first `n` bytes of `s`, when `n` falls on a character boundary.
pub open spec fn byte_prefix(s: Seq<char>, n: nat) -> Seq<char> {
    s.take(crate::text::fitting_prefix(s, n) as int)
}

/// Whether `n` falls on a character boundary of `s` (slicing there does
/// not panic).
pub open spec fn is_boundary(s: Seq<char>, n: nat) -> bool {
    exists|k: int| 0 <= k <= s.len() && crate::text::byte_len(#[trigger] s.take(k)) == n
}

/// A record list joined with commas, or `none`.
pub open spec fn list_or_none(v: Seq<String>) -> Seq<char> {
    if v.len() == 0 {
        "none"@
    } else {
        joined_with(line_views(v), ", "@)
    }
}

/// An MX record: exchange and priority.
pub open spec fn mx_text(m: MxRecord) -> Seq<char> {
    m.exchange@ + " (pri "@ + decimal(m.priority as nat) + ")"@
}

/// A TXT record as the single column shows it: its first 80 bytes and
/// `...` when it is longer.
pub open spec fn txt_shown(t: Seq<char>) -> Seq<char> {
    if crate::text::byte_len(t) > 80 {
        byte_prefix(t, 80) + "..."@
    } else {
        t
    }
}

/// Rows of one record type, one per value.
pub open spec fn typed_rows(st: Style, record_type: Seq<char>, values: Seq<Seq<char>>) -> Seq<Seq<char>>
    decreases values.len(),
{
    if values.len() == 0 {
        seq![]
    } else {
        typed_rows(st, record_type, values.drop_last()) + seq![row_type_spec(st, record_type, values.last())]
    }
}

/// The MX values.
pub open spec fn mx_values(mx: Seq<MxRecord>) -> Seq<Seq<char>> {
    Seq::new(mx.len(), |i: int| mx_text(mx[i]))
}

/// The TXT values as the single column shows them.
pub open spec fn txt_values(txt: Seq<String>) -> Seq<Seq<char>> {
    Seq::new(txt.len(), |i: int| txt_shown(txt[i]@))
}

/// The DNS records one per row: A, AAAA (`none` when empty), each MX, the
/// NS list, each TXT (cut at 80 bytes), each CAA.
pub open spec fn dns_single_rows(st: Style, d: DnsProbe) -> Seq<Seq<char>> {
    seq![row_type_spec(st, "A"@, list_or_none(d.ipv4@)), row_type_spec(st, "AAAA"@, list_or_none(d.ipv6@))]
        + typed_rows(st, "MX"@, mx_values(d.mx@)) + (if d.ns@.len() > 0 {
        seq![row_type_spec(st, "NS"@, joined_with(line_views(d.ns@), ", "@))]
    } else {
        seq![]
    }) + typed_rows(st, "TXT"@, txt_values(d.txt@)) + typed_rows(st, "CAA"@, line_views(d.caa@))
}

/// Whether every TXT record longer than 80 bytes can be cut there.
pub open spec fn txt_cuts_cleanly(d: DnsProbe) -> bool {
    forall|i: int|
        0 <= i < d.txt@.len() && crate::text::byte_len(#[trigger] d.txt@[i]@) > 80 ==> is_boundary(d.txt@[i]@, 80)
}

/// The left column of the wide layout: A, AAAA, each MX, NS.
pub open spec fn left_cells(d: DnsProbe) -> Seq<(Seq<char>, Seq<char>)> {
    seq![("A"@, list_or_none(d.ipv4@)), ("AAAA"@, list_or_none(d.ipv6@))] + Seq::new(
        d.mx@.len(),
        |i: int| ("MX"@, mx_text(d.mx@[i])),
    ) + if d.ns@.len() > 0 {
        seq![("NS"@, joined_with(line_views(d.ns@), ", "@))]
    } else {
        seq![]
    }
}

/// The right column of the wide layout: each TXT, each CAA.
pub open spec fn right_cells(d: DnsProbe) -> Seq<(Seq<char>, Seq<char>)> {
    Seq::new(d.txt@.len(), |i: int| ("TXT"@, d.txt@[i]@)) + Seq::new(d.caa@.len(), |i: int| ("CAA"@, d.caa@[i]@))
}

/// Width of a column, and of its values, on a terminal `tw` wide.
pub open spec fn col_width(tw: nat) -> nat {
    if tw >= 8 { ((tw - 8) as nat) / 2 } else { 0 }
}

pub open spec fn val_max(tw: nat) -> nat {
    if col_width(tw) >= 9 { (col_width(tw) - 9) as nat } else { 0 }
}

/// A value cut to `max` bytes: the first `max - 3` bytes and `...`.
pub open spec fn cut_to(v: Seq<char>, max: nat) -> Seq<char> {
    if crate::text::byte_len(v) > max {
        byte_prefix(v, if max >= 3 { (max - 3) as nat } else { 0 }) + "..."@
    } else {
        v
    }
}

/// One cell of the wide layout: the type padded to seven columns, the value
/// cut to fit.
pub open spec fn cell_text(st: Style, c: (Seq<char>, Seq<char>), max: nat) -> Seq<char> {
    padded(st.painted(c.0, PURPLE as int, true), 7, Align::Left) + cut_to(c.1, max)
}

/// Row `i` of the wide layout.
pub open spec fn two_col_line(st: Style, l: Seq<(Seq<char>, Seq<char>)>, r: Seq<(Seq<char>, Seq<char>)>, i: int, tw: nat) -> Seq<char> {
    let left = if i < l.len() {
        padded(cell_text(st, l[i], val_max(tw)), col_width(tw), Align::Left)
    } else {
        crate::text::repeat(' ', col_width(tw))
    };
    let right = if i < r.len() { cell_text(st, r[i], val_max(tw)) } else { seq![] };
    "  "@ + left + "    "@ + right
}

/// The rows of the wide layout from row `i` on.
pub open spec fn two_col_lines(st: Style, l: Seq<(Seq<char>, Seq<char>)>, r: Seq<(Seq<char>, Seq<char>)>, i: nat, tw: nat) -> Seq<
    Seq<char>,
>
    decreases (if l.len() > r.len() { l.len() } else { r.len() }) - i,
{
    if i >= l.len() && i >= r.len() {
        seq![]
    } else {
        seq![two_col_line(st, l, r, i as int, tw)] + two_col_lines(st, l, r, i + 1, tw)
    }
}

/// Whether every cell value too long for its column can be cut.
pub open spec fn cells_cut_cleanly(cells: Seq<(Seq<char>, Seq<char>)>, max: nat) -> bool {
    forall|i: int|
        0 <= i < cells.len() && crate::text::byte_len(#[trigger] cells[i].1) > max ==> is_boundary(
            cells[i].1,
            if max >= 3 { (max - 3) as nat } else { 0 },
        )
}

/// The records of the DNS section: two columns on a terminal 120 wide or
/// more when both have records, one column otherwise.
pub open spec fn dns_rows(st: Style, d: DnsProbe, tw: nat) -> Seq<Seq<char>> {
    if tw >= 120 && right_cells(d).len() > 0 {
        two_col_lines(st, left_cells(d), right_cells(d), 0, tw)
    } else {
        dns_single_rows(st, d)
    }
}

/// Whether the values the layout cuts can be cut where it cuts them.
pub open spec fn dns_cuts_cleanly(d: DnsProbe, tw: nat) -> bool {
    if tw >= 120 && right_cells(d).len() > 0 {
        cells_cut_cleanly(left_cells(d), val_max(tw)) && cells_cut_cleanly(right_cells(d), val_max(tw))
    } else {
        txt_cuts_cleanly(d)
    }
}

/// Whether the server header names Cloudflare (whose anycast addresses vary
/// by client location).
pub open spec fn cloudflare_server(http: Option<HttpProbe>) -> bool {
    match http {
        Some(h) => match h.server {
            Some(s) => crate::text::contains_seq(crate::text::lower(s@), "cloudflare"@),
            None => false,
        },
        None => false,
    }
}

/// The lines of the DNS section.
pub open spec fn dns_section_spec(st: Style, tw: nat, dns: Outcome<DnsProbe>, http: Option<HttpProbe>, verbose: bool) -> Seq<
    Seq<char>,
> {
    section_head(st, "\u{25C8}"@, "DNS Records"@, tw) + note_if(st, verbose, dns_note()) + match dns {
        Ok(d) => dns_rows(st, d, tw) + (if cloudflare_server(http) {
            seq![
                seq![],
                row_spec(
                    st,
                    "Note"@,
                    st.painted("Cloudflare anycast edge IPs can vary by client location"@, MUTED as int, false),
                ),
            ]
        } else {
            seq![]
        }) + if verbose {
            seq![row_spec(st, "DNS Probe Time"@, millis_text(d.elapsed_ms as nat))]
        } else {
            seq![]
        },
        Err(e) => seq![row_spec(st, "DNS"@, failure_text(st, "lookup failed: "@, e@))],
    }
}

/// What the DNS section queries.
pub open spec fn dns_note() -> Seq<char> {
    "Resolves A, AAAA, MX, NS, TXT, CAA via system resolver + Cloudflare fallback. DoH used when system resolver fails."@
}

/// A record list joined with commas, or `none`.
fn list_text(v: &[String]) -> (s: String)
    ensures
        s@ == list_or_none(v@),
{
    if v.len() == 0 {
        string_of(crate::text::chars_of("none").as_slice())
    } else {
        join_strings(v, ", ")
    }
}

/// An MX record's text.
fn mx_value(m: &MxRecord) -> (s: String)
    ensures
        s@ == mx_text(*m),
{
    let mut s = String::new();
    append_str(&mut s, m.exchange.as_str());
    append_str(&mut s, " (pri ");
    push_decimal(&mut s, m.priority as u64);
    append_str(&mut s, ")");
    assert(s@ =~= mx_text(*m));
    s
}

/// The first `n` bytes of a text.
fn byte_prefix_text(s: &str, n: usize) -> (t: String)
    ensures
        t@ == byte_prefix(s@, n as nat),
{
    let cs = crate::text::chars_of(s);
    let k = crate::text::fitting_prefix_len(cs.as_slice(), n);
    let p = crate::text::prefix_of(cs.as_slice(), k);
    string_of(p.as_slice())
}

/// A TXT record as the single column shows it.
fn txt_text(t: &str) -> (s: String)
    ensures
        s@ == txt_shown(t@),
{
    let cs = crate::text::chars_of(t);
    if crate::text::fits_in_bytes(cs.as_slice(), 80) {
        string_of(cs.as_slice())
    } else {
        let p = byte_prefix_text(t, 80);
        concat(p.as_str(), "...")
    }
}

/// A value cut to `max` bytes.
fn cut_text(v: &str, max: usize) -> (s: String)
    ensures
        s@ == cut_to(v@, max as nat),
{
    let cs = crate::text::chars_of(v);
    if crate::text::fits_in_bytes(cs.as_slice(), max) {
        string_of(cs.as_slice())
    } else {
        let keep: usize = if max >= 3 { max - 3 } else { 0 };
        let p = byte_prefix_text(v, keep);
        concat(p.as_str(), "...")
    }
}

/// Appends one row of a record type per value.
fn push_typed(lines: &mut Vec<String>, st: &Style, record_type: &str, values: &[String])
    ensures
        line_views(final(lines)@) == line_views(old(lines)@) + typed_rows(*st, record_type@, line_views(values@)),
{
    let ghost start = line_views(lines@);
    let mut i: usize = 0;
    assert(line_views(values@.take(0)) =~= Seq::<Seq<char>>::empty());
    assert(line_views(lines@) =~= start + typed_rows(*st, record_type@, line_views(values@.take(0))));
    while i < values.len()
        invariant
            i <= values.len(),
            line_views(lines@) == start + typed_rows(*st, record_type@, line_views(values@.take(i as int))),
        decreases values.len() - i,
    {
        assert(line_views(values@.take(i + 1)).drop_last() =~= line_views(values@.take(i as int)));
        assert(line_views(values@.take(i + 1)).last() == values@[i as int]@);
        push_line(lines, row_type(st, record_type, values[i].as_str()));
        assert(line_views(lines@) =~= start + typed_rows(*st, record_type@, line_views(values@.take(i + 1))));
        i = i + 1;
    }
    assert(values@.take(values.len() as int) =~= values@);
}

/// The DNS records one per row.
fn dns_single(st: &Style, d: &DnsProbe) -> (lines: Vec<String>)
    ensures
        line_views(lines@) == dns_single_rows(*st, *d),
{
    let mut lines: Vec<String> = Vec::new();
    let a = list_text(d.ipv4.as_slice());
    push_line(&mut lines, row_type(st, "A", a.as_str()));
    let aaaa = list_text(d.ipv6.as_slice());
    push_line(&mut lines, row_type(st, "AAAA", aaaa.as_str()));
    let mut mx: Vec<String> = Vec::new();
    let mut i: usize = 0;
    while i < d.mx.len()
        invariant
            i <= d.mx.len(),
            line_views(mx@) == mx_values(d.mx@).take(i as int),
        decreases d.mx.len() - i,
    {
        let m = mx_value(&d.mx[i]);
        let ghost before = line_views(mx@);
        let ghost mv = m@;
        assert(mv == mx_values(d.mx@)[i as int]);
        mx.push(m);
        assert(line_views(mx@) =~= before.push(mv));
        assert(mx_values(d.mx@).take(i + 1) =~= mx_values(d.mx@).take(i as int).push(mv));
        i = i + 1;
    }
    assert(line_views(mx@) =~= mx_values(d.mx@));
    push_typed(&mut lines, st, "MX", mx.as_slice());
    let ghost after_mx = line_views(lines@);
    if d.ns.len() > 0 {
        let ns = join_strings(d.ns.as_slice(), ", ");
        push_line(&mut lines, row_type(st, "NS", ns.as_str()));
    }
    let ghost after_ns = line_views(lines@);
    let mut txt: Vec<String> = Vec::new();
    let mut j: usize = 0;
    while j < d.txt.len()
        invariant
            j <= d.txt.len(),
            line_views(txt@) == txt_values(d.txt@).take(j as int),
        decreases d.txt.len() - j,
    {
        let t = txt_text(d.txt[j].as_str());
        let ghost before = line_views(txt@);
        let ghost tv = t@;
        assert(tv == txt_values(d.txt@)[j as int]);
        txt.push(t);
        assert(line_views(txt@) =~= before.push(tv));
        assert(txt_values(d.txt@).take(j + 1) =~= txt_values(d.txt@).take(j as int).push(tv));
        j = j + 1;
    }
    assert(line_views(txt@) =~= txt_values(d.txt@));
    push_typed(&mut lines, st, "TXT", txt.as_slice());
    push_typed(&mut lines, st, "CAA", d.caa.as_slice());
    assert(line_views(lines@) =~= dns_single_rows(*st, *d));
    lines
}

/// The character views of cells.
pub open spec fn cell_views(v: Seq<(String, String)>) -> Seq<(Seq<char>, Seq<char>)> {
    Seq::new(v.len(), |i: int| (v[i].0@, v[i].1@))
}

/// Appends a cell.
fn push_cell(cells: &mut Vec<(String, String)>, t: &str, v: String)
    ensures
        cell_views(final(cells)@) == cell_views(old(cells)@).push((t@, v@)),
{
    let ghost before = cell_views(cells@);
    let ghost vv = v@;
    cells.push((string_of(crate::text::chars_of(t).as_slice()), v));
    assert(cell_views(cells@) =~= before.push((t@, vv)));
}

/// The left column's cells.
fn left_cells_of(d: &DnsProbe) -> (cells: Vec<(String, String)>)
    ensures
        cell_views(cells@) == left_cells(*d),
{
    let mut cells: Vec<(String, String)> = Vec::new();
    push_cell(&mut cells, "A", list_text(d.ipv4.as_slice()));
    push_cell(&mut cells, "AAAA", list_text(d.ipv6.as_slice()));
    let ghost base = cell_views(cells@);
    let mut i: usize = 0;
    while i < d.mx.len()
        invariant
            i <= d.mx.len(),
            cell_views(cells@) == base + Seq::new(i as nat, |k: int| ("MX"@, mx_text(d.mx@[k]))),
        decreases d.mx.len() - i,
    {
        push_cell(&mut cells, "MX", mx_value(&d.mx[i]));
        assert(cell_views(cells@) =~= base + Seq::new((i + 1) as nat, |k: int| ("MX"@, mx_text(d.mx@[k]))));
        i = i + 1;
    }
    if d.ns.len() > 0 {
        push_cell(&mut cells, "NS", join_strings(d.ns.as_slice(), ", "));
    }
    assert(cell_views(cells@) =~= left_cells(*d));
    cells
}

/// The right column's cells.
fn right_cells_of(d: &DnsProbe) -> (cells: Vec<(String, String)>)
    ensures
        cell_views(cells@) == right_cells(*d),
{
    let mut cells: Vec<(String, String)> = Vec::new();
    let mut i: usize = 0;
    while i < d.txt.len()
        invariant
            i <= d.txt.len(),
            cell_views(cells@) == Seq::new(i as nat, |k: int| ("TXT"@, d.txt@[k]@)),
        decreases d.txt.len() - i,
    {
        push_cell(&mut cells, "TXT", string_of(crate::text::chars_of(d.txt[i].as_str()).as_slice()));
        assert(cell_views(cells@) =~= Seq::new((i + 1) as nat, |k: int| ("TXT"@, d.txt@[k]@)));
        i = i + 1;
    }
    let ghost base = cell_views(cells@);
    let mut j: usize = 0;
    while j < d.caa.len()
        invariant
            j <= d.caa.len(),
            cell_views(cells@) == base + Seq::new(j as nat, |k: int| ("CAA"@, d.caa@[k]@)),
        decreases d.caa.len() - j,
    {
        push_cell(&mut cells, "CAA", string_of(crate::text::chars_of(d.caa[j].as_str()).as_slice()));
        assert(cell_views(cells@) =~= base + Seq::new((j + 1) as nat, |k: int| ("CAA"@, d.caa@[k]@)));
        j = j + 1;
    }
    assert(cell_views(cells@) =~= right_cells(*d));
    cells
}

/// One cell of the wide layout.
fn cell_line(st: &Style, t: &str, v: &str, max: usize) -> (s: String)
    ensures
        s@ == cell_text(*st, (t@, v@), max as nat),
{
    let ty = st.c_bold_purple(t);
    let ty = crate::text::pad_visible(ty.as_str(), 7, '<');
    let c = cut_text(v, max);
    concat(ty.as_str(), c.as_str())
}

/// The wide layout's rows.
fn dns_two_columns(st: &Style, l: &Vec<(String, String)>, r: &Vec<(String, String)>, tw: usize) -> (lines: Vec<String>)
    ensures
        line_views(lines@) == two_col_lines(*st, cell_views(l@), cell_views(r@), 0, tw as nat),
{
    let cw: usize = if tw >= 8 { (tw - 8) / 2 } else { 0 };
    let vm: usize = if cw >= 9 { cw - 9 } else { 0 };
    let ghost lv = cell_views(l@);
    let ghost rv = cell_views(r@);
    let n: usize = if l.len() > r.len() { l.len() } else { r.len() };
    let mut lines: Vec<String> = Vec::new();
    let mut i: usize = 0;
    assert(line_views(lines@) + two_col_lines(*st, lv, rv, 0, tw as nat) =~= two_col_lines(*st, lv, rv, 0, tw as nat));
    while i < n
        invariant
            i <= n,
            n == if l.len() > r.len() { l.len() } else { r.len() },
            cw == col_width(tw as nat),
            vm == val_max(tw as nat),
            lv == cell_views(l@),
            rv == cell_views(r@),
            line_views(lines@) + two_col_lines(*st, lv, rv, i as nat, tw as nat) == two_col_lines(*st, lv, rv, 0, tw as nat),
        decreases n - i,
    {
        let left = if i < l.len() {
            let c = cell_line(st, l[i].0.as_str(), l[i].1.as_str(), vm);
            crate::text::pad_visible(c.as_str(), cw, '<')
        } else {
            let mut s = String::new();
            crate::text::push_repeat(&mut s, ' ', cw);
            s
        };
        let right = if i < r.len() {
            cell_line(st, r[i].0.as_str(), r[i].1.as_str(), vm)
        } else {
            String::new()
        };
        let mut s = String::new();
        append_str(&mut s, "  ");
        append_str(&mut s, left.as_str());
        append_str(&mut s, "    ");
        append_str(&mut s, right.as_str());
        assert(s@ =~= two_col_line(*st, lv, rv, i as int, tw as nat));
        let ghost before = line_views(lines@);
        push_line(&mut lines, s);
        assert(two_col_lines(*st, lv, rv, i as nat, tw as nat) =~= seq![two_col_line(*st, lv, rv, i as int, tw as nat)]
            + two_col_lines(*st, lv, rv, (i + 1) as nat, tw as nat));
        assert(line_views(lines@) + two_col_lines(*st, lv, rv, (i + 1) as nat, tw as nat) =~= before
            + two_col_lines(*st, lv, rv, i as nat, tw as nat));
        i = i + 1;
    }
    assert(two_col_lines(*st, lv, rv, i as nat, tw as nat) =~= Seq::<Seq<char>>::empty());
    assert(line_views(lines@) =~= two_col_lines(*st, lv, rv, 0, tw as nat));
    lines
}

/// The DNS section: the records in one or two columns, a note when the
/// server is Cloudflare's anycast edge, and the probe time when verbose.
pub fn render_dns_section(
    st: &Style,
    tw: usize,
    dns_result: &Outcome<DnsProbe>,
    http_result: Option<&HttpProbe>,
    selected_sections: &SectionSet,
    verbose: bool,
) -> (lines: Vec<String>)
    requires
        dns_result matches Ok(d) ==> dns_cuts_cleanly(*d, tw as nat),
    ensures
        line_views(lines@) == if shows(selected_sections@, SectionName::Dns) {
            dns_section_spec(
                *st,
                tw as nat,
                *dns_result,
                match http_result {
                    Some(h) => Some(*h),
                    None => None,
                },
                verbose,
            )
        } else {
            Seq::<Seq<char>>::empty()
        },
{
    let mut lines: Vec<String> = Vec::new();
    assert(line_views(lines@) =~= Seq::<Seq<char>>::empty());
    if !should_show(selected_sections, SectionName::Dns) {
        return lines;
    }
    push_head(&mut lines, st, "\u{25C8}", "DNS Records", tw);
    push_note(
        &mut lines,
        st,
        verbose,
        "Resolves A, AAAA, MX, NS, TXT, CAA via system resolver + Cloudflare fallback. DoH used when system resolver fails.",
    );
    match dns_result {
        Ok(d) => {
            let rows = if tw >= 120 {
                let r = right_cells_of(d);
                if r.len() > 0 {
                    let l = left_cells_of(d);
                    dns_two_columns(st, &l, &r, tw)
                } else {
                    dns_single(st, d)
                }
            } else {
                dns_single(st, d)
            };
            push_lines(&mut lines, rows);
            let ghost mid = line_views(lines@);
            let cloudflare = match http_result {
                Some(h) => match &h.server {
                    Some(s) => {
                        proof {
                            reveal_strlit("cloudflare");
                            assert("cloudflare"@ =~= seq!['c', 'l', 'o', 'u', 'd', 'f', 'l', 'a', 'r', 'e']);
                        }
                        crate::text::contains_folded(
                            crate::text::chars_of(s.as_str()).as_slice(),
                            &['c', 'l', 'o', 'u', 'd', 'f', 'l', 'a', 'r', 'e'],
                        )
                    },
                    None => false,
                },
                None => false,
            };
            if cloudflare {
                push_line(&mut lines, String::new());
                let m = st.c_muted("Cloudflare anycast edge IPs can vary by client location");
                push_line(&mut lines, row(st, "Note", m.as_str()));
            }
            if verbose {
                let ms = millis(d.elapsed_ms);
                push_line(&mut lines, row(st, "DNS Probe Time", ms.as_str()));
            }
        },
        Err(e) => {
            let m = concat("lookup failed: ", e.as_str());
            let red = st.c_red(m.as_str());
            push_line(&mut lines, row(st, "DNS", red.as_str()));
        },
    }
    assert(line_views(lines@) =~= dns_section_spec(
        *st,
        tw as nat,
        *dns_result,
        match http_result {
            Some(h) => Some(*h),
            None => None,
        },
        verbose,
    ));
    lines
}

/// A technology as a tag: ` <icon> <name> `.
pub open spec fn tag_of(t: TechMatch) -> Seq<char> {
    " "@ + t.icon@ + " "@ + t.name@ + " "@
}

/// How a tag is shown: between dimmed bars with color, in brackets
/// (trimmed) without.
pub open spec fn tag_display(st: Style, tag: Seq<char>) -> Seq<char> {
    if st.use_color {
        st.painted("\u{2502}"@, DIM as int, false) + st.painted(tag, FG as int, false) + st.painted(
            "\u{2502}"@,
            DIM as int,
            false,
        )
    } else {
        "["@ + crate::text::trim(tag) + "]"@
    }
}

/// The tags laid out in lines no wider than the terminal: the finished
/// lines and the line being filled. A tag goes on a new line when the line
/// so far, the tag and four more bytes would pass the terminal width.
pub open spec fn tag_layout(st: Style, tags: Seq<Seq<char>>, tw: nat) -> (Seq<Seq<char>>, Seq<char>)
    decreases tags.len(),
{
    if tags.len() == 0 {
        (seq![], "  "@)
    } else {
        let (done, line) = tag_layout(st, tags.drop_last(), tw);
        let tag = tags.last();
        let shown = tag_display(st, tag) + " "@;
        if crate::text::byte_len(line) + crate::text::byte_len(tag) + 4 > tw {
            (done.push(line), "  "@ + shown)
        } else {
            (done, line + shown)
        }
    }
}

/// The lines of the tag cloud: the finished lines, and the last one unless
/// it is blank.
pub open spec fn tag_lines(st: Style, tags: Seq<Seq<char>>, tw: nat) -> Seq<Seq<char>> {
    let (done, line) = tag_layout(st, tags, tw);
    done + if crate::text::trim(line).len() > 0 {
        seq![line]
    } else {
        seq![]
    }
}

/// The tags of the technologies found.
pub open spec fn tags_of(ts: Seq<TechMatch>) -> Seq<Seq<char>> {
    Seq::new(ts.len(), |i: int| tag_of(ts[i]))
}

/// The lines of the tech section.
pub open spec fn tech_section_spec(st: Style, tw: nat, tech: Option<TechProbe>, verbose: bool) -> Seq<Seq<char>> {
    section_head(st, "\u{2699}"@, "Tech Fingerprint"@, tw) + note_if(
        st,
        verbose,
        "Detects technologies from HTTP response headers (Server, X-Powered-By, etc.)."@,
    ) + match tech {
        Some(t) if t.technologies@.len() > 0 => tag_lines(st, tags_of(t.technologies@), tw),
        _ => seq![row_spec(st, "Technologies"@, st.painted("none detected"@, MUTED as int, false))],
    }
}

/// One tag's text.
fn tag_text(t: &TechMatch) -> (s: String)
    ensures
        s@ == tag_of(*t),
{
    let mut s = String::new();
    append_str(&mut s, " ");
    append_str(&mut s, t.icon.as_str());
    append_str(&mut s, " ");
    append_str(&mut s, t.name.as_str());
    append_str(&mut s, " ");
    assert(s@ =~= tag_of(*t));
    s
}

/// How one tag is shown.
fn tag_shown(st: &Style, tag: &str) -> (s: String)
    ensures
        s@ == tag_display(*st, tag@),
{
    if st.use_color {
        let a = st.c_dim("\u{2502}");
        let b = st.c_fg(tag);
        let c = st.c_dim("\u{2502}");
        let mut s = String::new();
        append_str(&mut s, a.as_str());
        append_str(&mut s, b.as_str());
        append_str(&mut s, c.as_str());
        assert(s@ =~= tag_display(*st, tag@));
        s
    } else {
        let t = crate::text::trimmed(crate::text::chars_of(tag).as_slice());
        let mut s = String::new();
        append_str(&mut s, "[");
        let ts = string_of(t.as_slice());
        append_str(&mut s, ts.as_str());
        append_str(&mut s, "]");
        assert(s@ =~= tag_display(*st, tag@));
        s
    }
}

/// Whether a line, a tag and four more bytes pass the terminal width.
fn overflows(line: &str, tag: &str, tw: usize) -> (b: bool)
    ensures
        b == (crate::text::byte_len(line@) + crate::text::byte_len(tag@) + 4 > tw),
{
    if tw < 4 {
        return true;
    }
    let both = concat(line, tag);
    proof {
        crate::text::lemma_byte_len_concat_text(line@, tag@);
    }
    let cs = crate::text::chars_of(both.as_str());
    !crate::text::fits_in_bytes(cs.as_slice(), tw - 4)
}

/// The tech section: the technologies found as tags, wrapped to the
/// terminal width (or a note that none were detected).
pub fn render_tech_section(
    st: &Style,
    tw: usize,
    tech_result: Option<&TechProbe>,
    selected_sections: &SectionSet,
    verbose: bool,
) -> (lines: Vec<String>)
    ensures
        line_views(lines@) == if shows(selected_sections@, SectionName::Tech) {
            tech_section_spec(
                *st,
                tw as nat,
                match tech_result {
                    Some(t) => Some(*t),
                    None => None,
                },
                verbose,
            )
        } else {
            Seq::<Seq<char>>::empty()
        },
{
    let mut lines: Vec<String> = Vec::new();
    assert(line_views(lines@) =~= Seq::<Seq<char>>::empty());
    if !should_show(selected_sections, SectionName::Tech) {
        return lines;
    }
    push_head(&mut lines, st, "\u{2699}", "Tech Fingerprint", tw);
    push_note(
        &mut lines,
        st,
        verbose,
        "Detects technologies from HTTP response headers (Server, X-Powered-By, etc.).",
    );
    let ghost base = line_views(lines@);
    let has_tags = match tech_result {
        Some(t) => t.technologies.len() > 0,
        None => false,
    };
    if has_tags {
        let t = tech_result.unwrap();
        let ghost tags = tags_of(t.technologies@);
        let mut line = string_of(crate::text::chars_of("  ").as_slice());
        let mut i: usize = 0;
        assert(tags.take(0) =~= Seq::<Seq<char>>::empty());
        while i < t.technologies.len()
            invariant
                i <= t.technologies.len(),
                tags == tags_of(t.technologies@),
                (line_views(lines@).subrange(base.len() as int, line_views(lines@).len() as int), line@)
                    == tag_layout(*st, tags.take(i as int), tw as nat),
                line_views(lines@).len() >= base.len(),
                line_views(lines@).subrange(0, base.len() as int) == base,
            decreases t.technologies.len() - i,
        {
            let ghost done = line_views(lines@).subrange(base.len() as int, line_views(lines@).len() as int);
            assert(tags.take(i + 1).drop_last() =~= tags.take(i as int));
            let tag = tag_text(&t.technologies[i]);
            assert(tags.take(i + 1).last() == tag@);
            let shown = tag_shown(st, tag.as_str());
            let shown = concat(shown.as_str(), " ");
            if overflows(line.as_str(), tag.as_str(), tw) {
                let ghost before = line_views(lines@);
                let ghost lv = line@;
                push_line(&mut lines, line);
                line = concat("  ", shown.as_str());
                assert(line_views(lines@).subrange(base.len() as int, line_views(lines@).len() as int) =~= done.push(
                    lv,
                ));
                assert(line_views(lines@).subrange(0, base.len() as int) =~= before.subrange(0, base.len() as int));
            } else {
                line = concat(line.as_str(), shown.as_str());
            }
            i = i + 1;
        }
        assert(tags.take(t.technologies.len() as int) =~= tags);
        let ghost done = line_views(lines@).subrange(base.len() as int, line_views(lines@).len() as int);
        let tl = crate::text::trimmed(crate::text::chars_of(line.as_str()).as_slice());
        if tl.len() > 0 {
            push_line(&mut lines, line);
        }
        assert(line_views(lines@) =~= base + tag_lines(*st, tags, tw as nat));
    } else {
        let m = st.c_muted("none detected");
        push_line(&mut lines, row(st, "Technologies", m.as_str()));
    }
    assert(line_views(lines@) =~= tech_section_spec(
        *st,
        tw as nat,
        match tech_result {
            Some(t) => Some(*t),
            None => None,
        },
        verbose,
    ));
    lines
}

/// An integer in decimal, with a minus sign when negative.
pub open spec fn signed_decimal(x: int) -> Seq<char> {
    if x < 0 {
        "-"@ + decimal((-x) as nat)
    } else {
        decimal(x as nat)
    }
}

/// The quick view's grade: bold purple for A+ and A, yellow for B, red
/// otherwise.
pub open spec fn quick_grade(st: Style, grade: Seq<char>) -> Seq<char> {
    if grade == "A+"@ || grade == "A"@ {
        st.painted(grade, PURPLE as int, true)
    } else if grade == "B"@ {
        st.painted(grade, YELLOW as int, true)
    } else {
        st.painted(grade, RED as int, true)
    }
}

/// Whether a check whose name mentions `part` passed.
pub open spec fn check_passed(checks: Seq<HeaderCheck>, part: Seq<char>) -> bool {
    exists|i: int|
        0 <= i < checks.len() && crate::text::contains_seq(#[trigger] checks[i].name@, part) && checks[i].status
            == HeaderStatus::Pass
}

/// The first address found: IPv4 first, else IPv6.
pub open spec fn first_ip(dns: Outcome<DnsProbe>) -> Seq<Seq<char>> {
    match dns {
        Ok(d) => if d.ipv4@.len() > 0 {
            seq![d.ipv4@[0]@]
        } else if d.ipv6@.len() > 0 {
            seq![d.ipv6@[0]@]
        } else {
            seq![]
        },
        Err(_) => seq![],
    }
}

/// The expiry detail: the leaf certificate's days left when TLS worked,
/// else the domain's expiry from RDAP.
pub open spec fn expiry_detail(now: Timestamp, tls: Outcome<TlsProbe>, rdap: Outcome<RdapProbe>) -> Seq<Seq<char>> {
    match tls {
        Ok(t) => if t.certificate_chain@.len() > 0 {
            match t.certificate_chain@[0].not_after {
                Some(na) => seq!["Cert "@ + signed_decimal(whole_days(nanos_between(na, now))) + "d"@],
                None => seq![],
            }
        } else {
            seq![]
        },
        Err(_) => match rdap {
            Ok(r) => match r.expires_on {
                Some(exp) => {
                    let n = nanos_between(exp, now);
                    if whole_seconds(n) >= 0 {
                        seq!["expires in "@ + duration_text(whole_seconds(n))]
                    } else {
                        seq!["expired "@ + duration_text(whole_seconds(n))]
                    }
                },
                None => seq![],
            },
            Err(_) => seq![],
        },
    }
}

/// The details of the quick view's third line, in order: address,
/// first technology, HSTS and CSP marks, and the expiry detail.
pub open spec fn quick_details(
    now: Timestamp,
    dns: Outcome<DnsProbe>,
    rdap: Outcome<RdapProbe>,
    tls: Outcome<TlsProbe>,
    sh: Option<SecurityHeadersProbe>,
    tech: Option<TechProbe>,
) -> Seq<Seq<char>> {
    first_ip(dns) + (match tech {
        Some(t) => if t.technologies@.len() > 0 {
            seq![t.technologies@[0].name@]
        } else {
            seq![]
        },
        None => seq![],
    }) + (match sh {
        Some(p) => seq![
            "HSTS "@ + if check_passed(p.checks@, "Strict-Transport"@) { "\u{2713}"@ } else { "\u{2717}"@ },
            "CSP "@ + if check_passed(p.checks@, "Content-Security"@) { "\u{2713}"@ } else { "\u{2717}"@ },
        ],
        None => seq![],
    }) + expiry_detail(now, tls, rdap)
}

/// The quick view: the host; TLS, protocol, status, time and grade; then
/// the details.
pub open spec fn quick_spec(
    st: Style,
    now: Timestamp,
    host: Seq<char>,
    http: Outcome<HttpProbe>,
    dns: Outcome<DnsProbe>,
    rdap: Outcome<RdapProbe>,
    tls: Outcome<TlsProbe>,
    sh: Option<SecurityHeadersProbe>,
    tech: Option<TechProbe>,
    grade: Seq<char>,
    total_ms: nat,
) -> Seq<Seq<char>> {
    let status = match http {
        Ok(h) => st.painted(status_label(h.status), status_slot(h.status), false),
        Err(_) => st.painted("HTTP error"@, RED as int, false),
    };
    let proto = match http {
        Ok(h) => st.painted(version_label(h.version), CYAN as int, false),
        Err(_) => "unknown"@,
    };
    let tls_info = match tls {
        Ok(t) => if st.is_tty {
            st.painted("\u{1F512} "@ + t.protocol_version@, GREEN as int, false)
        } else {
            t.protocol_version@
        },
        Err(_) => st.painted("no TLS"@, MUTED as int, false),
    };
    seq![
        "  "@ + st.painted(host, BRIGHT as int, true),
        "  "@ + tls_info + "  "@ + proto + "  "@ + status + "  "@ + st.painted(decimal(total_ms) + "ms"@, YELLOW as int, false)
            + "  "@ + quick_grade(st, grade),
        "  "@ + st.painted(joined_with(quick_details(now, dns, rdap, tls, sh, tech), " \u{00B7} "@), MUTED as int, false),
    ]
}

/// Whether a check whose name mentions `part` passed.
fn any_passed(checks: &[HeaderCheck], part: &[char]) -> (b: bool)
    ensures
        b == check_passed(checks@, part@),
{
    let mut i: usize = 0;
    while i < checks.len()
        invariant
            i <= checks.len(),
            forall|k: int|
                0 <= k < i ==> !(crate::text::contains_seq(#[trigger] checks@[k].name@, part@) && checks@[k].status
                    == HeaderStatus::Pass),
        decreases checks.len() - i,
    {
        let c = &checks[i];
        let named = crate::text::contains(crate::text::chars_of(c.name.as_str()).as_slice(), part);
        if named && c.status == HeaderStatus::Pass {
            assert(crate::text::contains_seq(checks@[i as int].name@, part@) && checks@[i as int].status
                == HeaderStatus::Pass);
            return true;
        }
        i = i + 1;
    }
    false
}

/// A mark: `✓` or `✗`.
fn mark(label: &str, ok: bool) -> (s: String)
    ensures
        s@ == label@ + if ok { "\u{2713}"@ } else { "\u{2717}"@ },
{
    if ok {
        concat(label, "\u{2713}")
    } else {
        concat(label, "\u{2717}")
    }
}

/// Appends one string to a list of strings.
fn push_text(v: &mut Vec<String>, s: String)
    ensures
        line_views(final(v)@) == line_views(old(v)@).push(s@),
{
    push_line(v, s);
}

/// The expiry detail.
fn expiry_texts(now: Timestamp, tls: &Outcome<TlsProbe>, rdap: &Outcome<RdapProbe>) -> (v: Vec<String>)
    ensures
        line_views(v@) == expiry_detail(now, *tls, *rdap),
{
    let mut v: Vec<String> = Vec::new();
    assert(line_views(v@) =~= Seq::<Seq<char>>::empty());
    match tls {
        Ok(t) => {
            if t.certificate_chain.len() > 0 {
                match t.certificate_chain[0].not_after {
                    Some(na) => {
                        let days = days_until(na, now);
                        let mut s = String::new();
                        append_str(&mut s, "Cert ");
                        if days < 0 {
                            assert(days > i128::MIN) by {
                                assert(whole_days(nanos_between(na, now)) > -0x1_0000_0000_0000_0000_0000) by (nonlinear_arith)
                                    requires
                                        days == whole_days(nanos_between(na, now)),
                                        -0x8000_0000_0000_0000 <= na.secs <= 0x7fff_ffff_ffff_ffff,
                                        -0x8000_0000_0000_0000 <= now.secs <= 0x7fff_ffff_ffff_ffff;
                            }
                            append_str(&mut s, "-");
                            push_decimal_u128(&mut s, (-days) as u128);
                        } else {
                            push_decimal_u128(&mut s, days as u128);
                        }
                        append_str(&mut s, "d");
                        assert(s@ =~= "Cert "@ + signed_decimal(whole_days(nanos_between(na, now))) + "d"@);
                        push_text(&mut v, s);
                    },
                    None => {},
                }
            }
        },
        Err(_) => match rdap {
            Ok(r) => match r.expires_on {
                Some(exp) => {
                    let delta = since(exp, now);
                    let d = format_duration(delta);
                    let s = if delta.num_seconds() >= 0 {
                        concat("expires in ", d.as_str())
                    } else {
                        concat("expired ", d.as_str())
                    };
                    push_text(&mut v, s);
                },
                None => {},
            },
            Err(_) => {},
        },
    }
    assert(line_views(v@) =~= expiry_detail(now, *tls, *rdap));
    v
}

/// The quick view's details.
fn quick_detail_texts(
    now: Timestamp,
    dns: &Outcome<DnsProbe>,
    rdap: &Outcome<RdapProbe>,
    tls: &Outcome<TlsProbe>,
    sh: Option<&SecurityHeadersProbe>,
    tech: Option<&TechProbe>,
) -> (v: Vec<String>)
    ensures
        line_views(v@) == quick_details(
            now,
            *dns,
            *rdap,
            *tls,
            match sh {
                Some(p) => Some(*p),
                None => None,
            },
            match tech {
                Some(t) => Some(*t),
                None => None,
            },
        ),
{
    let mut v: Vec<String> = Vec::new();
    assert(line_views(v@) =~= Seq::<Seq<char>>::empty());
    match dns {
        Ok(d) => {
            if d.ipv4.len() > 0 {
                push_text(&mut v, string_of(crate::text::chars_of(d.ipv4[0].as_str()).as_slice()));
            } else if d.ipv6.len() > 0 {
                push_text(&mut v, string_of(crate::text::chars_of(d.ipv6[0].as_str()).as_slice()));
            }
        },
        Err(_) => {},
    }
    let ghost a = line_views(v@);
    match tech {
        Some(t) => {
            if t.technologies.len() > 0 {
                push_text(&mut v, string_of(crate::text::chars_of(t.technologies[0].name.as_str()).as_slice()));
            }
        },
        None => {},
    }
    let ghost b = line_views(v@);
    match sh {
        Some(p) => {
            proof {
                reveal_strlit("Strict-Transport");
                reveal_strlit("Content-Security");
            }
            let hsts = any_passed(
                p.checks.as_slice(),
                crate::text::chars_of("Strict-Transport").as_slice(),
            );
            push_text(&mut v, mark("HSTS ", hsts));
            let csp = any_passed(
                p.checks.as_slice(),
                crate::text::chars_of("Content-Security").as_slice(),
            );
            push_text(&mut v, mark("CSP ", csp));
        },
        None => {},
    }
    let ghost c = line_views(v@);
    let e = expiry_texts(now, tls, rdap);
    push_lines(&mut v, e);
    assert(line_views(v@) =~= quick_details(
        now,
        *dns,
        *rdap,
        *tls,
        match sh {
            Some(p) => Some(*p),
            None => None,
        },
        match tech {
            Some(t) => Some(*t),
            None => None,
        },
    ));
    v
}

/// The grade in the quick view's colors.
fn quick_grade_text(st: &Style, grade: &str) -> (s: String)
    ensures
        s@ == quick_grade(*st, grade@),
{
    let g = crate::text::chars_of(grade);
    let a_plus: [char; 2] = ['A', '+'];
    let a: [char; 1] = ['A'];
    let b: [char; 1] = ['B'];
    assert(a_plus@ =~= seq!['A', '+']);
    assert(a@ =~= seq!['A']);
    assert(b@ =~= seq!['B']);
    proof {
        reveal_strlit("A+");
        reveal_strlit("A");
        reveal_strlit("B");
        assert("A+"@ =~= seq!['A', '+']);
        assert("A"@ =~= seq!['A']);
        assert("B"@ =~= seq!['B']);
    }
    if crate::text::same_chars(g.as_slice(), a_plus.as_slice()) || crate::text::same_chars(g.as_slice(), a.as_slice()) {
        st.c_bold_purple(grade)
    } else if crate::text::same_chars(g.as_slice(), b.as_slice()) {
        st.c_bold_yellow(grade)
    } else {
        st.c_bold_red(grade)
    }
}

/// The compact three-line view of all probes: the host; TLS, protocol,
/// status, total time and grade; then address, technology, header marks
/// and expiry. The grade is computed by the caller.
pub fn render_quick(
    st: &Style,
    now: Timestamp,
    host: &str,
    http_result: &Outcome<HttpProbe>,
    dns_result: &Outcome<DnsProbe>,
    rdap_result: &Outcome<RdapProbe>,
    tls_result: &Outcome<TlsProbe>,
    security_headers: Option<&SecurityHeadersProbe>,
    tech_result: Option<&TechProbe>,
    grade: &str,
    total_elapsed_ms: u64,
) -> (lines: Vec<String>)
    requires
        http_result matches Ok(h) ==> 100 <= h.status <= 999,
    ensures
        line_views(lines@) == quick_spec(
            *st,
            now,
            host@,
            *http_result,
            *dns_result,
            *rdap_result,
            *tls_result,
            match security_headers {
                Some(p) => Some(*p),
                None => None,
            },
            match tech_result {
                Some(t) => Some(*t),
                None => None,
            },
            grade@,
            total_elapsed_ms as nat,
        ),
{
    let status = match http_result {
        Ok(h) => paint_status(st, h.status),
        Err(_) => st.c_red("HTTP error"),
    };
    let proto = match http_result {
        Ok(h) => st.c_cyan(http_version(h.version)),
        Err(_) => string_of(crate::text::chars_of("unknown").as_slice()),
    };
    let tls_info = match tls_result {
        Ok(t) => {
            if st.is_tty {
                let p = concat("\u{1F512} ", t.protocol_version.as_str());
                st.c_green(p.as_str())
            } else {
                string_of(crate::text::chars_of(t.protocol_version.as_str()).as_slice())
            }
        },
        Err(_) => st.c_muted("no TLS"),
    };
    let g = quick_grade_text(st, grade);
    let mut lines: Vec<String> = Vec::new();
    let h = st.c_bold_bright(host);
    push_line(&mut lines, concat("  ", h.as_str()));
    let mut ms = String::new();
    push_decimal(&mut ms, total_elapsed_ms);
    append_str(&mut ms, "ms");
    let ms = st.c_yellow(ms.as_str());
    let mut l2 = String::new();
    append_str(&mut l2, "  ");
    append_str(&mut l2, tls_info.as_str());
    append_str(&mut l2, "  ");
    append_str(&mut l2, proto.as_str());
    append_str(&mut l2, "  ");
    append_str(&mut l2, status.as_str());
    append_str(&mut l2, "  ");
    append_str(&mut l2, ms.as_str());
    append_str(&mut l2, "  ");
    append_str(&mut l2, g.as_str());
    push_line(&mut lines, l2);
    let details = quick_detail_texts(now, dns_result, rdap_result, tls_result, security_headers, tech_result);
    let joined = join_strings(details.as_slice(), " \u{00B7} ");
    let m = st.c_muted(joined.as_str());
    push_line(&mut lines, concat("  ", m.as_str()));
    assert(line_views(lines@) =~= quick_spec(
        *st,
        now,
        host@,
        *http_result,
        *dns_result,
        *rdap_result,
        *tls_result,
        match security_headers {
            Some(p) => Some(*p),
            None => None,
        },
        match tech_result {
            Some(t) => Some(*t),
            None => None,
        },
        grade@,
        total_elapsed_ms as nat,
    ));
    lines
}

/// The banner: the name in bold and the version, over a dimmed rule as wide
/// as the terminal (at most 72 columns) less two.
pub open spec fn banner_spec(st: Style, tw: nat, version: Seq<char>) -> Seq<Seq<char>> {
    let w = if tw < 72 { tw } else { 72 };
    let rule = crate::text::repeat('\u{2500}', if w >= 2 { (w - 2) as nat } else { 0 });
    seq![
        seq![],
        "  "@ + st.painted("domain-probe"@, BRIGHT as int, true) + " "@ + st.painted(
            "v"@ + version,
            MUTED as int,
            false,
        ),
        "  "@ + st.painted(rule, DIM as int, false),
    ]
}

/// The banner's lines.
pub fn banner_lines(st: &Style, tw: usize, version: &str) -> (lines: Vec<String>)
    ensures
        line_views(lines@) == banner_spec(*st, tw as nat, version@),
{
    let mut lines: Vec<String> = Vec::new();
    push_line(&mut lines, String::new());
    let name = st.c_bold_bright("domain-probe");
    let v = concat("v", version);
    let v = st.c_muted(v.as_str());
    let mut l = String::new();
    append_str(&mut l, "  ");
    append_str(&mut l, name.as_str());
    append_str(&mut l, " ");
    append_str(&mut l, v.as_str());
    push_line(&mut lines, l);
    let w: usize = if tw < 72 { tw } else { 72 };
    let mut rule = String::new();
    crate::text::push_repeat(&mut rule, '\u{2500}', if w >= 2 { w - 2 } else { 0 });
    let d = st.c_dim(rule.as_str());
    push_line(&mut lines, concat("  ", d.as_str()));
    assert(line_views(lines@) =~= banner_spec(*st, tw as nat, version@));
    lines
}

/// The text chrono's `to_rfc3339` gives for an instant, when chrono can
/// represent it.
pub uninterp spec fn rfc3339_text(secs: i64, nanos: u32) -> Option<Seq<char>>;

/// Writes an instant with chrono: `DateTime::from_timestamp` then
/// `to_rfc3339`; the result is [`rfc3339_text`].
#[verifier::external_body]
fn chrono_rfc3339(secs: i64, nanos: u32) -> (r: Option<String>)
    ensures
        match rfc3339_text(secs, nanos) {
            Some(t) => r matches Some(s) && s@ == t,
            None => r is None,
        },
{
    match chrono::DateTime::from_timestamp(secs, nanos) {
        Some(dt) => Some(dt.to_rfc3339()),
        None => None,
    }
}

/// A JSON number written in decimal.
pub open spec fn jnum(n: nat) -> JsonView {
    JsonView::Number(decimal(n))
}

/// A JSON string, or `null` for none.
pub open spec fn jopt_text(o: Option<Seq<char>>) -> JsonView {
    match o {
        Some(s) => JsonView::Str(s),
        None => JsonView::Null,
    }
}

/// A JSON number, or `null` for none.
pub open spec fn jopt_num(o: Option<nat>) -> JsonView {
    match o {
        Some(n) => jnum(n),
        None => JsonView::Null,
    }
}

/// A JSON array of strings.
pub open spec fn jtexts(ss: Seq<String>) -> JsonView {
    JsonView::Array(Seq::new(ss.len(), |i: int| JsonView::Str(ss[i]@)))
}

/// An instant as RFC 3339 text, or `null` for none or one chrono cannot
/// represent.
pub open spec fn jtime(t: Option<Timestamp>) -> JsonView {
    match t {
        Some(x) => jopt_text(rfc3339_text(x.secs, x.nanos)),
        None => JsonView::Null,
    }
}

/// A probe failure: an object with its message under `error`.
pub open spec fn jerror(e: Seq<char>) -> JsonView {
    JsonView::Object(seq![("error"@, JsonView::Str(e))])
}

/// The reason phrase of a status code, `Unknown` where it has none.
pub open spec fn reason_or_unknown(code: u16) -> Seq<char> {
    match reason_phrase(code) {
        Some(p) => p,
        None => "Unknown"@,
    }
}

pub open spec fn opt_num64(o: Option<u64>) -> Option<nat> {
    match o {
        Some(n) => Some(n as nat),
        None => None,
    }
}

pub open spec fn opt_num16(o: Option<u16>) -> Option<nat> {
    match o {
        Some(n) => Some(n as nat),
        None => None,
    }
}

/// The `http` member.
pub open spec fn http_json_spec(r: Outcome<HttpProbe>) -> JsonView {
    match r {
        Ok(h) => JsonView::Object(
            Seq::empty()
                .push(("status_code"@, jnum(h.status as nat)))
                .push(("status_text"@, JsonView::Str(reason_or_unknown(h.status))))
                .push(("http_version"@, JsonView::Str(version_label(h.version))))
                .push(("server"@, jopt_text(opt_chars(h.server))))
                .push(("content_type"@, jopt_text(opt_chars(h.content_type))))
                .push(("content_length"@, jopt_num(opt_num64(h.content_length))))
                .push(("elapsed_ms"@, jnum(h.elapsed_ms as nat))),
        ),
        Err(e) => jerror(e@),
    }
}

/// One redirect hop.
pub open spec fn hop_json(h: RedirectHop) -> JsonView {
    JsonView::Object(
        Seq::empty()
            .push(("status_code"@, jnum(h.status as nat)))
            .push(("from"@, JsonView::Str(h.from@)))
            .push(("to"@, JsonView::Str(h.to@))),
    )
}

/// The `redirects` member.
pub open spec fn redirects_json_spec(r: Outcome<RedirectProbe>) -> JsonView {
    match r {
        Ok(p) => JsonView::Object(
            Seq::empty()
                .push(("hops"@, JsonView::Array(Seq::new(p.hops@.len(), |i: int| hop_json(p.hops@[i])))))
                .push(("final_url"@, JsonView::Str(p.final_url@)))
                .push(("final_status_code"@, jopt_num(opt_num16(p.final_status))))
                .push(("truncated"@, JsonView::Bool(p.truncated)))
                .push(("elapsed_ms"@, jnum(p.elapsed_ms as nat))),
        ),
        Err(e) => jerror(e@),
    }
}

/// The `scheme_variant` member: the chain of the URL with the other
/// scheme, or `null` where there is none.
pub open spec fn variant_json_spec(a: Option<(TargetUrl, Outcome<RedirectProbe>)>) -> JsonView {
    match a {
        None => JsonView::Null,
        Some((u, Ok(p))) => JsonView::Object(
            Seq::empty()
                .push(("scheme"@, JsonView::Str(u.parts().1)))
                .push(("hops"@, jnum(p.hops@.len())))
                .push(("final_url"@, JsonView::Str(p.final_url@)))
                .push(("final_status_code"@, jopt_num(opt_num16(p.final_status))))
                .push(("elapsed_ms"@, jnum(p.elapsed_ms as nat))),
        ),
        Some((u, Err(e))) => JsonView::Object(
            Seq::empty()
                .push(("scheme"@, JsonView::Str(u.parts().1)))
                .push(("error"@, JsonView::Str(e@))),
        ),
    }
}

/// One MX record.
pub open spec fn mx_json(r: MxRecord) -> JsonView {
    JsonView::Object(Seq::empty().push(("priority"@, jnum(r.priority as nat))).push(("exchange"@, JsonView::Str(r.exchange@))))
}

/// The `dns` member.
pub open spec fn dns_json_spec(r: Outcome<DnsProbe>) -> JsonView {
    match r {
        Ok(d) => JsonView::Object(
            Seq::empty()
                .push(("ipv4"@, jtexts(d.ipv4@)))
                .push(("ipv6"@, jtexts(d.ipv6@)))
                .push(("mx"@, JsonView::Array(Seq::new(d.mx@.len(), |i: int| mx_json(d.mx@[i])))))
                .push(("ns"@, jtexts(d.ns@)))
                .push(("txt"@, jtexts(d.txt@)))
                .push(("caa"@, jtexts(d.caa@)))
                .push(("elapsed_ms"@, jnum(d.elapsed_ms as nat))),
        ),
        Err(e) => jerror(e@),
    }
}

/// The `rdap` member.
pub open spec fn rdap_json_spec(r: Outcome<RdapProbe>) -> JsonView {
    match r {
        Ok(p) => JsonView::Object(
            Seq::empty()
                .push(("rdap_url"@, JsonView::Str(p.rdap_url@)))
                .push(("registrar"@, jopt_text(opt_chars(p.registrar))))
                .push(("registrar_iana_id"@, jopt_text(opt_chars(p.registrar_iana_id))))
                .push(("registered_on"@, jtime(p.registered_on)))
                .push(("expires_on"@, jtime(p.expires_on)))
                .push(("status_codes"@, jtexts(p.status_codes@)))
                .push(("registrant_name"@, jopt_text(opt_chars(p.registrant_name))))
                .push(("registrant_contact_uri"@, jopt_text(opt_chars(p.registrant_contact_uri))))
                .push(("abuse_email"@, jopt_text(opt_chars(p.abuse_email))))
                .push(("abuse_phone"@, jopt_text(opt_chars(p.abuse_phone))))
                .push(("elapsed_ms"@, jnum(p.elapsed_ms as nat))),
        ),
        Err(e) => jerror(e@),
    }
}

/// One certificate of the chain.
pub open spec fn cert_json(c: CertInfo) -> JsonView {
    JsonView::Object(
        Seq::empty()
            .push(("subject"@, JsonView::Str(c.subject@)))
            .push(("issuer"@, JsonView::Str(c.issuer@)))
            .push(("not_before"@, jtime(c.not_before)))
            .push(("not_after"@, jtime(c.not_after)))
            .push(("san"@, jtexts(c.san@)))
            .push(("is_leaf"@, JsonView::Bool(c.is_leaf))),
    )
}

/// The `tls` member.
pub open spec fn tls_json_spec(r: Outcome<TlsProbe>) -> JsonView {
    match r {
        Ok(t) => JsonView::Object(
            Seq::empty()
                .push(("protocol_version"@, JsonView::Str(t.protocol_version@)))
                .push(("cipher_suite"@, JsonView::Str(t.cipher_suite@)))
                .push((
                    "certificate_chain"@,
                    JsonView::Array(Seq::new(t.certificate_chain@.len(), |i: int| cert_json(t.certificate_chain@[i]))),
                )).push(("elapsed_ms"@, jnum(t.elapsed_ms as nat))),
        ),
        Err(e) => jerror(e@),
    }
}

/// The word for a header check's outcome.
pub open spec fn status_word(s: HeaderStatus) -> Seq<char> {
    match s {
        HeaderStatus::Pass => "pass"@,
        HeaderStatus::Warn => "warn"@,
        HeaderStatus::Fail => "fail"@,
        HeaderStatus::Info => "info"@,
    }
}

/// One security header check.
pub open spec fn check_json(c: HeaderCheck) -> JsonView {
    JsonView::Object(
        Seq::empty()
            .push(("name"@, JsonView::Str(c.name@)))
            .push(("status"@, JsonView::Str(status_word(c.status))))
            .push(("value"@, JsonView::Str(c.value@))),
    )
}

/// The `security_headers` member, `null` where there was no response.
pub open spec fn security_json_spec(s: Option<SecurityHeadersProbe>) -> JsonView {
    match s {
        Some(sh) => JsonView::Object(
            Seq::empty()
                .push(("checks"@, JsonView::Array(Seq::new(sh.checks@.len(), |i: int| check_json(sh.checks@[i])))))
                .push(("score"@, jnum(sh.score as nat))),
        ),
        None => JsonView::Null,
    }
}

/// One detected technology.
pub open spec fn tech_json(t: TechMatch) -> JsonView {
    JsonView::Object(Seq::empty().push(("name"@, JsonView::Str(t.name@))).push(("category"@, JsonView::Str(t.category@))))
}

/// The `technology` member, `null` where there was no response.
pub open spec fn tech_json_spec(t: Option<TechProbe>) -> JsonView {
    match t {
        Some(p) => JsonView::Array(Seq::new(p.technologies@.len(), |i: int| tech_json(p.technologies@[i]))),
        None => JsonView::Null,
    }
}

/// The `grade` member.
pub open spec fn grade_json_spec(g: GradeResult) -> JsonView {
    JsonView::Object(
        Seq::empty()
            .push(("grade"@, JsonView::Str(g.grade@)))
            .push(("overall_score"@, jnum(g.overall_score as nat)))
            .push(("tls_score"@, jnum(g.tls_score as nat)))
            .push(("headers_score"@, jnum(g.headers_score as nat)))
            .push(("dns_score"@, jnum(g.dns_score as nat)))
            .push(("http_score"@, jnum(g.http_score as nat)))
            .push(("perf_score"@, jnum(g.perf_score as nat))),
    )
}

/// The whole report as one JSON document: the target, each probe's result
/// (or its failure message), the grade and the total time.
pub open spec fn json_report_spec(
    target: TargetUrl,
    host: Seq<char>,
    http_result: Outcome<HttpProbe>,
    redirect_result: Outcome<RedirectProbe>,
    alt: Option<(TargetUrl, Outcome<RedirectProbe>)>,
    dns_result: Outcome<DnsProbe>,
    rdap_result: Outcome<RdapProbe>,
    tls_result: Outcome<TlsProbe>,
    security: Option<SecurityHeadersProbe>,
    tech: Option<TechProbe>,
    grade: GradeResult,
    total_elapsed_ms: nat,
) -> JsonView {
    JsonView::Object(
        Seq::empty()
            .push((
                "target"@,
                JsonView::Object(
                    Seq::empty()
                        .push(("url"@, JsonView::Str(target.parts().0)))
                        .push(("host"@, JsonView::Str(host))),
                ),
            ))
            .push(("http"@, http_json_spec(http_result)))
            .push(("redirects"@, redirects_json_spec(redirect_result)))
            .push(("scheme_variant"@, variant_json_spec(alt)))
            .push(("dns"@, dns_json_spec(dns_result)))
            .push(("rdap"@, rdap_json_spec(rdap_result)))
            .push(("tls"@, tls_json_spec(tls_result)))
            .push(("security_headers"@, security_json_spec(security)))
            .push(("technology"@, tech_json_spec(tech)))
            .push(("grade"@, grade_json_spec(grade)))
            .push(("total_elapsed_ms"@, jnum(total_elapsed_ms))),
    )
}

/// An object with no members yet.
fn empty_object() -> (m: Vec<(String, JsonValue)>)
    ensures
        members_view(m@) == Seq::<(Seq<char>, JsonView)>::empty(),
{
    let m: Vec<(String, JsonValue)> = Vec::new();
    assert(members_view(m@) =~= Seq::<(Seq<char>, JsonView)>::empty());
    m
}

/// An array with no items yet.
fn empty_array() -> (v: Vec<JsonValue>)
    ensures
        items_view(v@) == Seq::<JsonView>::empty(),
{
    let v: Vec<JsonValue> = Vec::new();
    assert(items_view(v@) =~= Seq::<JsonView>::empty());
    v
}

/// An object with the given members.
fn object_of(m: Vec<(String, JsonValue)>) -> (j: JsonValue)
    ensures
        j@ == JsonView::Object(members_view(m@)),
{
    JsonValue::Object(m)
}

/// An array with the given items.
fn array_of_items(v: Vec<JsonValue>) -> (j: JsonValue)
    ensures
        j@ == JsonView::Array(items_view(v@)),
{
    JsonValue::Array(v)
}

/// Appends a member to an object under construction.
fn put(m: &mut Vec<(String, JsonValue)>, key: &str, v: JsonValue)
    ensures
        members_view(final(m)@) == members_view(old(m)@).push((key@, v@)),
{
    let k = key.to_owned();
    proof {
        lemma_members_view_push(m@, k, v);
    }
    m.push((k, v));
}

/// A JSON string.
fn jv_text(s: &str) -> (j: JsonValue)
    ensures
        j@ == JsonView::Str(s@),
{
    JsonValue::Str(s.to_owned())
}

/// A JSON number.
fn jv_num(n: u64) -> (j: JsonValue)
    ensures
        j@ == jnum(n as nat),
{
    JsonValue::Number(crate::text::u64_to_string(n))
}

/// A JSON string or `null`.
fn jv_opt_text(o: &Option<String>) -> (j: JsonValue)
    ensures
        j@ == jopt_text(opt_chars(*o)),
{
    match o {
        Some(s) => jv_text(s.as_str()),
        None => JsonValue::Null,
    }
}

/// A JSON number or `null`.
fn jv_opt_num(o: Option<u64>) -> (j: JsonValue)
    ensures
        j@ == jopt_num(opt_num64(o)),
{
    match o {
        Some(n) => jv_num(n),
        None => JsonValue::Null,
    }
}

/// A JSON number or `null`, from a 16-bit number.
fn jv_opt_num16(o: Option<u16>) -> (j: JsonValue)
    ensures
        j@ == jopt_num(opt_num16(o)),
{
    match o {
        Some(n) => jv_num(n as u64),
        None => JsonValue::Null,
    }
}

/// An array of JSON strings.
fn jv_texts(v: &Vec<String>) -> (j: JsonValue)
    ensures
        j@ == jtexts(v@),
{
    let mut out = empty_array();
    let mut i: usize = 0;
    while i < v.len()
        invariant
            i <= v.len(),
            items_view(out@) == Seq::new(i as nat, |k: int| JsonView::Str(v@[k]@)),
        decreases v.len() - i,
    {
        let x = jv_text(v[i].as_str());
        proof {
            lemma_items_view_push(out@, x);
        }
        out.push(x);
        i = i + 1;
        assert(items_view(out@) =~= Seq::new(i as nat, |k: int| JsonView::Str(v@[k]@)));
    }
    array_of_items(out)
}

/// An instant as RFC 3339 text, or `null`.
fn jv_time(t: Option<Timestamp>) -> (j: JsonValue)
    ensures
        j@ == jtime(t),
{
    match t {
        Some(x) => match chrono_rfc3339(x.secs, x.nanos) {
            Some(s) => JsonValue::Str(s),
            None => JsonValue::Null,
        },
        None => JsonValue::Null,
    }
}

/// A failure message.
fn jv_error(e: &String) -> (j: JsonValue)
    ensures
        j@ == jerror(e@),
{
    let mut m = empty_object();
    put(&mut m, "error", jv_text(e.as_str()));
    object_of(m)
}

/// The `http` member.
fn http_json(r: &Outcome<HttpProbe>) -> (j: JsonValue)
    requires
        r matches Ok(h) ==> 100 <= h.status <= 999,
    ensures
        j@ == http_json_spec(*r),
{
    match r {
        Ok(h) => {
            let text = match canonical_reason(h.status) {
                Some(p) => p,
                None => "Unknown".to_owned(),
            };
            let mut m = empty_object();
            put(&mut m, "status_code", jv_num(h.status as u64));
            put(&mut m, "status_text", JsonValue::Str(text));
            put(&mut m, "http_version", jv_text(http_version(h.version)));
            put(&mut m, "server", jv_opt_text(&h.server));
            put(&mut m, "content_type", jv_opt_text(&h.content_type));
            put(&mut m, "content_length", jv_opt_num(h.content_length));
            put(&mut m, "elapsed_ms", jv_num(h.elapsed_ms));
            object_of(m)
        },
        Err(e) => jv_error(e),
    }
}

/// The `redirects` member.
fn redirects_json(r: &Outcome<RedirectProbe>) -> (j: JsonValue)
    ensures
        j@ == redirects_json_spec(*r),
{
    match r {
        Ok(p) => {
            let mut hops = empty_array();
            let mut i: usize = 0;
            while i < p.hops.len()
                invariant
                    i <= p.hops.len(),
                    items_view(hops@) == Seq::new(i as nat, |k: int| hop_json(p.hops@[k])),
                decreases p.hops.len() - i,
            {
                let h = &p.hops[i];
                let mut m = empty_object();
                put(&mut m, "status_code", jv_num(h.status as u64));
                put(&mut m, "from", jv_text(h.from.as_str()));
                put(&mut m, "to", jv_text(h.to.as_str()));
                let x = object_of(m);
                assert(x@ == hop_json(p.hops@[i as int]));
                proof {
                    lemma_items_view_push(hops@, x);
                }
                hops.push(x);
                i = i + 1;
                assert(items_view(hops@) =~= Seq::new(i as nat, |k: int| hop_json(p.hops@[k])));
            }
            let mut m = empty_object();
            put(&mut m, "hops", array_of_items(hops));
            put(&mut m, "final_url", jv_text(p.final_url.as_str()));
            put(&mut m, "final_status_code", jv_opt_num16(p.final_status));
            put(&mut m, "truncated", JsonValue::Bool(p.truncated));
            put(&mut m, "elapsed_ms", jv_num(p.elapsed_ms));
            object_of(m)
        },
        Err(e) => jv_error(e),
    }
}

/// The `scheme_variant` member.
fn variant_json(a: Option<&(TargetUrl, Outcome<RedirectProbe>)>) -> (j: JsonValue)
    ensures
        j@ == variant_json_spec(
            match a {
                Some(x) => Some(*x),
                None => None,
            },
        ),
{
    match a {
        None => JsonValue::Null,
        Some(pair) => {
            let url = &pair.0;
            let mut m = empty_object();
            put(&mut m, "scheme", jv_text(url.scheme()));
            match &pair.1 {
                Ok(p) => {
                    put(&mut m, "hops", jv_num(p.hops.len() as u64));
                    put(&mut m, "final_url", jv_text(p.final_url.as_str()));
                    put(&mut m, "final_status_code", jv_opt_num16(p.final_status));
                    put(&mut m, "elapsed_ms", jv_num(p.elapsed_ms));
                },
                Err(e) => {
                    put(&mut m, "error", jv_text(e.as_str()));
                },
            }
            object_of(m)
        },
    }
}

/// The `dns` member.
fn dns_json(r: &Outcome<DnsProbe>) -> (j: JsonValue)
    ensures
        j@ == dns_json_spec(*r),
{
    match r {
        Ok(d) => {
            let mut mx = empty_array();
            let mut i: usize = 0;
            while i < d.mx.len()
                invariant
                    i <= d.mx.len(),
                    items_view(mx@) == Seq::new(i as nat, |k: int| mx_json(d.mx@[k])),
                decreases d.mx.len() - i,
            {
                let rec = &d.mx[i];
                let mut m = empty_object();
                put(&mut m, "priority", jv_num(rec.priority as u64));
                put(&mut m, "exchange", jv_text(rec.exchange.as_str()));
                let x = object_of(m);
                assert(x@ == mx_json(d.mx@[i as int]));
                proof {
                    lemma_items_view_push(mx@, x);
                }
                mx.push(x);
                i = i + 1;
                assert(items_view(mx@) =~= Seq::new(i as nat, |k: int| mx_json(d.mx@[k])));
            }
            let mut m = empty_object();
            put(&mut m, "ipv4", jv_texts(&d.ipv4));
            put(&mut m, "ipv6", jv_texts(&d.ipv6));
            put(&mut m, "mx", array_of_items(mx));
            put(&mut m, "ns", jv_texts(&d.ns));
            put(&mut m, "txt", jv_texts(&d.txt));
            put(&mut m, "caa", jv_texts(&d.caa));
            put(&mut m, "elapsed_ms", jv_num(d.elapsed_ms));
            object_of(m)
        },
        Err(e) => jv_error(e),
    }
}

/// The `rdap` member.
fn rdap_json(r: &Outcome<RdapProbe>) -> (j: JsonValue)
    ensures
        j@ == rdap_json_spec(*r),
{
    match r {
        Ok(p) => {
            let mut m = empty_object();
            put(&mut m, "rdap_url", jv_text(p.rdap_url.as_str()));
            put(&mut m, "registrar", jv_opt_text(&p.registrar));
            put(&mut m, "registrar_iana_id", jv_opt_text(&p.registrar_iana_id));
            put(&mut m, "registered_on", jv_time(p.registered_on));
            put(&mut m, "expires_on", jv_time(p.expires_on));
            put(&mut m, "status_codes", jv_texts(&p.status_codes));
            put(&mut m, "registrant_name", jv_opt_text(&p.registrant_name));
            put(&mut m, "registrant_contact_uri", jv_opt_text(&p.registrant_contact_uri));
            put(&mut m, "abuse_email", jv_opt_text(&p.abuse_email));
            put(&mut m, "abuse_phone", jv_opt_text(&p.abuse_phone));
            put(&mut m, "elapsed_ms", jv_num(p.elapsed_ms));
            object_of(m)
        },
        Err(e) => jv_error(e),
    }
}

/// One certificate.
fn cert_json_of(c: &CertInfo) -> (j: JsonValue)
    ensures
        j@ == cert_json(*c),
{
    let mut m = empty_object();
    put(&mut m, "subject", jv_text(c.subject.as_str()));
    put(&mut m, "issuer", jv_text(c.issuer.as_str()));
    put(&mut m, "not_before", jv_time(c.not_before));
    put(&mut m, "not_after", jv_time(c.not_after));
    put(&mut m, "san", jv_texts(&c.san));
    put(&mut m, "is_leaf", JsonValue::Bool(c.is_leaf));
    object_of(m)
}

/// The `tls` member.
fn tls_json(r: &Outcome<TlsProbe>) -> (j: JsonValue)
    ensures
        j@ == tls_json_spec(*r),
{
    match r {
        Ok(t) => {
            let mut certs = empty_array();
            let mut i: usize = 0;
            while i < t.certificate_chain.len()
                invariant
                    i <= t.certificate_chain.len(),
                    items_view(certs@) == Seq::new(i as nat, |k: int| cert_json(t.certificate_chain@[k])),
                decreases t.certificate_chain.len() - i,
            {
                let x = cert_json_of(&t.certificate_chain[i]);
                proof {
                    lemma_items_view_push(certs@, x);
                }
                certs.push(x);
                i = i + 1;
                assert(items_view(certs@) =~= Seq::new(i as nat, |k: int| cert_json(t.certificate_chain@[k])));
            }
            let mut m = empty_object();
            put(&mut m, "protocol_version", jv_text(t.protocol_version.as_str()));
            put(&mut m, "cipher_suite", jv_text(t.cipher_suite.as_str()));
            put(&mut m, "certificate_chain", array_of_items(certs));
            put(&mut m, "elapsed_ms", jv_num(t.elapsed_ms));
            object_of(m)
        },
        Err(e) => jv_error(e),
    }
}

/// The word for a header check's outcome.
fn status_word_of(s: HeaderStatus) -> (w: &'static str)
    ensures
        w@ == status_word(s),
{
    match s {
        HeaderStatus::Pass => "pass",
        HeaderStatus::Warn => "warn",
        HeaderStatus::Fail => "fail",
        HeaderStatus::Info => "info",
    }
}

/// The `security_headers` member.
fn security_json(s: Option<&SecurityHeadersProbe>) -> (j: JsonValue)
    ensures
        j@ == security_json_spec(
            match s {
                Some(x) => Some(*x),
                None => None,
            },
        ),
{
    match s {
        Some(sh) => {
            let mut checks = empty_array();
            let mut i: usize = 0;
            while i < sh.checks.len()
                invariant
                    i <= sh.checks.len(),
                    items_view(checks@) == Seq::new(i as nat, |k: int| check_json(sh.checks@[k])),
                decreases sh.checks.len() - i,
            {
                let c = &sh.checks[i];
                let mut m = empty_object();
                put(&mut m, "name", jv_text(c.name.as_str()));
                put(&mut m, "status", jv_text(status_word_of(c.status)));
                put(&mut m, "value", jv_text(c.value.as_str()));
                let x = object_of(m);
                assert(x@ == check_json(sh.checks@[i as int]));
                proof {
                    lemma_items_view_push(checks@, x);
                }
                checks.push(x);
                i = i + 1;
                assert(items_view(checks@) =~= Seq::new(i as nat, |k: int| check_json(sh.checks@[k])));
            }
            let mut m = empty_object();
            put(&mut m, "checks", array_of_items(checks));
            put(&mut m, "score", jv_num(sh.score as u64));
            object_of(m)
        },
        None => JsonValue::Null,
    }
}

/// The `technology` member.
fn tech_json_of(t: Option<&TechProbe>) -> (j: JsonValue)
    ensures
        j@ == tech_json_spec(
            match t {
                Some(x) => Some(*x),
                None => None,
            },
        ),
{
    match t {
        Some(p) => {
            let mut out = empty_array();
            let mut i: usize = 0;
            while i < p.technologies.len()
                invariant
                    i <= p.technologies.len(),
                    items_view(out@) == Seq::new(i as nat, |k: int| tech_json(p.technologies@[k])),
                decreases p.technologies.len() - i,
            {
                let tm = &p.technologies[i];
                let mut m = empty_object();
                put(&mut m, "name", jv_text(tm.name.as_str()));
                put(&mut m, "category", jv_text(tm.category.as_str()));
                let x = object_of(m);
                assert(x@ == tech_json(p.technologies@[i as int]));
                proof {
                    lemma_items_view_push(out@, x);
                }
                out.push(x);
                i = i + 1;
                assert(items_view(out@) =~= Seq::new(i as nat, |k: int| tech_json(p.technologies@[k])));
            }
            array_of_items(out)
        },
        None => JsonValue::Null,
    }
}

/// The `grade` member.
fn grade_json(g: &GradeResult) -> (j: JsonValue)
    ensures
        j@ == grade_json_spec(*g),
{
    let mut m = empty_object();
    put(&mut m, "grade", jv_text(g.grade.as_str()));
    put(&mut m, "overall_score", jv_num(g.overall_score as u64));
    put(&mut m, "tls_score", jv_num(g.tls_score as u64));
    put(&mut m, "headers_score", jv_num(g.headers_score as u64));
    put(&mut m, "dns_score", jv_num(g.dns_score as u64));
    put(&mut m, "http_score", jv_num(g.http_score as u64));
    put(&mut m, "perf_score", jv_num(g.perf_score as u64));
    object_of(m)
}

/// The whole report as one JSON document. The grade is computed by the
/// caller.
pub fn json_report(
    target: &TargetUrl,
    host: &str,
    http_result: &Outcome<HttpProbe>,
    redirect_result: &Outcome<RedirectProbe>,
    alt_redirect_result: Option<&(TargetUrl, Outcome<RedirectProbe>)>,
    dns_result: &Outcome<DnsProbe>,
    rdap_result: &Outcome<RdapProbe>,
    tls_result: &Outcome<TlsProbe>,
    security_headers: Option<&SecurityHeadersProbe>,
    tech_result: Option<&TechProbe>,
    grade: &GradeResult,
    total_elapsed_ms: u64,
) -> (j: JsonValue)
    requires
        http_result matches Ok(h) ==> 100 <= h.status <= 999,
    ensures
        j@ == json_report_spec(
            *target,
            host@,
            *http_result,
            *redirect_result,
            match alt_redirect_result {
                Some(x) => Some(*x),
                None => None,
            },
            *dns_result,
            *rdap_result,
            *tls_result,
            match security_headers {
                Some(x) => Some(*x),
                None => None,
            },
            match tech_result {
                Some(x) => Some(*x),
                None => None,
            },
            *grade,
            total_elapsed_ms as nat,
        ),
{
    let mut t = empty_object();
    put(&mut t, "url", jv_text(target.as_str()));
    put(&mut t, "host", jv_text(host));
    let mut m = empty_object();
    put(&mut m, "target", object_of(t));
    put(&mut m, "http", http_json(http_result));
    put(&mut m, "redirects", redirects_json(redirect_result));
    put(&mut m, "scheme_variant", variant_json(alt_redirect_result));
    put(&mut m, "dns", dns_json(dns_result));
    put(&mut m, "rdap", rdap_json(rdap_result));
    put(&mut m, "tls", tls_json(tls_result));
    put(&mut m, "security_headers", security_json(security_headers));
    put(&mut m, "technology", tech_json_of(tech_result));
    put(&mut m, "grade", grade_json(grade));
    put(&mut m, "total_elapsed_ms", jv_num(total_elapsed_ms));
    object_of(m)
}

} // verus!
