//! The HTTP target probe's result and its content-length parsing.

use vstd::prelude::*;
use crate::probe::headers::HeaderMap;
use crate::text::{chars_of, lower, parse_unsigned, parse_unsigned_chars, split_chars, split_on, string_of, to_lower, trim, trimmed, views};

verus! {

/// HTTP protocol versions a response can report.
#[derive(PartialEq, Eq, Structural, Clone, Copy)]
pub enum HttpVersion {
    Http09,
    Http10,
    Http11,
    Http2,
    Http3,
    Other,
}

/// What the HTTP probe learned about the target.
pub struct HttpProbe {
    pub status: u16,
    pub version: HttpVersion,
    pub content_type: Option<String>,
    pub content_length: Option<u64>,
    pub server: Option<String>,
    pub headers: HeaderMap,
    pub elapsed_ms: u64,
}

/// A 2xx status.
pub open spec fn is_success(status: u16) -> bool {
    200 <= status <= 299
}

/// A 3xx status.
pub open spec fn is_redirection(status: u16) -> bool {
    300 <= status <= 399
}

/// Exec form of [`is_success`].
pub fn status_is_success(status: u16) -> (b: bool)
    ensures
        b == is_success(status),
{
    200 <= status && status <= 299
}

/// Exec form of [`is_redirection`].
pub fn status_is_redirection(status: u16) -> (b: bool)
    ensures
        b == is_redirection(status),
{
    300 <= status && status <= 399
}

/// The total size in a `Content-Range` value (`bytes 0-0/1234`): the text
/// after the last `/`, trimmed; `*` means unknown.
pub open spec fn content_range_total(raw: Seq<char>) -> Option<nat> {
    let total = trim(split_on(raw, '/').last());
    if total == seq!['*'] {
        None
    } else {
        parse_unsigned(total, 10, 0xffff_ffff_ffff_ffff)
    }
}

proof fn lemma_split_nonempty(s: Seq<char>, sep: char, cur: Seq<char>)
    ensures
        crate::text::split_from(s, sep, cur).len() > 0,
    decreases s.len(),
{
    if s.len() > 0 {
        if s[0] == sep {
            lemma_split_nonempty(s.drop_first(), sep, Seq::empty());
        } else {
            lemma_split_nonempty(s.drop_first(), sep, cur.push(s[0]));
        }
    }
}

/// Parses the total length out of a `Content-Range` header value.
pub fn parse_content_range_total(raw: &str) -> (total: Option<u64>)
    ensures
        total matches Some(v) ==> content_range_total(raw@) == Some(v as nat),
        total is None ==> content_range_total(raw@) is None,
{
    let cs = chars_of(raw);
    let parts = split_chars(&cs, '/');
    proof {
        lemma_split_nonempty(cs@, '/', Seq::empty());
    }
    let last = &parts[parts.len() - 1];
    assert(last@ == split_on(raw@, '/').last());
    let t = trimmed(last);
    if t.len() == 1 && t[0] == '*' {
        assert(t@ =~= seq!['*']);
        return None;
    }
    assert(t@ != seq!['*']);
    parse_unsigned_chars(&t, 10, 0xffff_ffff_ffff_ffff)
}

/// A `Content-Length` value as `str::parse::<u64>` reads it.
pub open spec fn length_value(raw: Seq<char>) -> Option<nat> {
    parse_unsigned(raw, 10, 0xffff_ffff_ffff_ffff)
}

/// Parses a `Content-Length` value.
pub fn parse_length(raw: &str) -> (n: Option<u64>)
    ensures
        match length_value(raw@) {
            Some(v) => n == Some(v as u64),
            None => n is None,
        },
{
    let cs = chars_of(raw);
    parse_unsigned_chars(cs.as_slice(), 10, 0xffff_ffff_ffff_ffff)
}

/// The length a response's headers give: its `Content-Length` when that
/// parses, else the total of its `Content-Range`.
pub open spec fn length_from_spec(length: Option<Seq<char>>, range: Option<Seq<char>>) -> Option<nat> {
    let direct = match length {
        Some(l) => length_value(l),
        None => None,
    };
    if direct is Some {
        direct
    } else {
        match range {
            Some(r) => content_range_total(r),
            None => None,
        }
    }
}

/// The character view of an optional string.
pub open spec fn opt_seq(o: Option<String>) -> Option<Seq<char>> {
    match o {
        Some(s) => Some(s@),
        None => None,
    }
}

/// The length a response's `Content-Length` and `Content-Range` give.
pub fn length_from(length: Option<String>, range: Option<String>) -> (n: Option<u64>)
    ensures
        match length_from_spec(opt_seq(length), opt_seq(range)) {
            Some(v) => n == Some(v as u64),
            None => n is None,
        },
{
    let direct = match &length {
        Some(l) => parse_length(l.as_str()),
        None => None,
    };
    if direct.is_some() {
        return direct;
    }
    match &range {
        Some(r) => parse_content_range_total(r.as_str()),
        None => None,
    }
}

/// Collects response headers, names lower-cased, in the order received;
/// a later header of the same name replaces an earlier one.
pub fn collect_headers(pairs: Vec<(String, String)>) -> (m: HeaderMap)
    ensures
        m.entries@.len() == pairs@.len(),
        forall|i: int|
            0 <= i < pairs@.len() ==> (#[trigger] m.entries@[i]).0@ == lower(pairs@[i].0@) && m.entries@[i].1@
                == pairs@[i].1@,
{
    let mut m = HeaderMap { entries: Vec::new() };
    let mut i: usize = 0;
    while i < pairs.len()
        invariant
            i <= pairs.len(),
            m.entries@.len() == i,
            forall|k: int|
                0 <= k < i ==> (#[trigger] m.entries@[k]).0@ == lower(pairs@[k].0@) && m.entries@[k].1@
                    == pairs@[k].1@,
        decreases pairs.len() - i,
    {
        let name = string_of(to_lower(chars_of(pairs[i].0.as_str()).as_slice()).as_slice());
        let value = string_of(chars_of(pairs[i].1.as_str()).as_slice());
        m.entries.push((name, value));
        i = i + 1;
    }
    m
}

} // verus!
