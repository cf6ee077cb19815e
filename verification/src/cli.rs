//! Command-line decisions: which report sections to show and which URL to
//! probe.

use vstd::prelude::*;
use crate::text::{string_of, append_chars, append_str, chars_of, lower, same_chars, to_lower, trim, trimmed};
use url::Url;

verus! {

/// A section of the report.
#[derive(Debug, Clone, Copy, PartialEq, Eq, Structural, Hash)]
pub enum SectionName {
    Target,
    Whois,
    Redirects,
    Dns,
    Tls,
    Headers,
    Tech,
    Performance,
    Summary,
}

/// The section a (trimmed, lower-cased) name selects, with its aliases.
pub open spec fn section_named(n: Seq<char>) -> Option<SectionName> {
    if n == seq!['t', 'a', 'r', 'g', 'e', 't'] || n == seq!['h', 't', 't', 'p'] {
        Some(SectionName::Target)
    } else if n == seq!['w', 'h', 'o', 'i', 's'] || n == seq!['r', 'd', 'a', 'p'] {
        Some(SectionName::Whois)
    } else if n == seq!['r', 'e', 'd', 'i', 'r', 'e', 'c', 't', 's'] || n == seq![
        'r',
        'e',
        'd',
        'i',
        'r',
        'e',
        'c',
        't',
    ] {
        Some(SectionName::Redirects)
    } else if n == seq!['d', 'n', 's'] || n == seq!['i', 'p'] {
        Some(SectionName::Dns)
    } else if n == seq!['t', 'l', 's'] || n == seq!['c', 'e', 'r', 't'] || n == seq![
        'c',
        'e',
        'r',
        't',
        'i',
        'f',
        'i',
        'c',
        'a',
        't',
        'e',
    ] {
        Some(SectionName::Tls)
    } else if n == seq!['h', 'e', 'a', 'd', 'e', 'r', 's'] || n == seq![
        's',
        'e',
        'c',
        'u',
        'r',
        'i',
        't',
        'y',
    ] || n == seq!['s', 'e', 'c', 'u', 'r', 'i', 't', 'y', '-', 'h', 'e', 'a', 'd', 'e', 'r', 's'] {
        Some(SectionName::Headers)
    } else if n == seq!['t', 'e', 'c', 'h'] || n == seq![
        't',
        'e',
        'c',
        'h',
        'n',
        'o',
        'l',
        'o',
        'g',
        'y',
    ] || n == seq!['f', 'i', 'n', 'g', 'e', 'r', 'p', 'r', 'i', 'n', 't'] {
        Some(SectionName::Tech)
    } else if n == seq!['p', 'e', 'r', 'f', 'o', 'r', 'm', 'a', 'n', 'c', 'e'] || n == seq![
        'p',
        'e',
        'r',
        'f',
    ] {
        Some(SectionName::Performance)
    } else if n == seq!['s', 'u', 'm', 'm', 'a', 'r', 'y'] || n == seq!['g', 'r', 'a', 'd', 'e'] {
        Some(SectionName::Summary)
    } else {
        None
    }
}

impl SectionName {
    /// Position of the section in [`SectionSet`].
    pub open spec fn slot(self) -> int {
        match self {
            SectionName::Target => 0,
            SectionName::Whois => 1,
            SectionName::Redirects => 2,
            SectionName::Dns => 3,
            SectionName::Tls => 4,
            SectionName::Headers => 5,
            SectionName::Tech => 6,
            SectionName::Performance => 7,
            SectionName::Summary => 8,
        }
    }

    fn slot_of(self) -> (i: usize)
        ensures
            i == self.slot(),
    {
        match self {
            SectionName::Target => 0,
            SectionName::Whois => 1,
            SectionName::Redirects => 2,
            SectionName::Dns => 3,
            SectionName::Tls => 4,
            SectionName::Headers => 5,
            SectionName::Tech => 6,
            SectionName::Performance => 7,
            SectionName::Summary => 8,
        }
    }

    /// The section a user-supplied name selects: surrounding whitespace is
    /// ignored, ASCII letters match in either case, and each section has
    /// one or more aliases (`http` for `target`, `rdap` for `whois`, ...).
    pub fn parse(raw: &str) -> (r: Option<Self>)
        ensures
            r == section_named(lower(trim(raw@))),
    {
        let cs = chars_of(raw);
        let t = trimmed(cs.as_slice());
        let n = to_lower(t.as_slice());
        let n = n.as_slice();
        if same_chars(n, &['t', 'a', 'r', 'g', 'e', 't']) || same_chars(n, &['h', 't', 't', 'p']) {
            Some(SectionName::Target)
        } else if same_chars(n, &['w', 'h', 'o', 'i', 's']) || same_chars(n, &['r', 'd', 'a', 'p']) {
            Some(SectionName::Whois)
        } else if same_chars(n, &['r', 'e', 'd', 'i', 'r', 'e', 'c', 't', 's']) || same_chars(
            n,
            &['r', 'e', 'd', 'i', 'r', 'e', 'c', 't'],
        ) {
            Some(SectionName::Redirects)
        } else if same_chars(n, &['d', 'n', 's']) || same_chars(n, &['i', 'p']) {
            Some(SectionName::Dns)
        } else if same_chars(n, &['t', 'l', 's']) || same_chars(n, &['c', 'e', 'r', 't'])
            || same_chars(n, &['c', 'e', 'r', 't', 'i', 'f', 'i', 'c', 'a', 't', 'e']) {
            Some(SectionName::Tls)
        } else if same_chars(n, &['h', 'e', 'a', 'd', 'e', 'r', 's']) || same_chars(
            n,
            &['s', 'e', 'c', 'u', 'r', 'i', 't', 'y'],
        ) || same_chars(
            n,
            &['s', 'e', 'c', 'u', 'r', 'i', 't', 'y', '-', 'h', 'e', 'a', 'd', 'e', 'r', 's'],
        ) {
            Some(SectionName::Headers)
        } else if same_chars(n, &['t', 'e', 'c', 'h']) || same_chars(
            n,
            &['t', 'e', 'c', 'h', 'n', 'o', 'l', 'o', 'g', 'y'],
        ) || same_chars(n, &['f', 'i', 'n', 'g', 'e', 'r', 'p', 'r', 'i', 'n', 't']) {
            Some(SectionName::Tech)
        } else if same_chars(n, &['p', 'e', 'r', 'f', 'o', 'r', 'm', 'a', 'n', 'c', 'e'])
            || same_chars(n, &['p', 'e', 'r', 'f']) {
            Some(SectionName::Performance)
        } else if same_chars(n, &['s', 'u', 'm', 'm', 'a', 'r', 'y']) || same_chars(
            n,
            &['g', 'r', 'a', 'd', 'e'],
        ) {
            Some(SectionName::Summary)
        } else {
            None
        }
    }
}

/// A set of report sections.
pub struct SectionSet {
    members: [bool; 9],
}

impl View for SectionSet {
    type V = Set<SectionName>;

    closed spec fn view(&self) -> Set<SectionName> {
        Set::new(|s: SectionName| self.members@[s.slot()])
    }
}

impl SectionSet {
    /// The empty set.
    pub fn new() -> (s: Self)
        ensures
            s@ == Set::<SectionName>::empty(),
    {
        let s = SectionSet { members: [false; 9] };
        assert(s@ =~= Set::<SectionName>::empty());
        s
    }

    /// Adds a section.
    pub fn insert(&mut self, section: SectionName)
        ensures
            final(self)@ == old(self)@.insert(section),
    {
        let i = section.slot_of();
        self.members[i] = true;
        assert(final(self)@ =~= old(self)@.insert(section)) by {
            assert forall|s: SectionName| #[trigger] final(self)@.contains(s) == old(self)@.insert(section).contains(s) by {
                if s.slot() == section.slot() {
                    assert(s == section);
                }
            }
        }
    }

    /// Whether the section is in the set.
    pub fn contains(&self, section: SectionName) -> (b: bool)
        ensures
            b == self@.contains(section),
    {
        self.members[section.slot_of()]
    }

    /// Whether the set holds no section.
    pub fn is_empty(&self) -> (b: bool)
        ensures
            b == (self@ == Set::<SectionName>::empty()),
    {
        let m = &self.members;
        let b = !m[0] && !m[1] && !m[2] && !m[3] && !m[4] && !m[5] && !m[6] && !m[7] && !m[8];
        if b {
            assert(self@ =~= Set::<SectionName>::empty());
        } else {
            let w = if m[0] {
                SectionName::Target
            } else if m[1] {
                SectionName::Whois
            } else if m[2] {
                SectionName::Redirects
            } else if m[3] {
                SectionName::Dns
            } else if m[4] {
                SectionName::Tls
            } else if m[5] {
                SectionName::Headers
            } else if m[6] {
                SectionName::Tech
            } else if m[7] {
                SectionName::Performance
            } else {
                SectionName::Summary
            };
            assert(self@.contains(w));
        }
        b
    }
}

/// The sections that the names select, in a set.
pub open spec fn sections_of(names: Seq<Seq<char>>) -> Set<SectionName>
    decreases names.len(),
{
    if names.len() == 0 {
        Set::empty()
    } else {
        sections_of(names.drop_last()).insert(section_named(lower(trim(names.last()))).unwrap())
    }
}

/// The first name that selects no section, if any.
pub open spec fn first_unknown(names: Seq<Seq<char>>) -> Option<int> {
    if exists|i: int| 0 <= i < names.len() && section_named(lower(trim(#[trigger] names[i]))) is None {
        Some(
            choose|i: int|
                0 <= i < names.len() && section_named(lower(trim(#[trigger] names[i]))) is None && forall|
                    j: int,
                |
                    0 <= j < i ==> section_named(lower(trim(#[trigger] names[j]))) is Some,
        )
    } else {
        None
    }
}

/// The message for a section name that selects no section.
pub open spec fn unknown_section_message(raw: Seq<char>) -> Seq<char> {
    seq!['u', 'n', 'k', 'n', 'o', 'w', 'n', ' ', 's', 'e', 'c', 't', 'i', 'o', 'n', ' ', '`'] + raw
        + supported_sections_note()
}

/// The list of supported section names that ends the message.
pub open spec fn supported_sections_note() -> Seq<char> {
    seq!['`', ' ', '(', 's', 'u', 'p', 'p', 'o', 'r', 't', 'e', 'd', ':', ' ']
        + seq!['t', 'a', 'r', 'g', 'e', 't', ',', ' ', 'w', 'h', 'o', 'i', 's', ',', ' ']
        + seq!['r', 'e', 'd', 'i', 'r', 'e', 'c', 't', 's', ',', ' ', 'd', 'n', 's', ',', ' ']
        + seq!['t', 'l', 's', ',', ' ', 'h', 'e', 'a', 'd', 'e', 'r', 's', ',', ' ']
        + seq!['t', 'e', 'c', 'h', ',', ' ', 'p', 'e', 'r', 'f', 'o', 'r', 'm', 'a', 'n', 'c', 'e', ',', ' ']
        + seq!['s', 'u', 'm', 'm', 'a', 'r', 'y', ')']
}

/// The character views of a list of strings.
pub open spec fn string_views(v: Seq<String>) -> Seq<Seq<char>> {
    Seq::new(v.len(), |i: int| v[i]@)
}

/// Builds the message for an unknown section name.
fn unknown_section(raw: &str) -> (m: String)
    ensures
        m@ == unknown_section_message(raw@),
{
    let mut m = String::new();
    append_chars(&mut m, &['u', 'n', 'k', 'n', 'o', 'w', 'n', ' ', 's', 'e', 'c', 't', 'i', 'o', 'n', ' ', '`']);
    append_str(&mut m, raw);
    append_chars(&mut m, &['`', ' ', '(', 's', 'u', 'p', 'p', 'o', 'r', 't', 'e', 'd', ':', ' ']);
    append_chars(&mut m, &['t', 'a', 'r', 'g', 'e', 't', ',', ' ', 'w', 'h', 'o', 'i', 's', ',', ' ']);
    append_chars(&mut m, &['r', 'e', 'd', 'i', 'r', 'e', 'c', 't', 's', ',', ' ', 'd', 'n', 's', ',', ' ']);
    append_chars(&mut m, &['t', 'l', 's', ',', ' ', 'h', 'e', 'a', 'd', 'e', 'r', 's', ',', ' ']);
    append_chars(
        &mut m,
        &['t', 'e', 'c', 'h', ',', ' ', 'p', 'e', 'r', 'f', 'o', 'r', 'm', 'a', 'n', 'c', 'e', ',', ' '],
    );
    append_chars(&mut m, &['s', 'u', 'm', 'm', 'a', 'r', 'y', ')']);
    assert(m@ =~= unknown_section_message(raw@));
    m
}

/// The set of sections the names select, or, for the first name that
/// selects none, a message naming it and listing the supported names.
pub fn parse_sections(raw_sections: &[String]) -> (r: Result<SectionSet, String>)
    ensures
        match first_unknown(string_views(raw_sections@)) {
            None => r matches Ok(s) && s@ == sections_of(string_views(raw_sections@)),
            Some(i) => r matches Err(m) && m@ == unknown_section_message(raw_sections@[i]@),
        },
{
    let ghost names = string_views(raw_sections@);
    let mut sections = SectionSet::new();
    let mut i: usize = 0;
    while i < raw_sections.len()
        invariant
            i <= raw_sections.len(),
            names == string_views(raw_sections@),
            forall|j: int| 0 <= j < i ==> section_named(lower(trim(#[trigger] names[j]))) is Some,
            sections@ == sections_of(names.take(i as int)),
        decreases raw_sections.len() - i,
    {
        let raw = &raw_sections[i];
        assert(names[i as int] == raw@);
        match SectionName::parse(raw.as_str()) {
            Some(section) => {
                sections.insert(section);
                assert(names.take(i + 1).drop_last() =~= names.take(i as int));
                assert(names.take(i + 1).last() == names[i as int]);
            },
            None => {
                let ghost k = i as int;
                assert(first_unknown(names) == Some(k)) by {
                    assert(0 <= k < names.len() && section_named(lower(trim(names[k]))) is None);
                    let c = choose|c: int|
                        0 <= c < names.len() && section_named(lower(trim(#[trigger] names[c]))) is None
                            && forall|j: int|
                            0 <= j < c ==> section_named(lower(trim(#[trigger] names[j]))) is Some;
                    assert(0 <= c < names.len() && section_named(lower(trim(names[c]))) is None
                        && forall|j: int| 0 <= j < c ==> section_named(lower(trim(#[trigger] names[j]))) is Some);
                    if c < k {
                    } else if c > k {
                        assert(section_named(lower(trim(names[k]))) is Some);
                    }
                }
                return Err(unknown_section(raw.as_str()));
            },
        }
        i = i + 1;
    }
    assert(names.take(i as int) =~= names);
    assert(first_unknown(names) is None);
    Ok(sections)
}

/// Whether a section is shown: every section is, when none was selected;
/// otherwise the selected ones.
pub fn should_show(selected_sections: &SectionSet, section: SectionName) -> (b: bool)
    ensures
        b == (selected_sections@ == Set::<SectionName>::empty() || selected_sections@.contains(section)),
{
    selected_sections.is_empty() || selected_sections.contains(section)
}

/// With no section selected, every section is shown; otherwise a section is
/// shown exactly when one of the given names selects it.
pub proof fn lemma_sections_shown(names: Seq<Seq<char>>, section: SectionName)
    requires
        first_unknown(names) is None,
    ensures
        names.len() == 0 ==> sections_of(names) == Set::<SectionName>::empty(),
        sections_of(names).contains(section) <==> exists|i: int|
            0 <= i < names.len() && section_named(lower(trim(#[trigger] names[i]))) == Some(section),
    decreases names.len(),
{
    if names.len() > 0 {
        let init = names.drop_last();
        assert forall|i: int| 0 <= i < init.len() implies section_named(lower(trim(#[trigger] init[i]))) is Some by {
            assert(init[i] == names[i]);
            if section_named(lower(trim(names[i]))) is None {
                assert(exists|j: int| 0 <= j < names.len() && section_named(lower(trim(#[trigger] names[j]))) is None);
            }
        }
        if exists|j: int| 0 <= j < init.len() && section_named(lower(trim(#[trigger] init[j]))) is None {
            let j = choose|j: int| 0 <= j < init.len() && section_named(lower(trim(#[trigger] init[j]))) is None;
            assert(section_named(lower(trim(init[j]))) is Some);
        }
        lemma_sections_shown(init, section);
        let last = names.len() - 1;
        if section_named(lower(trim(names[last]))) is None {
            assert(exists|j: int| 0 <= j < names.len() && section_named(lower(trim(#[trigger] names[j]))) is None);
        }
        if sections_of(names).contains(section) {
            if section_named(lower(trim(names.last()))).unwrap() != section {
                let i = choose|i: int| 0 <= i < init.len() && section_named(lower(trim(#[trigger] init[i]))) == Some(section);
                assert(names[i] == init[i]);
            }
        } else {
            assert forall|i: int| 0 <= i < names.len() implies section_named(lower(trim(#[trigger] names[i]))) != Some(section) by {
                if i < init.len() {
                    assert(names[i] == init[i]);
                }
            }
        }
    }
}

/// `url::Url`, carried through the library unopened.
#[verifier::external_type_specification]
#[verifier::external_body]
pub struct ExUrl(Url);

/// The serialization, scheme, host and path of a URL.
pub type UrlParts = (Seq<char>, Seq<char>, Option<Seq<char>>, Seq<char>);

/// The character view of an optional string.
pub open spec fn opt_view(o: Option<String>) -> Option<Seq<char>> {
    match o {
        Some(s) => Some(s@),
        None => None,
    }
}

/// A parsed URL: the `url` crate's value, with the parts the probe reads
/// (its serialization, scheme and host) held as plain strings.
pub struct TargetUrl {
    url: Url,
    text: String,
    scheme: String,
    host: Option<String>,
    path: String,
}

impl TargetUrl {
    /// Serialization, scheme, host and path.
    pub closed spec fn parts(&self) -> UrlParts {
        (self.text@, self.scheme@, opt_view(self.host), self.path@)
    }

    /// The path.
    pub fn path(&self) -> (s: &str)
        ensures
            s@ == self.parts().3,
    {
        self.path.as_str()
    }

    /// The serialization of the URL.
    pub fn as_str(&self) -> (s: &str)
        ensures
            s@ == self.parts().0,
    {
        self.text.as_str()
    }

    /// The scheme, without the `:`.
    pub fn scheme(&self) -> (s: &str)
        ensures
            s@ == self.parts().1,
    {
        self.scheme.as_str()
    }

    /// The host, if the URL has one.
    pub fn host(&self) -> (h: Option<String>)
        ensures
            opt_view(h) == self.parts().2,
    {
        match &self.host {
            Some(h) => Some(h.clone()),
            None => None,
        }
    }

    /// The `url` crate's value the parts were read from.
    pub closed spec fn url_value(&self) -> Url {
        self.url
    }

    /// The URL itself, for the network layer.
    pub fn url(&self) -> (u: &Url)
        ensures
            *u == self.url_value(),
    {
        &self.url
    }

    /// Whether the scheme is `https`.
    pub fn is_https(&self) -> (b: bool)
        ensures
            b == (self.parts().1 == seq!['h', 't', 't', 'p', 's']),
    {
        let s = chars_of(self.scheme.as_str());
        same_chars(s.as_slice(), &['h', 't', 't', 'p', 's'])
    }
}

/// What `Url::parse` makes of a text: on success the URL's serialization,
/// scheme, host and path; on failure the parse error's message.
pub uninterp spec fn url_parse(input: Seq<char>) -> Result<UrlParts, Seq<char>>;

/// What `Url::set_scheme` makes of the URL serialized as `text`: the new
/// URL's parts, or nothing when the scheme cannot be changed.
pub uninterp spec fn url_set_scheme(text: Seq<char>, scheme: Seq<char>) -> Option<UrlParts>;

/// Parses a URL with `Url::parse`; the result is [`url_parse`] of the text.
#[verifier::external_body]
pub(crate) fn parse_url(input: &str) -> (r: Result<TargetUrl, String>)
    ensures
        match url_parse(input@) {
            Ok(p) => r matches Ok(u) && u.parts() == p,
            Err(m) => r matches Err(e) && e@ == m,
        },
{
    match Url::parse(input) {
        Ok(url) => {
            let (text, scheme, path) = (url.as_str().to_string(), url.scheme().to_string(), url.path().to_string());
            Ok(TargetUrl { text, scheme, host: url.host_str().map(|h| h.to_string()), path, url })
        },
        Err(e) => Err(e.to_string()),
    }
}

/// A copy of the URL with its scheme changed by `Url::set_scheme`. A URL
/// is determined by its serialization, so the result is
/// [`url_set_scheme`] of that text.
#[verifier::external_body]
fn with_scheme(url: &TargetUrl, scheme: &str) -> (r: Option<TargetUrl>)
    ensures
        match url_set_scheme(url.parts().0, scheme@) {
            Some(p) => r matches Some(u) && u.parts() == p,
            None => r is None,
        },
{
    let mut alt = url.url.clone();
    match alt.set_scheme(scheme) {
        Ok(()) => {
            let (text, scheme, path) = (alt.as_str().to_string(), alt.scheme().to_string(), alt.path().to_string());
            Some(TargetUrl { text, scheme, host: alt.host_str().map(|h| h.to_string()), path, url: alt })
        },
        Err(()) => None,
    }
}

/// What `Url::set_path` makes of the URL serialized as `text`.
pub uninterp spec fn url_set_path(text: Seq<char>, path: Seq<char>) -> UrlParts;

/// What `Url::join` makes of a relative reference against the URL
/// serialized as `text`: the joined URL's parts, or the error's message.
pub uninterp spec fn url_join(text: Seq<char>, reference: Seq<char>) -> Result<UrlParts, Seq<char>>;

/// The URL with its path replaced by `Url::set_path`; the result is
/// [`url_set_path`] of the URL's text.
#[verifier::external_body]
pub(crate) fn with_path(url: &TargetUrl, path: &str) -> (r: TargetUrl)
    ensures
        r.parts() == url_set_path(url.parts().0, path@),
{
    let mut u = url.url.clone();
    u.set_path(path);
    let (text, scheme, path) = (u.as_str().to_string(), u.scheme().to_string(), u.path().to_string());
    TargetUrl { text, scheme, host: u.host_str().map(|h| h.to_string()), path, url: u }
}

/// A relative reference resolved against the URL by `Url::join`; the
/// result is [`url_join`] of the URL's text and the reference.
#[verifier::external_body]
pub(crate) fn joined(url: &TargetUrl, reference: &str) -> (r: Result<TargetUrl, String>)
    ensures
        match url_join(url.parts().0, reference@) {
            Ok(p) => r matches Ok(u) && u.parts() == p,
            Err(m) => r matches Err(e) && e@ == m,
        },
{
    match url.url.join(reference) {
        Ok(u) => {
            let (text, scheme, path) = (u.as_str().to_string(), u.scheme().to_string(), u.path().to_string());
            Ok(TargetUrl { text, scheme, host: u.host_str().map(|h| h.to_string()), path, url: u })
        },
        Err(e) => Err(e.to_string()),
    }
}

/// `https://` followed by `input`.
pub open spec fn with_https(input: Seq<char>) -> Seq<char> {
    seq!['h', 't', 't', 'p', 's', ':', '/', '/'] + input
}

/// The message for a URL without a host.
pub open spec fn no_host_message() -> Seq<char> {
    seq!['u', 'n', 'a', 'b', 'l', 'e', ' ', 't', 'o', ' ', 'p', 'a', 'r', 's', 'e', ' ', 'a', ' ']
        + seq!['h', 'o', 's', 't', 'n', 'a', 'm', 'e', ' ', 'f', 'r', 'o', 'm', ' ', 'i', 'n', 'p', 'u', 't']
}

/// The target a command-line argument names: the argument parsed as a URL,
/// or else as a host name under `https://`; an error when neither parses or
/// the URL has no host.
pub open spec fn target_parse(input: Seq<char>) -> Result<UrlParts, Seq<char>> {
    let parsed = if url_parse(input) is Ok {
        url_parse(input)
    } else {
        url_parse(with_https(input))
    };
    match parsed {
        Ok(p) => if p.2 is None {
            Err(no_host_message())
        } else {
            Ok(p)
        },
        Err(m) => Err(m),
    }
}

/// Parses the target argument; a bare host name gets `https://`.
pub fn parse_target_url(input: &str) -> (r: Result<TargetUrl, String>)
    ensures
        match target_parse(input@) {
            Ok(p) => r matches Ok(u) && u.parts() == p,
            Err(m) => r matches Err(e) && e@ == m,
        },
{
    let parsed = match parse_url(input) {
        Ok(u) => u,
        Err(_) => {
            let mut with = String::new();
            append_chars(&mut with, &['h', 't', 't', 'p', 's', ':', '/', '/']);
            append_str(&mut with, input);
            assert(with@ =~= with_https(input@));
            match parse_url(with.as_str()) {
                Ok(u) => u,
                Err(e) => return Err(e),
            }
        },
    };
    if parsed.host.is_none() {
        let mut m = String::new();
        append_chars(&mut m, &['u', 'n', 'a', 'b', 'l', 'e', ' ', 't', 'o', ' ', 'p', 'a', 'r', 's', 'e', ' ', 'a', ' ']);
        append_chars(&mut m, &['h', 'o', 's', 't', 'n', 'a', 'm', 'e', ' ', 'f', 'r', 'o', 'm', ' ', 'i', 'n', 'p', 'u', 't']);
        assert(m@ =~= no_host_message());
        return Err(m);
    }
    Ok(parsed)
}

/// The same URL under the other web scheme: `http` for `https` and the
/// reverse; nothing for other schemes or when the scheme cannot change.
pub fn alt_scheme_url(url: &TargetUrl) -> (r: Option<TargetUrl>)
    ensures
        url.parts().1 == seq!['h', 't', 't', 'p', 's'] ==> match url_set_scheme(url.parts().0, seq!['h', 't', 't', 'p']) {
            Some(p) => r matches Some(u) && u.parts() == p,
            None => r is None,
        },
        url.parts().1 == seq!['h', 't', 't', 'p'] ==> match url_set_scheme(url.parts().0, seq!['h', 't', 't', 'p', 's']) {
            Some(p) => r matches Some(u) && u.parts() == p,
            None => r is None,
        },
        url.parts().1 != seq!['h', 't', 't', 'p', 's'] && url.parts().1 != seq!['h', 't', 't', 'p'] ==> r is None,
{
    let s = chars_of(url.scheme.as_str());
    if same_chars(s.as_slice(), &['h', 't', 't', 'p', 's']) {
        let to = string_of(&['h', 't', 't', 'p']);
        with_scheme(url, to.as_str())
    } else if same_chars(s.as_slice(), &['h', 't', 't', 'p']) {
        let to = string_of(&['h', 't', 't', 'p', 's']);
        with_scheme(url, to.as_str())
    } else {
        None
    }
}

/// The request timeout: the command line's when it differs from the
/// default of ten seconds, else the configuration's.
pub fn effective_timeout(cli_timeout: u64, config_timeout: u64) -> (t: u64)
    ensures
        t == if cli_timeout != 10 { cli_timeout } else { config_timeout },
{
    if cli_timeout != 10 { cli_timeout } else { config_timeout }
}

/// Timeouts of the HTTP clients, in seconds: connecting (at most eight) and
/// the whole request, both at least one.
pub fn client_timeouts(timeout_secs: u64) -> (t: (u64, u64))
    ensures
        t.1 == if timeout_secs < 1 { 1 } else { timeout_secs },
        t.0 == if t.1 > 8 { 8 } else { t.1 },
{
    let total = if timeout_secs < 1 { 1 } else { timeout_secs };
    let connect = if total > 8 { 8 } else { total };
    (connect, total)
}

/// Redirects the data client follows on its own.
pub const DATA_CLIENT_REDIRECT_LIMIT: usize = 8;

} // verus!
