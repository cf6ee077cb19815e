//! Technology fingerprinting from response headers.

use vstd::prelude::*;
use vstd::string::StringExecFns;
use crate::probe::headers::HeaderMap;
use crate::text::{chars_of, contains_folded, contains_seq, lower};

verus! {

/// A detected technology.
pub struct TechMatch {
    pub name: String,
    pub category: String,
    pub icon: String,
}

/// All detected technologies, in rule order.
pub struct TechProbe {
    pub technologies: Vec<TechMatch>,
}

/// A technology as plain values: name, category, icon.
pub open spec fn tech_view(t: TechMatch) -> (Seq<char>, Seq<char>, Seq<char>) {
    (t.name@, t.category@, t.icon@)
}

/// Lower-cased value of a header, empty when absent.
pub open spec fn folded_header(h: &HeaderMap, name: Seq<char>) -> Seq<char> {
    match h.get_spec(name) {
        Some(v) => lower(v),
        None => Seq::empty(),
    }
}

/// The header value mentions `needle`, in any case.
pub open spec fn header_mentions(h: &HeaderMap, name: Seq<char>, needle: Seq<char>) -> bool {
    contains_seq(folded_header(h, name), needle)
}

/// The header is present.
pub open spec fn has_header(h: &HeaderMap, name: Seq<char>) -> bool {
    h.get_spec(name) is Some
}

/// `entry` when `cond` holds, nothing otherwise.
pub open spec fn when(cond: bool, name: Seq<char>, category: Seq<char>, icon: Seq<char>) -> Seq<(Seq<char>, Seq<char>, Seq<char>)> {
    if cond {
        seq![(name, category, icon)]
    } else {
        Seq::empty()
    }
}

/// The technologies the headers reveal, in rule order.
pub open spec fn detected(h: &HeaderMap) -> Seq<(Seq<char>, Seq<char>, Seq<char>)> {
    when(header_mentions(h, "server"@, "cloudflare"@) || has_header(h, "cf-ray"@), "Cloudflare"@, "CDN / Security"@, "\u{2601}"@)
    + when(has_header(h, "x-vercel-id"@), "Vercel"@, "Hosting"@, "\u{25B2}"@)
    + when(header_mentions(h, "x-powered-by"@, "next.js"@), "Next.js"@, "Framework"@, "\u{25C8}"@)
    + when(header_mentions(h, "x-powered-by"@, "express"@), "Express / Node.js"@, "Runtime"@, "\u{2699}"@)
    + when(header_mentions(h, "server"@, "nginx"@), "nginx"@, "Web Server"@, "\u{25C9}"@)
    + when(header_mentions(h, "server"@, "apache"@), "Apache"@, "Web Server"@, "\u{25C9}"@)
    + when(has_header(h, "x-amz-cf-id"@), "CloudFront"@, "CDN"@, "\u{2601}"@)
    + when(has_header(h, "x-fastly-request-id"@), "Fastly"@, "CDN"@, "\u{26A1}"@)
    + when(has_header(h, "x-shopify-stage"@), "Shopify"@, "E-Commerce"@, "\u{1F6D2}"@)
    + when(has_header(h, "x-github-request-id"@), "GitHub Pages"@, "Hosting"@, "\u{2B22}"@)
    + when(header_mentions(h, "via"@, "varnish"@), "Varnish"@, "Cache"@, "\u{26A1}"@)
}

fn mentions(h: &HeaderMap, name: &str, needle: &str) -> (b: bool)
    ensures
        b == header_mentions(h, name@, needle@),
{
    let n = chars_of(needle);
    match h.get(name) {
        Some(v) => {
            let vc = chars_of(v.as_str());
            contains_folded(&vc, &n)
        },
        None => {
            let empty: Vec<char> = Vec::new();
            assert(lower(Seq::<char>::empty()) =~= Seq::<char>::empty());
            crate::text::contains(&empty, &n)
        },
    }
}

fn add_if(v: &mut Vec<TechMatch>, cond: bool, name: &str, category: &str, icon: &str)
    ensures
        final(v)@.map_values(|t: TechMatch| tech_view(t)) == old(v)@.map_values(|t: TechMatch| tech_view(t))
            + when(cond, name@, category@, icon@),
{
    let ghost before = v@.map_values(|t: TechMatch| tech_view(t));
    if cond {
        v.push(TechMatch {
            name: String::from_str(name),
            category: String::from_str(category),
            icon: String::from_str(icon),
        });
        assert(v@.map_values(|t: TechMatch| tech_view(t)) =~= before + when(cond, name@, category@, icon@));
    } else {
        assert(before + when(cond, name@, category@, icon@) =~= before);
    }
}

/// Detects CDNs, servers, frameworks and hosts from response headers.
pub fn detect_technologies(headers: &HeaderMap) -> (probe: TechProbe)
    ensures
        probe.technologies@.map_values(|t: TechMatch| tech_view(t)) == detected(headers),
{
    let mut t: Vec<TechMatch> = Vec::new();
    assert(t@.map_values(|t: TechMatch| tech_view(t)) =~= Seq::<(Seq<char>, Seq<char>, Seq<char>)>::empty());
    let c = mentions(headers, "server", "cloudflare") || headers.contains_key("cf-ray");
    add_if(&mut t, c, "Cloudflare", "CDN / Security", "\u{2601}");
    let c = headers.contains_key("x-vercel-id");
    add_if(&mut t, c, "Vercel", "Hosting", "\u{25B2}");
    let c = mentions(headers, "x-powered-by", "next.js");
    add_if(&mut t, c, "Next.js", "Framework", "\u{25C8}");
    let c = mentions(headers, "x-powered-by", "express");
    add_if(&mut t, c, "Express / Node.js", "Runtime", "\u{2699}");
    let c = mentions(headers, "server", "nginx");
    add_if(&mut t, c, "nginx", "Web Server", "\u{25C9}");
    let c = mentions(headers, "server", "apache");
    add_if(&mut t, c, "Apache", "Web Server", "\u{25C9}");
    let c = headers.contains_key("x-amz-cf-id");
    add_if(&mut t, c, "CloudFront", "CDN", "\u{2601}");
    let c = headers.contains_key("x-fastly-request-id");
    add_if(&mut t, c, "Fastly", "CDN", "\u{26A1}");
    let c = headers.contains_key("x-shopify-stage");
    add_if(&mut t, c, "Shopify", "E-Commerce", "\u{1F6D2}");
    let c = headers.contains_key("x-github-request-id");
    add_if(&mut t, c, "GitHub Pages", "Hosting", "\u{2B22}");
    let c = mentions(headers, "via", "varnish");
    add_if(&mut t, c, "Varnish", "Cache", "\u{26A1}");
    TechProbe { technologies: t }
}

/// `a` is a subsequence of `b`: its items occur in `b` in the same order.
#[verifier::opaque]
pub open spec fn embeds<T>(a: Seq<T>, b: Seq<T>) -> bool
    decreases b.len(),
{
    if a.len() == 0 {
        true
    } else if b.len() == 0 {
        false
    } else {
        (a[0] == b[0] && embeds(a.drop_first(), b.drop_first())) || embeds(a, b.drop_first())
    }
}

/// A subsequence stays one when items are put in front.
proof fn lemma_embeds_prepend<T>(a: Seq<T>, b: Seq<T>, c: Seq<T>)
    requires
        embeds(a, b),
    ensures
        embeds(a, c + b),
    decreases c.len(),
{
    reveal(embeds);
    if c.len() > 0 {
        lemma_embeds_prepend(a, b, c.drop_first());
        assert((c + b).drop_first() =~= c.drop_first() + b);
    } else {
        assert(c + b =~= b);
    }
}

/// Subsequences of two parts make a subsequence of the joined parts.
proof fn lemma_embeds_concat<T>(a1: Seq<T>, a2: Seq<T>, b1: Seq<T>, b2: Seq<T>)
    requires
        embeds(a1, a2),
        embeds(b1, b2),
    ensures
        embeds(a1 + b1, a2 + b2),
    decreases a2.len(),
{
    reveal(embeds);
    if a1.len() == 0 {
        assert(a1 + b1 =~= b1);
        lemma_embeds_prepend(b1, b2, a2);
    } else {
        assert((a1 + b1).drop_first() =~= a1.drop_first() + b1);
        assert((a2 + b2).drop_first() =~= a2.drop_first() + b2);
        assert((a1 + b1)[0] == a1[0]);
        assert((a2 + b2)[0] == a2[0]);
        if a1[0] == a2[0] && embeds(a1.drop_first(), a2.drop_first()) {
            lemma_embeds_concat(a1.drop_first(), a2.drop_first(), b1, b2);
        } else {
            lemma_embeds_concat(a1, a2.drop_first(), b1, b2);
        }
    }
}

/// A rule that matches before matches after.
proof fn lemma_when_embeds(c1: bool, c2: bool, name: Seq<char>, category: Seq<char>, icon: Seq<char>)
    requires
        c1 ==> c2,
    ensures
        embeds(when(c1, name, category, icon), when(c2, name, category, icon)),
{
    reveal(embeds);
    if c1 {
        let w = when(c1, name, category, icon);
        assert(w.drop_first() =~= Seq::<(Seq<char>, Seq<char>, Seq<char>)>::empty());
        assert(embeds(w.drop_first(), w.drop_first()));
    }
}

/// A header value that mentioned a text still does once another header is
/// added.
proof fn lemma_mentions_kept(h1: &HeaderMap, h2: &HeaderMap, key: Seq<char>, name: Seq<char>, needle: Seq<char>)
    requires
        needle.len() > 0,
        h1.get_spec(key) is None,
        forall|k: Seq<char>| k != key ==> #[trigger] h2.get_spec(k) == h1.get_spec(k),
    ensures
        header_mentions(h1, name, needle) ==> header_mentions(h2, name, needle),
        has_header(h1, name) ==> has_header(h2, name),
{
    if name != key {
        assert(h2.get_spec(name) == h1.get_spec(name));
    }
}

/// Adding a header that was absent never loses a detected technology:
/// what the headers revealed before is revealed after, in the same order.
#[verifier::rlimit(60)]
pub proof fn lemma_new_header_keeps_matches(h1: &HeaderMap, h2: &HeaderMap, key: Seq<char>)
    requires
        h1.get_spec(key) is None,
        forall|k: Seq<char>| k != key ==> #[trigger] h2.get_spec(k) == h1.get_spec(k),
    ensures
        embeds(detected(h1), detected(h2)),
{
    reveal_strlit("cloudflare");
    reveal_strlit("next.js");
    reveal_strlit("express");
    reveal_strlit("nginx");
    reveal_strlit("apache");
    reveal_strlit("varnish");
    lemma_mentions_kept(h1, h2, key, "server"@, "cloudflare"@);
    lemma_mentions_kept(h1, h2, key, "cf-ray"@, "cloudflare"@);
    lemma_mentions_kept(h1, h2, key, "x-vercel-id"@, "cloudflare"@);
    lemma_mentions_kept(h1, h2, key, "x-powered-by"@, "next.js"@);
    lemma_mentions_kept(h1, h2, key, "x-powered-by"@, "express"@);
    lemma_mentions_kept(h1, h2, key, "server"@, "nginx"@);
    lemma_mentions_kept(h1, h2, key, "server"@, "apache"@);
    lemma_mentions_kept(h1, h2, key, "x-amz-cf-id"@, "cloudflare"@);
    lemma_mentions_kept(h1, h2, key, "x-fastly-request-id"@, "cloudflare"@);
    lemma_mentions_kept(h1, h2, key, "x-shopify-stage"@, "cloudflare"@);
    lemma_mentions_kept(h1, h2, key, "x-github-request-id"@, "cloudflare"@);
    lemma_mentions_kept(h1, h2, key, "via"@, "varnish"@);
    let a1 = when(header_mentions(h1, "server"@, "cloudflare"@) || has_header(h1, "cf-ray"@), "Cloudflare"@, "CDN / Security"@, "\u{2601}"@);
    let a2 = when(header_mentions(h2, "server"@, "cloudflare"@) || has_header(h2, "cf-ray"@), "Cloudflare"@, "CDN / Security"@, "\u{2601}"@);
    lemma_when_embeds(header_mentions(h1, "server"@, "cloudflare"@) || has_header(h1, "cf-ray"@), header_mentions(h2, "server"@, "cloudflare"@) || has_header(h2, "cf-ray"@), "Cloudflare"@, "CDN / Security"@, "\u{2601}"@);
    let b1 = when(has_header(h1, "x-vercel-id"@), "Vercel"@, "Hosting"@, "\u{25B2}"@);
    let b2 = when(has_header(h2, "x-vercel-id"@), "Vercel"@, "Hosting"@, "\u{25B2}"@);
    lemma_when_embeds(has_header(h1, "x-vercel-id"@), has_header(h2, "x-vercel-id"@), "Vercel"@, "Hosting"@, "\u{25B2}"@);
    let c1 = when(header_mentions(h1, "x-powered-by"@, "next.js"@), "Next.js"@, "Framework"@, "\u{25C8}"@);
    let c2 = when(header_mentions(h2, "x-powered-by"@, "next.js"@), "Next.js"@, "Framework"@, "\u{25C8}"@);
    lemma_when_embeds(header_mentions(h1, "x-powered-by"@, "next.js"@), header_mentions(h2, "x-powered-by"@, "next.js"@), "Next.js"@, "Framework"@, "\u{25C8}"@);
    let d1 = when(header_mentions(h1, "x-powered-by"@, "express"@), "Express / Node.js"@, "Runtime"@, "\u{2699}"@);
    let d2 = when(header_mentions(h2, "x-powered-by"@, "express"@), "Express / Node.js"@, "Runtime"@, "\u{2699}"@);
    lemma_when_embeds(header_mentions(h1, "x-powered-by"@, "express"@), header_mentions(h2, "x-powered-by"@, "express"@), "Express / Node.js"@, "Runtime"@, "\u{2699}"@);
    let e1 = when(header_mentions(h1, "server"@, "nginx"@), "nginx"@, "Web Server"@, "\u{25C9}"@);
    let e2 = when(header_mentions(h2, "server"@, "nginx"@), "nginx"@, "Web Server"@, "\u{25C9}"@);
    lemma_when_embeds(header_mentions(h1, "server"@, "nginx"@), header_mentions(h2, "server"@, "nginx"@), "nginx"@, "Web Server"@, "\u{25C9}"@);
    let f1 = when(header_mentions(h1, "server"@, "apache"@), "Apache"@, "Web Server"@, "\u{25C9}"@);
    let f2 = when(header_mentions(h2, "server"@, "apache"@), "Apache"@, "Web Server"@, "\u{25C9}"@);
    lemma_when_embeds(header_mentions(h1, "server"@, "apache"@), header_mentions(h2, "server"@, "apache"@), "Apache"@, "Web Server"@, "\u{25C9}"@);
    let g1 = when(has_header(h1, "x-amz-cf-id"@), "CloudFront"@, "CDN"@, "\u{2601}"@);
    let g2 = when(has_header(h2, "x-amz-cf-id"@), "CloudFront"@, "CDN"@, "\u{2601}"@);
    lemma_when_embeds(has_header(h1, "x-amz-cf-id"@), has_header(h2, "x-amz-cf-id"@), "CloudFront"@, "CDN"@, "\u{2601}"@);
    let i1 = when(has_header(h1, "x-fastly-request-id"@), "Fastly"@, "CDN"@, "\u{26A1}"@);
    let i2 = when(has_header(h2, "x-fastly-request-id"@), "Fastly"@, "CDN"@, "\u{26A1}"@);
    lemma_when_embeds(has_header(h1, "x-fastly-request-id"@), has_header(h2, "x-fastly-request-id"@), "Fastly"@, "CDN"@, "\u{26A1}"@);
    let j1 = when(has_header(h1, "x-shopify-stage"@), "Shopify"@, "E-Commerce"@, "\u{1F6D2}"@);
    let j2 = when(has_header(h2, "x-shopify-stage"@), "Shopify"@, "E-Commerce"@, "\u{1F6D2}"@);
    lemma_when_embeds(has_header(h1, "x-shopify-stage"@), has_header(h2, "x-shopify-stage"@), "Shopify"@, "E-Commerce"@, "\u{1F6D2}"@);
    let k1 = when(has_header(h1, "x-github-request-id"@), "GitHub Pages"@, "Hosting"@, "\u{2B22}"@);
    let k2 = when(has_header(h2, "x-github-request-id"@), "GitHub Pages"@, "Hosting"@, "\u{2B22}"@);
    lemma_when_embeds(has_header(h1, "x-github-request-id"@), has_header(h2, "x-github-request-id"@), "GitHub Pages"@, "Hosting"@, "\u{2B22}"@);
    let l1 = when(header_mentions(h1, "via"@, "varnish"@), "Varnish"@, "Cache"@, "\u{26A1}"@);
    let l2 = when(header_mentions(h2, "via"@, "varnish"@), "Varnish"@, "Cache"@, "\u{26A1}"@);
    lemma_when_embeds(header_mentions(h1, "via"@, "varnish"@), header_mentions(h2, "via"@, "varnish"@), "Varnish"@, "Cache"@, "\u{26A1}"@);
    lemma_embeds_concat(a1, a2, b1, b2);
    lemma_embeds_concat(a1 + b1, a2 + b2, c1, c2);
    lemma_embeds_concat(a1 + b1 + c1, a2 + b2 + c2, d1, d2);
    lemma_embeds_concat(a1 + b1 + c1 + d1, a2 + b2 + c2 + d2, e1, e2);
    lemma_embeds_concat(a1 + b1 + c1 + d1 + e1, a2 + b2 + c2 + d2 + e2, f1, f2);
    lemma_embeds_concat(a1 + b1 + c1 + d1 + e1 + f1, a2 + b2 + c2 + d2 + e2 + f2, g1, g2);
    lemma_embeds_concat(a1 + b1 + c1 + d1 + e1 + f1 + g1, a2 + b2 + c2 + d2 + e2 + f2 + g2, i1, i2);
    lemma_embeds_concat(a1 + b1 + c1 + d1 + e1 + f1 + g1 + i1, a2 + b2 + c2 + d2 + e2 + f2 + g2 + i2, j1, j2);
    lemma_embeds_concat(
        a1 + b1 + c1 + d1 + e1 + f1 + g1 + i1 + j1,
        a2 + b2 + c2 + d2 + e2 + f2 + g2 + i2 + j2,
        k1,
        k2,
    );
    lemma_embeds_concat(
        a1 + b1 + c1 + d1 + e1 + f1 + g1 + i1 + j1 + k1,
        a2 + b2 + c2 + d2 + e2 + f2 + g2 + i2 + j2 + k2,
        l1,
        l2,
    );
}

/// An item of the second part is in the joined sequence.
proof fn lemma_in_right<T>(a: Seq<T>, b: Seq<T>, x: T)
    requires
        b.contains(x),
    ensures
        (a + b).contains(x),
{
    let i = choose|i: int| 0 <= i < b.len() && b[i] == x;
    assert((a + b)[a.len() + i] == x);
}

/// An item of the first part is in the joined sequence.
proof fn lemma_in_left<T>(a: Seq<T>, b: Seq<T>, x: T)
    requires
        a.contains(x),
    ensures
        (a + b).contains(x),
{
    let i = choose|i: int| 0 <= i < a.len() && a[i] == x;
    assert((a + b)[i] == x);
}

/// The parts of [`detected`], one per rule, in rule order.
pub open spec fn rule_parts(h: &HeaderMap) -> Seq<Seq<(Seq<char>, Seq<char>, Seq<char>)>> {
    seq![
        when(header_mentions(h, "server"@, "cloudflare"@) || has_header(h, "cf-ray"@), "Cloudflare"@, "CDN / Security"@, "\u{2601}"@),
        when(has_header(h, "x-vercel-id"@), "Vercel"@, "Hosting"@, "\u{25B2}"@),
        when(header_mentions(h, "x-powered-by"@, "next.js"@), "Next.js"@, "Framework"@, "\u{25C8}"@),
        when(header_mentions(h, "x-powered-by"@, "express"@), "Express / Node.js"@, "Runtime"@, "\u{2699}"@),
        when(header_mentions(h, "server"@, "nginx"@), "nginx"@, "Web Server"@, "\u{25C9}"@),
        when(header_mentions(h, "server"@, "apache"@), "Apache"@, "Web Server"@, "\u{25C9}"@),
        when(has_header(h, "x-amz-cf-id"@), "CloudFront"@, "CDN"@, "\u{2601}"@),
        when(has_header(h, "x-fastly-request-id"@), "Fastly"@, "CDN"@, "\u{26A1}"@),
        when(has_header(h, "x-shopify-stage"@), "Shopify"@, "E-Commerce"@, "\u{1F6D2}"@),
        when(has_header(h, "x-github-request-id"@), "GitHub Pages"@, "Hosting"@, "\u{2B22}"@),
        when(header_mentions(h, "via"@, "varnish"@), "Varnish"@, "Cache"@, "\u{26A1}"@),
    ]
}

proof fn lemma_rule_cloudflare(h: &HeaderMap)
    ensures
        (header_mentions(h, "server"@, "cloudflare"@) || has_header(h, "cf-ray"@)) ==> detected(h).contains(("Cloudflare"@, "CDN / Security"@, "\u{2601}"@)),
{
    let ps = rule_parts(h);
    let x = ("Cloudflare"@, "CDN / Security"@, "\u{2601}"@);
    if header_mentions(h, "server"@, "cloudflare"@) || has_header(h, "cf-ray"@) {
        let w = ps[0];
        assert(w[0] == x);
        assert(w.contains(x));
        lemma_in_left(w, ps[1], x);
        lemma_in_left(w + ps[1], ps[2], x);
        lemma_in_left(w + ps[1] + ps[2], ps[3], x);
        lemma_in_left(w + ps[1] + ps[2] + ps[3], ps[4], x);
        lemma_in_left(w + ps[1] + ps[2] + ps[3] + ps[4], ps[5], x);
        lemma_in_left(w + ps[1] + ps[2] + ps[3] + ps[4] + ps[5], ps[6], x);
        lemma_in_left(w + ps[1] + ps[2] + ps[3] + ps[4] + ps[5] + ps[6], ps[7], x);
        lemma_in_left(w + ps[1] + ps[2] + ps[3] + ps[4] + ps[5] + ps[6] + ps[7], ps[8], x);
        lemma_in_left(w + ps[1] + ps[2] + ps[3] + ps[4] + ps[5] + ps[6] + ps[7] + ps[8], ps[9], x);
        lemma_in_left(w + ps[1] + ps[2] + ps[3] + ps[4] + ps[5] + ps[6] + ps[7] + ps[8] + ps[9], ps[10], x);
        assert(detected(h) == w + ps[1] + ps[2] + ps[3] + ps[4] + ps[5] + ps[6] + ps[7] + ps[8] + ps[9] + ps[10]);
    }
}

proof fn lemma_rule_vercel(h: &HeaderMap)
    ensures
        (has_header(h, "x-vercel-id"@)) ==> detected(h).contains(("Vercel"@, "Hosting"@, "\u{25B2}"@)),
{
    let ps = rule_parts(h);
    let x = ("Vercel"@, "Hosting"@, "\u{25B2}"@);
    if has_header(h, "x-vercel-id"@) {
        let w = ps[1];
        assert(w[0] == x);
        let before = ps[0];
        lemma_in_right(before, w, x);
        lemma_in_left(before + w, ps[2], x);
        lemma_in_left(before + w + ps[2], ps[3], x);
        lemma_in_left(before + w + ps[2] + ps[3], ps[4], x);
        lemma_in_left(before + w + ps[2] + ps[3] + ps[4], ps[5], x);
        lemma_in_left(before + w + ps[2] + ps[3] + ps[4] + ps[5], ps[6], x);
        lemma_in_left(before + w + ps[2] + ps[3] + ps[4] + ps[5] + ps[6], ps[7], x);
        lemma_in_left(before + w + ps[2] + ps[3] + ps[4] + ps[5] + ps[6] + ps[7], ps[8], x);
        lemma_in_left(before + w + ps[2] + ps[3] + ps[4] + ps[5] + ps[6] + ps[7] + ps[8], ps[9], x);
        lemma_in_left(before + w + ps[2] + ps[3] + ps[4] + ps[5] + ps[6] + ps[7] + ps[8] + ps[9], ps[10], x);
        assert(detected(h) == before + w + ps[2] + ps[3] + ps[4] + ps[5] + ps[6] + ps[7] + ps[8] + ps[9] + ps[10]);
    }
}

proof fn lemma_rule_nextjs(h: &HeaderMap)
    ensures
        (header_mentions(h, "x-powered-by"@, "next.js"@)) ==> detected(h).contains(("Next.js"@, "Framework"@, "\u{25C8}"@)),
{
    let ps = rule_parts(h);
    let x = ("Next.js"@, "Framework"@, "\u{25C8}"@);
    if header_mentions(h, "x-powered-by"@, "next.js"@) {
        let w = ps[2];
        assert(w[0] == x);
        let before = ps[0] + ps[1];
        lemma_in_right(before, w, x);
        lemma_in_left(before + w, ps[3], x);
        lemma_in_left(before + w + ps[3], ps[4], x);
        lemma_in_left(before + w + ps[3] + ps[4], ps[5], x);
        lemma_in_left(before + w + ps[3] + ps[4] + ps[5], ps[6], x);
        lemma_in_left(before + w + ps[3] + ps[4] + ps[5] + ps[6], ps[7], x);
        lemma_in_left(before + w + ps[3] + ps[4] + ps[5] + ps[6] + ps[7], ps[8], x);
        lemma_in_left(before + w + ps[3] + ps[4] + ps[5] + ps[6] + ps[7] + ps[8], ps[9], x);
        lemma_in_left(before + w + ps[3] + ps[4] + ps[5] + ps[6] + ps[7] + ps[8] + ps[9], ps[10], x);
        assert(detected(h) == before + w + ps[3] + ps[4] + ps[5] + ps[6] + ps[7] + ps[8] + ps[9] + ps[10]);
    }
}

proof fn lemma_rule_express(h: &HeaderMap)
    ensures
        (header_mentions(h, "x-powered-by"@, "express"@)) ==> detected(h).contains(("Express / Node.js"@, "Runtime"@, "\u{2699}"@)),
{
    let ps = rule_parts(h);
    let x = ("Express / Node.js"@, "Runtime"@, "\u{2699}"@);
    if header_mentions(h, "x-powered-by"@, "express"@) {
        let w = ps[3];
        assert(w[0] == x);
        let before = ps[0] + ps[1] + ps[2];
        lemma_in_right(before, w, x);
        lemma_in_left(before + w, ps[4], x);
        lemma_in_left(before + w + ps[4], ps[5], x);
        lemma_in_left(before + w + ps[4] + ps[5], ps[6], x);
        lemma_in_left(before + w + ps[4] + ps[5] + ps[6], ps[7], x);
        lemma_in_left(before + w + ps[4] + ps[5] + ps[6] + ps[7], ps[8], x);
        lemma_in_left(before + w + ps[4] + ps[5] + ps[6] + ps[7] + ps[8], ps[9], x);
        lemma_in_left(before + w + ps[4] + ps[5] + ps[6] + ps[7] + ps[8] + ps[9], ps[10], x);
        assert(detected(h) == before + w + ps[4] + ps[5] + ps[6] + ps[7] + ps[8] + ps[9] + ps[10]);
    }
}

proof fn lemma_rule_nginx(h: &HeaderMap)
    ensures
        (header_mentions(h, "server"@, "nginx"@)) ==> detected(h).contains(("nginx"@, "Web Server"@, "\u{25C9}"@)),
{
    let ps = rule_parts(h);
    let x = ("nginx"@, "Web Server"@, "\u{25C9}"@);
    if header_mentions(h, "server"@, "nginx"@) {
        let w = ps[4];
        assert(w[0] == x);
        let before = ps[0] + ps[1] + ps[2] + ps[3];
        lemma_in_right(before, w, x);
        lemma_in_left(before + w, ps[5], x);
        lemma_in_left(before + w + ps[5], ps[6], x);
        lemma_in_left(before + w + ps[5] + ps[6], ps[7], x);
        lemma_in_left(before + w + ps[5] + ps[6] + ps[7], ps[8], x);
        lemma_in_left(before + w + ps[5] + ps[6] + ps[7] + ps[8], ps[9], x);
        lemma_in_left(before + w + ps[5] + ps[6] + ps[7] + ps[8] + ps[9], ps[10], x);
        assert(detected(h) == before + w + ps[5] + ps[6] + ps[7] + ps[8] + ps[9] + ps[10]);
    }
}

proof fn lemma_rule_apache(h: &HeaderMap)
    ensures
        (header_mentions(h, "server"@, "apache"@)) ==> detected(h).contains(("Apache"@, "Web Server"@, "\u{25C9}"@)),
{
    let ps = rule_parts(h);
    let x = ("Apache"@, "Web Server"@, "\u{25C9}"@);
    if header_mentions(h, "server"@, "apache"@) {
        let w = ps[5];
        assert(w[0] == x);
        let before = ps[0] + ps[1] + ps[2] + ps[3] + ps[4];
        lemma_in_right(before, w, x);
        lemma_in_left(before + w, ps[6], x);
        lemma_in_left(before + w + ps[6], ps[7], x);
        lemma_in_left(before + w + ps[6] + ps[7], ps[8], x);
        lemma_in_left(before + w + ps[6] + ps[7] + ps[8], ps[9], x);
        lemma_in_left(before + w + ps[6] + ps[7] + ps[8] + ps[9], ps[10], x);
        assert(detected(h) == before + w + ps[6] + ps[7] + ps[8] + ps[9] + ps[10]);
    }
}

proof fn lemma_rule_cloudfront(h: &HeaderMap)
    ensures
        (has_header(h, "x-amz-cf-id"@)) ==> detected(h).contains(("CloudFront"@, "CDN"@, "\u{2601}"@)),
{
    let ps = rule_parts(h);
    let x = ("CloudFront"@, "CDN"@, "\u{2601}"@);
    if has_header(h, "x-amz-cf-id"@) {
        let w = ps[6];
        assert(w[0] == x);
        let before = ps[0] + ps[1] + ps[2] + ps[3] + ps[4] + ps[5];
        lemma_in_right(before, w, x);
        lemma_in_left(before + w, ps[7], x);
        lemma_in_left(before + w + ps[7], ps[8], x);
        lemma_in_left(before + w + ps[7] + ps[8], ps[9], x);
        lemma_in_left(before + w + ps[7] + ps[8] + ps[9], ps[10], x);
        assert(detected(h) == before + w + ps[7] + ps[8] + ps[9] + ps[10]);
    }
}

proof fn lemma_rule_fastly(h: &HeaderMap)
    ensures
        (has_header(h, "x-fastly-request-id"@)) ==> detected(h).contains(("Fastly"@, "CDN"@, "\u{26A1}"@)),
{
    let ps = rule_parts(h);
    let x = ("Fastly"@, "CDN"@, "\u{26A1}"@);
    if has_header(h, "x-fastly-request-id"@) {
        let w = ps[7];
        assert(w[0] == x);
        let before = ps[0] + ps[1] + ps[2] + ps[3] + ps[4] + ps[5] + ps[6];
        lemma_in_right(before, w, x);
        lemma_in_left(before + w, ps[8], x);
        lemma_in_left(before + w + ps[8], ps[9], x);
        lemma_in_left(before + w + ps[8] + ps[9], ps[10], x);
        assert(detected(h) == before + w + ps[8] + ps[9] + ps[10]);
    }
}

proof fn lemma_rule_shopify(h: &HeaderMap)
    ensures
        (has_header(h, "x-shopify-stage"@)) ==> detected(h).contains(("Shopify"@, "E-Commerce"@, "\u{1F6D2}"@)),
{
    let ps = rule_parts(h);
    let x = ("Shopify"@, "E-Commerce"@, "\u{1F6D2}"@);
    if has_header(h, "x-shopify-stage"@) {
        let w = ps[8];
        assert(w[0] == x);
        let before = ps[0] + ps[1] + ps[2] + ps[3] + ps[4] + ps[5] + ps[6] + ps[7];
        lemma_in_right(before, w, x);
        lemma_in_left(before + w, ps[9], x);
        lemma_in_left(before + w + ps[9], ps[10], x);
        assert(detected(h) == before + w + ps[9] + ps[10]);
    }
}

proof fn lemma_rule_github(h: &HeaderMap)
    ensures
        (has_header(h, "x-github-request-id"@)) ==> detected(h).contains(("GitHub Pages"@, "Hosting"@, "\u{2B22}"@)),
{
    let ps = rule_parts(h);
    let x = ("GitHub Pages"@, "Hosting"@, "\u{2B22}"@);
    if has_header(h, "x-github-request-id"@) {
        let w = ps[9];
        assert(w[0] == x);
        let before = ps[0] + ps[1] + ps[2] + ps[3] + ps[4] + ps[5] + ps[6] + ps[7] + ps[8];
        lemma_in_right(before, w, x);
        lemma_in_left(before + w, ps[10], x);
        assert(detected(h) == before + w + ps[10]);
    }
}

proof fn lemma_rule_varnish(h: &HeaderMap)
    ensures
        (header_mentions(h, "via"@, "varnish"@)) ==> detected(h).contains(("Varnish"@, "Cache"@, "\u{26A1}"@)),
{
    let ps = rule_parts(h);
    let x = ("Varnish"@, "Cache"@, "\u{26A1}"@);
    if header_mentions(h, "via"@, "varnish"@) {
        let w = ps[10];
        assert(w[0] == x);
        let before = ps[0] + ps[1] + ps[2] + ps[3] + ps[4] + ps[5] + ps[6] + ps[7] + ps[8] + ps[9];
        lemma_in_right(before, w, x);
        assert(detected(h) == before + w);
    }
}

/// An item is in a joined sequence exactly when it is in one of its parts.
proof fn lemma_contains_concat<T>(a: Seq<T>, b: Seq<T>)
    ensures
        forall|x: T| #[trigger] (a + b).contains(x) <==> a.contains(x) || b.contains(x),
{
    assert forall|x: T| #[trigger] (a + b).contains(x) <==> a.contains(x) || b.contains(x) by {
        if a.contains(x) {
            lemma_in_left(a, b, x);
        }
        if b.contains(x) {
            lemma_in_right(a, b, x);
        }
        if (a + b).contains(x) {
            let i = choose|i: int| 0 <= i < (a + b).len() && (a + b)[i] == x;
            if i < a.len() {
                assert(a[i] == x);
            } else {
                assert(b[i - a.len()] == x);
            }
        }
    }
}

/// Whatever is detected comes from one of the rules.
proof fn lemma_detected_members(h: &HeaderMap)
    ensures
        forall|x: (Seq<char>, Seq<char>, Seq<char>)| #[trigger] detected(h).contains(x) ==> exists|k: int|
            0 <= k < 11 && #[trigger] rule_parts(h)[k].contains(x),
{
    let ps = rule_parts(h);
    lemma_contains_concat(ps[0], ps[1]);
    lemma_contains_concat(ps[0] + ps[1], ps[2]);
    lemma_contains_concat(ps[0] + ps[1] + ps[2], ps[3]);
    lemma_contains_concat(ps[0] + ps[1] + ps[2] + ps[3], ps[4]);
    lemma_contains_concat(ps[0] + ps[1] + ps[2] + ps[3] + ps[4], ps[5]);
    lemma_contains_concat(ps[0] + ps[1] + ps[2] + ps[3] + ps[4] + ps[5], ps[6]);
    lemma_contains_concat(ps[0] + ps[1] + ps[2] + ps[3] + ps[4] + ps[5] + ps[6], ps[7]);
    lemma_contains_concat(ps[0] + ps[1] + ps[2] + ps[3] + ps[4] + ps[5] + ps[6] + ps[7], ps[8]);
    lemma_contains_concat(ps[0] + ps[1] + ps[2] + ps[3] + ps[4] + ps[5] + ps[6] + ps[7] + ps[8], ps[9]);
    lemma_contains_concat(ps[0] + ps[1] + ps[2] + ps[3] + ps[4] + ps[5] + ps[6] + ps[7] + ps[8] + ps[9], ps[10]);
    assert(detected(h) == ps[0] + ps[1] + ps[2] + ps[3] + ps[4] + ps[5] + ps[6] + ps[7] + ps[8] + ps[9] + ps[10]);
    assert forall|x: (Seq<char>, Seq<char>, Seq<char>)| #[trigger] detected(h).contains(x) implies exists|k: int|
        0 <= k < 11 && #[trigger] rule_parts(h)[k].contains(x) by {
        if ps[0].contains(x) {
            assert(rule_parts(h)[0].contains(x));
        }
        if ps[1].contains(x) {
            assert(rule_parts(h)[1].contains(x));
        }
        if ps[2].contains(x) {
            assert(rule_parts(h)[2].contains(x));
        }
        if ps[3].contains(x) {
            assert(rule_parts(h)[3].contains(x));
        }
        if ps[4].contains(x) {
            assert(rule_parts(h)[4].contains(x));
        }
        if ps[5].contains(x) {
            assert(rule_parts(h)[5].contains(x));
        }
        if ps[6].contains(x) {
            assert(rule_parts(h)[6].contains(x));
        }
        if ps[7].contains(x) {
            assert(rule_parts(h)[7].contains(x));
        }
        if ps[8].contains(x) {
            assert(rule_parts(h)[8].contains(x));
        }
        if ps[9].contains(x) {
            assert(rule_parts(h)[9].contains(x));
        }
        if ps[10].contains(x) {
            assert(rule_parts(h)[10].contains(x));
        }
    }
}

/// A rule's part holds nothing but that rule's technology.
proof fn lemma_part_entry(
    cond: bool,
    name: Seq<char>,
    category: Seq<char>,
    icon: Seq<char>,
    x: (Seq<char>, Seq<char>, Seq<char>),
)
    ensures
        (when(cond, name, category, icon)).contains(x) ==> x == (name, category, icon) && cond,
{
}

/// The technologies' names tell them apart.
proof fn lemma_names_differ()
    ensures
        "Cloudflare"@.len() == 10 && "Cloudflare"@[0] == 'C',
        "Vercel"@.len() == 6 && "Vercel"@[0] == 'V',
        "Next.js"@.len() == 7 && "Next.js"@[0] == 'N',
        "Express / Node.js"@.len() == 17 && "Express / Node.js"@[0] == 'E',
        "nginx"@.len() == 5 && "nginx"@[0] == 'n',
        "Apache"@.len() == 6 && "Apache"@[0] == 'A',
        "CloudFront"@.len() == 10 && "CloudFront"@[0] == 'C',
        "Fastly"@.len() == 6 && "Fastly"@[0] == 'F',
        "Shopify"@.len() == 7 && "Shopify"@[0] == 'S',
        "GitHub Pages"@.len() == 12 && "GitHub Pages"@[0] == 'G',
        "Varnish"@.len() == 7 && "Varnish"@[0] == 'V',
        "Cloudflare"@[5] == 'f' && "CloudFront"@[5] == 'F',
{
    reveal_strlit("Cloudflare");
    reveal_strlit("Vercel");
    reveal_strlit("Next.js");
    reveal_strlit("Express / Node.js");
    reveal_strlit("nginx");
    reveal_strlit("Apache");
    reveal_strlit("CloudFront");
    reveal_strlit("Fastly");
    reveal_strlit("Shopify");
    reveal_strlit("GitHub Pages");
    reveal_strlit("Varnish");
}

#[verifier::rlimit(40)]
proof fn lemma_rule_only_cloudflare(h: &HeaderMap)
    ensures
        detected(h).contains(("Cloudflare"@, "CDN / Security"@, "\u{2601}"@)) ==> (header_mentions(h, "server"@, "cloudflare"@) || has_header(h, "cf-ray"@)),
{
    let ps = rule_parts(h);
    let x = ("Cloudflare"@, "CDN / Security"@, "\u{2601}"@);
    if detected(h).contains(x) {
        lemma_detected_members(h);
        lemma_names_differ();
        let k = choose|k: int| 0 <= k < 11 && #[trigger] rule_parts(h)[k].contains(x);
        if k == 0 {
            assert(ps[0] == when(header_mentions(h, "server"@, "cloudflare"@) || has_header(h, "cf-ray"@), "Cloudflare"@, "CDN / Security"@, "\u{2601}"@));
            lemma_part_entry(header_mentions(h, "server"@, "cloudflare"@) || has_header(h, "cf-ray"@), "Cloudflare"@, "CDN / Security"@, "\u{2601}"@, x);
        } else if k == 1 {
            assert(ps[1] == when(has_header(h, "x-vercel-id"@), "Vercel"@, "Hosting"@, "\u{25B2}"@));
            lemma_part_entry(has_header(h, "x-vercel-id"@), "Vercel"@, "Hosting"@, "\u{25B2}"@, x);
        } else if k == 2 {
            assert(ps[2] == when(header_mentions(h, "x-powered-by"@, "next.js"@), "Next.js"@, "Framework"@, "\u{25C8}"@));
            lemma_part_entry(header_mentions(h, "x-powered-by"@, "next.js"@), "Next.js"@, "Framework"@, "\u{25C8}"@, x);
        } else if k == 3 {
            assert(ps[3] == when(header_mentions(h, "x-powered-by"@, "express"@), "Express / Node.js"@, "Runtime"@, "\u{2699}"@));
            lemma_part_entry(header_mentions(h, "x-powered-by"@, "express"@), "Express / Node.js"@, "Runtime"@, "\u{2699}"@, x);
        } else if k == 4 {
            assert(ps[4] == when(header_mentions(h, "server"@, "nginx"@), "nginx"@, "Web Server"@, "\u{25C9}"@));
            lemma_part_entry(header_mentions(h, "server"@, "nginx"@), "nginx"@, "Web Server"@, "\u{25C9}"@, x);
        } else if k == 5 {
            assert(ps[5] == when(header_mentions(h, "server"@, "apache"@), "Apache"@, "Web Server"@, "\u{25C9}"@));
            lemma_part_entry(header_mentions(h, "server"@, "apache"@), "Apache"@, "Web Server"@, "\u{25C9}"@, x);
        } else if k == 6 {
            assert(ps[6] == when(has_header(h, "x-amz-cf-id"@), "CloudFront"@, "CDN"@, "\u{2601}"@));
            lemma_part_entry(has_header(h, "x-amz-cf-id"@), "CloudFront"@, "CDN"@, "\u{2601}"@, x);
        } else if k == 7 {
            assert(ps[7] == when(has_header(h, "x-fastly-request-id"@), "Fastly"@, "CDN"@, "\u{26A1}"@));
            lemma_part_entry(has_header(h, "x-fastly-request-id"@), "Fastly"@, "CDN"@, "\u{26A1}"@, x);
        } else if k == 8 {
            assert(ps[8] == when(has_header(h, "x-shopify-stage"@), "Shopify"@, "E-Commerce"@, "\u{1F6D2}"@));
            lemma_part_entry(has_header(h, "x-shopify-stage"@), "Shopify"@, "E-Commerce"@, "\u{1F6D2}"@, x);
        } else if k == 9 {
            assert(ps[9] == when(has_header(h, "x-github-request-id"@), "GitHub Pages"@, "Hosting"@, "\u{2B22}"@));
            lemma_part_entry(has_header(h, "x-github-request-id"@), "GitHub Pages"@, "Hosting"@, "\u{2B22}"@, x);
        } else if k == 10 {
            assert(ps[10] == when(header_mentions(h, "via"@, "varnish"@), "Varnish"@, "Cache"@, "\u{26A1}"@));
            lemma_part_entry(header_mentions(h, "via"@, "varnish"@), "Varnish"@, "Cache"@, "\u{26A1}"@, x);
        }
    }
}

#[verifier::rlimit(40)]
proof fn lemma_rule_only_vercel(h: &HeaderMap)
    ensures
        detected(h).contains(("Vercel"@, "Hosting"@, "\u{25B2}"@)) ==> (has_header(h, "x-vercel-id"@)),
{
    let ps = rule_parts(h);
    let x = ("Vercel"@, "Hosting"@, "\u{25B2}"@);
    if detected(h).contains(x) {
        lemma_detected_members(h);
        lemma_names_differ();
        let k = choose|k: int| 0 <= k < 11 && #[trigger] rule_parts(h)[k].contains(x);
        if k == 0 {
            assert(ps[0] == when(header_mentions(h, "server"@, "cloudflare"@) || has_header(h, "cf-ray"@), "Cloudflare"@, "CDN / Security"@, "\u{2601}"@));
            lemma_part_entry(header_mentions(h, "server"@, "cloudflare"@) || has_header(h, "cf-ray"@), "Cloudflare"@, "CDN / Security"@, "\u{2601}"@, x);
        } else if k == 1 {
            assert(ps[1] == when(has_header(h, "x-vercel-id"@), "Vercel"@, "Hosting"@, "\u{25B2}"@));
            lemma_part_entry(has_header(h, "x-vercel-id"@), "Vercel"@, "Hosting"@, "\u{25B2}"@, x);
        } else if k == 2 {
            assert(ps[2] == when(header_mentions(h, "x-powered-by"@, "next.js"@), "Next.js"@, "Framework"@, "\u{25C8}"@));
            lemma_part_entry(header_mentions(h, "x-powered-by"@, "next.js"@), "Next.js"@, "Framework"@, "\u{25C8}"@, x);
        } else if k == 3 {
            assert(ps[3] == when(header_mentions(h, "x-powered-by"@, "express"@), "Express / Node.js"@, "Runtime"@, "\u{2699}"@));
            lemma_part_entry(header_mentions(h, "x-powered-by"@, "express"@), "Express / Node.js"@, "Runtime"@, "\u{2699}"@, x);
        } else if k == 4 {
            assert(ps[4] == when(header_mentions(h, "server"@, "nginx"@), "nginx"@, "Web Server"@, "\u{25C9}"@));
            lemma_part_entry(header_mentions(h, "server"@, "nginx"@), "nginx"@, "Web Server"@, "\u{25C9}"@, x);
        } else if k == 5 {
            assert(ps[5] == when(header_mentions(h, "server"@, "apache"@), "Apache"@, "Web Server"@, "\u{25C9}"@));
            lemma_part_entry(header_mentions(h, "server"@, "apache"@), "Apache"@, "Web Server"@, "\u{25C9}"@, x);
        } else if k == 6 {
            assert(ps[6] == when(has_header(h, "x-amz-cf-id"@), "CloudFront"@, "CDN"@, "\u{2601}"@));
            lemma_part_entry(has_header(h, "x-amz-cf-id"@), "CloudFront"@, "CDN"@, "\u{2601}"@, x);
        } else if k == 7 {
            assert(ps[7] == when(has_header(h, "x-fastly-request-id"@), "Fastly"@, "CDN"@, "\u{26A1}"@));
            lemma_part_entry(has_header(h, "x-fastly-request-id"@), "Fastly"@, "CDN"@, "\u{26A1}"@, x);
        } else if k == 8 {
            assert(ps[8] == when(has_header(h, "x-shopify-stage"@), "Shopify"@, "E-Commerce"@, "\u{1F6D2}"@));
            lemma_part_entry(has_header(h, "x-shopify-stage"@), "Shopify"@, "E-Commerce"@, "\u{1F6D2}"@, x);
        } else if k == 9 {
            assert(ps[9] == when(has_header(h, "x-github-request-id"@), "GitHub Pages"@, "Hosting"@, "\u{2B22}"@));
            lemma_part_entry(has_header(h, "x-github-request-id"@), "GitHub Pages"@, "Hosting"@, "\u{2B22}"@, x);
        } else if k == 10 {
            assert(ps[10] == when(header_mentions(h, "via"@, "varnish"@), "Varnish"@, "Cache"@, "\u{26A1}"@));
            lemma_part_entry(header_mentions(h, "via"@, "varnish"@), "Varnish"@, "Cache"@, "\u{26A1}"@, x);
        }
    }
}

#[verifier::rlimit(40)]
proof fn lemma_rule_only_nextjs(h: &HeaderMap)
    ensures
        detected(h).contains(("Next.js"@, "Framework"@, "\u{25C8}"@)) ==> (header_mentions(h, "x-powered-by"@, "next.js"@)),
{
    let ps = rule_parts(h);
    let x = ("Next.js"@, "Framework"@, "\u{25C8}"@);
    if detected(h).contains(x) {
        lemma_detected_members(h);
        lemma_names_differ();
        let k = choose|k: int| 0 <= k < 11 && #[trigger] rule_parts(h)[k].contains(x);
        if k == 0 {
            assert(ps[0] == when(header_mentions(h, "server"@, "cloudflare"@) || has_header(h, "cf-ray"@), "Cloudflare"@, "CDN / Security"@, "\u{2601}"@));
            lemma_part_entry(header_mentions(h, "server"@, "cloudflare"@) || has_header(h, "cf-ray"@), "Cloudflare"@, "CDN / Security"@, "\u{2601}"@, x);
        } else if k == 1 {
            assert(ps[1] == when(has_header(h, "x-vercel-id"@), "Vercel"@, "Hosting"@, "\u{25B2}"@));
            lemma_part_entry(has_header(h, "x-vercel-id"@), "Vercel"@, "Hosting"@, "\u{25B2}"@, x);
        } else if k == 2 {
            assert(ps[2] == when(header_mentions(h, "x-powered-by"@, "next.js"@), "Next.js"@, "Framework"@, "\u{25C8}"@));
            lemma_part_entry(header_mentions(h, "x-powered-by"@, "next.js"@), "Next.js"@, "Framework"@, "\u{25C8}"@, x);
        } else if k == 3 {
            assert(ps[3] == when(header_mentions(h, "x-powered-by"@, "express"@), "Express / Node.js"@, "Runtime"@, "\u{2699}"@));
            lemma_part_entry(header_mentions(h, "x-powered-by"@, "express"@), "Express / Node.js"@, "Runtime"@, "\u{2699}"@, x);
        } else if k == 4 {
            assert(ps[4] == when(header_mentions(h, "server"@, "nginx"@), "nginx"@, "Web Server"@, "\u{25C9}"@));
            lemma_part_entry(header_mentions(h, "server"@, "nginx"@), "nginx"@, "Web Server"@, "\u{25C9}"@, x);
        } else if k == 5 {
            assert(ps[5] == when(header_mentions(h, "server"@, "apache"@), "Apache"@, "Web Server"@, "\u{25C9}"@));
            lemma_part_entry(header_mentions(h, "server"@, "apache"@), "Apache"@, "Web Server"@, "\u{25C9}"@, x);
        } else if k == 6 {
            assert(ps[6] == when(has_header(h, "x-amz-cf-id"@), "CloudFront"@, "CDN"@, "\u{2601}"@));
            lemma_part_entry(has_header(h, "x-amz-cf-id"@), "CloudFront"@, "CDN"@, "\u{2601}"@, x);
        } else if k == 7 {
            assert(ps[7] == when(has_header(h, "x-fastly-request-id"@), "Fastly"@, "CDN"@, "\u{26A1}"@));
            lemma_part_entry(has_header(h, "x-fastly-request-id"@), "Fastly"@, "CDN"@, "\u{26A1}"@, x);
        } else if k == 8 {
            assert(ps[8] == when(has_header(h, "x-shopify-stage"@), "Shopify"@, "E-Commerce"@, "\u{1F6D2}"@));
            lemma_part_entry(has_header(h, "x-shopify-stage"@), "Shopify"@, "E-Commerce"@, "\u{1F6D2}"@, x);
        } else if k == 9 {
            assert(ps[9] == when(has_header(h, "x-github-request-id"@), "GitHub Pages"@, "Hosting"@, "\u{2B22}"@));
            lemma_part_entry(has_header(h, "x-github-request-id"@), "GitHub Pages"@, "Hosting"@, "\u{2B22}"@, x);
        } else if k == 10 {
            assert(ps[10] == when(header_mentions(h, "via"@, "varnish"@), "Varnish"@, "Cache"@, "\u{26A1}"@));
            lemma_part_entry(header_mentions(h, "via"@, "varnish"@), "Varnish"@, "Cache"@, "\u{26A1}"@, x);
        }
    }
}

#[verifier::rlimit(40)]
proof fn lemma_rule_only_express(h: &HeaderMap)
    ensures
        detected(h).contains(("Express / Node.js"@, "Runtime"@, "\u{2699}"@)) ==> (header_mentions(h, "x-powered-by"@, "express"@)),
{
    let ps = rule_parts(h);
    let x = ("Express / Node.js"@, "Runtime"@, "\u{2699}"@);
    if detected(h).contains(x) {
        lemma_detected_members(h);
        lemma_names_differ();
        let k = choose|k: int| 0 <= k < 11 && #[trigger] rule_parts(h)[k].contains(x);
        if k == 0 {
            assert(ps[0] == when(header_mentions(h, "server"@, "cloudflare"@) || has_header(h, "cf-ray"@), "Cloudflare"@, "CDN / Security"@, "\u{2601}"@));
            lemma_part_entry(header_mentions(h, "server"@, "cloudflare"@) || has_header(h, "cf-ray"@), "Cloudflare"@, "CDN / Security"@, "\u{2601}"@, x);
        } else if k == 1 {
            assert(ps[1] == when(has_header(h, "x-vercel-id"@), "Vercel"@, "Hosting"@, "\u{25B2}"@));
            lemma_part_entry(has_header(h, "x-vercel-id"@), "Vercel"@, "Hosting"@, "\u{25B2}"@, x);
        } else if k == 2 {
            assert(ps[2] == when(header_mentions(h, "x-powered-by"@, "next.js"@), "Next.js"@, "Framework"@, "\u{25C8}"@));
            lemma_part_entry(header_mentions(h, "x-powered-by"@, "next.js"@), "Next.js"@, "Framework"@, "\u{25C8}"@, x);
        } else if k == 3 {
            assert(ps[3] == when(header_mentions(h, "x-powered-by"@, "express"@), "Express / Node.js"@, "Runtime"@, "\u{2699}"@));
            lemma_part_entry(header_mentions(h, "x-powered-by"@, "express"@), "Express / Node.js"@, "Runtime"@, "\u{2699}"@, x);
        } else if k == 4 {
            assert(ps[4] == when(header_mentions(h, "server"@, "nginx"@), "nginx"@, "Web Server"@, "\u{25C9}"@));
            lemma_part_entry(header_mentions(h, "server"@, "nginx"@), "nginx"@, "Web Server"@, "\u{25C9}"@, x);
        } else if k == 5 {
            assert(ps[5] == when(header_mentions(h, "server"@, "apache"@), "Apache"@, "Web Server"@, "\u{25C9}"@));
            lemma_part_entry(header_mentions(h, "server"@, "apache"@), "Apache"@, "Web Server"@, "\u{25C9}"@, x);
        } else if k == 6 {
            assert(ps[6] == when(has_header(h, "x-amz-cf-id"@), "CloudFront"@, "CDN"@, "\u{2601}"@));
            lemma_part_entry(has_header(h, "x-amz-cf-id"@), "CloudFront"@, "CDN"@, "\u{2601}"@, x);
        } else if k == 7 {
            assert(ps[7] == when(has_header(h, "x-fastly-request-id"@), "Fastly"@, "CDN"@, "\u{26A1}"@));
            lemma_part_entry(has_header(h, "x-fastly-request-id"@), "Fastly"@, "CDN"@, "\u{26A1}"@, x);
        } else if k == 8 {
            assert(ps[8] == when(has_header(h, "x-shopify-stage"@), "Shopify"@, "E-Commerce"@, "\u{1F6D2}"@));
            lemma_part_entry(has_header(h, "x-shopify-stage"@), "Shopify"@, "E-Commerce"@, "\u{1F6D2}"@, x);
        } else if k == 9 {
            assert(ps[9] == when(has_header(h, "x-github-request-id"@), "GitHub Pages"@, "Hosting"@, "\u{2B22}"@));
            lemma_part_entry(has_header(h, "x-github-request-id"@), "GitHub Pages"@, "Hosting"@, "\u{2B22}"@, x);
        } else if k == 10 {
            assert(ps[10] == when(header_mentions(h, "via"@, "varnish"@), "Varnish"@, "Cache"@, "\u{26A1}"@));
            lemma_part_entry(header_mentions(h, "via"@, "varnish"@), "Varnish"@, "Cache"@, "\u{26A1}"@, x);
        }
    }
}

#[verifier::rlimit(40)]
proof fn lemma_rule_only_nginx(h: &HeaderMap)
    ensures
        detected(h).contains(("nginx"@, "Web Server"@, "\u{25C9}"@)) ==> (header_mentions(h, "server"@, "nginx"@)),
{
    let ps = rule_parts(h);
    let x = ("nginx"@, "Web Server"@, "\u{25C9}"@);
    if detected(h).contains(x) {
        lemma_detected_members(h);
        lemma_names_differ();
        let k = choose|k: int| 0 <= k < 11 && #[trigger] rule_parts(h)[k].contains(x);
        if k == 0 {
            assert(ps[0] == when(header_mentions(h, "server"@, "cloudflare"@) || has_header(h, "cf-ray"@), "Cloudflare"@, "CDN / Security"@, "\u{2601}"@));
            lemma_part_entry(header_mentions(h, "server"@, "cloudflare"@) || has_header(h, "cf-ray"@), "Cloudflare"@, "CDN / Security"@, "\u{2601}"@, x);
        } else if k == 1 {
            assert(ps[1] == when(has_header(h, "x-vercel-id"@), "Vercel"@, "Hosting"@, "\u{25B2}"@));
            lemma_part_entry(has_header(h, "x-vercel-id"@), "Vercel"@, "Hosting"@, "\u{25B2}"@, x);
        } else if k == 2 {
            assert(ps[2] == when(header_mentions(h, "x-powered-by"@, "next.js"@), "Next.js"@, "Framework"@, "\u{25C8}"@));
            lemma_part_entry(header_mentions(h, "x-powered-by"@, "next.js"@), "Next.js"@, "Framework"@, "\u{25C8}"@, x);
        } else if k == 3 {
            assert(ps[3] == when(header_mentions(h, "x-powered-by"@, "express"@), "Express / Node.js"@, "Runtime"@, "\u{2699}"@));
            lemma_part_entry(header_mentions(h, "x-powered-by"@, "express"@), "Express / Node.js"@, "Runtime"@, "\u{2699}"@, x);
        } else if k == 4 {
            assert(ps[4] == when(header_mentions(h, "server"@, "nginx"@), "nginx"@, "Web Server"@, "\u{25C9}"@));
            lemma_part_entry(header_mentions(h, "server"@, "nginx"@), "nginx"@, "Web Server"@, "\u{25C9}"@, x);
        } else if k == 5 {
            assert(ps[5] == when(header_mentions(h, "server"@, "apache"@), "Apache"@, "Web Server"@, "\u{25C9}"@));
            lemma_part_entry(header_mentions(h, "server"@, "apache"@), "Apache"@, "Web Server"@, "\u{25C9}"@, x);
        } else if k == 6 {
            assert(ps[6] == when(has_header(h, "x-amz-cf-id"@), "CloudFront"@, "CDN"@, "\u{2601}"@));
            lemma_part_entry(has_header(h, "x-amz-cf-id"@), "CloudFront"@, "CDN"@, "\u{2601}"@, x);
        } else if k == 7 {
            assert(ps[7] == when(has_header(h, "x-fastly-request-id"@), "Fastly"@, "CDN"@, "\u{26A1}"@));
            lemma_part_entry(has_header(h, "x-fastly-request-id"@), "Fastly"@, "CDN"@, "\u{26A1}"@, x);
        } else if k == 8 {
            assert(ps[8] == when(has_header(h, "x-shopify-stage"@), "Shopify"@, "E-Commerce"@, "\u{1F6D2}"@));
            lemma_part_entry(has_header(h, "x-shopify-stage"@), "Shopify"@, "E-Commerce"@, "\u{1F6D2}"@, x);
        } else if k == 9 {
            assert(ps[9] == when(has_header(h, "x-github-request-id"@), "GitHub Pages"@, "Hosting"@, "\u{2B22}"@));
            lemma_part_entry(has_header(h, "x-github-request-id"@), "GitHub Pages"@, "Hosting"@, "\u{2B22}"@, x);
        } else if k == 10 {
            assert(ps[10] == when(header_mentions(h, "via"@, "varnish"@), "Varnish"@, "Cache"@, "\u{26A1}"@));
            lemma_part_entry(header_mentions(h, "via"@, "varnish"@), "Varnish"@, "Cache"@, "\u{26A1}"@, x);
        }
    }
}

#[verifier::rlimit(40)]
proof fn lemma_rule_only_apache(h: &HeaderMap)
    ensures
        detected(h).contains(("Apache"@, "Web Server"@, "\u{25C9}"@)) ==> (header_mentions(h, "server"@, "apache"@)),
{
    let ps = rule_parts(h);
    let x = ("Apache"@, "Web Server"@, "\u{25C9}"@);
    if detected(h).contains(x) {
        lemma_detected_members(h);
        lemma_names_differ();
        let k = choose|k: int| 0 <= k < 11 && #[trigger] rule_parts(h)[k].contains(x);
        if k == 0 {
            assert(ps[0] == when(header_mentions(h, "server"@, "cloudflare"@) || has_header(h, "cf-ray"@), "Cloudflare"@, "CDN / Security"@, "\u{2601}"@));
            lemma_part_entry(header_mentions(h, "server"@, "cloudflare"@) || has_header(h, "cf-ray"@), "Cloudflare"@, "CDN / Security"@, "\u{2601}"@, x);
        } else if k == 1 {
            assert(ps[1] == when(has_header(h, "x-vercel-id"@), "Vercel"@, "Hosting"@, "\u{25B2}"@));
            lemma_part_entry(has_header(h, "x-vercel-id"@), "Vercel"@, "Hosting"@, "\u{25B2}"@, x);
        } else if k == 2 {
            assert(ps[2] == when(header_mentions(h, "x-powered-by"@, "next.js"@), "Next.js"@, "Framework"@, "\u{25C8}"@));
            lemma_part_entry(header_mentions(h, "x-powered-by"@, "next.js"@), "Next.js"@, "Framework"@, "\u{25C8}"@, x);
        } else if k == 3 {
            assert(ps[3] == when(header_mentions(h, "x-powered-by"@, "express"@), "Express / Node.js"@, "Runtime"@, "\u{2699}"@));
            lemma_part_entry(header_mentions(h, "x-powered-by"@, "express"@), "Express / Node.js"@, "Runtime"@, "\u{2699}"@, x);
        } else if k == 4 {
            assert(ps[4] == when(header_mentions(h, "server"@, "nginx"@), "nginx"@, "Web Server"@, "\u{25C9}"@));
            lemma_part_entry(header_mentions(h, "server"@, "nginx"@), "nginx"@, "Web Server"@, "\u{25C9}"@, x);
        } else if k == 5 {
            assert(ps[5] == when(header_mentions(h, "server"@, "apache"@), "Apache"@, "Web Server"@, "\u{25C9}"@));
            lemma_part_entry(header_mentions(h, "server"@, "apache"@), "Apache"@, "Web Server"@, "\u{25C9}"@, x);
        } else if k == 6 {
            assert(ps[6] == when(has_header(h, "x-amz-cf-id"@), "CloudFront"@, "CDN"@, "\u{2601}"@));
            lemma_part_entry(has_header(h, "x-amz-cf-id"@), "CloudFront"@, "CDN"@, "\u{2601}"@, x);
        } else if k == 7 {
            assert(ps[7] == when(has_header(h, "x-fastly-request-id"@), "Fastly"@, "CDN"@, "\u{26A1}"@));
            lemma_part_entry(has_header(h, "x-fastly-request-id"@), "Fastly"@, "CDN"@, "\u{26A1}"@, x);
        } else if k == 8 {
            assert(ps[8] == when(has_header(h, "x-shopify-stage"@), "Shopify"@, "E-Commerce"@, "\u{1F6D2}"@));
            lemma_part_entry(has_header(h, "x-shopify-stage"@), "Shopify"@, "E-Commerce"@, "\u{1F6D2}"@, x);
        } else if k == 9 {
            assert(ps[9] == when(has_header(h, "x-github-request-id"@), "GitHub Pages"@, "Hosting"@, "\u{2B22}"@));
            lemma_part_entry(has_header(h, "x-github-request-id"@), "GitHub Pages"@, "Hosting"@, "\u{2B22}"@, x);
        } else if k == 10 {
            assert(ps[10] == when(header_mentions(h, "via"@, "varnish"@), "Varnish"@, "Cache"@, "\u{26A1}"@));
            lemma_part_entry(header_mentions(h, "via"@, "varnish"@), "Varnish"@, "Cache"@, "\u{26A1}"@, x);
        }
    }
}

#[verifier::rlimit(40)]
proof fn lemma_rule_only_cloudfront(h: &HeaderMap)
    ensures
        detected(h).contains(("CloudFront"@, "CDN"@, "\u{2601}"@)) ==> (has_header(h, "x-amz-cf-id"@)),
{
    let ps = rule_parts(h);
    let x = ("CloudFront"@, "CDN"@, "\u{2601}"@);
    if detected(h).contains(x) {
        lemma_detected_members(h);
        lemma_names_differ();
        let k = choose|k: int| 0 <= k < 11 && #[trigger] rule_parts(h)[k].contains(x);
        if k == 0 {
            assert(ps[0] == when(header_mentions(h, "server"@, "cloudflare"@) || has_header(h, "cf-ray"@), "Cloudflare"@, "CDN / Security"@, "\u{2601}"@));
            lemma_part_entry(header_mentions(h, "server"@, "cloudflare"@) || has_header(h, "cf-ray"@), "Cloudflare"@, "CDN / Security"@, "\u{2601}"@, x);
        } else if k == 1 {
            assert(ps[1] == when(has_header(h, "x-vercel-id"@), "Vercel"@, "Hosting"@, "\u{25B2}"@));
            lemma_part_entry(has_header(h, "x-vercel-id"@), "Vercel"@, "Hosting"@, "\u{25B2}"@, x);
        } else if k == 2 {
            assert(ps[2] == when(header_mentions(h, "x-powered-by"@, "next.js"@), "Next.js"@, "Framework"@, "\u{25C8}"@));
            lemma_part_entry(header_mentions(h, "x-powered-by"@, "next.js"@), "Next.js"@, "Framework"@, "\u{25C8}"@, x);
        } else if k == 3 {
            assert(ps[3] == when(header_mentions(h, "x-powered-by"@, "express"@), "Express / Node.js"@, "Runtime"@, "\u{2699}"@));
            lemma_part_entry(header_mentions(h, "x-powered-by"@, "express"@), "Express / Node.js"@, "Runtime"@, "\u{2699}"@, x);
        } else if k == 4 {
            assert(ps[4] == when(header_mentions(h, "server"@, "nginx"@), "nginx"@, "Web Server"@, "\u{25C9}"@));
            lemma_part_entry(header_mentions(h, "server"@, "nginx"@), "nginx"@, "Web Server"@, "\u{25C9}"@, x);
        } else if k == 5 {
            assert(ps[5] == when(header_mentions(h, "server"@, "apache"@), "Apache"@, "Web Server"@, "\u{25C9}"@));
            lemma_part_entry(header_mentions(h, "server"@, "apache"@), "Apache"@, "Web Server"@, "\u{25C9}"@, x);
        } else if k == 6 {
            assert(ps[6] == when(has_header(h, "x-amz-cf-id"@), "CloudFront"@, "CDN"@, "\u{2601}"@));
            lemma_part_entry(has_header(h, "x-amz-cf-id"@), "CloudFront"@, "CDN"@, "\u{2601}"@, x);
        } else if k == 7 {
            assert(ps[7] == when(has_header(h, "x-fastly-request-id"@), "Fastly"@, "CDN"@, "\u{26A1}"@));
            lemma_part_entry(has_header(h, "x-fastly-request-id"@), "Fastly"@, "CDN"@, "\u{26A1}"@, x);
        } else if k == 8 {
            assert(ps[8] == when(has_header(h, "x-shopify-stage"@), "Shopify"@, "E-Commerce"@, "\u{1F6D2}"@));
            lemma_part_entry(has_header(h, "x-shopify-stage"@), "Shopify"@, "E-Commerce"@, "\u{1F6D2}"@, x);
        } else if k == 9 {
            assert(ps[9] == when(has_header(h, "x-github-request-id"@), "GitHub Pages"@, "Hosting"@, "\u{2B22}"@));
            lemma_part_entry(has_header(h, "x-github-request-id"@), "GitHub Pages"@, "Hosting"@, "\u{2B22}"@, x);
        } else if k == 10 {
            assert(ps[10] == when(header_mentions(h, "via"@, "varnish"@), "Varnish"@, "Cache"@, "\u{26A1}"@));
            lemma_part_entry(header_mentions(h, "via"@, "varnish"@), "Varnish"@, "Cache"@, "\u{26A1}"@, x);
        }
    }
}

#[verifier::rlimit(40)]
proof fn lemma_rule_only_fastly(h: &HeaderMap)
    ensures
        detected(h).contains(("Fastly"@, "CDN"@, "\u{26A1}"@)) ==> (has_header(h, "x-fastly-request-id"@)),
{
    let ps = rule_parts(h);
    let x = ("Fastly"@, "CDN"@, "\u{26A1}"@);
    if detected(h).contains(x) {
        lemma_detected_members(h);
        lemma_names_differ();
        let k = choose|k: int| 0 <= k < 11 && #[trigger] rule_parts(h)[k].contains(x);
        if k == 0 {
            assert(ps[0] == when(header_mentions(h, "server"@, "cloudflare"@) || has_header(h, "cf-ray"@), "Cloudflare"@, "CDN / Security"@, "\u{2601}"@));
            lemma_part_entry(header_mentions(h, "server"@, "cloudflare"@) || has_header(h, "cf-ray"@), "Cloudflare"@, "CDN / Security"@, "\u{2601}"@, x);
        } else if k == 1 {
            assert(ps[1] == when(has_header(h, "x-vercel-id"@), "Vercel"@, "Hosting"@, "\u{25B2}"@));
            lemma_part_entry(has_header(h, "x-vercel-id"@), "Vercel"@, "Hosting"@, "\u{25B2}"@, x);
        } else if k == 2 {
            assert(ps[2] == when(header_mentions(h, "x-powered-by"@, "next.js"@), "Next.js"@, "Framework"@, "\u{25C8}"@));
            lemma_part_entry(header_mentions(h, "x-powered-by"@, "next.js"@), "Next.js"@, "Framework"@, "\u{25C8}"@, x);
        } else if k == 3 {
            assert(ps[3] == when(header_mentions(h, "x-powered-by"@, "express"@), "Express / Node.js"@, "Runtime"@, "\u{2699}"@));
            lemma_part_entry(header_mentions(h, "x-powered-by"@, "express"@), "Express / Node.js"@, "Runtime"@, "\u{2699}"@, x);
        } else if k == 4 {
            assert(ps[4] == when(header_mentions(h, "server"@, "nginx"@), "nginx"@, "Web Server"@, "\u{25C9}"@));
            lemma_part_entry(header_mentions(h, "server"@, "nginx"@), "nginx"@, "Web Server"@, "\u{25C9}"@, x);
        } else if k == 5 {
            assert(ps[5] == when(header_mentions(h, "server"@, "apache"@), "Apache"@, "Web Server"@, "\u{25C9}"@));
            lemma_part_entry(header_mentions(h, "server"@, "apache"@), "Apache"@, "Web Server"@, "\u{25C9}"@, x);
        } else if k == 6 {
            assert(ps[6] == when(has_header(h, "x-amz-cf-id"@), "CloudFront"@, "CDN"@, "\u{2601}"@));
            lemma_part_entry(has_header(h, "x-amz-cf-id"@), "CloudFront"@, "CDN"@, "\u{2601}"@, x);
        } else if k == 7 {
            assert(ps[7] == when(has_header(h, "x-fastly-request-id"@), "Fastly"@, "CDN"@, "\u{26A1}"@));
            lemma_part_entry(has_header(h, "x-fastly-request-id"@), "Fastly"@, "CDN"@, "\u{26A1}"@, x);
        } else if k == 8 {
            assert(ps[8] == when(has_header(h, "x-shopify-stage"@), "Shopify"@, "E-Commerce"@, "\u{1F6D2}"@));
            lemma_part_entry(has_header(h, "x-shopify-stage"@), "Shopify"@, "E-Commerce"@, "\u{1F6D2}"@, x);
        } else if k == 9 {
            assert(ps[9] == when(has_header(h, "x-github-request-id"@), "GitHub Pages"@, "Hosting"@, "\u{2B22}"@));
            lemma_part_entry(has_header(h, "x-github-request-id"@), "GitHub Pages"@, "Hosting"@, "\u{2B22}"@, x);
        } else if k == 10 {
            assert(ps[10] == when(header_mentions(h, "via"@, "varnish"@), "Varnish"@, "Cache"@, "\u{26A1}"@));
            lemma_part_entry(header_mentions(h, "via"@, "varnish"@), "Varnish"@, "Cache"@, "\u{26A1}"@, x);
        }
    }
}

#[verifier::rlimit(40)]
proof fn lemma_rule_only_shopify(h: &HeaderMap)
    ensures
        detected(h).contains(("Shopify"@, "E-Commerce"@, "\u{1F6D2}"@)) ==> (has_header(h, "x-shopify-stage"@)),
{
    let ps = rule_parts(h);
    let x = ("Shopify"@, "E-Commerce"@, "\u{1F6D2}"@);
    if detected(h).contains(x) {
        lemma_detected_members(h);
        lemma_names_differ();
        let k = choose|k: int| 0 <= k < 11 && #[trigger] rule_parts(h)[k].contains(x);
        if k == 0 {
            assert(ps[0] == when(header_mentions(h, "server"@, "cloudflare"@) || has_header(h, "cf-ray"@), "Cloudflare"@, "CDN / Security"@, "\u{2601}"@));
            lemma_part_entry(header_mentions(h, "server"@, "cloudflare"@) || has_header(h, "cf-ray"@), "Cloudflare"@, "CDN / Security"@, "\u{2601}"@, x);
        } else if k == 1 {
            assert(ps[1] == when(has_header(h, "x-vercel-id"@), "Vercel"@, "Hosting"@, "\u{25B2}"@));
            lemma_part_entry(has_header(h, "x-vercel-id"@), "Vercel"@, "Hosting"@, "\u{25B2}"@, x);
        } else if k == 2 {
            assert(ps[2] == when(header_mentions(h, "x-powered-by"@, "next.js"@), "Next.js"@, "Framework"@, "\u{25C8}"@));
            lemma_part_entry(header_mentions(h, "x-powered-by"@, "next.js"@), "Next.js"@, "Framework"@, "\u{25C8}"@, x);
        } else if k == 3 {
            assert(ps[3] == when(header_mentions(h, "x-powered-by"@, "express"@), "Express / Node.js"@, "Runtime"@, "\u{2699}"@));
            lemma_part_entry(header_mentions(h, "x-powered-by"@, "express"@), "Express / Node.js"@, "Runtime"@, "\u{2699}"@, x);
        } else if k == 4 {
            assert(ps[4] == when(header_mentions(h, "server"@, "nginx"@), "nginx"@, "Web Server"@, "\u{25C9}"@));
            lemma_part_entry(header_mentions(h, "server"@, "nginx"@), "nginx"@, "Web Server"@, "\u{25C9}"@, x);
        } else if k == 5 {
            assert(ps[5] == when(header_mentions(h, "server"@, "apache"@), "Apache"@, "Web Server"@, "\u{25C9}"@));
            lemma_part_entry(header_mentions(h, "server"@, "apache"@), "Apache"@, "Web Server"@, "\u{25C9}"@, x);
        } else if k == 6 {
            assert(ps[6] == when(has_header(h, "x-amz-cf-id"@), "CloudFront"@, "CDN"@, "\u{2601}"@));
            lemma_part_entry(has_header(h, "x-amz-cf-id"@), "CloudFront"@, "CDN"@, "\u{2601}"@, x);
        } else if k == 7 {
            assert(ps[7] == when(has_header(h, "x-fastly-request-id"@), "Fastly"@, "CDN"@, "\u{26A1}"@));
            lemma_part_entry(has_header(h, "x-fastly-request-id"@), "Fastly"@, "CDN"@, "\u{26A1}"@, x);
        } else if k == 8 {
            assert(ps[8] == when(has_header(h, "x-shopify-stage"@), "Shopify"@, "E-Commerce"@, "\u{1F6D2}"@));
            lemma_part_entry(has_header(h, "x-shopify-stage"@), "Shopify"@, "E-Commerce"@, "\u{1F6D2}"@, x);
        } else if k == 9 {
            assert(ps[9] == when(has_header(h, "x-github-request-id"@), "GitHub Pages"@, "Hosting"@, "\u{2B22}"@));
            lemma_part_entry(has_header(h, "x-github-request-id"@), "GitHub Pages"@, "Hosting"@, "\u{2B22}"@, x);
        } else if k == 10 {
            assert(ps[10] == when(header_mentions(h, "via"@, "varnish"@), "Varnish"@, "Cache"@, "\u{26A1}"@));
            lemma_part_entry(header_mentions(h, "via"@, "varnish"@), "Varnish"@, "Cache"@, "\u{26A1}"@, x);
        }
    }
}

#[verifier::rlimit(40)]
proof fn lemma_rule_only_github(h: &HeaderMap)
    ensures
        detected(h).contains(("GitHub Pages"@, "Hosting"@, "\u{2B22}"@)) ==> (has_header(h, "x-github-request-id"@)),
{
    let ps = rule_parts(h);
    let x = ("GitHub Pages"@, "Hosting"@, "\u{2B22}"@);
    if detected(h).contains(x) {
        lemma_detected_members(h);
        lemma_names_differ();
        let k = choose|k: int| 0 <= k < 11 && #[trigger] rule_parts(h)[k].contains(x);
        if k == 0 {
            assert(ps[0] == when(header_mentions(h, "server"@, "cloudflare"@) || has_header(h, "cf-ray"@), "Cloudflare"@, "CDN / Security"@, "\u{2601}"@));
            lemma_part_entry(header_mentions(h, "server"@, "cloudflare"@) || has_header(h, "cf-ray"@), "Cloudflare"@, "CDN / Security"@, "\u{2601}"@, x);
        } else if k == 1 {
            assert(ps[1] == when(has_header(h, "x-vercel-id"@), "Vercel"@, "Hosting"@, "\u{25B2}"@));
            lemma_part_entry(has_header(h, "x-vercel-id"@), "Vercel"@, "Hosting"@, "\u{25B2}"@, x);
        } else if k == 2 {
            assert(ps[2] == when(header_mentions(h, "x-powered-by"@, "next.js"@), "Next.js"@, "Framework"@, "\u{25C8}"@));
            lemma_part_entry(header_mentions(h, "x-powered-by"@, "next.js"@), "Next.js"@, "Framework"@, "\u{25C8}"@, x);
        } else if k == 3 {
            assert(ps[3] == when(header_mentions(h, "x-powered-by"@, "express"@), "Express / Node.js"@, "Runtime"@, "\u{2699}"@));
            lemma_part_entry(header_mentions(h, "x-powered-by"@, "express"@), "Express / Node.js"@, "Runtime"@, "\u{2699}"@, x);
        } else if k == 4 {
            assert(ps[4] == when(header_mentions(h, "server"@, "nginx"@), "nginx"@, "Web Server"@, "\u{25C9}"@));
            lemma_part_entry(header_mentions(h, "server"@, "nginx"@), "nginx"@, "Web Server"@, "\u{25C9}"@, x);
        } else if k == 5 {
            assert(ps[5] == when(header_mentions(h, "server"@, "apache"@), "Apache"@, "Web Server"@, "\u{25C9}"@));
            lemma_part_entry(header_mentions(h, "server"@, "apache"@), "Apache"@, "Web Server"@, "\u{25C9}"@, x);
        } else if k == 6 {
            assert(ps[6] == when(has_header(h, "x-amz-cf-id"@), "CloudFront"@, "CDN"@, "\u{2601}"@));
            lemma_part_entry(has_header(h, "x-amz-cf-id"@), "CloudFront"@, "CDN"@, "\u{2601}"@, x);
        } else if k == 7 {
            assert(ps[7] == when(has_header(h, "x-fastly-request-id"@), "Fastly"@, "CDN"@, "\u{26A1}"@));
            lemma_part_entry(has_header(h, "x-fastly-request-id"@), "Fastly"@, "CDN"@, "\u{26A1}"@, x);
        } else if k == 8 {
            assert(ps[8] == when(has_header(h, "x-shopify-stage"@), "Shopify"@, "E-Commerce"@, "\u{1F6D2}"@));
            lemma_part_entry(has_header(h, "x-shopify-stage"@), "Shopify"@, "E-Commerce"@, "\u{1F6D2}"@, x);
        } else if k == 9 {
            assert(ps[9] == when(has_header(h, "x-github-request-id"@), "GitHub Pages"@, "Hosting"@, "\u{2B22}"@));
            lemma_part_entry(has_header(h, "x-github-request-id"@), "GitHub Pages"@, "Hosting"@, "\u{2B22}"@, x);
        } else if k == 10 {
            assert(ps[10] == when(header_mentions(h, "via"@, "varnish"@), "Varnish"@, "Cache"@, "\u{26A1}"@));
            lemma_part_entry(header_mentions(h, "via"@, "varnish"@), "Varnish"@, "Cache"@, "\u{26A1}"@, x);
        }
    }
}

#[verifier::rlimit(40)]
proof fn lemma_rule_only_varnish(h: &HeaderMap)
    ensures
        detected(h).contains(("Varnish"@, "Cache"@, "\u{26A1}"@)) ==> (header_mentions(h, "via"@, "varnish"@)),
{
    let ps = rule_parts(h);
    let x = ("Varnish"@, "Cache"@, "\u{26A1}"@);
    if detected(h).contains(x) {
        lemma_detected_members(h);
        lemma_names_differ();
        let k = choose|k: int| 0 <= k < 11 && #[trigger] rule_parts(h)[k].contains(x);
        if k == 0 {
            assert(ps[0] == when(header_mentions(h, "server"@, "cloudflare"@) || has_header(h, "cf-ray"@), "Cloudflare"@, "CDN / Security"@, "\u{2601}"@));
            lemma_part_entry(header_mentions(h, "server"@, "cloudflare"@) || has_header(h, "cf-ray"@), "Cloudflare"@, "CDN / Security"@, "\u{2601}"@, x);
        } else if k == 1 {
            assert(ps[1] == when(has_header(h, "x-vercel-id"@), "Vercel"@, "Hosting"@, "\u{25B2}"@));
            lemma_part_entry(has_header(h, "x-vercel-id"@), "Vercel"@, "Hosting"@, "\u{25B2}"@, x);
        } else if k == 2 {
            assert(ps[2] == when(header_mentions(h, "x-powered-by"@, "next.js"@), "Next.js"@, "Framework"@, "\u{25C8}"@));
            lemma_part_entry(header_mentions(h, "x-powered-by"@, "next.js"@), "Next.js"@, "Framework"@, "\u{25C8}"@, x);
        } else if k == 3 {
            assert(ps[3] == when(header_mentions(h, "x-powered-by"@, "express"@), "Express / Node.js"@, "Runtime"@, "\u{2699}"@));
            lemma_part_entry(header_mentions(h, "x-powered-by"@, "express"@), "Express / Node.js"@, "Runtime"@, "\u{2699}"@, x);
        } else if k == 4 {
            assert(ps[4] == when(header_mentions(h, "server"@, "nginx"@), "nginx"@, "Web Server"@, "\u{25C9}"@));
            lemma_part_entry(header_mentions(h, "server"@, "nginx"@), "nginx"@, "Web Server"@, "\u{25C9}"@, x);
        } else if k == 5 {
            assert(ps[5] == when(header_mentions(h, "server"@, "apache"@), "Apache"@, "Web Server"@, "\u{25C9}"@));
            lemma_part_entry(header_mentions(h, "server"@, "apache"@), "Apache"@, "Web Server"@, "\u{25C9}"@, x);
        } else if k == 6 {
            assert(ps[6] == when(has_header(h, "x-amz-cf-id"@), "CloudFront"@, "CDN"@, "\u{2601}"@));
            lemma_part_entry(has_header(h, "x-amz-cf-id"@), "CloudFront"@, "CDN"@, "\u{2601}"@, x);
        } else if k == 7 {
            assert(ps[7] == when(has_header(h, "x-fastly-request-id"@), "Fastly"@, "CDN"@, "\u{26A1}"@));
            lemma_part_entry(has_header(h, "x-fastly-request-id"@), "Fastly"@, "CDN"@, "\u{26A1}"@, x);
        } else if k == 8 {
            assert(ps[8] == when(has_header(h, "x-shopify-stage"@), "Shopify"@, "E-Commerce"@, "\u{1F6D2}"@));
            lemma_part_entry(has_header(h, "x-shopify-stage"@), "Shopify"@, "E-Commerce"@, "\u{1F6D2}"@, x);
        } else if k == 9 {
            assert(ps[9] == when(has_header(h, "x-github-request-id"@), "GitHub Pages"@, "Hosting"@, "\u{2B22}"@));
            lemma_part_entry(has_header(h, "x-github-request-id"@), "GitHub Pages"@, "Hosting"@, "\u{2B22}"@, x);
        } else if k == 10 {
            assert(ps[10] == when(header_mentions(h, "via"@, "varnish"@), "Varnish"@, "Cache"@, "\u{26A1}"@));
            lemma_part_entry(header_mentions(h, "via"@, "varnish"@), "Varnish"@, "Cache"@, "\u{26A1}"@, x);
        }
    }
}

/// Each technology is detected exactly from its header: Cloudflare from a Server
/// value mentioning `cloudflare` or a `CF-Ray` header; Vercel from
/// `X-Vercel-Id`; Next.js and Express from `X-Powered-By`; nginx and Apache
/// from Server; CloudFront, Fastly, Shopify and GitHub Pages from their
/// request-id headers; Varnish from `Via`. Header values are compared
/// without regard to ASCII case.
pub proof fn lemma_detection_rules(h: &HeaderMap)
    ensures
        detected(h).contains(("Cloudflare"@, "CDN / Security"@, "\u{2601}"@)) <==>
            ((h.get_spec("server"@) matches Some(v) && contains_seq(lower(v), "cloudflare"@)) || h.get_spec("cf-ray"@) is Some),
        detected(h).contains(("Vercel"@, "Hosting"@, "\u{25B2}"@)) <==> (h.get_spec("x-vercel-id"@) is Some),
        detected(h).contains(("Next.js"@, "Framework"@, "\u{25C8}"@)) <==>
            (h.get_spec("x-powered-by"@) matches Some(v) && contains_seq(lower(v), "next.js"@)),
        detected(h).contains(("Express / Node.js"@, "Runtime"@, "\u{2699}"@)) <==>
            (h.get_spec("x-powered-by"@) matches Some(v) && contains_seq(lower(v), "express"@)),
        detected(h).contains(("nginx"@, "Web Server"@, "\u{25C9}"@)) <==>
            (h.get_spec("server"@) matches Some(v) && contains_seq(lower(v), "nginx"@)),
        detected(h).contains(("Apache"@, "Web Server"@, "\u{25C9}"@)) <==>
            (h.get_spec("server"@) matches Some(v) && contains_seq(lower(v), "apache"@)),
        detected(h).contains(("CloudFront"@, "CDN"@, "\u{2601}"@)) <==> (h.get_spec("x-amz-cf-id"@) is Some),
        detected(h).contains(("Fastly"@, "CDN"@, "\u{26A1}"@)) <==> (h.get_spec("x-fastly-request-id"@) is Some),
        detected(h).contains(("Shopify"@, "E-Commerce"@, "\u{1F6D2}"@)) <==> (h.get_spec("x-shopify-stage"@) is Some),
        detected(h).contains(("GitHub Pages"@, "Hosting"@, "\u{2B22}"@)) <==>
            (h.get_spec("x-github-request-id"@) is Some),
        detected(h).contains(("Varnish"@, "Cache"@, "\u{26A1}"@)) <==>
            (h.get_spec("via"@) matches Some(v) && contains_seq(lower(v), "varnish"@)),
{
    reveal_strlit("cloudflare");
    reveal_strlit("next.js");
    reveal_strlit("express");
    reveal_strlit("nginx");
    reveal_strlit("apache");
    reveal_strlit("varnish");
    lemma_rule_cloudflare(h);
    lemma_rule_only_cloudflare(h);
    lemma_rule_vercel(h);
    lemma_rule_only_vercel(h);
    lemma_rule_nextjs(h);
    lemma_rule_only_nextjs(h);
    lemma_rule_express(h);
    lemma_rule_only_express(h);
    lemma_rule_nginx(h);
    lemma_rule_only_nginx(h);
    lemma_rule_apache(h);
    lemma_rule_only_apache(h);
    lemma_rule_cloudfront(h);
    lemma_rule_only_cloudfront(h);
    lemma_rule_fastly(h);
    lemma_rule_only_fastly(h);
    lemma_rule_shopify(h);
    lemma_rule_only_shopify(h);
    lemma_rule_github(h);
    lemma_rule_only_github(h);
    lemma_rule_varnish(h);
    lemma_rule_only_varnish(h);
}

} // verus!
