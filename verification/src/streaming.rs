//! The streaming report's bookkeeping: which sections are printed as the
//! probes finish, each exactly once.

use vstd::prelude::*;

verus! {

/// The sections printed so far.
#[derive(Clone, Copy)]
pub struct Rendered {
    pub tls: bool,
    pub http: bool,
    pub headers: bool,
    pub tech: bool,
    pub redirects: bool,
    pub whois: bool,
}

/// The probe results that have arrived.
#[derive(Clone, Copy)]
pub struct Arrived {
    pub http: bool,
    pub redirect: bool,
    pub alt_redirect: bool,
    pub rdap: bool,
    pub tls: bool,
}

/// The sections to print now, in this order: HTTP, TLS, headers,
/// redirects, tech, WHOIS.
#[derive(Clone, Copy)]
pub struct RenderPlan {
    pub http: bool,
    pub tls: bool,
    pub headers: bool,
    pub redirects: bool,
    pub tech: bool,
    pub whois: bool,
}

impl Rendered {
    /// Nothing printed yet.
    pub fn none() -> (r: Self)
        ensures
            !r.tls && !r.http && !r.headers && !r.tech && !r.redirects && !r.whois,
    {
        Rendered { tls: false, http: false, headers: false, tech: false, redirects: false, whois: false }
    }
}

/// Whether a section can be printed now that was not printed before: TLS,
/// HTTP or WHOIS once its result arrived, the redirects once both chains
/// arrived.
pub fn need_render(r: &Rendered, a: &Arrived) -> (b: bool)
    ensures
        b == ((!r.tls && a.tls) || (!r.http && a.http) || (!r.redirects && a.redirect && a.alt_redirect) || (
        !r.whois && a.rdap)),
{
    (!r.tls && a.tls) || (!r.http && a.http) || (!r.redirects && a.redirect && a.alt_redirect) || (!r.whois
        && a.rdap)
}

/// The sections to print now, marked as printed: each section not yet
/// printed whose results have arrived (headers and tech need the HTTP
/// result, the redirects both chains).
pub fn plan_renders(r: &mut Rendered, a: &Arrived) -> (p: RenderPlan)
    ensures
        p.http == (!old(r).http && a.http),
        p.tls == (!old(r).tls && a.tls),
        p.headers == (!old(r).headers && a.http),
        p.redirects == (!old(r).redirects && a.redirect && a.alt_redirect),
        p.tech == (!old(r).tech && a.http),
        p.whois == (!old(r).whois && a.rdap),
        final(r).http == (old(r).http || p.http),
        final(r).tls == (old(r).tls || p.tls),
        final(r).headers == (old(r).headers || p.headers),
        final(r).redirects == (old(r).redirects || p.redirects),
        final(r).tech == (old(r).tech || p.tech),
        final(r).whois == (old(r).whois || p.whois),
{
    let p = RenderPlan {
        http: !r.http && a.http,
        tls: !r.tls && a.tls,
        headers: !r.headers && a.http,
        redirects: !r.redirects && a.redirect && a.alt_redirect,
        tech: !r.tech && a.http,
        whois: !r.whois && a.rdap,
    };
    r.http = r.http || p.http;
    r.tls = r.tls || p.tls;
    r.headers = r.headers || p.headers;
    r.redirects = r.redirects || p.redirects;
    r.tech = r.tech || p.tech;
    r.whois = r.whois || p.whois;
    p
}

/// Each section is printed once: a section planned once is marked printed,
/// so a later plan never prints it again; and once every result has
/// arrived, one plan leaves every section printed.
pub proof fn lemma_render_once(before: Rendered, plan: RenderPlan, after: Rendered, a: Arrived, later: Arrived)
    requires
        plan.http == (!before.http && a.http),
        plan.tls == (!before.tls && a.tls),
        plan.headers == (!before.headers && a.http),
        plan.redirects == (!before.redirects && a.redirect && a.alt_redirect),
        plan.tech == (!before.tech && a.http),
        plan.whois == (!before.whois && a.rdap),
        after.http == (before.http || plan.http),
        after.tls == (before.tls || plan.tls),
        after.headers == (before.headers || plan.headers),
        after.redirects == (before.redirects || plan.redirects),
        after.tech == (before.tech || plan.tech),
        after.whois == (before.whois || plan.whois),
    ensures
        plan.http ==> !(!after.http && later.http),
        plan.tls ==> !(!after.tls && later.tls),
        plan.headers ==> !(!after.headers && later.http),
        plan.redirects ==> !(!after.redirects && later.redirect && later.alt_redirect),
        plan.tech ==> !(!after.tech && later.http),
        plan.whois ==> !(!after.whois && later.rdap),
        (a.http && a.tls && a.redirect && a.alt_redirect && a.rdap) ==> (after.http && after.tls && after.headers
            && after.redirects && after.tech && after.whois),
{
}

} // verus!
