//! The redirect chain: the decisions taken between requests while a chain
//! of redirects is followed, and the probe's result.
//!
//! The caller fetches the current URL and reports each response's status
//! and `Location` header; [`RedirectWalk`] records the hop, resolves the
//! next URL and says whether to go on.

use vstd::prelude::*;
use crate::cli::{TargetUrl, UrlParts, joined, parse_url, url_join, url_parse};
use crate::probe::http::{is_redirection, status_is_redirection};
use crate::text::{append_chars, append_str, chars_of, string_of};

verus! {

/// One redirect: the status and the two URLs.
pub struct RedirectHop {
    pub status: u16,
    pub from: String,
    pub to: String,
}

/// The redirects followed from the target and where they ended.
pub struct RedirectProbe {
    pub hops: Vec<RedirectHop>,
    pub final_url: String,
    pub final_status: Option<u16>,
    pub truncated: bool,
    pub elapsed_ms: u64,
}

/// The `Location` header of a response: absent, present but not text, or
/// its text.
pub enum Location {
    Missing,
    NotText,
    Text(String),
}

/// A redirect chain being followed.
pub struct RedirectWalk {
    hops: Vec<RedirectHop>,
    current: TargetUrl,
    final_status: Option<u16>,
    requests_left: usize,
    ended: bool,
}

/// What to do after a response.
pub enum WalkStep {
    /// Fetch the new current URL.
    Follow,
    /// The chain has ended on a response that is not a redirect.
    Stop,
}

/// Where a redirect from `current` to `location` goes: the location
/// resolved against the current URL, or else parsed on its own.
pub open spec fn redirect_target(current: Seq<char>, location: Seq<char>) -> Option<UrlParts> {
    match url_join(current, location) {
        Ok(p) => Some(p),
        Err(_) => match url_parse(location) {
            Ok(p) => Some(p),
            Err(_) => None,
        },
    }
}

/// The message for a redirect without a `Location` header.
pub open spec fn missing_location_message(current: Seq<char>) -> Seq<char> {
    seq!['r', 'e', 'd', 'i', 'r', 'e', 'c', 't', ' ', 'r', 'e', 's', 'p', 'o', 'n', 's', 'e', ' ']
        + seq!['f', 'r', 'o', 'm', ' '] + current + seq![
        ' ',
        'm',
        'i',
        's',
        's',
        'i',
        'n',
        'g',
        ' ',
        'L',
        'o',
        'c',
        'a',
        't',
        'i',
        'o',
        'n',
        ' ',
        'h',
        'e',
        'a',
        'd',
        'e',
        'r',
    ]
}

/// The message for a `Location` header that is not text.
pub open spec fn invalid_location_message() -> Seq<char> {
    seq!['i', 'n', 'v', 'a', 'l', 'i', 'd', ' ', 'r', 'e', 'd', 'i', 'r', 'e', 'c', 't', ' ']
        + seq!['L', 'o', 'c', 'a', 't', 'i', 'o', 'n', ' ', 'h', 'e', 'a', 'd', 'e', 'r']
}

/// The message for a location that is no URL.
pub open spec fn invalid_target_message(location: Seq<char>) -> Seq<char> {
    seq!['i', 'n', 'v', 'a', 'l', 'i', 'd', ' ', 'r', 'e', 'd', 'i', 'r', 'e', 'c', 't', ' ']
        + seq!['t', 'a', 'r', 'g', 'e', 't', ' ', '`'] + location + seq!['`']
}

/// A hop's view: status, from, to.
pub open spec fn hop_view(h: RedirectHop) -> (u16, Seq<char>, Seq<char>) {
    (h.status, h.from@, h.to@)
}

impl RedirectWalk {
    /// The hops recorded so far.
    pub closed spec fn hops_spec(&self) -> Seq<(u16, Seq<char>, Seq<char>)> {
        self.hops@.map_values(|h: RedirectHop| hop_view(h))
    }

    /// The URL to fetch next (or where the chain ended).
    pub closed spec fn current_spec(&self) -> UrlParts {
        self.current.parts()
    }

    /// The status of the last response.
    pub closed spec fn final_status_spec(&self) -> Option<u16> {
        self.final_status
    }

    /// How many more requests the hop limit allows.
    pub closed spec fn requests_left_spec(&self) -> nat {
        self.requests_left as nat
    }

    /// Whether a response that is not a redirect ended the chain.
    pub closed spec fn ended_spec(&self) -> bool {
        self.ended
    }

    /// A walk from `start` that may make `max_hops` requests.
    pub fn start(start: TargetUrl, max_hops: usize) -> (w: Self)
        ensures
            w.hops_spec() == Seq::<(u16, Seq<char>, Seq<char>)>::empty(),
            w.current_spec() == start.parts(),
            w.final_status_spec() is None,
            w.requests_left_spec() == max_hops,
            !w.ended_spec(),
    {
        let w = RedirectWalk { hops: Vec::new(), current: start, final_status: None, requests_left: max_hops, ended: false };
        assert(w.hops_spec() =~= Seq::<(u16, Seq<char>, Seq<char>)>::empty());
        w
    }

    /// The URL to request next.
    pub fn current(&self) -> (u: &TargetUrl)
        ensures
            u.parts() == self.current_spec(),
    {
        &self.current
    }

    /// Whether another request is due: the chain has not ended and the hop
    /// limit allows one.
    pub fn wants_request(&self) -> (b: bool)
        ensures
            b == (!self.ended_spec() && self.requests_left_spec() > 0),
    {
        !self.ended && self.requests_left > 0
    }

    /// Takes in the response to the current URL. A status that is not a
    /// redirect ends the chain there. A redirect is recorded as a hop to
    /// its `Location`, resolved against the current URL (or parsed on its
    /// own), which becomes current; a missing or unusable `Location` is an
    /// error.
    pub fn observe(&mut self, status: u16, location: Location) -> (r: Result<WalkStep, String>)
        requires
            old(self).requests_left_spec() > 0,
            !old(self).ended_spec(),
        ensures
            final(self).final_status_spec() == Some(status),
            final(self).requests_left_spec() == old(self).requests_left_spec() - 1,
            final(self).hops_spec().len() + final(self).requests_left_spec() <= old(self).hops_spec().len()
                + old(self).requests_left_spec(),
            !is_redirection(status) ==> (r matches Ok(WalkStep::Stop) && final(self).ended_spec()
                && final(self).hops_spec() == old(self).hops_spec() && final(self).current_spec()
                == old(self).current_spec()),
            is_redirection(status) ==> match location {
                Location::Missing => r matches Err(m) && m@ == missing_location_message(
                    old(self).current_spec().0,
                ),
                Location::NotText => r matches Err(m) && m@ == invalid_location_message(),
                Location::Text(loc) => match redirect_target(old(self).current_spec().0, loc@) {
                    None => r matches Err(m) && m@ == invalid_target_message(loc@),
                    Some(next) => (r matches Ok(WalkStep::Follow) && !final(self).ended_spec()
                        && final(self).current_spec() == next && final(self).hops_spec()
                        == old(self).hops_spec().push((status, old(self).current_spec().0, next.0))),
                },
            },
    {
        self.requests_left = self.requests_left - 1;
        self.final_status = Some(status);
        if !status_is_redirection(status) {
            self.ended = true;
            return Ok(WalkStep::Stop);
        }
        let loc = match location {
            Location::Missing => {
                let mut m = String::new();
                append_chars(
                    &mut m,
                    &['r', 'e', 'd', 'i', 'r', 'e', 'c', 't', ' ', 'r', 'e', 's', 'p', 'o', 'n', 's', 'e', ' '],
                );
                append_chars(&mut m, &['f', 'r', 'o', 'm', ' ']);
                append_str(&mut m, self.current.as_str());
                append_chars(&mut m, &[' ', 'm', 'i', 's', 's', 'i', 'n', 'g', ' ', 'L', 'o', 'c', 'a', 't', 'i', 'o', 'n']);
                append_chars(&mut m, &[' ', 'h', 'e', 'a', 'd', 'e', 'r']);
                assert(m@ =~= missing_location_message(self.current.parts().0));
                return Err(m);
            },
            Location::NotText => {
                let mut m = String::new();
                append_chars(&mut m, &['i', 'n', 'v', 'a', 'l', 'i', 'd', ' ', 'r', 'e', 'd', 'i', 'r', 'e', 'c', 't', ' ']);
                append_chars(&mut m, &['L', 'o', 'c', 'a', 't', 'i', 'o', 'n', ' ', 'h', 'e', 'a', 'd', 'e', 'r']);
                assert(m@ =~= invalid_location_message());
                return Err(m);
            },
            Location::Text(loc) => loc,
        };
        let next = match joined(&self.current, loc.as_str()) {
            Ok(u) => u,
            Err(_) => match parse_url(loc.as_str()) {
                Ok(u) => u,
                Err(_) => {
                    let mut m = String::new();
                    append_chars(&mut m, &['i', 'n', 'v', 'a', 'l', 'i', 'd', ' ', 'r', 'e', 'd', 'i', 'r', 'e', 'c', 't', ' ']);
                    append_chars(&mut m, &['t', 'a', 'r', 'g', 'e', 't', ' ', '`']);
                    append_str(&mut m, loc.as_str());
                    append_chars(&mut m, &['`']);
                    assert(m@ =~= invalid_target_message(loc@));
                    return Err(m);
                },
            },
        };
        let from = string_of(chars_of(self.current.as_str()).as_slice());
        let to = string_of(chars_of(next.as_str()).as_slice());
        let ghost before = self.hops@;
        self.hops.push(RedirectHop { status, from, to });
        assert(self.hops@.map_values(|h: RedirectHop| hop_view(h)) =~= before.map_values(
            |h: RedirectHop| hop_view(h),
        ).push((status, old(self).current.parts().0, next.parts().0)));
        self.current = next;
        Ok(WalkStep::Follow)
    }

    /// The probe result: the hops, where the chain ended and on which
    /// status, and whether the hop limit cut it short.
    pub fn finish(self, elapsed_ms: u64) -> (p: RedirectProbe)
        ensures
            p.hops@.map_values(|h: RedirectHop| hop_view(h)) == self.hops_spec(),
            p.final_url@ == self.current_spec().0,
            p.final_status == self.final_status_spec(),
            p.truncated == !self.ended_spec(),
            p.elapsed_ms == elapsed_ms,
    {
        let final_url = string_of(chars_of(self.current.as_str()).as_slice());
        RedirectProbe {
            hops: self.hops,
            final_url,
            final_status: self.final_status,
            truncated: !self.ended,
            elapsed_ms,
        }
    }
}

/// Whether a metadata request answered with this status is retried as a
/// one-byte `GET`: servers that refuse `HEAD` answer 405 or 403.
pub fn needs_get_fallback(status: u16) -> (b: bool)
    ensures
        b == (status == 405 || status == 403),
{
    status == 405 || status == 403
}

} // verus!
