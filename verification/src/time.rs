//! Instants and spans of time as plain numbers, with the whole-day and
//! whole-second counts the report shows.

use vstd::prelude::*;

verus! {

/// A UTC instant: seconds since the Unix epoch and nanoseconds past them.
#[derive(Clone, Copy)]
pub struct Timestamp {
    pub secs: i64,
    pub nanos: u32,
}

/// A signed span of time in nanoseconds.
#[derive(Clone, Copy)]
pub struct Span {
    pub nanos: i128,
}

/// Nanoseconds from `earlier` to `later` (negative when `later` is before).
pub open spec fn nanos_between(later: Timestamp, earlier: Timestamp) -> int {
    (later.secs - earlier.secs) * 1_000_000_000 + (later.nanos - earlier.nanos)
}

/// Integer division rounding toward zero.
pub open spec fn div_trunc(x: int, d: int) -> int {
    if x >= 0 {
        x / d
    } else {
        -((-x) / d)
    }
}

/// Whole seconds of a span, rounded toward zero.
pub open spec fn whole_seconds(nanos: int) -> int {
    div_trunc(nanos, 1_000_000_000)
}

/// Whole days of a span, rounded toward zero.
pub open spec fn whole_days(nanos: int) -> int {
    div_trunc(whole_seconds(nanos), 86_400)
}

/// The span from `earlier` to `later`.
pub fn since(later: Timestamp, earlier: Timestamp) -> (d: Span)
    ensures
        d.nanos == nanos_between(later, earlier),
        d.nanos > i128::MIN,
{
    let s: i128 = (later.secs as i128) - (earlier.secs as i128);
    let n: i128 = (later.nanos as i128) - (earlier.nanos as i128);
    assert(-0x1_0000_0000_0000_0000 * 1_000_000_000 <= s * 1_000_000_000 <= 0x1_0000_0000_0000_0000 * 1_000_000_000)
        by (nonlinear_arith)
        requires
            -0x1_0000_0000_0000_0000 <= s <= 0x1_0000_0000_0000_0000,
    {
    }
    Span { nanos: s * 1_000_000_000 + n }
}

fn trunc_div(x: i128, d: i128) -> (q: i128)
    requires
        d > 0,
        x > i128::MIN,
    ensures
        q == div_trunc(x as int, d as int),
{
    if x >= 0 {
        x / d
    } else {
        let p: i128 = -x;
        -(p / d)
    }
}

impl Span {
    /// Whole seconds, rounded toward zero.
    pub fn num_seconds(&self) -> (s: i128)
        requires
            self.nanos > i128::MIN,
        ensures
            s == whole_seconds(self.nanos as int),
    {
        trunc_div(self.nanos, 1_000_000_000)
    }

    /// Whole days, rounded toward zero.
    pub fn num_days(&self) -> (d: i128)
        requires
            self.nanos > i128::MIN,
        ensures
            d == whole_days(self.nanos as int),
    {
        let s = self.num_seconds();
        trunc_div(s, 86_400)
    }
}

/// Whole days from `now` until `t` (negative once `t` has passed).
pub fn days_until(t: Timestamp, now: Timestamp) -> (d: i128)
    ensures
        d == whole_days(nanos_between(t, now)),
{
    let span = since(t, now);
    span.num_days()
}

} // verus!
