//! Animation timeline: chainable, time-budgeted animation steps.
//!
//! Each step is constrained to a time budget. The renderer samples the
//! animation at whatever time corresponds to the wall clock, skipping frames
//! as needed to stay on schedule. Open-ended steps (such as "spin until the
//! lookup completes") loop until a [`Signal`] fires, then the timeline
//! advances.
//!
//! Durations are counted in nanoseconds. The timeline here holds the plan
//! and makes the decisions of the render loop: when a step is over, how long
//! the unfold may take, how long to sleep before the next frame. The loop
//! that draws and sleeps belongs to the caller.

use std::sync::atomic::{AtomicBool, Ordering};
use std::sync::Arc;
use vstd::prelude::*;

verus! {

/// Nanoseconds in one millisecond.
pub const NANOS_PER_MILLI: u128 = 1_000_000;

/// Minimum time between frame renders (about 60 frames a second).
pub const MIN_FRAME_INTERVAL_NANOS: u128 = 16_000_000;

/// One full spin rotation, unless a step asks for another speed.
pub const DEFAULT_CYCLE_NANOS: u128 = 1_400_000_000;

/// Time budget of an unfold whose step is not timed.
pub const UNFOLD_FALLBACK_NANOS: u128 = 1_500_000_000;

/// A signal that can be fired from another thread to advance the timeline.
/// Clones share one flag.
#[derive(Clone)]
pub struct Signal {
    fired: Arc<AtomicBool>,
}

impl Signal {
    /// A signal that has not fired. The flag is an atomic shared with the
    /// clones' threads, and its value is not modelled, so nothing is stated
    /// of it here.
    pub fn new() -> (s: Self) {
        Signal { fired: Arc::new(AtomicBool::new(false)) }
    }

    /// Fires the signal, causing any step waiting on it to complete.
    pub fn fire(&self) {
        self.fired.store(true, Ordering::Release);
    }

    /// Whether the signal has been fired, by this handle or a clone.
    /// The flag is shared with other threads, so nothing is promised of a
    /// single reading.
    pub fn is_fired(&self) -> (b: bool) {
        self.fired.load(Ordering::Acquire)
    }
}

/// When a step ends.
pub enum StepEnd {
    /// After a fixed duration.
    Timed(u128),
    /// When a signal fires, or after `max` if one is given.
    Signal { signal: Signal, max: Option<u128> },
}

impl StepEnd {
    /// Whether a step is over after `elapsed`, given whether its signal
    /// has fired.
    pub open spec fn done_spec(&self, elapsed: u128, fired: bool) -> bool {
        match self {
            StepEnd::Timed(d) => elapsed >= *d,
            StepEnd::Signal { max, .. } => fired || (max matches Some(m) && elapsed >= *m),
        }
    }

    /// Whether a step is over after `elapsed`, given one reading of its
    /// signal.
    pub fn is_done_given(&self, elapsed: u128, fired: bool) -> (b: bool)
        ensures
            b == self.done_spec(elapsed, fired),
    {
        match self {
            StepEnd::Timed(d) => elapsed >= *d,
            StepEnd::Signal { max, .. } => {
                if fired {
                    return true;
                }
                match max {
                    Some(m) => elapsed >= *m,
                    None => false,
                }
            },
        }
    }

    /// Whether a step is over after `elapsed`, reading its signal now.
    pub fn is_done(&self, elapsed: u128) -> (b: bool)
        ensures
            exists|fired: bool| b == self.done_spec(elapsed, fired),
            self matches StepEnd::Timed(d) ==> b == (elapsed >= *d),
    {
        let fired = match self {
            StepEnd::Timed(_) => false,
            StepEnd::Signal { signal, .. } => signal.is_fired(),
        };
        self.is_done_given(elapsed, fired)
    }
}

/// What a step renders.
pub enum StepKind {
    /// Y-axis spin, one full rotation per `cycle`, looping.
    Spin { cycle: u128 },
    /// The static front-face logo.
    Hold,
    /// The unfold into the separator bar, over the step's time budget.
    Unfold,
}

/// One step: what it renders and when it ends.
pub struct StepDef {
    pub kind: StepKind,
    pub end: StepEnd,
}

impl StepDef {
    /// The time the unfold is spread over: the step's duration when it is
    /// timed, a fixed fallback otherwise.
    pub fn budget_nanos(&self) -> (n: u128)
        ensures
            n == match self.end {
                StepEnd::Timed(d) => d,
                _ => UNFOLD_FALLBACK_NANOS,
            },
    {
        match &self.end {
            StepEnd::Timed(d) => *d,
            _ => UNFOLD_FALLBACK_NANOS,
        }
    }
}

/// A chainable, time-budgeted animation timeline.
pub struct Timeline {
    steps: Vec<StepDef>,
    rows: usize,
}

impl View for Timeline {
    type V = Seq<StepDef>;

    /// The steps, in the order they run.
    closed spec fn view(&self) -> Seq<StepDef> {
        self.steps@
    }
}

impl Timeline {
    /// The vertical height reserved for the animation.
    pub closed spec fn rows_spec(&self) -> usize {
        self.rows
    }

    /// A timeline with no steps; `rows` is the vertical height reserved.
    pub fn new(rows: usize) -> (t: Self)
        ensures
            t@ == Seq::<StepDef>::empty(),
            t.rows_spec() == rows,
    {
        Timeline { steps: Vec::new(), rows }
    }

    /// Appends a step.
    fn push_step(self, kind: StepKind, end: StepEnd) -> (t: Self)
        ensures
            t@ == self@.push(StepDef { kind, end }),
            t.rows_spec() == self.rows_spec(),
    {
        let mut t = self;
        t.steps.push(StepDef { kind, end });
        t
    }

    /// Spins for a fixed duration at the default speed.
    pub fn spin(self, duration: u128) -> (t: Self)
        ensures
            t@ == self@.push(
                StepDef {
                    kind: StepKind::Spin { cycle: DEFAULT_CYCLE_NANOS },
                    end: StepEnd::Timed(duration),
                },
            ),
            t.rows_spec() == self.rows_spec(),
    {
        self.push_step(StepKind::Spin { cycle: DEFAULT_CYCLE_NANOS }, StepEnd::Timed(duration))
    }

    /// Spins for a fixed duration, one rotation per `cycle`.
    pub fn spin_with_cycle(self, duration: u128, cycle: u128) -> (t: Self)
        ensures
            t@ == self@.push(
                StepDef { kind: StepKind::Spin { cycle }, end: StepEnd::Timed(duration) },
            ),
            t.rows_spec() == self.rows_spec(),
    {
        self.push_step(StepKind::Spin { cycle }, StepEnd::Timed(duration))
    }

    /// Spins until a signal fires, however long that takes.
    pub fn spin_until(self, signal: Signal) -> (t: Self)
        ensures
            t@ == self@.push(
                StepDef {
                    kind: StepKind::Spin { cycle: DEFAULT_CYCLE_NANOS },
                    end: StepEnd::Signal { signal, max: None },
                },
            ),
            t.rows_spec() == self.rows_spec(),
    {
        self.push_step(
            StepKind::Spin { cycle: DEFAULT_CYCLE_NANOS },
            StepEnd::Signal { signal, max: None },
        )
    }

    /// Spins until a signal fires, for at most `max`.
    pub fn spin_until_or(self, signal: Signal, max: u128) -> (t: Self)
        ensures
            t@ == self@.push(
                StepDef {
                    kind: StepKind::Spin { cycle: DEFAULT_CYCLE_NANOS },
                    end: StepEnd::Signal { signal, max: Some(max) },
                },
            ),
            t.rows_spec() == self.rows_spec(),
    {
        self.push_step(
            StepKind::Spin { cycle: DEFAULT_CYCLE_NANOS },
            StepEnd::Signal { signal, max: Some(max) },
        )
    }

    /// Holds the static front-face logo for a duration.
    pub fn hold(self, duration: u128) -> (t: Self)
        ensures
            t@ == self@.push(StepDef { kind: StepKind::Hold, end: StepEnd::Timed(duration) }),
            t.rows_spec() == self.rows_spec(),
    {
        self.push_step(StepKind::Hold, StepEnd::Timed(duration))
    }

    /// Unfolds the diamond into the separator bar within a time budget.
    pub fn unfold(self, duration: u128) -> (t: Self)
        ensures
            t@ == self@.push(StepDef { kind: StepKind::Unfold, end: StepEnd::Timed(duration) }),
            t.rows_spec() == self.rows_spec(),
    {
        self.push_step(StepKind::Unfold, StepEnd::Timed(duration))
    }

    /// The steps, in the order they run.
    pub fn steps(&self) -> (s: &[StepDef])
        ensures
            s@ == self@,
    {
        self.steps.as_slice()
    }

    /// The vertical height reserved for the animation.
    pub fn rows(&self) -> (r: usize)
        ensures
            r == self.rows_spec(),
    {
        self.rows
    }
}

/// The end of the frame slot after `elapsed`: the next multiple of the
/// frame interval, kept to 64 bits of nanoseconds.
pub open spec fn next_frame_at(elapsed: u128) -> int {
    ((elapsed / MIN_FRAME_INTERVAL_NANOS + 1) * MIN_FRAME_INTERVAL_NANOS) as int % 0x1_0000_0000_0000_0000
}

/// How long to sleep after `elapsed` so the next frame starts on a frame
/// boundary: the time left to the next multiple of the frame interval,
/// or nothing when that boundary has passed.
pub fn frame_sleep_nanos(elapsed: u128) -> (n: u128)
    requires
        elapsed + MIN_FRAME_INTERVAL_NANOS <= u128::MAX,
    ensures
        n == if next_frame_at(elapsed) > elapsed {
            next_frame_at(elapsed) - elapsed
        } else {
            0
        },
{
    let interval = MIN_FRAME_INTERVAL_NANOS;
    assert((elapsed / interval + 1) * interval <= elapsed + interval) by (nonlinear_arith)
        requires
            interval > 0,
    {
    }
    let next_ns: u128 = (elapsed / interval + 1) * interval;
    let next: u128 = next_ns as u64 as u128;
    assert(next_ns as u64 as u128 == next_ns % 0x1_0000_0000_0000_0000) by (bit_vector);
    if next > elapsed {
        next - elapsed
    } else {
        0
    }
}

} // verus!
