//! The lifetime clock of a particle and the progress fraction it reports.

use vstd::prelude::*;

verus! {

/// Number of clock ticks in one second.
pub const TICKS_PER_SECOND: u64 = 1_000_000_000;

/// A fraction `num / den`, the interpolation parameter. A clock reports one
/// between zero and one; interpolation also takes one above one.
#[derive(Clone, Copy, Debug, PartialEq, Eq, Structural)]
pub struct Progress {
    pub num: u64,
    pub den: u64,
}

impl Progress {
    /// The fraction has a non-zero denominator and lies in `[0, 1]`.
    pub open spec fn wf(self) -> bool {
        self.den > 0 && self.num <= self.den
    }

    /// `self <= other` as rational numbers.
    pub open spec fn le(self, other: Progress) -> bool {
        self.num * other.den <= other.num * self.den
    }

    /// The fraction `num / den`, or `None` where it lies outside `[0, 1]` or
    /// has a zero denominator.
    pub fn new(num: u64, den: u64) -> (r: Option<Progress>)
        ensures
            r.is_some() <==> (den > 0 && num <= den),
            r.is_some() ==> r.unwrap() == (Progress { num, den }),
    {
        if den > 0 && num <= den {
            Some(Progress { num, den })
        } else {
            None
        }
    }

    /// The fraction zero.
    pub fn zero() -> (r: Progress)
        ensures
            r == (Progress { num: 0, den: 1 }),
    {
        Progress { num: 0, den: 1 }
    }

    /// The fraction one.
    pub fn one() -> (r: Progress)
        ensures
            r == (Progress { num: 1, den: 1 }),
    {
        Progress { num: 1, den: 1 }
    }
}

/// A non-repeating countdown: `elapsed` ticks out of `duration`.
#[derive(Clone, Copy, Debug, PartialEq, Eq, Structural)]
pub struct Clock {
    pub elapsed: u64,
    pub duration: u64,
}

impl Clock {
    /// Elapsed time never exceeds the duration.
    pub open spec fn wf(self) -> bool {
        self.elapsed <= self.duration
    }

    /// The clock after `delta` more ticks: elapsed time grows by `delta` and
    /// stops at the duration.
    pub open spec fn advanced(self, delta: u64) -> Clock {
        Clock {
            elapsed: if self.elapsed + delta >= self.duration {
                self.duration
            } else {
                (self.elapsed + delta) as u64
            },
            duration: self.duration,
        }
    }

    /// Whether the countdown has run out.
    pub open spec fn finished(self) -> bool {
        self.elapsed >= self.duration
    }

    /// Elapsed time over duration, clamped to `[0, 1]`. A clock of zero
    /// duration is always finished and reports one.
    pub open spec fn progress_spec(self) -> Progress {
        if self.duration == 0 {
            Progress { num: 1, den: 1 }
        } else if self.elapsed >= self.duration {
            Progress { num: self.duration, den: self.duration }
        } else {
            Progress { num: self.elapsed, den: self.duration }
        }
    }

    /// A countdown of `duration` ticks with nothing elapsed.
    pub fn new(duration: u64) -> (r: Clock)
        ensures
            r == (Clock { elapsed: 0, duration }),
            r.wf(),
    {
        Clock { elapsed: 0, duration }
    }

    /// A countdown of `duration` ticks that has already run out: the state of
    /// a slot that has not been started yet.
    pub fn expired(duration: u64) -> (r: Clock)
        ensures
            r == (Clock { elapsed: duration, duration }),
            r.wf(),
            r.finished(),
    {
        Clock { elapsed: duration, duration }
    }

    /// Adds `delta` ticks of elapsed time, saturating at the duration.
    pub fn advance(&mut self, delta: u64)
        ensures
            *final(self) == old(self).advanced(delta),
            final(self).wf(),
    {
        let room: u64 = if self.elapsed >= self.duration {
            0
        } else {
            self.duration - self.elapsed
        };
        if delta >= room {
            self.elapsed = self.duration;
        } else {
            self.elapsed = self.elapsed + delta;
        }
    }

    /// True once elapsed time has reached the duration.
    pub fn is_finished(&self) -> (r: bool)
        ensures
            r == self.finished(),
    {
        self.elapsed >= self.duration
    }

    /// The normalized progress of the countdown.
    pub fn progress(&self) -> (r: Progress)
        ensures
            r == self.progress_spec(),
            r.wf(),
    {
        if self.duration == 0 {
            Progress { num: 1, den: 1 }
        } else if self.elapsed >= self.duration {
            Progress { num: self.duration, den: self.duration }
        } else {
            Progress { num: self.elapsed, den: self.duration }
        }
    }

    /// Restarts the countdown at zero elapsed with the given duration.
    pub fn reset(&mut self, duration: u64)
        ensures
            *final(self) == (Clock { elapsed: 0, duration }),
            final(self).wf(),
    {
        self.elapsed = 0;
        self.duration = duration;
    }
}

/// Advancing a clock never leaves elapsed time above the duration, and its
/// progress stays a fraction in `[0, 1]`.
pub proof fn lemma_advance_bounded(c: Clock, delta: u64)
    ensures
        c.advanced(delta).elapsed <= c.advanced(delta).duration,
        c.advanced(delta).duration == c.duration,
        c.advanced(delta).progress_spec().wf(),
        c.progress_spec().wf(),
{
}

/// Progress never decreases when a well-formed clock is advanced.
pub proof fn lemma_advance_monotone(c: Clock, delta: u64)
    requires
        c.wf(),
    ensures
        c.progress_spec().le(c.advanced(delta).progress_spec()),
        c.advanced(delta).elapsed >= c.elapsed,
{
    let p = c.progress_spec();
    let q = c.advanced(delta).progress_spec();
    if c.duration != 0 {
        assert(p.den == q.den);
        assert(p.num <= q.num);
        assert(p.num * q.den <= q.num * p.den) by (nonlinear_arith)
            requires
                p.den == q.den,
                p.num <= q.num,
        ;
    }
}

/// Progress is monotone over two successive advances, and advancing twice is
/// advancing once by the sum where the sum is representable.
pub proof fn lemma_advance_twice(c: Clock, d1: u64, d2: u64)
    requires
        c.wf(),
        d1 + d2 <= u64::MAX,
    ensures
        c.advanced(d1).advanced(d2) == c.advanced((d1 + d2) as u64),
        c.progress_spec().le(c.advanced(d1).advanced(d2).progress_spec()),
{
    lemma_advance_monotone(c, (d1 + d2) as u64);
}

/// Advancing a well-formed clock by zero ticks changes nothing.
pub proof fn lemma_advance_zero(c: Clock)
    requires
        c.wf(),
    ensures
        c.advanced(0) == c,
{
}

} // verus!
