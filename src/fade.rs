//! The fade engine: time-interpolated brightness levels.
//!
//! Times are monotonic milliseconds; levels are as in `level`.
use vstd::prelude::*;
use crate::level::{lerp, lerp_spec};

verus! {

/// One animation from `start` to `target`, begun at `start_at` and lasting
/// `duration` milliseconds.
#[derive(Debug, Clone, Copy, PartialEq, Eq, Structural)]
pub struct Fade {
    pub start: u64,
    pub target: u64,
    pub start_at: u64,
    pub duration: u64,
}

impl Fade {
    /// Milliseconds since the fade began; `0` before it began.
    pub open spec fn elapsed(self, now: u64) -> int {
        if now >= self.start_at {
            now - self.start_at
        } else {
            0
        }
    }

    /// The level at `now`: linear from `start` to `target`, and `target` from
    /// the end of the fade on (at once when the duration is `0`).
    pub open spec fn level_at(self, now: u64) -> int {
        lerp_spec(self.start as int, self.target as int, self.elapsed(now), self.duration as int)
    }

    /// Whether the fade has run its whole duration at `now`.
    pub open spec fn finished(self, now: u64) -> bool {
        self.elapsed(now) >= self.duration
    }

    /// The level of the fade at `now`.
    pub fn value_at(&self, now: u64) -> (r: u64)
        ensures
            r == self.level_at(now),
    {
        let elapsed = now.saturating_sub(self.start_at);
        lerp(self.start, self.target, elapsed, self.duration)
    }

    /// Whether the fade is over at `now`.
    pub fn done(&self, now: u64) -> (r: bool)
        ensures
            r == self.finished(now),
    {
        now.saturating_sub(self.start_at) >= self.duration
    }
}

/// A fade evaluated at its start gives its start level, at its end its
/// target level, and in between moves monotonically from the one to the
/// other.
pub proof fn lemma_fade_endpoints_and_monotonic(f: Fade, t1: u64, t2: u64)
    requires
        f.duration > 0,
        f.start_at as int + f.duration as int <= u64::MAX,
        f.start_at <= t1 <= t2,
    ensures
        f.level_at(f.start_at) == f.start,
        f.level_at((f.start_at + f.duration) as u64) == f.target,
        f.target >= f.start ==> f.start <= f.level_at(t1) <= f.level_at(t2) <= f.target,
        f.target < f.start ==> f.start >= f.level_at(t1) >= f.level_at(t2) >= f.target,
{
    assert((f.target - f.start) * 0 / (f.duration as int) == 0);
    assert((f.start - f.target) * 0 / (f.duration as int) == 0);
    crate::level::lemma_lerp_monotonic(
        f.start as int,
        f.target as int,
        f.elapsed(t1),
        f.elapsed(t2),
        f.duration as int,
    );
}

} // verus!
