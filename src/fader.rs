//! The fader: the current brightness level and the fade, if any, that is
//! moving it.
use vstd::prelude::*;
use crate::fade::Fade;
use crate::level::{clamp01, clamp_spec, distance, FULL, SNAP_EPSILON};

verus! {

/// The current level, the fade in flight (`None` at rest), and the durations
/// used for brightening (`fade_in`) and dimming (`fade_out`), in milliseconds.
#[derive(Debug, Clone, Copy, PartialEq, Eq, Structural)]
pub struct Fader {
    pub current: u64,
    pub fade: Option<Fade>,
    pub fade_in: u64,
    pub fade_out: u64,
}

/// A configured duration, with `0` raised to one millisecond.
pub open spec fn at_least_one(ms: u64) -> u64 {
    if ms == 0 {
        1
    } else {
        ms
    }
}

/// A fader at rest at `current` (limited to full), with the durations raised
/// to at least one millisecond.
pub open spec fn resting(current: u64, fade_in: u64, fade_out: u64) -> Fader {
    Fader {
        current: clamp_spec(current as int) as u64,
        fade: None,
        fade_in: at_least_one(fade_in),
        fade_out: at_least_one(fade_out),
    }
}

impl Fader {
    /// Levels lie in `0..=FULL` and every duration is at least a millisecond.
    pub open spec fn wf(self) -> bool {
        &&& self.current <= FULL
        &&& self.fade_in >= 1
        &&& self.fade_out >= 1
        &&& match self.fade {
            Some(f) => f.start <= FULL && f.target <= FULL && f.duration >= 1,
            None => true,
        }
    }

    /// The level at `now`.
    pub open spec fn level(self, now: u64) -> int {
        match self.fade {
            Some(f) => f.level_at(now),
            None => self.current as int,
        }
    }

    /// The fader once queried at `now`: `current` holds the level at `now`,
    /// and a fade that has run its course is over.
    pub open spec fn advanced(self, now: u64) -> Fader {
        match self.fade {
            Some(f) => if f.finished(now) {
                Fader { current: f.target, fade: None, ..self }
            } else {
                Fader { current: f.level_at(now) as u64, ..self }
            },
            None => self,
        }
    }

    /// The fader once retargeted to `t` at `now`: from the level at `now`, a
    /// negligible change snaps at once; any other starts a fade, lasting
    /// `fade_in` when it brightens and `fade_out` when it dims.
    pub open spec fn retargeted(self, now: u64, t: u64) -> Fader {
        let a = self.advanced(now);
        let t = clamp_spec(t as int) as u64;
        if distance(t as int, a.current as int) < SNAP_EPSILON {
            Fader { current: t, fade: None, ..a }
        } else {
            Fader {
                fade: Some(
                    Fade {
                        start: a.current,
                        target: t,
                        start_at: now,
                        duration: if t > a.current {
                            a.fade_in
                        } else {
                            a.fade_out
                        },
                    },
                ),
                ..a
            }
        }
    }

    /// A fader at rest at `current` (limited to full), with the given
    /// durations raised to at least one millisecond.
    pub fn new(current: u64, fade_in: u64, fade_out: u64) -> (r: Fader)
        ensures
            r.wf(),
            r == resting(current, fade_in, fade_out),
    {
        Fader {
            current: clamp01(current),
            fade: None,
            fade_in: if fade_in == 0 { 1 } else { fade_in },
            fade_out: if fade_out == 0 { 1 } else { fade_out },
        }
    }

    /// The level at `now`; refreshes `current` and ends a finished fade.
    pub fn value(&mut self, now: u64) -> (r: u64)
        requires
            old(self).wf(),
        ensures
            final(self).wf(),
            *final(self) == old(self).advanced(now),
            r == old(self).level(now),
            r == final(self).current,
    {
        if let Some(f) = self.fade {
            proof {
                crate::level::lemma_lerp_monotonic(
                    f.start as int,
                    f.target as int,
                    f.elapsed(now),
                    f.elapsed(now),
                    f.duration as int,
                );
            }
            let v = f.value_at(now);
            self.current = v;
            if f.done(now) {
                self.current = f.target;
                self.fade = None;
            }
        }
        self.current
    }

    /// Moves towards `t` from the level at `now` (see `retargeted`).
    pub fn set_target(&mut self, now: u64, t: u64)
        requires
            old(self).wf(),
        ensures
            final(self).wf(),
            *final(self) == old(self).retargeted(now, t),
    {
        let t = clamp01(t);
        let cur = self.value(now);
        let diff = if t >= cur { t - cur } else { cur - t };
        if diff < SNAP_EPSILON {
            self.current = t;
            self.fade = None;
            return;
        }
        let dur = if t > cur { self.fade_in } else { self.fade_out };
        self.fade = Some(Fade { start: cur, target: t, start_at: now, duration: dur });
    }

    /// Whether a fade is in flight.
    pub fn is_fading(&self) -> (r: bool)
        ensures
            r == self.fade.is_some(),
    {
        self.fade.is_some()
    }
}

/// Retargeting twice, the second time to a level within the snap distance of
/// the level reached, leaves no fade in flight and the fader at that target.
pub proof fn lemma_negligible_retarget_snaps(fd: Fader, now1: u64, t1: u64, now2: u64, t2: u64)
    requires
        fd.wf(),
        distance(
            clamp_spec(t2 as int),
            fd.retargeted(now1, t1).advanced(now2).current as int,
        ) < SNAP_EPSILON,
    ensures
        fd.retargeted(now1, t1).retargeted(now2, t2).fade is None,
        fd.retargeted(now1, t1).retargeted(now2, t2).current == clamp_spec(t2 as int),
{
}

} // verus!
