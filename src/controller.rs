//! The dim/restore state machine and the wake scheduler.
//!
//! The driver of the event loop asks the controller how long it may sleep,
//! reports each wake (input activity, or a timeout), and writes the raw
//! brightness that each frame yields.
use vstd::prelude::*;
use crate::backlight::{normalized_spec, raw_spec, Backlight};
use crate::fader::{resting, Fader};

verus! {

/// While a fade is in flight the loop wakes at least this often, in
/// milliseconds (about sixty steps a second).
pub const ANIMATION_TICK_MS: u64 = 16;

/// While dimmed and at rest the loop has nothing to wait for but input; it
/// still wakes after this many milliseconds.
pub const DIMMED_WAKE_MS: u64 = 60_000;

/// The longest timeout a readiness wait takes, in milliseconds.
pub const MAX_TIMEOUT_MS: u16 = 0xffff;

/// The state of the daemon between wakes. Times are monotonic milliseconds.
#[derive(Debug, Clone, Copy, PartialEq, Eq, Structural)]
pub struct Controller {
    pub fader: Fader,
    pub backlight: Backlight,
    /// The raw brightness found at start, restored when nothing was saved.
    pub initial_raw: u32,
    /// How long input must be absent before the keyboard dims.
    pub idle_ms: u64,
    pub last_activity: u64,
    pub is_dimmed: bool,
    /// The raw brightness captured when the keyboard dimmed.
    pub saved_raw: Option<u32>,
}

/// A timeout of `ms` milliseconds limited to what a readiness wait takes:
/// none for `ms <= 0`, at most `MAX_TIMEOUT_MS`.
pub open spec fn timeout_spec(ms: int) -> int {
    if ms <= 0 {
        0
    } else if ms > MAX_TIMEOUT_MS {
        MAX_TIMEOUT_MS as int
    } else {
        ms
    }
}

/// The readiness-wait timeout for `ms` milliseconds (see `timeout_spec`).
pub fn ms_to_timeout(ms: i64) -> (r: u16)
    ensures
        r == timeout_spec(ms as int),
{
    if ms <= 0 {
        return 0;
    }
    if ms > MAX_TIMEOUT_MS as i64 {
        MAX_TIMEOUT_MS
    } else {
        ms as u16
    }
}

pub open spec fn saturated(x: int) -> int {
    if x > u64::MAX {
        u64::MAX as int
    } else {
        x
    }
}

impl Controller {
    /// The fader is well formed, and a saved brightness exists exactly while
    /// the keyboard is dimmed.
    pub open spec fn wf(self) -> bool {
        &&& self.fader.wf()
        &&& self.saved_raw.is_some() == self.is_dimmed
    }

    /// When the keyboard dims if no input comes.
    pub open spec fn idle_deadline(self) -> int {
        saturated(self.last_activity + self.idle_ms)
    }

    /// When the loop must wake next: at the idle deadline, or sooner while a
    /// fade is in flight; while dimmed and at rest, after the long wait.
    pub open spec fn wake_at(self, now: u64) -> int {
        if self.fader.fade.is_some() {
            let tick = saturated(now + ANIMATION_TICK_MS);
            if tick < self.idle_deadline() {
                tick
            } else {
                self.idle_deadline()
            }
        } else if self.is_dimmed {
            saturated(now + DIMMED_WAKE_MS)
        } else {
            self.idle_deadline()
        }
    }

    /// Whether a timeout at `now` dims the keyboard.
    pub open spec fn dims_at(self, now: u64) -> bool {
        !self.is_dimmed && now >= self.idle_deadline()
    }

    /// The raw brightness to restore after dimming.
    pub open spec fn restore_raw(self) -> u32 {
        match self.saved_raw {
            Some(v) => v,
            None => self.initial_raw,
        }
    }

    /// The controller after a wake with no input at `now`, where `read` is
    /// the current raw brightness if it could be read. Past the idle deadline
    /// an active keyboard dims: the brightness is captured unless a capture
    /// already exists (falling back to the initial brightness), and the
    /// fader heads for zero.
    pub open spec fn timed_out(self, now: u64, read: Option<u32>) -> Controller {
        if self.dims_at(now) {
            let saved = match self.saved_raw {
                Some(v) => Some(v),
                None => Some(
                    match read {
                        Some(v) => v,
                        None => self.initial_raw,
                    },
                ),
            };
            Controller {
                fader: self.fader.retargeted(now, 0),
                is_dimmed: true,
                saved_raw: saved,
                ..self
            }
        } else {
            self
        }
    }

    /// The controller after input at `now`: the activity time moves, and a
    /// dimmed keyboard heads back to the saved brightness, which is cleared.
    pub open spec fn active_at(self, now: u64) -> Controller {
        if self.is_dimmed {
            Controller {
                fader: self.fader.retargeted(
                    now,
                    normalized_spec(self.backlight.max_raw, self.restore_raw()) as u64,
                ),
                last_activity: now,
                is_dimmed: false,
                saved_raw: None,
                ..self
            }
        } else {
            Controller { last_activity: now, ..self }
        }
    }

    /// The controller after the frame at `now`: the fader has been queried.
    pub open spec fn framed(self, now: u64) -> Controller {
        Controller { fader: self.fader.advanced(now), ..self }
    }

    /// The raw brightness of the frame at `now`.
    pub open spec fn frame_raw(self, now: u64) -> int {
        raw_spec(self.backlight.max_raw, self.fader.level(now) as u64)
    }

    /// An active controller at `start`, showing `initial_raw`.
    pub fn new(
        backlight: Backlight,
        initial_raw: u32,
        idle_ms: u64,
        fade_in_ms: u64,
        fade_out_ms: u64,
        start: u64,
    ) -> (r: Controller)
        ensures
            r.wf(),
            r.fader == resting(
                normalized_spec(backlight.max_raw, initial_raw) as u64,
                fade_in_ms,
                fade_out_ms,
            ),
            r.backlight == backlight,
            r.initial_raw == initial_raw,
            r.idle_ms == idle_ms,
            r.last_activity == start,
            !r.is_dimmed,
            r.saved_raw is None,
    {
        let level = backlight.to_normalized(initial_raw);
        Controller {
            fader: Fader::new(level, fade_in_ms, fade_out_ms),
            backlight,
            initial_raw,
            idle_ms,
            last_activity: start,
            is_dimmed: false,
            saved_raw: None,
        }
    }

    /// When the loop must wake next (see `wake_at`).
    pub fn next_wake(&self, now: u64) -> (r: u64)
        ensures
            r == self.wake_at(now),
    {
        let idle_deadline = self.last_activity.saturating_add(self.idle_ms);
        if self.fader.is_fading() {
            let tick = now.saturating_add(ANIMATION_TICK_MS);
            if tick < idle_deadline {
                tick
            } else {
                idle_deadline
            }
        } else if self.is_dimmed {
            now.saturating_add(DIMMED_WAKE_MS)
        } else {
            idle_deadline
        }
    }

    /// How long the readiness wait at `now` may block: the time left until
    /// the next wake, limited to what the wait takes.
    pub fn wait_timeout(&self, now: u64) -> (r: u16)
        ensures
            r == timeout_spec(self.wake_at(now) - now),
    {
        let wake = self.next_wake(now);
        if wake <= now {
            return ms_to_timeout(0);
        }
        let left = wake - now;
        if left > 0x7fff_ffff_ffff_ffffu64 {
            ms_to_timeout(0x7fff_ffff_ffff_ffffi64)
        } else {
            ms_to_timeout(left as i64)
        }
    }

    /// Whether a wake with no input at `now` dims the keyboard; the driver
    /// reads the current brightness for `on_timeout` only then.
    pub fn dim_due(&self, now: u64) -> (r: bool)
        ensures
            r == self.dims_at(now),
    {
        !self.is_dimmed && now >= self.last_activity.saturating_add(self.idle_ms)
    }

    /// A wake with no input at `now` (see `timed_out`); `read` is the
    /// current raw brightness, if it could be read. Returns whether the
    /// keyboard dimmed.
    pub fn on_timeout(&mut self, now: u64, read: Option<u32>) -> (r: bool)
        requires
            old(self).wf(),
        ensures
            final(self).wf(),
            *final(self) == old(self).timed_out(now, read),
            r == old(self).dims_at(now),
    {
        if !self.dim_due(now) {
            return false;
        }
        if self.saved_raw.is_none() {
            let captured = match read {
                Some(v) => v,
                None => self.initial_raw,
            };
            self.saved_raw = Some(captured);
        }
        self.fader.set_target(now, 0);
        self.is_dimmed = true;
        true
    }

    /// Input drained at `now` (see `active_at`). Returns whether the
    /// keyboard was dimmed and is now being restored.
    pub fn on_activity(&mut self, now: u64) -> (r: bool)
        requires
            old(self).wf(),
        ensures
            final(self).wf(),
            *final(self) == old(self).active_at(now),
            r == old(self).is_dimmed,
    {
        self.last_activity = now;
        if !self.is_dimmed {
            return false;
        }
        let restore = match self.saved_raw {
            Some(v) => v,
            None => self.initial_raw,
        };
        self.saved_raw = None;
        let level = self.backlight.to_normalized(restore);
        self.fader.set_target(now, level);
        self.is_dimmed = false;
        true
    }

    /// The frame at `now`: queries the fader and returns the raw brightness
    /// to write, or `None` when it equals the last value written.
    pub fn frame(&mut self, now: u64) -> (r: Option<u32>)
        requires
            old(self).wf(),
        ensures
            final(self).wf(),
            *final(self) == old(self).framed(now),
            r == if old(self).backlight.last_raw_written == Some(
                old(self).frame_raw(now) as u32,
            ) {
                None
            } else {
                Some(old(self).frame_raw(now) as u32)
            },
    {
        let v = self.fader.value(now);
        let raw = self.backlight.to_raw(v);
        if self.backlight.needs_write(raw) {
            Some(raw)
        } else {
            None
        }
    }

    /// Records that `raw` was written to the brightness control.
    pub fn record_write(&mut self, raw: u32)
        ensures
            *final(self) == (Controller {
                backlight: Backlight { last_raw_written: Some(raw), ..old(self).backlight },
                ..*old(self)
            }),
    {
        self.backlight.record_write(raw);
    }
}

/// The controller after a run of wakes with no input; each wake is a time
/// and the brightness read then, and is a timeout followed by a frame.
pub open spec fn idle_run(c: Controller, wakes: Seq<(u64, Option<u32>)>) -> Controller
    decreases wakes.len(),
{
    if wakes.len() == 0 {
        c
    } else {
        idle_run(c.timed_out(wakes[0].0, wakes[0].1).framed(wakes[0].0), wakes.skip(1))
    }
}

/// How many wakes of a run with no input dim the keyboard.
pub open spec fn dim_count(c: Controller, wakes: Seq<(u64, Option<u32>)>) -> nat
    decreases wakes.len(),
{
    if wakes.len() == 0 {
        0
    } else {
        (if c.dims_at(wakes[0].0) {
            1nat
        } else {
            0nat
        }) + dim_count(c.timed_out(wakes[0].0, wakes[0].1).framed(wakes[0].0), wakes.skip(1))
    }
}

proof fn lemma_dimmed_run_keeps_capture(c: Controller, wakes: Seq<(u64, Option<u32>)>)
    requires
        c.is_dimmed,
    ensures
        idle_run(c, wakes).is_dimmed,
        idle_run(c, wakes).saved_raw == c.saved_raw,
        idle_run(c, wakes).last_activity == c.last_activity,
        dim_count(c, wakes) == 0,
    decreases wakes.len(),
{
    if wakes.len() > 0 {
        lemma_dimmed_run_keeps_capture(
            c.timed_out(wakes[0].0, wakes[0].1).framed(wakes[0].0),
            wakes.skip(1),
        );
    }
}

/// With no input, wakes past the idle deadline dim an active keyboard
/// exactly once, and the brightness is captured once, at the first of them,
/// however many such wakes follow.
pub proof fn lemma_idle_dims_once(c: Controller, wakes: Seq<(u64, Option<u32>)>)
    requires
        c.wf(),
        !c.is_dimmed,
        wakes.len() >= 1,
        forall|i: int| 0 <= i < wakes.len() ==> #[trigger] wakes[i].0 >= c.idle_deadline(),
    ensures
        idle_run(c, wakes).is_dimmed,
        idle_run(c, wakes).saved_raw == Some(
            match wakes[0].1 {
                Some(v) => v,
                None => c.initial_raw,
            },
        ),
        dim_count(c, wakes) == 1,
{
    let first = c.timed_out(wakes[0].0, wakes[0].1).framed(wakes[0].0);
    assert(c.dims_at(wakes[0].0));
    lemma_dimmed_run_keeps_capture(first, wakes.skip(1));
}

} // verus!
