//! The brightness range of a keyboard backlight, and conversions between its
//! raw values and normalized levels.
use vstd::prelude::*;
use crate::control::{control_value, parse_control};
use crate::level::{clamp_spec, FULL};

verus! {

/// Why the brightness control could not be used.
#[derive(Debug, Clone, Copy, PartialEq, Eq, Structural)]
pub enum BacklightError {
    /// No keyboard backlight control exists.
    NotFound,
    /// A control file does not hold a non-negative integer.
    InvalidData,
}

/// A keyboard backlight: its maximum raw intensity, and the last raw value
/// this process wrote (used only to skip redundant writes).
#[derive(Debug, Clone, Copy, PartialEq, Eq, Structural)]
pub struct Backlight {
    pub max_raw: u32,
    pub last_raw_written: Option<u32>,
}

/// The level of a raw value: `raw / max` rounded to the nearest level, half
/// up, limited to full; `0` when the maximum is `0`.
pub open spec fn normalized_spec(max: u32, raw: u32) -> int {
    if max == 0 {
        0
    } else {
        clamp_spec((2 * raw * FULL + max) / (2 * max as int))
    }
}

/// The raw value of a level: the level, limited to full, times `max`,
/// rounded to the nearest integer, half up.
pub open spec fn raw_spec(max: u32, v: u64) -> int {
    (2 * clamp_spec(v as int) * max + FULL) / (2 * FULL as int)
}

/// `x / d == q` when `x` lies in `[d * q, d * q + d)`.
proof fn lemma_quotient(x: int, d: int, q: int)
    requires
        d > 0,
        d * q <= x < d * q + d,
    ensures
        x / d == q,
{
    vstd::arithmetic::div_mod::lemma_fundamental_div_mod(x, d);
    vstd::arithmetic::div_mod::lemma_mod_bound(x, d);
    let r = x / d;
    assert(r == q) by (nonlinear_arith)
        requires
            x == d * r + x % d,
            0 <= x % d < d,
            d * q <= x < d * q + d,
            d > 0,
    ;
}

/// A raw value never exceeds the maximum it was computed for.
pub proof fn lemma_raw_in_range(max: u32, v: u64)
    ensures
        0 <= raw_spec(max, v) <= max,
{
    let c = clamp_spec(v as int);
    let x = 2 * c * max + FULL;
    let d = 2 * FULL as int;
    vstd::arithmetic::div_mod::lemma_fundamental_div_mod(x, d);
    vstd::arithmetic::div_mod::lemma_mod_bound(x, d);
    let q = x / d;
    assert(0 <= q <= max) by (nonlinear_arith)
        requires
            x == d * q + x % d,
            0 <= x % d < d,
            0 <= c <= FULL,
            x == 2 * c * max + FULL,
            d == 2 * FULL,
            max >= 0,
    ;
}

/// Converting a raw value to a level and back gives the same raw value: the
/// raw encoding is stable under a round trip.
pub proof fn lemma_raw_round_trip(max: u32, v: u64)
    ensures
        raw_spec(max, normalized_spec(max, raw_spec(max, v) as u32) as u64) == raw_spec(max, v),
{
    lemma_raw_in_range(max, v);
    let r = raw_spec(max, v);
    if max == 0 {
        assert(normalized_spec(max, r as u32) == 0);
        assert(raw_spec(max, 0) == 0);
    } else {
        let m = max as int;
        let s = FULL as int;
        let x = 2 * r * s + m;
        vstd::arithmetic::div_mod::lemma_fundamental_div_mod(x, 2 * m);
        vstd::arithmetic::div_mod::lemma_mod_bound(x, 2 * m);
        let n = x / (2 * m);
        assert(2 * m * n == (2 * m) * n) by (nonlinear_arith);
        assert(2 * m * n <= 2 * r * s + m && 2 * r * s - m < 2 * m * n);
        assert(r * s <= m * s) by (nonlinear_arith)
            requires
                0 <= r <= m,
                s > 0,
        ;
        assert(n <= s) by (nonlinear_arith)
            requires
                2 * m * n <= 2 * r * s + m,
                r * s <= m * s,
                m > 0,
        ;
        assert(normalized_spec(max, r as u32) == n);
        assert(2 * s * r <= 2 * n * m + s < 2 * s * r + 2 * s) by (nonlinear_arith)
            requires
                2 * m * n <= 2 * r * s + m,
                2 * r * s - m < 2 * m * n,
                m < s,
        ;
        lemma_quotient(2 * n * m + s, 2 * s, r);
    }
}

impl Backlight {
    /// A backlight whose maximum raw intensity is held by `max_text`, the
    /// text of its maximum control file.
    pub fn open(max_text: &[u8]) -> (r: Result<Backlight, BacklightError>)
        ensures
            match control_value(max_text@) {
                Some(m) => r == Ok::<Backlight, BacklightError>(
                    Backlight { max_raw: m, last_raw_written: None },
                ),
                None => r == Err::<Backlight, BacklightError>(BacklightError::InvalidData),
            },
    {
        match parse_control(max_text) {
            Some(m) => Ok(Backlight { max_raw: m, last_raw_written: None }),
            None => Err(BacklightError::InvalidData),
        }
    }

    /// The current raw intensity held by `text`, the text of the brightness
    /// control file.
    pub fn read_raw(&self, text: &[u8]) -> (r: Result<u32, BacklightError>)
        ensures
            match control_value(text@) {
                Some(v) => r == Ok::<u32, BacklightError>(v),
                None => r == Err::<u32, BacklightError>(BacklightError::InvalidData),
            },
    {
        match parse_control(text) {
            Some(v) => Ok(v),
            None => Err(BacklightError::InvalidData),
        }
    }

    /// Whether writing `raw` would change what this process last wrote.
    pub fn needs_write(&self, raw: u32) -> (r: bool)
        ensures
            r == (self.last_raw_written != Some(raw)),
    {
        match self.last_raw_written {
            Some(w) => w != raw,
            None => true,
        }
    }

    /// Records that `raw` was written successfully.
    pub fn record_write(&mut self, raw: u32)
        ensures
            *final(self) == (Backlight { last_raw_written: Some(raw), ..*old(self) }),
    {
        self.last_raw_written = Some(raw);
    }

    /// The normalized level of a raw value.
    pub fn to_normalized(&self, raw: u32) -> (r: u64)
        ensures
            r == normalized_spec(self.max_raw, raw),
            r <= FULL,
    {
        if self.max_raw == 0 {
            return 0;
        }
        proof {
            assert(2 * (raw as int) * (FULL as int) <= 2 * 0xffff_ffff * FULL) by (nonlinear_arith)
                requires
                    raw <= 0xffff_ffff,
            ;
        }
        let q = (2 * (raw as u128) * (FULL as u128) + self.max_raw as u128) / (2 * (self.max_raw as u128));
        if q > FULL as u128 {
            FULL
        } else {
            q as u64
        }
    }

    /// The raw value of a normalized level.
    pub fn to_raw(&self, v: u64) -> (r: u32)
        ensures
            r == raw_spec(self.max_raw, v),
            r <= self.max_raw,
    {
        proof {
            lemma_raw_in_range(self.max_raw, v);
        }
        let c = crate::level::clamp01(v);
        proof {
            assert(2 * (c as int) * (self.max_raw as int) <= 2 * FULL * 0xffff_ffff) by (nonlinear_arith)
                requires
                    c <= FULL,
                    self.max_raw <= 0xffff_ffff,
            ;
        }
        let q = (2 * (c as u128) * (self.max_raw as u128) + FULL as u128) / (2 * (FULL as u128));
        q as u32
    }
}

} // verus!
