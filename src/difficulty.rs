//! Rescaling of approach rate and overall difficulty for a new playback rate.
//!
//! Ratings and rates are in hundredths. The constants are those of the game's
//! hit-window model: an approach rate of 5 shows an object 1200 ms before its
//! hit, 0 shows it 1800 ms before, and 10 shows it 450 ms before.
use vstd::prelude::*;
use crate::numeric::{round_div, clamp, rounded_div, clamp_i128};

verus! {

/// The game mode a beatmap is played in.
#[derive(Clone, Copy, Debug, PartialEq, Eq, Structural)]
pub enum Mode {
    Osu,
    Taiko,
    Catch,
    Mania,
}

/// Largest rating, 10.00 in hundredths.
pub const MAX_RATING: u32 = 1000;

/// A rating on the game's 0 to 10 scale, in hundredths.
pub open spec fn valid_rating(x: u32) -> bool {
    x <= MAX_RATING
}

/// How long, in tenths of a millisecond, an object is shown before its hit
/// at approach rate `ar` (in hundredths): `1200 + 600 * (5 - ar) / 5` ms up to
/// 5, `1200 - 750 * (ar - 5) / 5` ms above.
pub open spec fn preempt_tenths(ar: int) -> int {
    if ar <= 500 {
        18000 - 12 * ar
    } else {
        19500 - 15 * ar
    }
}

/// The approach rate, in hundredths and before rounding, whose preempt is the
/// one of `ar` divided by `rate`; returned as a numerator over `3 * rate`.
/// Preempts of 1200 ms and more invert as `15 - ms / 120`, shorter ones as
/// `13 - ms / 150`.
pub open spec fn scaled_ar_numerator(ar: int, rate: int) -> int {
    let p = preempt_tenths(ar);
    if p >= 120 * rate {
        4500 * rate - 25 * p
    } else {
        3900 * rate - 20 * p
    }
}

/// The approach rate that plays at `rate` as `ar` plays at 1x, rounded to
/// hundredths and held to the 0 to 10 scale.
pub open spec fn scaled_ar(ar: int, rate: int) -> int {
    clamp(round_div(scaled_ar_numerator(ar, rate), 3 * rate), 0, MAX_RATING as int)
}

/// The overall difficulty, in hundredths and before rounding, whose hit window
/// is the one of `od` divided by `rate`; returned as a numerator over `3 * rate`.
/// Standard and taiko use `(80 - (80 - 6 * od) / rate) / 6`, mania
/// `(64 - (64 - 3 * od) / rate) / 3`.
pub open spec fn scaled_od_numerator(od: int, rate: int, mode: Mode) -> int {
    match mode {
        Mode::Mania => (64 * rate - 6400 + 3 * od) * 100,
        _ => (80 * rate - 8000 + 6 * od) * 50,
    }
}

/// The overall difficulty that plays at `rate` as `od` plays at 1x in `mode`.
/// Catch has no timing window tied to it, so its value is kept.
pub open spec fn scaled_od(od: int, rate: int, mode: Mode) -> int {
    if mode == Mode::Catch {
        od
    } else {
        clamp(round_div(scaled_od_numerator(od, rate, mode), 3 * rate), 0, MAX_RATING as int)
    }
}

/// Rescales approach rate `ar` for playback at `rate` (both in hundredths).
pub fn scale_approach_rate(ar: u32, rate: u32) -> (r: u32)
    requires
        rate > 0,
    ensures
        r as int == scaled_ar(ar as int, rate as int),
        valid_rating(r),
{
    let a = ar as i128;
    let rt = rate as i128;
    let p: i128 = if a <= 500 {
        18000 - 12 * a
    } else {
        19500 - 15 * a
    };
    let num: i128 = if p >= 120 * rt {
        4500 * rt - 25 * p
    } else {
        3900 * rt - 20 * p
    };
    let v = rounded_div(num, 3 * rt);
    clamp_i128(v, 0, MAX_RATING as i128) as u32
}

/// Rescales overall difficulty `od` for playback at `rate` in `mode` (both in
/// hundredths).
pub fn scale_overall_difficulty(od: u32, rate: u32, mode: Mode) -> (r: u32)
    requires
        rate > 0,
    ensures
        r as int == scaled_od(od as int, rate as int, mode),
        mode != Mode::Catch ==> valid_rating(r),
        mode == Mode::Catch ==> r == od,
{
    let o = od as i128;
    let rt = rate as i128;
    match mode {
        Mode::Catch => od,
        Mode::Mania => {
            let v = rounded_div((64 * rt - 6400 + 3 * o) * 100, 3 * rt);
            clamp_i128(v, 0, MAX_RATING as i128) as u32
        },
        _ => {
            let v = rounded_div((80 * rt - 8000 + 6 * o) * 50, 3 * rt);
            clamp_i128(v, 0, MAX_RATING as i128) as u32
        },
    }
}

/// Rescaling overall difficulty in catch is the identity, whatever the rate.
pub proof fn lemma_catch_od_identity(od: u32, rate: u32)
    requires
        rate > 0,
    ensures
        scaled_od(od as int, rate as int, Mode::Catch) == od as int,
{
}

} // verus!
