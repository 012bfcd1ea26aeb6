//! The parts of a beatmap document that a rate change reads or rewrites.
use vstd::prelude::*;
use crate::difficulty::Mode;
use crate::numeric::round_div;

verus! {

/// A position on the playfield, in osu! pixels.
#[derive(Clone, Copy, Debug, PartialEq, Eq, Structural)]
pub struct Point {
    pub x: i32,
    pub y: i32,
}

/// Distinguishes between different types of slider splines.
#[derive(Clone, Copy, Debug, PartialEq, Eq, Structural, Hash)]
pub enum SliderSplineKind {
    /// Two endpoints joined by a straight line.
    Linear,
    /// Curves through control points.
    Bezier,
    /// The deprecated spline of older maps.
    Catmull,
    /// A circle through three control points.
    Perfect,
}

impl SliderSplineKind {
    /// The letter that stands for the spline kind in a hit object line.
    pub fn symbol(&self) -> (c: char)
        ensures
            c == match *self {
                SliderSplineKind::Linear => 'L',
                SliderSplineKind::Bezier => 'B',
                SliderSplineKind::Catmull => 'C',
                SliderSplineKind::Perfect => 'P',
            },
    {
        match self {
            SliderSplineKind::Linear => 'L',
            SliderSplineKind::Bezier => 'B',
            SliderSplineKind::Catmull => 'C',
            SliderSplineKind::Perfect => 'P',
        }
    }
}

/// Extra information provided by a slider.
#[derive(Clone, Debug)]
pub struct SliderInfo {
    /// The algorithm used to calculate the spline.
    pub kind: SliderSplineKind,
    /// The control points that make up the body of the slider.
    pub control_points: Vec<Point>,
    /// The number of times this slider should repeat.
    pub num_repeats: u32,
    /// How long the slider is in pixels, as the map writes it.
    pub pixel_length: String,
}

/// Extra information provided by spinners and holds.
#[derive(Clone, Copy, Debug, PartialEq, Eq, Structural)]
pub struct LongInfo {
    /// The time, in milliseconds, at which the spinner or hold ends.
    pub end_time: i32,
}

/// Distinguishes between different types of hit objects.
#[derive(Clone, Debug)]
pub enum HitObjectKind {
    /// Regular hit circle.
    Circle,
    /// Mania hold note.
    Hold(LongInfo),
    /// Slider.
    Slider(SliderInfo),
    /// Spinner.
    Spinner(LongInfo),
}

impl HitObjectKind {
    /// Is the given hit object a hit circle?
    pub fn is_circle(&self) -> (r: bool)
        ensures
            r == (*self is Circle),
    {
        matches!(self, HitObjectKind::Circle)
    }

    /// Is the given hit object a hold?
    pub fn is_hold(&self) -> (r: bool)
        ensures
            r == (*self is Hold),
    {
        matches!(self, HitObjectKind::Hold(_))
    }

    /// Is the given hit object a slider?
    pub fn is_slider(&self) -> (r: bool)
        ensures
            r == (*self is Slider),
    {
        matches!(self, HitObjectKind::Slider(_))
    }

    /// Is the given hit object a spinner?
    pub fn is_spinner(&self) -> (r: bool)
        ensures
            r == (*self is Spinner),
    {
        matches!(self, HitObjectKind::Spinner(_))
    }
}

/// A single hit object.
#[derive(Clone, Debug)]
pub struct HitObject {
    /// Where the object sits (the head, for sliders).
    pub pos: Point,
    /// When the object is hit, in milliseconds.
    pub start_time: i32,
    /// Circle, slider, spinner or hold.
    pub kind: HitObjectKind,
    /// Whether the object begins a new combo.
    pub new_combo: bool,
    /// The number of combo colours to skip.
    pub skip_color: i32,
}

/// Whether a timing point sets a new tempo or only adjusts the current one.
#[derive(Clone, Copy, Debug, PartialEq, Eq, Structural)]
pub enum TimingPointKind {
    /// Sets the tempo: `mpb` is the length of a beat in microseconds.
    Uninherited { mpb: i64 },
    /// Inherits the tempo of the uninherited point before it.
    Inherited,
}

/// A timing point.
#[derive(Clone, Copy, Debug, PartialEq, Eq, Structural)]
pub struct TimingPoint {
    /// When the point takes effect, in milliseconds.
    pub time: i32,
    pub kind: TimingPointKind,
}

/// The four difficulty ratings, in hundredths.
#[derive(Clone, Copy, Debug, PartialEq, Eq, Structural)]
pub struct Difficulty {
    pub approach_rate: u32,
    pub circle_size: u32,
    pub hp_drain_rate: u32,
    pub overall_difficulty: u32,
}

/// A parsed beatmap, as far as a rate change is concerned.
#[derive(Clone, Debug)]
pub struct Beatmap {
    /// The audio file, relative to the map's directory.
    pub audio_filename: String,
    /// Where the song select preview starts, in milliseconds.
    pub preview_time: i32,
    pub title: String,
    pub artist: String,
    pub difficulty_name: String,
    pub tags: Vec<String>,
    pub mode: Mode,
    pub difficulty: Difficulty,
    pub timing_points: Vec<TimingPoint>,
    pub hit_objects: Vec<HitObject>,
}

/// The largest bpm a tempo can have: one beat per microsecond.
pub const MAX_BPM: u64 = 60_000_000;

/// The beat length of `p` without its sign, if `p` sets a tempo.
pub open spec fn beat_length(p: TimingPoint) -> Option<nat> {
    match p.kind {
        TimingPointKind::Uninherited { mpb } => Some(
            (if mpb < 0 { -mpb } else { mpb as int }) as nat,
        ),
        TimingPointKind::Inherited => None,
    }
}

/// The shortest beat length over the points that set a tempo.
pub open spec fn shortest_beat(points: Seq<TimingPoint>) -> Option<nat>
    decreases points.len(),
{
    if points.len() == 0 {
        None
    } else {
        let rest = shortest_beat(points.drop_last());
        match (rest, beat_length(points.last())) {
            (None, b) => b,
            (Some(a), None) => Some(a),
            (Some(a), Some(b)) => Some(if b < a { b } else { a }),
        }
    }
}

/// Beats per minute of the fastest tempo in `points`, rounded; none when no
/// point sets a tempo or the fastest beat has no length.
pub open spec fn bpm_of(points: Seq<TimingPoint>) -> Option<nat> {
    match shortest_beat(points) {
        Some(m) => if m > 0 {
            Some(round_div(60_000_000, m as int) as nat)
        } else {
            None
        },
        None => None,
    }
}

fn beat_length_of(p: &TimingPoint) -> (r: Option<u64>)
    ensures
        r matches Some(b) ==> beat_length(*p) == Some(b as nat),
        r is None ==> beat_length(*p) is None,
{
    match p.kind {
        TimingPointKind::Uninherited { mpb } => {
            if mpb >= 0 {
                Some(mpb as u64)
            } else {
                let m = 0 - (mpb + 1);
                Some(m as u64 + 1)
            }
        },
        TimingPointKind::Inherited => None,
    }
}

/// Calculates the bpm of a beatmap from its timing points, using the
/// shortest beat among the points that set a tempo.
pub fn calculate_bpm(points: &[TimingPoint]) -> (r: Option<u64>)
    ensures
        r matches Some(b) ==> bpm_of(points@) == Some(b as nat) && b <= MAX_BPM,
        r is None ==> bpm_of(points@) is None,
{
    let mut best: Option<u64> = None;
    let mut i: usize = 0;
    while i < points.len()
        invariant
            i <= points@.len(),
            best matches Some(b) ==> shortest_beat(points@.take(i as int)) == Some(b as nat),
            best is None ==> shortest_beat(points@.take(i as int)) is None,
        decreases points@.len() - i,
    {
        let b = beat_length_of(&points[i]);
        proof {
            assert(points@.take(i as int + 1).drop_last() =~= points@.take(i as int));
        }
        best = match (best, b) {
            (None, b) => b,
            (Some(a), None) => Some(a),
            (Some(a), Some(b)) => Some(if b < a { b } else { a }),
        };
        i = i + 1;
    }
    proof {
        assert(points@.take(points@.len() as int) =~= points@);
    }
    match best {
        Some(m) => if m > 0 {
            let wide = m as u128;
            let q = (2 * 60_000_000u128 + wide) / (2 * wide);
            proof {
                let n = 120_000_000 + wide as int;
                let d = 2 * wide as int;
                assert(q as int == n / d);
                vstd::arithmetic::div_mod::lemma_fundamental_div_mod(n, d);
                vstd::arithmetic::div_mod::lemma_mod_pos_bound(n, d);
                assert(q as int * d <= n) by (nonlinear_arith)
                    requires
                        n == d * (n / d) + (n % d),
                        n % d >= 0,
                        q as int == n / d,
                ;
                assert(q <= 60_000_000) by (nonlinear_arith)
                    requires
                        q as int * d <= n,
                        d == 2 * wide,
                        n == 120_000_000 + wide,
                        wide >= 1,
                ;
            }
            Some(q as u64)
        } else {
            None
        },
        None => None,
    }
}

} // verus!
