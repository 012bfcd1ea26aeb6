//! Rewriting a beatmap for a new playback rate.
use vstd::prelude::*;
use crate::beatmap::{MAX_BPM, Beatmap, Difficulty, HitObject, HitObjectKind, LongInfo, TimingPoint, TimingPointKind, bpm_of, calculate_bpm};
use crate::numeric::{round_div, clamp, rounded_div, clamp_i128};
use crate::paths::{rated_name, rated_file_name};
use crate::text::{decimal, hundredths, decimal_text, hundredths_text};

verus! {

/// The rate, in hundredths, at which nothing is sped up or slowed down.
pub const NORMAL_RATE: u32 = 100;

/// Which difficulty ratings a rate change leaves as the map has them.
#[derive(Clone, Copy, Debug, PartialEq, Eq, Structural)]
pub struct DifficultyLocks {
    pub approach_rate: bool,
    pub circle_size: bool,
    pub hp_drain: bool,
    pub overall_difficulty: bool,
}

/// What a rate change is asked to do.
#[derive(Clone, Copy, Debug, PartialEq, Eq, Structural)]
pub struct RateRequest {
    /// The playback rate, in hundredths.
    pub rate: u32,
    /// Let the pitch follow the tempo instead of keeping it.
    pub change_pitch: bool,
    /// Write the audio again even if a file for this rate exists.
    pub force_regeneration: bool,
    /// The ratings the new map gets, where not locked.
    pub target: Difficulty,
    pub locks: DifficultyLocks,
}

/// Errors of a rate change.
#[derive(Clone, Copy, Debug, PartialEq, Eq, Structural)]
pub enum RateError {
    /// The rate is not positive.
    InvalidRate,
    /// No timing point sets a tempo, so the new bpm is unknown.
    MissingTempo,
}

/// The time `t` (milliseconds) at `rate` (hundredths): `round(t / rate)`,
/// held to the range of `i32`.
pub open spec fn scaled_time(t: int, rate: int) -> int {
    clamp(round_div(100 * t, rate), i32::MIN as int, i32::MAX as int)
}

/// A beat length (microseconds) at `rate`, rounded and held to `i64`.
pub open spec fn scaled_beat(mpb: int, rate: int) -> int {
    clamp(round_div(100 * mpb, rate), i64::MIN as int, i64::MAX as int)
}

/// `h` with its start time, and the end time of a hold or spinner, at `rate`.
pub open spec fn rescaled_object(h: HitObject, rate: int) -> HitObject {
    HitObject {
        pos: h.pos,
        start_time: scaled_time(h.start_time as int, rate) as i32,
        kind: match h.kind {
            HitObjectKind::Hold(l) => HitObjectKind::Hold(
                LongInfo { end_time: scaled_time(l.end_time as int, rate) as i32 },
            ),
            HitObjectKind::Spinner(l) => HitObjectKind::Spinner(
                LongInfo { end_time: scaled_time(l.end_time as int, rate) as i32 },
            ),
            k => k,
        },
        new_combo: h.new_combo,
        skip_color: h.skip_color,
    }
}

/// `p` with its time, and the beat length of a tempo, at `rate`.
pub open spec fn rescaled_point(p: TimingPoint, rate: int) -> TimingPoint {
    TimingPoint {
        time: scaled_time(p.time as int, rate) as i32,
        kind: match p.kind {
            TimingPointKind::Uninherited { mpb } => TimingPointKind::Uninherited {
                mpb: scaled_beat(mpb as int, rate) as i64,
            },
            TimingPointKind::Inherited => TimingPointKind::Inherited,
        },
    }
}

/// The ratings of the new map: the target's, but the map's own where locked.
pub open spec fn chosen_difficulty(map: Difficulty, req: RateRequest) -> Difficulty {
    Difficulty {
        approach_rate: if req.locks.approach_rate { map.approach_rate } else { req.target.approach_rate },
        circle_size: if req.locks.circle_size { map.circle_size } else { req.target.circle_size },
        hp_drain_rate: if req.locks.hp_drain { map.hp_drain_rate } else { req.target.hp_drain_rate },
        overall_difficulty: if req.locks.overall_difficulty {
            map.overall_difficulty
        } else {
            req.target.overall_difficulty
        },
    }
}

/// ` <rate>x (<bpm>bpm)`.
pub open spec fn rate_suffix(rate: nat, bpm: nat) -> Seq<char> {
    seq![' '] + hundredths(rate) + seq!['x', ' ', '('] + decimal(bpm) + seq!['b', 'p', 'm', ')']
}

/// ` (AR <ar> CS <cs> HP <hp> OD <od>)`.
pub open spec fn ratings_suffix(d: Difficulty) -> Seq<char> {
    seq![' ', '(', 'A', 'R', ' '] + hundredths(d.approach_rate as nat)
        + seq![' ', 'C', 'S', ' '] + hundredths(d.circle_size as nat)
        + seq![' ', 'H', 'P', ' '] + hundredths(d.hp_drain_rate as nat)
        + seq![' ', 'O', 'D', ' '] + hundredths(d.overall_difficulty as nat) + seq![')']
}

/// The tag that marks a map as written by this tool.
pub open spec fn generated_tag() -> Seq<char> {
    seq!['r', 'u', 's', 'o', '-', 'm', 'a', 'p']
}

/// The bpm of a map at `rate` whose bpm at 1x is `bpm`, rounded down.
pub open spec fn bpm_at_rate(bpm: nat, rate: nat) -> nat {
    (bpm * rate / 100) as nat
}

/// What the difficulty name gains: the rate and the new bpm, or, at 1x, the
/// four ratings.
pub open spec fn name_suffix(old_map: Beatmap, req: RateRequest) -> Seq<char> {
    if req.rate == NORMAL_RATE {
        ratings_suffix(chosen_difficulty(old_map.difficulty, req))
    } else {
        rate_suffix(req.rate as nat, bpm_at_rate(bpm_of(old_map.timing_points@).unwrap(), req.rate as nat))
    }
}

/// `old_map` rewritten for `req`.
pub open spec fn rescaled_map(new_map: Beatmap, old_map: Beatmap, req: RateRequest) -> bool {
    let rate = req.rate as int;
    &&& new_map.hit_objects@.len() == old_map.hit_objects@.len()
    &&& forall|i: int| 0 <= i < old_map.hit_objects@.len()
        ==> #[trigger] new_map.hit_objects@[i] == rescaled_object(old_map.hit_objects@[i], rate)
    &&& new_map.timing_points@.len() == old_map.timing_points@.len()
    &&& forall|i: int| 0 <= i < old_map.timing_points@.len()
        ==> #[trigger] new_map.timing_points@[i] == rescaled_point(old_map.timing_points@[i], rate)
    &&& new_map.preview_time as int == scaled_time(old_map.preview_time as int, rate)
    &&& new_map.difficulty == chosen_difficulty(old_map.difficulty, req)
    &&& new_map.difficulty_name@ == old_map.difficulty_name@ + name_suffix(old_map, req)
    &&& new_map.tags@.len() == old_map.tags@.len() + 1
    &&& (forall|i: int| 0 <= i < old_map.tags@.len() ==> #[trigger] new_map.tags@[i]@ == old_map.tags@[i]@)
    &&& new_map.tags@.last()@ == generated_tag()
    &&& new_map.audio_filename@ == if req.rate == NORMAL_RATE {
        old_map.audio_filename@
    } else {
        rated_name(old_map.audio_filename@, req.rate as nat)
    }
    &&& new_map.title@ == old_map.title@
    &&& new_map.artist@ == old_map.artist@
    &&& new_map.mode == old_map.mode
}

/// Rescales the time `t` (milliseconds) for playback at `rate` (hundredths).
pub fn scale_time(t: i32, rate: u32) -> (r: i32)
    requires
        rate > 0,
    ensures
        r as int == scaled_time(t as int, rate as int),
{
    let v = rounded_div(100 * (t as i128), rate as i128);
    clamp_i128(v, i32::MIN as i128, i32::MAX as i128) as i32
}

/// Rescales the beat length `mpb` (microseconds) for playback at `rate`.
pub fn scale_beat_length(mpb: i64, rate: u32) -> (r: i64)
    requires
        rate > 0,
    ensures
        r as int == scaled_beat(mpb as int, rate as int),
{
    let v = rounded_div(100 * (mpb as i128), rate as i128);
    clamp_i128(v, i64::MIN as i128, i64::MAX as i128) as i64
}

fn rescale_object(h: &mut HitObject, rate: u32)
    requires
        rate > 0,
    ensures
        *final(h) == rescaled_object(*old(h), rate as int),
{
    h.start_time = scale_time(h.start_time, rate);
    match &mut h.kind {
        HitObjectKind::Hold(l) => {
            l.end_time = scale_time(l.end_time, rate);
        },
        HitObjectKind::Spinner(l) => {
            l.end_time = scale_time(l.end_time, rate);
        },
        _ => {},
    }
}

fn rescale_point(p: &mut TimingPoint, rate: u32)
    requires
        rate > 0,
    ensures
        *final(p) == rescaled_point(*old(p), rate as int),
{
    p.time = scale_time(p.time, rate);
    match &mut p.kind {
        TimingPointKind::Uninherited { mpb } => {
            *mpb = scale_beat_length(*mpb, rate);
        },
        TimingPointKind::Inherited => {},
    }
}

/// The ratings of the new map for `req`.
pub fn choose_difficulty(map: Difficulty, req: &RateRequest) -> (r: Difficulty)
    ensures
        r == chosen_difficulty(map, *req),
{
    Difficulty {
        approach_rate: if req.locks.approach_rate { map.approach_rate } else { req.target.approach_rate },
        circle_size: if req.locks.circle_size { map.circle_size } else { req.target.circle_size },
        hp_drain_rate: if req.locks.hp_drain { map.hp_drain_rate } else { req.target.hp_drain_rate },
        overall_difficulty: if req.locks.overall_difficulty {
            map.overall_difficulty
        } else {
            req.target.overall_difficulty
        },
    }
}

/// ` <rate>x (<bpm>bpm)`.
pub fn rate_suffix_text(rate: u32, bpm: u64) -> (r: String)
    ensures
        r@ == rate_suffix(rate as nat, bpm as nat),
{
    proof {
        reveal_strlit(" ");
        reveal_strlit("x (");
        reveal_strlit("bpm)");
    }
    let mut s = String::from_str(" ");
    let r = hundredths_text(rate as u64);
    s.append(r.as_str());
    s.append("x (");
    let b = decimal_text(bpm as u128);
    s.append(b.as_str());
    s.append("bpm)");
    proof {
        assert(s@ =~= rate_suffix(rate as nat, bpm as nat));
    }
    s
}

/// ` (AR <ar> CS <cs> HP <hp> OD <od>)`.
pub fn ratings_suffix_text(d: Difficulty) -> (r: String)
    ensures
        r@ == ratings_suffix(d),
{
    proof {
        reveal_strlit(" (AR ");
        reveal_strlit(" CS ");
        reveal_strlit(" HP ");
        reveal_strlit(" OD ");
        reveal_strlit(")");
    }
    let mut s = String::from_str(" (AR ");
    let t = hundredths_text(d.approach_rate as u64);
    s.append(t.as_str());
    s.append(" CS ");
    let t = hundredths_text(d.circle_size as u64);
    s.append(t.as_str());
    s.append(" HP ");
    let t = hundredths_text(d.hp_drain_rate as u64);
    s.append(t.as_str());
    s.append(" OD ");
    let t = hundredths_text(d.overall_difficulty as u64);
    s.append(t.as_str());
    s.append(")");
    proof {
        assert(s@ =~= ratings_suffix(d));
    }
    s
}

/// The bpm at `rate` of a map whose bpm at 1x is `bpm`, rounded down.
pub fn bpm_for_rate(bpm: u64, rate: u32) -> (r: u64)
    requires
        bpm <= MAX_BPM,
    ensures
        r as nat == bpm_at_rate(bpm as nat, rate as nat),
{
    proof {
        assert(bpm * rate <= MAX_BPM * u32::MAX) by (nonlinear_arith)
            requires
                bpm <= MAX_BPM,
                rate <= u32::MAX,
        ;
    }
    bpm * (rate as u64) / 100
}

/// Rewrites `map` for playback at `req.rate`: every time and beat length is
/// divided by the rate, the ratings come from the request where not locked,
/// the difficulty name and tags mark the new map, and the audio file name
/// points at the audio for the rate. Fails, leaving `map` as it was, on a rate
/// that is not positive, or when the rate is not 1x and no timing point sets
/// a tempo.
pub fn apply_rate(map: &mut Beatmap, req: &RateRequest) -> (r: Result<(), RateError>)
    ensures
        r == Err::<(), RateError>(RateError::InvalidRate) <==> req.rate == 0,
        r == Err::<(), RateError>(RateError::MissingTempo) <==> (req.rate > 0 && req.rate != NORMAL_RATE
            && bpm_of(old(map).timing_points@) is None),
        r is Err ==> *final(map) == *old(map),
        r is Ok ==> rescaled_map(*final(map), *old(map), *req),
{
    let rate = req.rate;
    if rate == 0 {
        return Err(RateError::InvalidRate);
    }
    let suffix = if rate == NORMAL_RATE {
        ratings_suffix_text(choose_difficulty(map.difficulty, req))
    } else {
        match calculate_bpm(map.timing_points.as_slice()) {
            Some(bpm) => rate_suffix_text(rate, bpm_for_rate(bpm, rate)),
            None => {
                return Err(RateError::MissingTempo);
            },
        }
    };
    let ghost old_map = *map;

    let n = map.hit_objects.len();
    let mut i: usize = 0;
    while i < n
        invariant
            rate > 0,
            n == old_map.hit_objects@.len(),
            i <= n,
            map.hit_objects@.len() == n,
            forall|j: int| 0 <= j < i ==> #[trigger] map.hit_objects@[j] == rescaled_object(old_map.hit_objects@[j], rate as int),
            forall|j: int| i <= j < n ==> #[trigger] map.hit_objects@[j] == old_map.hit_objects@[j],
            map.timing_points == old_map.timing_points,
            map.difficulty == old_map.difficulty,
            map.preview_time == old_map.preview_time,
            map.difficulty_name == old_map.difficulty_name,
            map.tags == old_map.tags,
            map.audio_filename == old_map.audio_filename,
            map.title == old_map.title,
            map.artist == old_map.artist,
            map.mode == old_map.mode,
        decreases n - i,
    {
        rescale_object(&mut map.hit_objects[i], rate);
        i = i + 1;
    }

    let n = map.timing_points.len();
    let mut i: usize = 0;
    while i < n
        invariant
            rate > 0,
            n == old_map.timing_points@.len(),
            i <= n,
            map.timing_points@.len() == n,
            forall|j: int| 0 <= j < i ==> #[trigger] map.timing_points@[j] == rescaled_point(old_map.timing_points@[j], rate as int),
            forall|j: int| i <= j < n ==> #[trigger] map.timing_points@[j] == old_map.timing_points@[j],
            map.hit_objects@.len() == old_map.hit_objects@.len(),
            forall|j: int| 0 <= j < old_map.hit_objects@.len() ==> #[trigger] map.hit_objects@[j] == rescaled_object(old_map.hit_objects@[j], rate as int),
            map.difficulty == old_map.difficulty,
            map.preview_time == old_map.preview_time,
            map.difficulty_name == old_map.difficulty_name,
            map.tags == old_map.tags,
            map.audio_filename == old_map.audio_filename,
            map.title == old_map.title,
            map.artist == old_map.artist,
            map.mode == old_map.mode,
        decreases n - i,
    {
        rescale_point(&mut map.timing_points[i], rate);
        i = i + 1;
    }

    map.preview_time = scale_time(map.preview_time, rate);
    map.difficulty = choose_difficulty(map.difficulty, req);
    map.difficulty_name.append(suffix.as_str());
    proof {
        reveal_strlit("ruso-map");
    }
    map.tags.push(String::from_str("ruso-map"));
    if rate != NORMAL_RATE {
        map.audio_filename = rated_file_name(map.audio_filename.as_str(), rate);
    }
    proof {
        let new_map = *map;
        assert(new_map.difficulty_name@ == old_map.difficulty_name@ + name_suffix(old_map, *req));
        assert(new_map.tags@.last()@ == generated_tag());
    }
    Ok(())
}

/// A rescaled hit object starts at `round(t / rate)` for its start time `t`,
/// wherever that fits a time; a hold or spinner likewise ends at
/// `round(end / rate)`.
pub proof fn lemma_rescaled_times(h: HitObject, rate: u32)
    requires
        rate > 0,
    ensures
        i32::MIN <= round_div(100 * h.start_time, rate as int) <= i32::MAX
            ==> rescaled_object(h, rate as int).start_time == round_div(100 * h.start_time, rate as int),
        forall|l: LongInfo| (h.kind == HitObjectKind::Hold(l) || h.kind == HitObjectKind::Spinner(l))
            && i32::MIN <= round_div(100 * l.end_time, rate as int) <= i32::MAX
            ==> #[trigger] rescaled_object(h, rate as int).kind == match h.kind {
                HitObjectKind::Hold(_) => HitObjectKind::Hold(
                    LongInfo { end_time: round_div(100 * l.end_time, rate as int) as i32 },
                ),
                _ => HitObjectKind::Spinner(LongInfo { end_time: round_div(100 * l.end_time, rate as int) as i32 }),
            },
{
}

} // verus!
