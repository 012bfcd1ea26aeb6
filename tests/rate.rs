use ruso::beatmap::{Beatmap, Difficulty, HitObject, HitObjectKind, LongInfo, Point, TimingPoint, TimingPointKind};
use ruso::difficulty::Mode;
use ruso::generate::should_run_audio;
use ruso::rate::{apply_rate, scale_beat_length, scale_time, DifficultyLocks, RateError, RateRequest};

fn object(t: i32, kind: HitObjectKind) -> HitObject {
    HitObject { pos: Point { x: 10, y: 20 }, start_time: t, kind, new_combo: false, skip_color: 0 }
}

fn sample_map() -> Beatmap {
    Beatmap {
        audio_filename: "audio.mp3".to_string(),
        preview_time: 30000,
        title: "Title".to_string(),
        artist: "Artist".to_string(),
        difficulty_name: "Hard".to_string(),
        tags: vec!["tag".to_string()],
        mode: Mode::Osu,
        difficulty: Difficulty { approach_rate: 900, circle_size: 400, hp_drain_rate: 600, overall_difficulty: 800 },
        timing_points: vec![
            TimingPoint { time: 1000, kind: TimingPointKind::Uninherited { mpb: 500_000 } },
            TimingPoint { time: 3000, kind: TimingPointKind::Inherited },
        ],
        hit_objects: vec![
            object(1000, HitObjectKind::Circle),
            object(1500, HitObjectKind::Spinner(LongInfo { end_time: 4000 })),
            object(2001, HitObjectKind::Hold(LongInfo { end_time: 2999 })),
        ],
    }
}

fn request(rate: u32) -> RateRequest {
    RateRequest {
        rate,
        change_pitch: false,
        force_regeneration: false,
        target: Difficulty { approach_rate: 950, circle_size: 400, hp_drain_rate: 600, overall_difficulty: 825 },
        locks: DifficultyLocks { approach_rate: false, circle_size: false, hp_drain: false, overall_difficulty: false },
    }
}

#[test]
fn times_divide_by_rate_and_round() {
    assert_eq!(scale_time(1000, 150), 667);
    assert_eq!(scale_time(1000, 200), 500);
    assert_eq!(scale_time(5, 200), 3);
    assert_eq!(scale_time(-1, 150), -1);
    assert_eq!(scale_time(0, 37), 0);
    assert_eq!(scale_time(12345, 100), 12345);
    assert_eq!(scale_time(i32::MAX, 50), i32::MAX);
}

#[test]
fn beat_lengths_divide_by_rate() {
    assert_eq!(scale_beat_length(500_000, 150), 333_333);
    assert_eq!(scale_beat_length(-100, 200), -50);
}

#[test]
fn rate_change_rewrites_document() {
    let mut map = sample_map();
    assert_eq!(apply_rate(&mut map, &request(150)), Ok(()));
    let starts: Vec<i32> = map.hit_objects.iter().map(|h| h.start_time).collect();
    assert_eq!(starts, vec![667, 1000, 1334]);
    assert!(matches!(map.hit_objects[1].kind, HitObjectKind::Spinner(LongInfo { end_time: 2667 })));
    assert!(matches!(map.hit_objects[2].kind, HitObjectKind::Hold(LongInfo { end_time: 1999 })));
    assert_eq!(map.timing_points[0], TimingPoint { time: 667, kind: TimingPointKind::Uninherited { mpb: 333_333 } });
    assert_eq!(map.timing_points[1], TimingPoint { time: 2000, kind: TimingPointKind::Inherited });
    assert_eq!(map.preview_time, 20000);
    assert_eq!(map.difficulty_name, "Hard 1.5x (180bpm)");
    assert_eq!(map.tags, vec!["tag".to_string(), "ruso-map".to_string()]);
    assert_eq!(map.audio_filename, "audio(1.5).mp3");
    assert_eq!(map.difficulty.approach_rate, 950);
    assert_eq!(map.difficulty.overall_difficulty, 825);
    assert_eq!(map.title, "Title");
}

#[test]
fn locked_ratings_stay() {
    let mut map = sample_map();
    let mut req = request(150);
    req.locks.approach_rate = true;
    req.locks.hp_drain = true;
    req.target.hp_drain_rate = 100;
    apply_rate(&mut map, &req).unwrap();
    assert_eq!(map.difficulty, Difficulty { approach_rate: 900, circle_size: 400, hp_drain_rate: 600, overall_difficulty: 825 });
}

#[test]
fn normal_rate_is_a_difficulty_edit() {
    let mut map = sample_map();
    assert_eq!(apply_rate(&mut map, &request(100)), Ok(()));
    assert_eq!(map.difficulty_name, "Hard (AR 9.5 CS 4 HP 6 OD 8.25)");
    assert_eq!(map.audio_filename, "audio.mp3");
    assert_eq!(map.hit_objects[0].start_time, 1000);
    assert!(!should_run_audio(100, true, false));
    assert!(!should_run_audio(100, false, false));
}

#[test]
fn rate_change_needs_tempo() {
    let mut map = sample_map();
    map.timing_points = vec![TimingPoint { time: 0, kind: TimingPointKind::Inherited }];
    assert_eq!(apply_rate(&mut map, &request(150)), Err(RateError::MissingTempo));
    assert_eq!(map.hit_objects[0].start_time, 1000);
    assert_eq!(map.difficulty_name, "Hard");
    assert_eq!(apply_rate(&mut map, &request(100)), Ok(()));
}

#[test]
fn zero_rate_is_refused() {
    let mut map = sample_map();
    assert_eq!(apply_rate(&mut map, &request(0)), Err(RateError::InvalidRate));
    assert_eq!(map.preview_time, 30000);
}
