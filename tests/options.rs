use ruso::beatmap::{Beatmap, Difficulty, TimingPoint, TimingPointKind};
use ruso::difficulty::Mode;
use ruso::options::{MapOptions, Settings, Status, StatusMessage, Theme};
use ruso::rate::RateError;

fn map(mode: Mode) -> Beatmap {
    Beatmap {
        audio_filename: "audio.mp3".to_string(),
        preview_time: 0,
        title: "Title".to_string(),
        artist: "Artist".to_string(),
        difficulty_name: "Insane".to_string(),
        tags: vec![],
        mode,
        difficulty: Difficulty { approach_rate: 900, circle_size: 400, hp_drain_rate: 600, overall_difficulty: 800 },
        timing_points: vec![TimingPoint { time: 0, kind: TimingPointKind::Uninherited { mpb: 500_000 } }],
        hit_objects: vec![],
    }
}

#[test]
fn default_options() {
    let o = MapOptions::new();
    assert_eq!((o.approach_rate, o.circle_size, o.hp_drain, o.overall_difficulty), (500, 500, 500, 500));
    assert_eq!(o.rate, 100);
    assert_eq!(o.bpm, 100);
    assert_eq!(o.mode, Mode::Osu);
    let s = Settings::new();
    assert!(s.change_pitch && s.generate_osz && !s.force_generation);
    assert_eq!(s.theme, Theme::Dark);
    assert_eq!(s.websocket_url, "ws://127.0.0.1:24050/ws");
    let m = StatusMessage::new();
    assert!(m.text.is_none());
    assert_eq!(m.status, Status::Success);
}

#[test]
fn scaling_follows_mode() {
    let mut o = MapOptions::new();
    o.original_ar = 900;
    o.original_od = 800;
    o.rate = 150;
    o.scale_ar();
    o.scale_od();
    assert_eq!((o.approach_rate, o.overall_difficulty), (1000, 978));
    let mut t = MapOptions::new();
    t.mode = Mode::Taiko;
    t.original_ar = 900;
    t.rate = 150;
    t.scale_ar();
    assert_eq!(t.approach_rate, 500);
    let mut c = MapOptions::new();
    c.mode = Mode::Catch;
    c.original_od = 900;
    c.overall_difficulty = 420;
    c.rate = 150;
    c.scale_od();
    assert_eq!(c.overall_difficulty, 900);
    c.original_od = 2000;
    c.scale_od();
    assert_eq!(c.overall_difficulty, 1000);
}

#[test]
fn metadata_honours_locks() {
    let mut o = MapOptions::new();
    o.map_path = "/songs/set/map.osu".to_string();
    o.circle_size = 700;
    o.rate = 150;
    let mut s = Settings::new();
    s.cs_lock = true;
    s.scale_od = true;
    o.read_map_metadata(&map(Mode::Osu), Some("bg.jpg"), 512, &s).unwrap();
    assert_eq!(o.approach_rate, 900);
    assert_eq!(o.circle_size, 700);
    assert_eq!(o.hp_drain, 600);
    assert_eq!(o.overall_difficulty, 978);
    assert_eq!(o.bpm, 120);
    assert_eq!(o.stars, 512);
    assert_eq!(o.background.as_deref(), Some("/songs/set/bg.jpg"));
    assert_eq!(o.difficulty_name, "Insane");
    assert_eq!((o.original_ar, o.original_od), (900, 800));
}

#[test]
fn metadata_needs_tempo() {
    let mut o = MapOptions::new();
    let mut m = map(Mode::Mania);
    m.timing_points.clear();
    assert_eq!(o.read_map_metadata(&m, None, 0, &Settings::new()), Err(RateError::MissingTempo));
    assert_eq!(o.mode, Mode::Osu);
}

#[test]
fn request_from_options() {
    let mut o = MapOptions::new();
    o.rate = 125;
    o.approach_rate = 930;
    let mut s = Settings::new();
    s.change_pitch = false;
    let r = o.rate_request(&s);
    assert_eq!(r.rate, 125);
    assert!(!r.change_pitch);
    assert_eq!(r.target, Difficulty { approach_rate: 930, circle_size: 500, hp_drain_rate: 500, overall_difficulty: 500 });
}
