use ruso::beatmap::{calculate_bpm, HitObjectKind, LongInfo, SliderInfo, SliderSplineKind, TimingPoint, TimingPointKind, Point};
use ruso::geometry::Math;

fn tempo(time: i32, mpb: i64) -> TimingPoint {
    TimingPoint { time, kind: TimingPointKind::Uninherited { mpb } }
}

#[test]
fn bpm_of_single_tempo() {
    assert_eq!(calculate_bpm(&[tempo(0, 500_000)]), Some(120));
}

#[test]
fn bpm_uses_shortest_beat() {
    let points = [
        tempo(0, 500_000),
        TimingPoint { time: 100, kind: TimingPointKind::Inherited },
        tempo(2000, -250_000),
        tempo(4000, 400_000),
    ];
    assert_eq!(calculate_bpm(&points), Some(240));
}

#[test]
fn bpm_rounds() {
    // 60000 / 333.333 = 180.0002
    assert_eq!(calculate_bpm(&[tempo(0, 333_333)]), Some(180));
    // 60000 / 461.538 = 130.0001
    assert_eq!(calculate_bpm(&[tempo(0, 461_538)]), Some(130));
}

#[test]
fn bpm_needs_a_tempo() {
    assert_eq!(calculate_bpm(&[]), None);
    assert_eq!(calculate_bpm(&[TimingPoint { time: 0, kind: TimingPointKind::Inherited }]), None);
    assert_eq!(calculate_bpm(&[tempo(0, 0)]), None);
}

#[test]
fn hit_object_kinds() {
    let slider = HitObjectKind::Slider(SliderInfo {
        kind: SliderSplineKind::Bezier,
        control_points: vec![Point { x: 1, y: 2 }],
        num_repeats: 1,
        pixel_length: "140".to_string(),
    });
    assert!(slider.is_slider() && !slider.is_circle() && !slider.is_hold() && !slider.is_spinner());
    assert!(HitObjectKind::Circle.is_circle());
    assert!(HitObjectKind::Hold(LongInfo { end_time: 5 }).is_hold());
    assert!(HitObjectKind::Spinner(LongInfo { end_time: 5 }).is_spinner());
}

#[test]
fn spline_symbols() {
    assert_eq!(SliderSplineKind::Linear.symbol(), 'L');
    assert_eq!(SliderSplineKind::Bezier.symbol(), 'B');
    assert_eq!(SliderSplineKind::Catmull.symbol(), 'C');
    assert_eq!(SliderSplineKind::Perfect.symbol(), 'P');
}

#[test]
fn collinear_points() {
    let p = |x, y| Point { x, y };
    assert!(Math::is_line(p(0, 0), p(2, 2), p(5, 5)));
    assert!(!Math::is_line(p(0, 0), p(2, 2), p(5, 6)));
    assert!(Math::is_line(p(i32::MIN, 0), p(i32::MAX, 0), p(0, 0)));
}
