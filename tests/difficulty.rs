use ruso::difficulty::{scale_approach_rate, scale_overall_difficulty, Mode};

#[test]
fn approach_rate_clamps_at_ten() {
    assert_eq!(scale_approach_rate(900, 150), 1000);
}

#[test]
fn approach_rate_unchanged_at_normal_rate() {
    assert_eq!(scale_approach_rate(900, 100), 900);
    assert_eq!(scale_approach_rate(300, 100), 300);
    assert_eq!(scale_approach_rate(500, 100), 500);
}

#[test]
fn approach_rate_low_branch() {
    // 1440 ms preempt at AR 3, 960 ms at 1.5x: 13 - 960 / 150 = 6.6
    assert_eq!(scale_approach_rate(300, 150), 660);
}

#[test]
fn approach_rate_slowed_down() {
    // AR 9 is 600 ms; at 0.75x it is 800 ms: 13 - 800 / 150 = 7.67
    assert_eq!(scale_approach_rate(900, 75), 767);
    // AR 0 is 1800 ms; at 0.5x 3600 ms: 15 - 30 = -15, held at 0
    assert_eq!(scale_approach_rate(0, 50), 0);
}

#[test]
fn overall_difficulty_standard_and_taiko() {
    // (80 - (80 - 48) / 1.5) / 6 = 9.78
    assert_eq!(scale_overall_difficulty(800, 150, Mode::Osu), 978);
    assert_eq!(scale_overall_difficulty(800, 150, Mode::Taiko), 978);
    assert_eq!(scale_overall_difficulty(800, 100, Mode::Osu), 800);
}

#[test]
fn overall_difficulty_mania() {
    // (64 - (64 - 9) / 1.1) / 3 = 4.67
    assert_eq!(scale_overall_difficulty(300, 110, Mode::Mania), 467);
    assert_eq!(scale_overall_difficulty(800, 150, Mode::Mania), 1000);
}

#[test]
fn overall_difficulty_catch_is_identity() {
    assert_eq!(scale_overall_difficulty(731, 250, Mode::Catch), 731);
    assert_eq!(scale_overall_difficulty(0, 1, Mode::Catch), 0);
    assert_eq!(scale_overall_difficulty(1000, 37, Mode::Catch), 1000);
}

#[test]
fn overall_difficulty_held_at_zero() {
    assert_eq!(scale_overall_difficulty(0, 50, Mode::Osu), 0);
}
