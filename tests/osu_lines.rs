use ruso::beatmap::{HitObject, HitObjectKind, LongInfo, Point, SliderSplineKind, TimingPoint, TimingPointKind};
use ruso::difficulty::Mode;
use ruso::osu_lines::{background_file, game_mode, int_value, join_fields, key_value, parse_point, rewrite_object_line, rewrite_timing_line, section_name, split_fields};
use ruso::rate::scale_time;
use ruso::text::{parse_signed_scaled, scaled_text, signed_decimal_text};

#[test]
fn fields_split_and_join() {
    let f = split_fields("1,,2:3,", ',');
    assert_eq!(f, vec!["1", "", "2:3", ""]);
    assert_eq!(join_fields(&f, ","), "1,,2:3,");
    assert_eq!(split_fields("", ','), vec![""]);
    assert_eq!(join_fields(&vec![], ","), "");
}

#[test]
fn key_values_and_sections() {
    assert_eq!(key_value("AudioFilename: audio.mp3"), Some(("AudioFilename".to_string(), "audio.mp3".to_string())));
    assert_eq!(key_value("Title:A: B "), Some(("Title".to_string(), "A: B".to_string())));
    assert_eq!(key_value("no colon"), None);
    assert_eq!(section_name(" [HitObjects] ").as_deref(), Some("HitObjects"));
    assert_eq!(section_name("[x"), None);
    assert_eq!(background_file("0,0,\"bg.jpg\",0,0").as_deref(), Some("bg.jpg"));
    assert_eq!(background_file("2,100,200"), None);
    assert_eq!(game_mode(3), Mode::Mania);
    assert_eq!(game_mode(9), Mode::Osu);
}

#[test]
fn numbers_in_fields() {
    assert_eq!(int_value("-20"), Some(-20));
    assert_eq!(int_value("1234.5"), Some(1235));
    assert_eq!(int_value("x"), None);
    assert_eq!(parse_signed_scaled("333.3333333", 3), Some(333_333));
    assert_eq!(parse_signed_scaled("-100", 3), Some(-100_000));
    assert_eq!(scaled_text(333_333, 3), "333.333");
    assert_eq!(scaled_text(250_500, 3), "250.5");
    assert_eq!(scaled_text(500_000, 3), "500");
    assert_eq!(scaled_text(5, 3), "0.005");
    assert_eq!(scaled_text(-1500, 3), "-1.5");
    assert_eq!(signed_decimal_text(-42), "-42");
    assert_eq!(parse_point("12:-7"), Some(Point { x: 12, y: -7 }));
}

#[test]
fn hit_object_lines() {
    let circle = HitObject::from_line("256,192,1000,5,0,0:0:0:0:").unwrap();
    assert_eq!(circle.start_time, 1000);
    assert!(circle.kind.is_circle() && circle.new_combo);
    let slider = HitObject::from_line("100,100,2000,2,0,B|200:200|300:100,2,140.5").unwrap();
    match &slider.kind {
        HitObjectKind::Slider(info) => {
            assert_eq!(info.kind, SliderSplineKind::Bezier);
            assert_eq!(info.control_points, vec![Point { x: 200, y: 200 }, Point { x: 300, y: 100 }]);
            assert_eq!(info.num_repeats, 2);
            assert_eq!(info.pixel_length, "140.5");
        },
        _ => panic!("expected a slider"),
    }
    let spinner = HitObject::from_line("256,192,3000,12,0,4500,0:0:0:0:").unwrap();
    assert!(matches!(spinner.kind, HitObjectKind::Spinner(LongInfo { end_time: 4500 })));
    let hold = HitObject::from_line("64,192,5000,128,0,5600:0:0:0:0:").unwrap();
    assert!(matches!(hold.kind, HitObjectKind::Hold(LongInfo { end_time: 5600 })));
    assert!(HitObject::from_line("1,2,3").is_none());
    assert!(HitObject::from_line("1,2,3,2,0,X|1:1,1,10").is_none());
}

#[test]
fn hit_object_lines_rewritten() {
    let line = "64,192,5000,128,0,5600:0:0:0:0:";
    let mut hold = HitObject::from_line(line).unwrap();
    hold.start_time = scale_time(hold.start_time, 150);
    hold.kind = HitObjectKind::Hold(LongInfo { end_time: scale_time(5600, 150) });
    assert_eq!(rewrite_object_line(line, &hold), "64,192,3333,128,0,3733:0:0:0:0:");
    let line = "256,192,3000,12,0,4500,0:0:0:0:";
    let mut spinner = HitObject::from_line(line).unwrap();
    spinner.start_time = 1500;
    spinner.kind = HitObjectKind::Spinner(LongInfo { end_time: 2250 });
    assert_eq!(rewrite_object_line(line, &spinner), "256,192,1500,12,0,2250,0:0:0:0:");
}

#[test]
fn timing_point_lines() {
    let line = "1000,333.333333333333,4,2,1,60,1,0";
    let p = TimingPoint::from_line(line).unwrap();
    assert_eq!(p, TimingPoint { time: 1000, kind: TimingPointKind::Uninherited { mpb: 333_333 } });
    let inherited = TimingPoint::from_line("2000,-100,4,2,1,60,0,0").unwrap();
    assert_eq!(inherited.kind, TimingPointKind::Inherited);
    let old = TimingPoint::from_line("2000,-50").unwrap();
    assert_eq!(old.kind, TimingPointKind::Inherited);
    let scaled = TimingPoint { time: 667, kind: TimingPointKind::Uninherited { mpb: 222_222 } };
    assert_eq!(rewrite_timing_line(line, &scaled), "667,222.222,4,2,1,60,1,0");
    let inh = TimingPoint { time: 1333, kind: TimingPointKind::Inherited };
    assert_eq!(rewrite_timing_line("2000,-100,4,2,1,60,0,0", &inh), "1333,-100,4,2,1,60,0,0");
}
