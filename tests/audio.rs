use ruso::audio::{audio_format, codec_outcome, plan_retiming, quantize_bitrate, resampled_rate, AudioError, AudioFormat, CodecFailure, Retiming};

#[test]
fn formats_by_extension() {
    assert_eq!(audio_format("song.wav"), AudioFormat::Wav);
    assert_eq!(audio_format("song.ogg"), AudioFormat::Ogg);
    assert_eq!(audio_format("song.mp3"), AudioFormat::Mp3);
    assert_eq!(audio_format("song.OGG"), AudioFormat::Unknown);
    assert_eq!(audio_format("song"), AudioFormat::Unknown);
    assert_eq!(audio_format("song.flac"), AudioFormat::Unknown);
}

#[test]
fn resampling_doubles_rate_and_halves_duration() {
    let rate = resampled_rate(44100, 200);
    assert_eq!(rate, 88200);
    let frames: u64 = 10 * 44100;
    let seconds = frames as f64 / rate as f64;
    assert!((seconds - 5.0).abs() < 1e-9);
    assert_eq!(resampled_rate(44100, 150), 66150);
    assert_eq!(resampled_rate(44100, 133), 58653);
    assert_eq!(resampled_rate(u32::MAX, 200), u32::MAX);
}

#[test]
fn retiming_plans() {
    assert_eq!(plan_retiming(44100, 200, false), Retiming { sample_rate: 88200, stretch_tempo: None });
    assert_eq!(plan_retiming(44100, 200, true), Retiming { sample_rate: 44100, stretch_tempo: Some(200) });
}

#[test]
fn bitrates_go_to_nearest() {
    assert_eq!(quantize_bitrate(130), 128);
    assert_eq!(quantize_bitrate(128), 128);
    assert_eq!(quantize_bitrate(300), 320);
    assert_eq!(quantize_bitrate(8), 8);
    assert_eq!(quantize_bitrate(5), 8);
    assert_eq!(quantize_bitrate(0), 8);
    assert_eq!(quantize_bitrate(320), 320);
    assert_eq!(quantize_bitrate(1411), 320);
    assert_eq!(quantize_bitrate(63), 64);
    assert_eq!(quantize_bitrate(141), 128);
}

#[test]
fn bitrate_ties_go_up() {
    assert_eq!(quantize_bitrate(56), 64);
    assert_eq!(quantize_bitrate(120), 128);
    assert_eq!(quantize_bitrate(288), 320);
}

#[test]
fn codec_outcomes() {
    assert_eq!(codec_outcome(AudioFormat::Wav, Ok(())), Ok(()));
    assert_eq!(codec_outcome(AudioFormat::Mp3, Err(CodecFailure::Io)), Err(AudioError::Io));
    assert_eq!(codec_outcome(AudioFormat::Ogg, Err(CodecFailure::Codec)), Err(AudioError::Codec));
    assert_eq!(codec_outcome(AudioFormat::Unknown, Err(CodecFailure::Codec)), Err(AudioError::UnsupportedFormat));
    assert_eq!(codec_outcome(AudioFormat::Unknown, Err(CodecFailure::Io)), Err(AudioError::UnsupportedFormat));
    assert_eq!(codec_outcome(AudioFormat::Unknown, Ok(())), Ok(()));
}
