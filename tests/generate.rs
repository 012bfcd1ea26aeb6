use ruso::audio::AudioError;
use ruso::generate::{plan_files, recorded_paths, should_run_audio, step, Action, Event, GenerationError, Stage};
use ruso::rate::RateError;

#[test]
fn planned_files() {
    let plan = plan_files("/s/m/map.osu", "audio.mp3", 150, true);
    assert_eq!(plan.map_output, "/s/m/map(1.5).osz");
    assert_eq!(plan.audio_source, "/s/m/audio.mp3");
    assert_eq!(plan.audio_output, "/s/m/audio(1.5).mp3");
    assert_eq!(plan.archive_entry, "map(1.5).osu");
    assert_eq!(recorded_paths(&plan, 150), vec!["/s/m/map(1.5).osz".to_string(), "/s/m/audio(1.5).mp3".to_string()]);
    let plan = plan_files("/s/m/map.osu", "audio.mp3", 100, false);
    assert_eq!(plan.map_output, "/s/m/map(1).osu");
    assert_eq!(plan.audio_output, "/s/m/audio.mp3");
    assert_eq!(recorded_paths(&plan, 100), vec!["/s/m/map(1).osu".to_string()]);
}

#[test]
fn existing_audio_is_reused() {
    assert!(!should_run_audio(150, false, true));
    assert!(should_run_audio(150, true, true));
    assert!(should_run_audio(150, false, false));
}

#[test]
fn successful_generation_commits_last() {
    let mut stage = Stage::Started { audio: true };
    let mut actions = Vec::new();
    for e in [Event::DocumentRescaled, Event::AudioSucceeded, Event::DocumentWritten { ok: true }, Event::LedgerAppended { ok: true }] {
        let (s, a) = step(stage, e);
        stage = s;
        actions.push(a);
    }
    assert_eq!(actions, vec![Action::AwaitAudio, Action::WriteDocument, Action::AppendLedger, Action::Finish]);
    assert_eq!(stage, Stage::Done);
}

#[test]
fn generation_without_audio_writes_at_once() {
    assert_eq!(step(Stage::Started { audio: false }, Event::DocumentRescaled), (Stage::Writing, Action::WriteDocument));
}

#[test]
fn failed_audio_aborts_before_writing() {
    let (s, _) = step(Stage::Started { audio: true }, Event::DocumentRescaled);
    let (s, a) = step(s, Event::AudioFailed(AudioError::UnsupportedFormat));
    assert_eq!(s, Stage::Failed);
    assert_eq!(a, Action::Abort(GenerationError::Audio(AudioError::UnsupportedFormat)));
    let (_, a) = step(Stage::AwaitingAudio, Event::AudioFailed(AudioError::Interrupted));
    assert_eq!(a, Action::Abort(GenerationError::Audio(AudioError::Interrupted)));
}

#[test]
fn other_failures_abort() {
    assert_eq!(
        step(Stage::Started { audio: true }, Event::RescaleFailed(RateError::MissingTempo)),
        (Stage::Failed, Action::Abort(GenerationError::Rate(RateError::MissingTempo)))
    );
    assert_eq!(step(Stage::Writing, Event::DocumentWritten { ok: false }), (Stage::Failed, Action::Abort(GenerationError::Io)));
    assert_eq!(step(Stage::Committing, Event::LedgerAppended { ok: false }), (Stage::Failed, Action::Abort(GenerationError::Io)));
    assert_eq!(step(Stage::Writing, Event::AudioSucceeded), (Stage::Failed, Action::Abort(GenerationError::OutOfOrder)));
    assert_eq!(step(Stage::Done, Event::DocumentRescaled), (Stage::Failed, Action::Abort(GenerationError::OutOfOrder)));
}
