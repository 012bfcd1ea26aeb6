//! Generating a map for a new rate: the files involved and the order of the
//! steps. The audio branch runs beside the rewrite of the document; nothing
//! is written to the ledger unless both succeeded and the document was
//! written. The caller performs each action and reports its event.
use vstd::prelude::*;
use crate::audio::AudioError;
use crate::paths::{file_name, file_name_of, rated_map_path, rated_path, sibling, rated_map_file, rated_audio_path, sibling_path};
use crate::ledger::views;
use crate::rate::{RateError, NORMAL_RATE};

verus! {

/// The files a generation reads and writes.
#[derive(Clone, Debug)]
pub struct GenerationPlan {
    /// The map file written for the rate.
    pub map_output: String,
    /// The audio file the map plays.
    pub audio_source: String,
    /// The audio file the new map plays: the source itself at 1x.
    pub audio_output: String,
    /// The name of the map inside an `.osz` archive.
    pub archive_entry: String,
}

/// Plans the files for generating the map at `map_path`, which plays
/// `audio_filename`, at `rate`; `archive` asks for an `.osz` archive.
pub fn plan_files(map_path: &str, audio_filename: &str, rate: u32, archive: bool) -> (r: GenerationPlan)
    ensures
        r.map_output@ == rated_map_path(map_path@, rate as nat, archive),
        r.audio_source@ == sibling(map_path@, audio_filename@),
        r.audio_output@ == if rate == NORMAL_RATE {
            sibling(map_path@, audio_filename@)
        } else {
            rated_path(sibling(map_path@, audio_filename@), rate as nat)
        },
        r.archive_entry@ == file_name(rated_map_path(map_path@, rate as nat, false)),
{
    let map_output = rated_map_file(map_path, rate, archive);
    let audio_source = sibling_path(map_path, audio_filename);
    let audio_output = if rate == NORMAL_RATE {
        sibling_path(map_path, audio_filename)
    } else {
        rated_audio_path(audio_source.as_str(), rate)
    };
    let entry_path = rated_map_file(map_path, rate, false);
    let archive_entry = file_name_of(entry_path.as_str());
    GenerationPlan { map_output, audio_source, audio_output, archive_entry }
}

/// The files a generation records in the ledger: the map file, and the audio
/// file when one was made for the rate. At 1x the audio is the user's own and
/// is not recorded.
pub open spec fn recorded(plan: GenerationPlan, rate: u32) -> Seq<Seq<char>> {
    if rate == NORMAL_RATE {
        seq![plan.map_output@]
    } else {
        seq![plan.map_output@, plan.audio_output@]
    }
}

/// The paths to append to the ledger once a generation succeeded.
pub fn recorded_paths(plan: &GenerationPlan, rate: u32) -> (r: Vec<String>)
    ensures
        views(r@) == recorded(*plan, rate),
{
    let mut r: Vec<String> = Vec::new();
    r.push(plan.map_output.clone());
    if rate != NORMAL_RATE {
        r.push(plan.audio_output.clone());
    }
    proof {
        assert(views(r@) =~= recorded(*plan, rate));
    }
    r
}

/// Whether the audio branch runs: never at 1x, and otherwise unless the file
/// for the rate exists and regeneration is not forced.
pub open spec fn runs_audio(rate: u32, force: bool, output_exists: bool) -> bool {
    rate != NORMAL_RATE && (force || !output_exists)
}

/// Whether the audio branch runs for `rate`.
pub fn should_run_audio(rate: u32, force: bool, output_exists: bool) -> (r: bool)
    ensures
        r == runs_audio(rate, force, output_exists),
{
    rate != NORMAL_RATE && (force || !output_exists)
}

/// Generating at a rate again without forcing leaves the audio of the first
/// run alone: the audio file's name depends on the source and the rate only
/// (see [`plan_files`]), and once that file exists the branch does not run.
pub proof fn lemma_audio_idempotent(rate: u32)
    ensures
        !runs_audio(rate, false, true),
{
}

/// Errors of a generation.
#[derive(Clone, Copy, Debug, PartialEq, Eq, Structural)]
pub enum GenerationError {
    Rate(RateError),
    Audio(AudioError),
    /// The document or the ledger could not be written.
    Io,
    /// An event came that the current stage does not expect.
    OutOfOrder,
}

/// Where a generation stands.
#[derive(Clone, Copy, Debug, PartialEq, Eq, Structural)]
pub enum Stage {
    /// The audio branch has been started if `audio`; the document is being rewritten.
    Started { audio: bool },
    /// The document is rewritten; the audio branch is awaited.
    AwaitingAudio,
    /// Both branches succeeded; the document is being written.
    Writing,
    /// The document is on disk; its path and the audio's go to the ledger.
    Committing,
    Done,
    Failed,
}

/// What the caller reports.
#[derive(Clone, Copy, Debug, PartialEq, Eq, Structural)]
pub enum Event {
    DocumentRescaled,
    RescaleFailed(RateError),
    AudioSucceeded,
    AudioFailed(AudioError),
    DocumentWritten { ok: bool },
    LedgerAppended { ok: bool },
}

/// What the caller does next.
#[derive(Clone, Copy, Debug, PartialEq, Eq, Structural)]
pub enum Action {
    AwaitAudio,
    WriteDocument,
    AppendLedger,
    Finish,
    Abort(GenerationError),
}

/// The next stage and action after `event` in `stage`.
pub open spec fn next(stage: Stage, event: Event) -> (Stage, Action) {
    match (stage, event) {
        (Stage::Started { audio }, Event::DocumentRescaled) => if audio {
            (Stage::AwaitingAudio, Action::AwaitAudio)
        } else {
            (Stage::Writing, Action::WriteDocument)
        },
        (Stage::Started { .. }, Event::RescaleFailed(e)) => (Stage::Failed, Action::Abort(GenerationError::Rate(e))),
        (Stage::AwaitingAudio, Event::AudioSucceeded) => (Stage::Writing, Action::WriteDocument),
        (Stage::AwaitingAudio, Event::AudioFailed(e)) => (Stage::Failed, Action::Abort(GenerationError::Audio(e))),
        (Stage::Writing, Event::DocumentWritten { ok }) => if ok {
            (Stage::Committing, Action::AppendLedger)
        } else {
            (Stage::Failed, Action::Abort(GenerationError::Io))
        },
        (Stage::Committing, Event::LedgerAppended { ok }) => if ok {
            (Stage::Done, Action::Finish)
        } else {
            (Stage::Failed, Action::Abort(GenerationError::Io))
        },
        _ => (Stage::Failed, Action::Abort(GenerationError::OutOfOrder)),
    }
}

/// Advances a generation by one event.
pub fn step(stage: Stage, event: Event) -> (r: (Stage, Action))
    ensures
        r == next(stage, event),
        r.1 == Action::AppendLedger ==> stage == Stage::Writing && event == (Event::DocumentWritten { ok: true }),
{
    match (stage, event) {
        (Stage::Started { audio }, Event::DocumentRescaled) => if audio {
            (Stage::AwaitingAudio, Action::AwaitAudio)
        } else {
            (Stage::Writing, Action::WriteDocument)
        },
        (Stage::Started { .. }, Event::RescaleFailed(e)) => (Stage::Failed, Action::Abort(GenerationError::Rate(e))),
        (Stage::AwaitingAudio, Event::AudioSucceeded) => (Stage::Writing, Action::WriteDocument),
        (Stage::AwaitingAudio, Event::AudioFailed(e)) => (Stage::Failed, Action::Abort(GenerationError::Audio(e))),
        (Stage::Writing, Event::DocumentWritten { ok }) => if ok {
            (Stage::Committing, Action::AppendLedger)
        } else {
            (Stage::Failed, Action::Abort(GenerationError::Io))
        },
        (Stage::Committing, Event::LedgerAppended { ok }) => if ok {
            (Stage::Done, Action::Finish)
        } else {
            (Stage::Failed, Action::Abort(GenerationError::Io))
        },
        _ => (Stage::Failed, Action::Abort(GenerationError::OutOfOrder)),
    }
}

/// The stage after `events`, from `start`.
pub open spec fn stage_after(start: Stage, events: Seq<Event>) -> Stage
    decreases events.len(),
{
    if events.len() == 0 {
        start
    } else {
        next(stage_after(start, events.drop_last()), events.last()).0
    }
}

/// The actions asked for along `events`, from `start`.
pub open spec fn actions_along(start: Stage, events: Seq<Event>) -> Seq<Action>
    decreases events.len(),
{
    if events.len() == 0 {
        seq![]
    } else {
        actions_along(start, events.drop_last()).push(
            next(stage_after(start, events.drop_last()), events.last()).1,
        )
    }
}

/// Whether `events` report every branch of a generation as successful: the
/// rewrite, the audio when it ran, and the written document.
pub open spec fn all_succeeded(audio: bool, events: Seq<Event>) -> bool {
    &&& events.contains(Event::DocumentRescaled)
    &&& (audio ==> events.contains(Event::AudioSucceeded))
    &&& events.contains(Event::DocumentWritten { ok: true })
}

/// What the events so far must hold for a generation to be in `stage`.
pub open spec fn reached(audio: bool, stage: Stage, events: Seq<Event>) -> bool {
    match stage {
        Stage::Started { audio: a } => a == audio,
        Stage::AwaitingAudio => audio && events.contains(Event::DocumentRescaled),
        Stage::Writing => events.contains(Event::DocumentRescaled)
            && (audio ==> events.contains(Event::AudioSucceeded)),
        Stage::Committing => all_succeeded(audio, events),
        Stage::Done => all_succeeded(audio, events),
        Stage::Failed => true,
    }
}

proof fn lemma_contains_push(s: Seq<Event>, e: Event, x: Event)
    ensures
        s.contains(x) ==> s.push(e).contains(x),
        x == e ==> s.push(e).contains(x),
{
    if s.contains(x) {
        let i = choose|i: int| 0 <= i < s.len() && s[i] == x;
        assert(s.push(e)[i] == x);
    }
    if x == e {
        assert(s.push(e)[s.len() as int] == x);
    }
}

proof fn lemma_reached(audio: bool, events: Seq<Event>)
    ensures
        reached(audio, stage_after(Stage::Started { audio }, events), events),
    decreases events.len(),
{
    if events.len() > 0 {
        let before = events.drop_last();
        let e = events.last();
        lemma_reached(audio, before);
        assert(before.push(e) == events);
        lemma_contains_push(before, e, Event::DocumentRescaled);
        lemma_contains_push(before, e, Event::AudioSucceeded);
        lemma_contains_push(before, e, Event::DocumentWritten { ok: true });
    }
}

/// A generation asks for the ledger to be written only after the document
/// was rewritten, the audio branch (when it ran) succeeded and the document
/// was written; and once done, all of that has happened.
pub proof fn lemma_commit_only_after_success(audio: bool, events: Seq<Event>)
    ensures
        actions_along(Stage::Started { audio }, events).contains(Action::AppendLedger)
            ==> all_succeeded(audio, events),
        stage_after(Stage::Started { audio }, events) == Stage::Done ==> all_succeeded(audio, events),
    decreases events.len(),
{
    lemma_reached(audio, events);
    if events.len() > 0 {
        let start = Stage::Started { audio };
        let before = events.drop_last();
        let e = events.last();
        assert(before.push(e) == events);
        lemma_commit_only_after_success(audio, before);
        lemma_contains_push(before, e, Event::DocumentRescaled);
        lemma_contains_push(before, e, Event::AudioSucceeded);
        lemma_contains_push(before, e, Event::DocumentWritten { ok: true });
        let acts = actions_along(start, events);
        if acts.contains(Action::AppendLedger) {
            let i = choose|i: int| 0 <= i < acts.len() && acts[i] == Action::AppendLedger;
            if i < acts.len() - 1 {
                assert(actions_along(start, before)[i] == Action::AppendLedger);
            } else {
                lemma_reached(audio, before);
                assert(stage_after(start, before) == Stage::Writing);
            }
        }
    }
}

} // verus!
