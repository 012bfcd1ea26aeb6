//! Decisions of the audio branch: which codec handles a file, how the
//! samples are re-timed, and which bitrate the lossy encoder gets. Decoding
//! and encoding themselves are done by the caller.
use vstd::prelude::*;
use crate::paths::{extension, file_extension, same_text};

verus! {

/// The container of an audio file, told by its extension.
#[derive(Clone, Copy, Debug, PartialEq, Eq, Structural)]
pub enum AudioFormat {
    Wav,
    Ogg,
    Mp3,
    /// Not recognised: tried as mp3, and unsupported if that fails.
    Unknown,
}

/// Why a codec run failed, as the caller reports it.
#[derive(Clone, Copy, Debug, PartialEq, Eq, Structural)]
pub enum CodecFailure {
    /// A file could not be opened, read or written.
    Io,
    /// The stream could not be decoded or encoded.
    Codec,
}

/// Errors of the audio branch.
#[derive(Clone, Copy, Debug, PartialEq, Eq, Structural)]
pub enum AudioError {
    Io,
    Codec,
    /// The file is of no known container and does not decode as mp3.
    UnsupportedFormat,
    /// The task running the branch did not run to completion.
    Interrupted,
}

/// How the samples are re-timed for a rate.
#[derive(Clone, Copy, Debug, PartialEq, Eq, Structural)]
pub struct Retiming {
    /// The sample rate the output is written at.
    pub sample_rate: u32,
    /// The tempo, in hundredths, of a pitch-keeping time stretch, if one runs.
    pub stretch_tempo: Option<u32>,
}

/// The format of the extension `ext`; names are matched exactly.
pub open spec fn format_of(ext: Option<Seq<char>>) -> AudioFormat {
    match ext {
        Some(e) => if e == "wav"@ {
            AudioFormat::Wav
        } else if e == "ogg"@ {
            AudioFormat::Ogg
        } else if e == "mp3"@ {
            AudioFormat::Mp3
        } else {
            AudioFormat::Unknown
        },
        None => AudioFormat::Unknown,
    }
}

/// `sample_rate * rate`, rounded down and held to `u32`.
pub open spec fn resampled(sample_rate: nat, rate: nat) -> nat {
    let v = sample_rate * rate / 100;
    if v > u32::MAX { u32::MAX as nat } else { v }
}

/// Without pitch keeping the same samples play at `sample_rate * rate`, which
/// changes tempo and pitch together; with it the sample rate stays and a time
/// stretch at `rate` runs.
pub open spec fn retiming(sample_rate: nat, rate: nat, preserve_pitch: bool) -> Retiming {
    if preserve_pitch {
        Retiming { sample_rate: sample_rate as u32, stretch_tempo: Some(rate as u32) }
    } else {
        Retiming { sample_rate: resampled(sample_rate, rate) as u32, stretch_tempo: None }
    }
}

/// The bitrates, in kbps, that the mp3 encoder offers.
pub open spec fn mp3_bitrates() -> Seq<u32> {
    seq![8, 16, 24, 32, 40, 48, 64, 80, 96, 112, 128, 160, 192, 224, 256, 320]
}

/// How far bitrate `b` lies from `kbps`.
pub open spec fn distance(b: u32, kbps: u32) -> int {
    if b >= kbps { b - kbps } else { kbps - b }
}

/// Whether `r` is the encoder bitrate for a source of `kbps`: the offered
/// bitrate nearest to it, the higher of two equally near.
pub open spec fn nearest_bitrate(r: u32, kbps: u32) -> bool {
    &&& mp3_bitrates().contains(r)
    &&& forall|i: int| 0 <= i < mp3_bitrates().len() ==> {
        &&& distance(r, kbps) <= #[trigger] distance(mp3_bitrates()[i], kbps)
        &&& (distance(mp3_bitrates()[i], kbps) == distance(r, kbps) ==> mp3_bitrates()[i] <= r)
    }
}

/// What a codec run means for the branch: an unknown container that failed
/// as mp3 is unsupported.
pub open spec fn outcome_of(format: AudioFormat, run: Result<(), CodecFailure>) -> Result<(), AudioError> {
    match run {
        Ok(()) => Ok(()),
        Err(f) => if format == AudioFormat::Unknown {
            Err(AudioError::UnsupportedFormat)
        } else {
            match f {
                CodecFailure::Io => Err(AudioError::Io),
                CodecFailure::Codec => Err(AudioError::Codec),
            }
        },
    }
}

/// The format of the audio file called `name`.
pub fn audio_format(name: &str) -> (r: AudioFormat)
    ensures
        r == format_of(extension(name@)),
{
    match file_extension(name) {
        Some(e) => if same_text(e, "wav") {
            AudioFormat::Wav
        } else if same_text(e, "ogg") {
            AudioFormat::Ogg
        } else if same_text(e, "mp3") {
            AudioFormat::Mp3
        } else {
            AudioFormat::Unknown
        },
        None => AudioFormat::Unknown,
    }
}

/// The sample rate at which `sample_rate` plays `rate` times as fast.
pub fn resampled_rate(sample_rate: u32, rate: u32) -> (r: u32)
    ensures
        r as nat == resampled(sample_rate as nat, rate as nat),
{
    proof {
        assert((sample_rate as u64) * (rate as u64) <= u32::MAX * u32::MAX) by (nonlinear_arith)
            requires
                sample_rate <= u32::MAX,
                rate <= u32::MAX,
        ;
    }
    let v = (sample_rate as u64) * (rate as u64) / 100;
    if v > u32::MAX as u64 {
        u32::MAX
    } else {
        v as u32
    }
}

/// How to re-time audio at `sample_rate` for playback at `rate`.
pub fn plan_retiming(sample_rate: u32, rate: u32, preserve_pitch: bool) -> (r: Retiming)
    ensures
        r == retiming(sample_rate as nat, rate as nat, preserve_pitch),
{
    if preserve_pitch {
        Retiming { sample_rate, stretch_tempo: Some(rate) }
    } else {
        Retiming { sample_rate: resampled_rate(sample_rate, rate), stretch_tempo: None }
    }
}

/// The encoder bitrate for a source of `kbps`: the nearest offered one.
pub fn quantize_bitrate(kbps: u32) -> (r: u32)
    ensures
        nearest_bitrate(r, kbps),
{
    let table: [u32; 16] = [8, 16, 24, 32, 40, 48, 64, 80, 96, 112, 128, 160, 192, 224, 256, 320];
    proof {
        assert(table@ =~= mp3_bitrates());
    }
    let mut best: u32 = table[0];
    let mut best_at: usize = 0;
    let mut i: usize = 1;
    while i < 16
        invariant
            1 <= i <= 16,
            table@ == mp3_bitrates(),
            best_at < i,
            best == table@[best_at as int],
            forall|j: int| 0 <= j < i ==> {
                &&& distance(best, kbps) <= #[trigger] distance(table@[j], kbps)
                &&& (distance(table@[j], kbps) == distance(best, kbps) ==> table@[j] <= best)
            },
        decreases 16 - i,
    {
        let t = table[i];
        let dt: u32 = if t >= kbps { t - kbps } else { kbps - t };
        let db: u32 = if best >= kbps { best - kbps } else { kbps - best };
        if dt < db || (dt == db && t > best) {
            best = t;
            best_at = i;
        }
        i = i + 1;
    }
    proof {
        assert(mp3_bitrates()[best_at as int] == best);
    }
    best
}

/// What a codec run on a file of `format` means for the branch.
pub fn codec_outcome(format: AudioFormat, run: Result<(), CodecFailure>) -> (r: Result<(), AudioError>)
    ensures
        r == outcome_of(format, run),
{
    match run {
        Ok(()) => Ok(()),
        Err(f) => if format == AudioFormat::Unknown {
            Err(AudioError::UnsupportedFormat)
        } else {
            match f {
                CodecFailure::Io => Err(AudioError::Io),
                CodecFailure::Codec => Err(AudioError::Codec),
            }
        },
    }
}

} // verus!
