//! Rate changing for osu! beatmaps.
//!
//! Playback rates and difficulty ratings are held in hundredths (`150` is a
//! rate of 1.5x, `925` an approach rate of 9.25), times in milliseconds and
//! beat lengths in microseconds.
pub mod numeric;
pub mod difficulty;
pub mod text;
pub mod beatmap;
pub mod paths;
pub mod rate;
pub mod ledger;
pub mod audio;
pub mod generate;
pub mod options;
pub mod cli;
pub mod geometry;
pub mod osu_lines;
