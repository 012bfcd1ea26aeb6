//! The options a map is generated with, and the user's settings.
use vstd::prelude::*;
use crate::beatmap::{Beatmap, Difficulty, bpm_of, calculate_bpm};
use crate::difficulty::{Mode, MAX_RATING, valid_rating, scaled_ar, scaled_od, scale_approach_rate, scale_overall_difficulty};
use crate::numeric::{clamp, clamp_i128};
use crate::paths::{sibling, sibling_path};
use crate::rate::{RateError, RateRequest, DifficultyLocks, NORMAL_RATE};

verus! {

/// The colour theme of the interface.
#[derive(Clone, Copy, Debug, PartialEq, Eq, Structural)]
pub enum Theme {
    Light,
    Dark,
    Osu,
    Custom,
}

/// The tab shown by the interface.
#[derive(Clone, Copy, Debug, PartialEq, Eq, Structural)]
pub enum Tab {
    Auto,
    Manual,
    Settings,
}

/// Whether the last operation succeeded.
#[derive(Clone, Copy, Debug, PartialEq, Eq, Structural)]
pub enum Status {
    Success,
    Error,
}

/// A message about the last operation.
#[derive(Debug)]
pub struct StatusMessage {
    pub text: Option<String>,
    pub status: Status,
}

impl StatusMessage {
    /// An empty success message.
    pub fn new() -> (r: StatusMessage)
        ensures
            r.text is None,
            r.status == Status::Success,
    {
        StatusMessage { text: None, status: Status::Success }
    }
}

/// The user's settings.
#[derive(Debug)]
pub struct Settings {
    pub ar_lock: bool,
    /// Let the pitch follow the tempo instead of keeping it.
    pub change_pitch: bool,
    pub cs_lock: bool,
    /// Write the audio again even if a file for the rate exists.
    pub force_generation: bool,
    /// Write an `.osz` archive instead of an `.osu` file.
    pub generate_osz: bool,
    pub gosumemory_path: String,
    pub gosumemory_startup: bool,
    pub hp_lock: bool,
    pub od_lock: bool,
    /// Rescale the approach rate with the rate.
    pub scale_ar: bool,
    /// Rescale the overall difficulty with the rate.
    pub scale_od: bool,
    pub songs_path: String,
    pub theme: Theme,
    pub websocket_url: String,
}

impl Settings {
    /// The default settings.
    pub fn new() -> (r: Settings)
        ensures
            r.theme == Theme::Dark,
            !r.ar_lock && !r.cs_lock && !r.hp_lock && !r.od_lock,
            r.change_pitch,
            !r.force_generation,
            r.generate_osz,
            !r.scale_ar && !r.scale_od,
            !r.gosumemory_startup,
            r.songs_path@.len() == 0,
            r.gosumemory_path@.len() == 0,
            r.websocket_url@ == "ws://127.0.0.1:24050/ws"@,
    {
        Settings {
            theme: Theme::Dark,
            ar_lock: false,
            change_pitch: true,
            cs_lock: false,
            force_generation: false,
            hp_lock: false,
            od_lock: false,
            generate_osz: true,
            scale_ar: false,
            scale_od: false,
            songs_path: String::new(),
            gosumemory_path: String::new(),
            gosumemory_startup: false,
            websocket_url: String::from_str("ws://127.0.0.1:24050/ws"),
        }
    }
}

/// The options a map is generated with. Ratings and the rate are in hundredths.
#[derive(Debug)]
pub struct MapOptions {
    pub approach_rate: u32,
    pub artist: String,
    /// The background image, beside the map.
    pub background: Option<String>,
    pub bpm: u64,
    pub circle_size: u32,
    pub difficulty_name: String,
    pub hp_drain: u32,
    pub map_path: String,
    pub mode: Mode,
    /// The approach rate of the map as read.
    pub original_ar: u32,
    /// The overall difficulty of the map as read.
    pub original_od: u32,
    pub overall_difficulty: u32,
    pub rate: u32,
    /// The star rating, in hundredths.
    pub stars: u32,
    pub title: String,
}

/// The approach rate that `scale_ar` gives.
pub open spec fn ar_for(mode: Mode, current: u32, original_ar: u32, rate: u32) -> u32 {
    match mode {
        Mode::Taiko | Mode::Mania => current,
        _ => scaled_ar(original_ar as int, rate as int) as u32,
    }
}

/// The overall difficulty that `scale_od` gives: in catch the map's own,
/// held to the 0 to 10 scale.
pub open spec fn od_for(mode: Mode, original_od: u32, rate: u32) -> u32 {
    match mode {
        Mode::Catch => clamp(original_od as int, 0, MAX_RATING as int) as u32,
        _ => scaled_od(original_od as int, rate as int, mode) as u32,
    }
}

impl MapOptions {
    /// Options with every rating at 5 and a rate of 1x.
    pub fn new() -> (r: MapOptions)
        ensures
            r.approach_rate == 500 && r.circle_size == 500 && r.hp_drain == 500,
            r.overall_difficulty == 500,
            r.original_ar == 500 && r.original_od == 500,
            r.rate == NORMAL_RATE,
            r.bpm == 100,
            r.stars == 0,
            r.mode == Mode::Osu,
            r.background is None,
            r.artist@.len() == 0 && r.title@.len() == 0 && r.difficulty_name@.len() == 0,
            r.map_path@.len() == 0,
    {
        MapOptions {
            approach_rate: 500,
            artist: String::new(),
            background: None,
            bpm: 100,
            circle_size: 500,
            difficulty_name: String::new(),
            hp_drain: 500,
            map_path: String::new(),
            mode: Mode::Osu,
            original_ar: 500,
            original_od: 500,
            overall_difficulty: 500,
            rate: NORMAL_RATE,
            stars: 0,
            title: String::new(),
        }
    }

    /// Scales the approach rate with the rate, from the map's own; taiko and
    /// mania have none to scale.
    pub fn scale_ar(&mut self)
        requires
            old(self).rate > 0,
        ensures
            *final(self) == (MapOptions {
                approach_rate: ar_for(old(self).mode, old(self).approach_rate, old(self).original_ar, old(self).rate),
                ..*old(self)
            }),
    {
        match self.mode {
            Mode::Taiko | Mode::Mania => {},
            _ => {
                self.approach_rate = scale_approach_rate(self.original_ar, self.rate);
            },
        }
    }

    /// Scales the overall difficulty with the rate, from the map's own; catch
    /// takes the map's own unchanged.
    pub fn scale_od(&mut self)
        requires
            old(self).rate > 0,
        ensures
            valid_rating(final(self).overall_difficulty),
            *final(self) == (MapOptions {
                overall_difficulty: od_for(old(self).mode, old(self).original_od, old(self).rate),
                ..*old(self)
            }),
    {
        match self.mode {
            Mode::Catch => {
                self.overall_difficulty = clamp_i128(self.original_od as i128, 0, MAX_RATING as i128) as u32;
            },
            _ => {
                self.overall_difficulty = scale_overall_difficulty(self.original_od, self.rate, self.mode);
            },
        }
    }

    /// Takes over what a freshly read map says: its ratings where not locked
    /// (rescaled where the settings ask), its bpm, mode and names, the
    /// background file `background` found among its events, and `stars`.
    /// Fails, changing nothing, when no timing point sets a tempo.
    pub fn read_map_metadata(
        &mut self,
        map: &Beatmap,
        background: Option<&str>,
        stars: u32,
        settings: &Settings,
    ) -> (r: Result<(), RateError>)
        requires
            old(self).rate > 0,
        ensures
            r is Err <==> bpm_of(map.timing_points@) is None,
            r is Err ==> *final(self) == *old(self),
            r is Ok ==> {
                let d = map.difficulty;
                let s = *final(self);
                &&& s.original_ar == d.approach_rate
                &&& s.original_od == d.overall_difficulty
                &&& s.approach_rate == if settings.ar_lock {
                    old(self).approach_rate
                } else if settings.scale_ar {
                    ar_for(map.mode, old(self).approach_rate, d.approach_rate, old(self).rate)
                } else {
                    d.approach_rate
                }
                &&& s.circle_size == if settings.cs_lock { old(self).circle_size } else { d.circle_size }
                &&& s.hp_drain == if settings.hp_lock { old(self).hp_drain } else { d.hp_drain_rate }
                &&& s.overall_difficulty == if settings.od_lock {
                    old(self).overall_difficulty
                } else if settings.scale_od {
                    od_for(map.mode, d.overall_difficulty, old(self).rate)
                } else {
                    d.overall_difficulty
                }
                &&& Some(s.bpm as nat) == bpm_of(map.timing_points@)
                &&& s.mode == map.mode
                &&& s.rate == old(self).rate
                &&& s.stars == stars
                &&& s.title@ == map.title@
                &&& s.artist@ == map.artist@
                &&& s.difficulty_name@ == map.difficulty_name@
                &&& s.map_path@ == old(self).map_path@
                &&& match background {
                    Some(b) => s.background matches Some(p) && p@ == sibling(old(self).map_path@, b@),
                    None => s.background is None,
                }
            },
    {
        let bpm = match calculate_bpm(map.timing_points.as_slice()) {
            Some(b) => b,
            None => {
                return Err(RateError::MissingTempo);
            },
        };
        let d = map.difficulty;
        self.original_ar = d.approach_rate;
        self.original_od = d.overall_difficulty;
        self.mode = map.mode;
        if !settings.ar_lock {
            if settings.scale_ar {
                self.scale_ar();
            } else {
                self.approach_rate = d.approach_rate;
            }
        }
        if !settings.cs_lock {
            self.circle_size = d.circle_size;
        }
        if !settings.hp_lock {
            self.hp_drain = d.hp_drain_rate;
        }
        if !settings.od_lock {
            if settings.scale_od {
                self.scale_od();
            } else {
                self.overall_difficulty = d.overall_difficulty;
            }
        }
        self.bpm = bpm;
        self.background = match background {
            Some(b) => Some(sibling_path(self.map_path.as_str(), b)),
            None => None,
        };
        self.stars = stars;
        self.title = map.title.clone();
        self.artist = map.artist.clone();
        self.difficulty_name = map.difficulty_name.clone();
        Ok(())
    }

    /// The request that generates the map these options describe: their
    /// ratings, unlocked, at their rate.
    pub fn rate_request(&self, settings: &Settings) -> (r: RateRequest)
        ensures
            r.rate == self.rate,
            r.change_pitch == settings.change_pitch,
            r.force_regeneration == settings.force_generation,
            r.target == (Difficulty {
                approach_rate: self.approach_rate,
                circle_size: self.circle_size,
                hp_drain_rate: self.hp_drain,
                overall_difficulty: self.overall_difficulty,
            }),
            r.locks == (DifficultyLocks {
                approach_rate: false,
                circle_size: false,
                hp_drain: false,
                overall_difficulty: false,
            }),
    {
        RateRequest {
            rate: self.rate,
            change_pitch: settings.change_pitch,
            force_regeneration: settings.force_generation,
            target: Difficulty {
                approach_rate: self.approach_rate,
                circle_size: self.circle_size,
                hp_drain_rate: self.hp_drain,
                overall_difficulty: self.overall_difficulty,
            },
            locks: DifficultyLocks {
                approach_rate: false,
                circle_size: false,
                hp_drain: false,
                overall_difficulty: false,
            },
        }
    }
}

} // verus!
