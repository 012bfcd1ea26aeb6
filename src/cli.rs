//! Interpreting command-line arguments. Each option takes a value; the
//! flags `-h`, `-V`, `-g`, `-z`, `+z`, `--clean` and `--space` take none.
//! Every command is checked before any is acted on, then they take effect in
//! order, a later value replacing an earlier one; help, version, clean and
//! space end the interpretation.
use vstd::prelude::*;
use crate::ledger::views;
use crate::paths::same_text;
use crate::text::{decimal_hundredths, unsigned_value, parse_hundredths, parse_unsigned};
use crate::numeric::round_div;

verus! {

/// A command-line command.
#[derive(Clone, Copy, Debug, PartialEq, Eq, Structural)]
pub enum Command {
    ApproachRate,
    Bpm,
    CircleSize,
    HpDrain,
    Help,
    Gosumemory,
    OverallDifficulty,
    Path,
    Rate,
    Version,
    NoArchive,
    Archive,
    /// Delete the generated files under the songs folder.
    Clean,
    /// Report the space the generated files take.
    Space,
}

/// The command an argument names.
pub open spec fn command_of(a: Seq<char>) -> Option<Command> {
    if a == "-a"@ || a == "--approach-rate"@ { Some(Command::ApproachRate) }
    else if a == "-b"@ || a == "--bpm"@ { Some(Command::Bpm) }
    else if a == "-c"@ || a == "--circle-size"@ { Some(Command::CircleSize) }
    else if a == "-d"@ || a == "--hp-drain"@ { Some(Command::HpDrain) }
    else if a == "-h"@ || a == "--help"@ { Some(Command::Help) }
    else if a == "-g"@ || a == "--gosumemory"@ { Some(Command::Gosumemory) }
    else if a == "-o"@ || a == "--overall-difficulty"@ { Some(Command::OverallDifficulty) }
    else if a == "-p"@ || a == "--path"@ { Some(Command::Path) }
    else if a == "-r"@ || a == "--rate"@ { Some(Command::Rate) }
    else if a == "-V"@ || a == "--version"@ { Some(Command::Version) }
    else if a == "-z"@ { Some(Command::NoArchive) }
    else if a == "+z"@ { Some(Command::Archive) }
    else if a == "--clean"@ { Some(Command::Clean) }
    else if a == "--space"@ { Some(Command::Space) }
    else { None }
}

/// Whether `c` takes no value.
pub open spec fn is_flag(c: Command) -> bool {
    c is Help || c is Version || c is Gosumemory || c is NoArchive || c is Archive || c is Clean || c is Space
}

/// Whether the argument `a` is a flag.
pub open spec fn flag_arg(a: Seq<char>) -> bool {
    command_of(a) matches Some(c) && is_flag(c)
}

/// The arguments with an empty value after each flag, so that commands and
/// values alternate.
pub open spec fn spread(args: Seq<Seq<char>>) -> Seq<Seq<char>>
    decreases args.len(),
{
    if args.len() == 0 {
        seq![]
    } else {
        let rest = spread(args.drop_last());
        if flag_arg(args.last()) {
            rest + seq![args.last(), seq![]]
        } else {
            rest.push(args.last())
        }
    }
}

/// The first argument at an even position from `i` on that names no command.
pub open spec fn first_invalid(t: Seq<Seq<char>>, i: int) -> Option<Seq<char>>
    decreases t.len() + 2 - i,
{
    if i < 0 || i >= t.len() {
        None
    } else if command_of(t[i]) is None {
        Some(t[i])
    } else {
        first_invalid(t, i + 2)
    }
}

/// The settings that the arguments give; `None` where not given.
pub struct CliModel {
    pub approach_rate: Option<u32>,
    pub bpm: Option<u64>,
    pub circle_size: Option<u32>,
    pub hp_drain: Option<u32>,
    pub overall_difficulty: Option<u32>,
    pub path: Option<Seq<char>>,
    pub rate: Option<u32>,
    pub gosumemory: bool,
    pub archive: Option<bool>,
}

/// What the arguments ask for, or why they are refused.
pub enum Parsed {
    Help,
    Version,
    Clean,
    Space,
    Generate(CliModel),
    InvalidCommand(Seq<char>),
    MissingValue(Seq<char>),
    InvalidNumber(Seq<char>),
}

/// The effect of one command: go on with new settings, or stop.
pub enum Effect {
    Continue(CliModel),
    Stop(Parsed),
}

/// Nothing given.
pub open spec fn empty_model() -> CliModel {
    CliModel {
        approach_rate: None,
        bpm: None,
        circle_size: None,
        hp_drain: None,
        overall_difficulty: None,
        path: None,
        rate: None,
        gosumemory: false,
        archive: None,
    }
}

/// The effect of command `c` with value `v` on `m`.
pub open spec fn effect(c: Command, v: Seq<char>, m: CliModel) -> Effect {
    let h = decimal_hundredths(v);
    let bad = Effect::Stop(Parsed::InvalidNumber(v));
    match c {
        Command::ApproachRate => match h {
            Some(x) => Effect::Continue(CliModel { approach_rate: Some(x as u32), ..m }),
            None => bad,
        },
        Command::CircleSize => match h {
            Some(x) => Effect::Continue(CliModel { circle_size: Some(x as u32), ..m }),
            None => bad,
        },
        Command::HpDrain => match h {
            Some(x) => Effect::Continue(CliModel { hp_drain: Some(x as u32), ..m }),
            None => bad,
        },
        Command::OverallDifficulty => match h {
            Some(x) => Effect::Continue(CliModel { overall_difficulty: Some(x as u32), ..m }),
            None => bad,
        },
        Command::Rate => match h {
            Some(x) => Effect::Continue(CliModel { rate: Some(x as u32), ..m }),
            None => bad,
        },
        Command::Bpm => match unsigned_value(v) {
            Some(x) => if x <= u64::MAX {
                Effect::Continue(CliModel { bpm: Some(x as u64), ..m })
            } else {
                bad
            },
            None => bad,
        },
        Command::Path => Effect::Continue(CliModel { path: Some(v), ..m }),
        Command::Gosumemory => Effect::Continue(CliModel { gosumemory: true, ..m }),
        Command::NoArchive => Effect::Continue(CliModel { archive: Some(false), ..m }),
        Command::Archive => Effect::Continue(CliModel { archive: Some(true), ..m }),
        Command::Help => Effect::Stop(Parsed::Help),
        Command::Version => Effect::Stop(Parsed::Version),
        Command::Clean => Effect::Stop(Parsed::Clean),
        Command::Space => Effect::Stop(Parsed::Space),
    }
}

/// The commands from position `i` on, in order, applied to `m`.
pub open spec fn interpret(t: Seq<Seq<char>>, i: int, m: CliModel) -> Parsed
    decreases t.len() - i,
{
    if i < 0 || i >= t.len() {
        Parsed::Generate(m)
    } else {
        match command_of(t[i]) {
            None => Parsed::InvalidCommand(t[i]),
            Some(c) => if i + 1 >= t.len() {
                Parsed::MissingValue(t[i])
            } else {
                match effect(c, t[i + 1], m) {
                    Effect::Continue(m2) => interpret(t, i + 2, m2),
                    Effect::Stop(p) => p,
                }
            },
        }
    }
}

/// What the arguments `args` (without the program name) ask for.
pub open spec fn parse_model(args: Seq<Seq<char>>) -> Parsed {
    let t = spread(args);
    match first_invalid(t, 0) {
        Some(a) => Parsed::InvalidCommand(a),
        None => interpret(t, 0, empty_model()),
    }
}

/// The settings that the arguments give; `None` where not given. Ratings and
/// the rate are in hundredths.
#[derive(Clone, Debug)]
pub struct CliOptions {
    pub approach_rate: Option<u32>,
    pub bpm: Option<u64>,
    pub circle_size: Option<u32>,
    pub hp_drain: Option<u32>,
    pub overall_difficulty: Option<u32>,
    pub path: Option<String>,
    pub rate: Option<u32>,
    /// Start gosumemory.
    pub gosumemory: bool,
    /// Write an `.osz` archive (`+z`) or not (`-z`).
    pub archive: Option<bool>,
}

impl View for CliOptions {
    type V = CliModel;

    open spec fn view(&self) -> CliModel {
        CliModel {
            approach_rate: self.approach_rate,
            bpm: self.bpm,
            circle_size: self.circle_size,
            hp_drain: self.hp_drain,
            overall_difficulty: self.overall_difficulty,
            path: match self.path {
                Some(p) => Some(p@),
                None => None,
            },
            rate: self.rate,
            gosumemory: self.gosumemory,
            archive: self.archive,
        }
    }
}

/// What the command line asks for.
#[derive(Clone, Debug)]
pub enum CliCommand {
    Help,
    Version,
    /// Delete the generated files under the songs folder.
    Clean,
    /// Report the space the generated files take.
    Space,
    Generate(CliOptions),
}

/// Why a command line is refused; each holds the argument at fault.
#[derive(Clone, Debug)]
pub enum CliError {
    InvalidCommand(String),
    MissingValue(String),
    InvalidNumber(String),
}

/// The meaning of a result of [`parse_args`].
pub open spec fn parsed_view(r: Result<CliCommand, CliError>) -> Parsed {
    match r {
        Ok(CliCommand::Help) => Parsed::Help,
        Ok(CliCommand::Version) => Parsed::Version,
        Ok(CliCommand::Clean) => Parsed::Clean,
        Ok(CliCommand::Space) => Parsed::Space,
        Ok(CliCommand::Generate(o)) => Parsed::Generate(o@),
        Err(CliError::InvalidCommand(a)) => Parsed::InvalidCommand(a@),
        Err(CliError::MissingValue(a)) => Parsed::MissingValue(a@),
        Err(CliError::InvalidNumber(a)) => Parsed::InvalidNumber(a@),
    }
}

/// The command the argument `a` names.
pub fn classify(a: &str) -> (r: Option<Command>)
    ensures
        r == command_of(a@),
{
    if same_text(a, "-a") || same_text(a, "--approach-rate") { Some(Command::ApproachRate) }
    else if same_text(a, "-b") || same_text(a, "--bpm") { Some(Command::Bpm) }
    else if same_text(a, "-c") || same_text(a, "--circle-size") { Some(Command::CircleSize) }
    else if same_text(a, "-d") || same_text(a, "--hp-drain") { Some(Command::HpDrain) }
    else if same_text(a, "-h") || same_text(a, "--help") { Some(Command::Help) }
    else if same_text(a, "-g") || same_text(a, "--gosumemory") { Some(Command::Gosumemory) }
    else if same_text(a, "-o") || same_text(a, "--overall-difficulty") { Some(Command::OverallDifficulty) }
    else if same_text(a, "-p") || same_text(a, "--path") { Some(Command::Path) }
    else if same_text(a, "-r") || same_text(a, "--rate") { Some(Command::Rate) }
    else if same_text(a, "-V") || same_text(a, "--version") { Some(Command::Version) }
    else if same_text(a, "-z") { Some(Command::NoArchive) }
    else if same_text(a, "+z") { Some(Command::Archive) }
    else if same_text(a, "--clean") { Some(Command::Clean) }
    else if same_text(a, "--space") { Some(Command::Space) }
    else { None }
}

fn takes_no_value(c: Command) -> (r: bool)
    ensures
        r == is_flag(c),
{
    match c {
        Command::Help | Command::Version | Command::Gosumemory | Command::NoArchive | Command::Archive
        | Command::Clean | Command::Space => true,
        _ => false,
    }
}

/// The arguments with an empty value after each flag.
pub fn spread_args(args: &Vec<String>) -> (r: Vec<String>)
    ensures
        views(r@) == spread(views(args@)),
{
    let mut t: Vec<String> = Vec::new();
    let mut i: usize = 0;
    while i < args.len()
        invariant
            i <= args@.len(),
            views(t@) == spread(views(args@).take(i as int)),
        decreases args@.len() - i,
    {
        let a = &args[i];
        let ghost before = t@;
        proof {
            assert(views(args@).take(i + 1).drop_last() =~= views(args@).take(i as int));
            assert(views(args@).take(i + 1).last() == a@);
        }
        let flag = match classify(a.as_str()) {
            Some(c) => takes_no_value(c),
            None => false,
        };
        t.push(a.clone());
        if flag {
            t.push(String::new());
            proof {
                assert(views(t@) =~= views(before) + seq![a@, seq![]]);
            }
        } else {
            proof {
                assert(views(t@) =~= views(before).push(a@));
            }
        }
        i = i + 1;
    }
    proof {
        assert(views(args@).take(args@.len() as int) =~= views(args@));
    }
    t
}

/// Reads the command line `args`, without the program name.
pub fn parse_args(args: &Vec<String>) -> (r: Result<CliCommand, CliError>)
    ensures
        parsed_view(r) == parse_model(views(args@)),
{
    let t = spread_args(args);
    let n = t.len();
    let ghost tv = views(t@);
    let mut i: usize = 0;
    while i < n
        invariant
            n == t@.len(),
            tv == views(t@),
            tv == spread(views(args@)),
            i <= n,
            first_invalid(tv, 0) == first_invalid(tv, i as int),
        decreases n - i,
    {
        proof {
            assert(tv[i as int] == t@[i as int]@);
        }
        if classify(t[i].as_str()).is_none() {
            return Err(CliError::InvalidCommand(t[i].clone()));
        }
        proof {
            assert(first_invalid(tv, i as int) == first_invalid(tv, i + 2));
            if n - i <= 2 {
                assert(first_invalid(tv, i + 2) is None);
                assert(first_invalid(tv, n as int) is None);
            }
        }
        i = if n - i > 2 { i + 2 } else { n };
    }
    let mut opts = CliOptions {
        approach_rate: None,
        bpm: None,
        circle_size: None,
        hp_drain: None,
        overall_difficulty: None,
        path: None,
        rate: None,
        gosumemory: false,
        archive: None,
    };
    proof {
        assert(opts@ == empty_model());
    }
    let mut i: usize = 0;
    while i < n
        invariant
            n == t@.len(),
            tv == views(t@),
            tv == spread(views(args@)),
            i <= n,
            first_invalid(tv, 0) is None,
            parse_model(views(args@)) == interpret(tv, i as int, opts@),
        decreases n - i,
    {
        let c = match classify(t[i].as_str()) {
            Some(c) => c,
            None => {
                return Err(CliError::InvalidCommand(t[i].clone()));
            },
        };
        if n - i < 2 {
            return Err(CliError::MissingValue(t[i].clone()));
        }
        let v = &t[i + 1];
        let ghost m = opts@;
        match c {
            Command::Help => {
                return Ok(CliCommand::Help);
            },
            Command::Version => {
                return Ok(CliCommand::Version);
            },
            Command::Clean => {
                return Ok(CliCommand::Clean);
            },
            Command::Space => {
                return Ok(CliCommand::Space);
            },
            Command::Path => {
                opts.path = Some(v.clone());
            },
            Command::Gosumemory => {
                opts.gosumemory = true;
            },
            Command::NoArchive => {
                opts.archive = Some(false);
            },
            Command::Archive => {
                opts.archive = Some(true);
            },
            Command::Bpm => {
                match parse_unsigned(v.as_str()) {
                    Some(x) => if x <= u64::MAX as u128 {
                        opts.bpm = Some(x as u64);
                    } else {
                        return Err(CliError::InvalidNumber(v.clone()));
                    },
                    None => {
                        return Err(CliError::InvalidNumber(v.clone()));
                    },
                }
            },
            _ => {
                let x = match parse_hundredths(v.as_str()) {
                    Some(x) => x,
                    None => {
                        return Err(CliError::InvalidNumber(v.clone()));
                    },
                };
                match c {
                    Command::ApproachRate => {
                        opts.approach_rate = Some(x);
                    },
                    Command::CircleSize => {
                        opts.circle_size = Some(x);
                    },
                    Command::HpDrain => {
                        opts.hp_drain = Some(x);
                    },
                    Command::OverallDifficulty => {
                        opts.overall_difficulty = Some(x);
                    },
                    _ => {
                        opts.rate = Some(x);
                    },
                }
            },
        }
        proof {
            assert(effect(c, tv[i + 1], m) == Effect::Continue(opts@));
        }
        i = if n - i > 2 { i + 2 } else { n };
    }
    Ok(CliCommand::Generate(opts))
}

/// The rate, in hundredths, that takes a map of `map_bpm` to `target_bpm`:
/// `round(target_bpm / map_bpm)` to two decimals.
pub open spec fn rate_for(target_bpm: nat, map_bpm: nat) -> int {
    round_div(100 * target_bpm as int, map_bpm as int)
}

/// The rate that takes a map of `map_bpm` to `target_bpm`; none for a map
/// without tempo or a rate beyond `u32`.
pub fn rate_for_bpm(target_bpm: u64, map_bpm: u64) -> (r: Option<u32>)
    ensures
        r matches Some(x) ==> map_bpm > 0 && x as int == rate_for(target_bpm as nat, map_bpm as nat),
        r is None ==> map_bpm == 0 || rate_for(target_bpm as nat, map_bpm as nat) > u32::MAX,
{
    if map_bpm == 0 {
        return None;
    }
    let t = target_bpm as u128;
    let m = map_bpm as u128;
    let v = (200 * t + m) / (2 * m);
    if v > u32::MAX as u128 {
        None
    } else {
        Some(v as u32)
    }
}

} // verus!
