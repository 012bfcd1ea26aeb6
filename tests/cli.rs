use ruso::cli::{parse_args, rate_for_bpm, CliCommand, CliError};

fn args(v: &[&str]) -> Vec<String> {
    v.iter().map(|s| s.to_string()).collect()
}

#[test]
fn options_are_read() {
    let r = parse_args(&args(&["-r", "1.5", "-p", "map.osu", "-z", "-a", "9.25", "--bpm", "180"]));
    match r {
        Ok(CliCommand::Generate(o)) => {
            assert_eq!(o.rate, Some(150));
            assert_eq!(o.path.as_deref(), Some("map.osu"));
            assert_eq!(o.archive, Some(false));
            assert_eq!(o.approach_rate, Some(925));
            assert_eq!(o.bpm, Some(180));
            assert_eq!(o.circle_size, None);
            assert!(!o.gosumemory);
        },
        _ => panic!("expected options"),
    }
}

#[test]
fn later_values_win() {
    match parse_args(&args(&["+z", "-r", "1.2", "--rate", "1.3", "-g", "-z"])) {
        Ok(CliCommand::Generate(o)) => {
            assert_eq!(o.rate, Some(130));
            assert_eq!(o.archive, Some(false));
            assert!(o.gosumemory);
        },
        _ => panic!("expected options"),
    }
}

#[test]
fn help_and_version_stop() {
    assert!(matches!(parse_args(&args(&["-h"])), Ok(CliCommand::Help)));
    assert!(matches!(parse_args(&args(&["-r", "1.5", "--version", "-r", "x"])), Ok(CliCommand::Version)));
    assert!(matches!(parse_args(&args(&["-r", "x", "-h"])), Err(CliError::InvalidNumber(v)) if v == "x"));
}

#[test]
fn refused_command_lines() {
    assert!(matches!(parse_args(&args(&["-r", "1.5", "-x", "1"])), Err(CliError::InvalidCommand(a)) if a == "-x"));
    assert!(matches!(parse_args(&args(&["-h", "-x"])), Err(CliError::InvalidCommand(a)) if a == "-x"));
    assert!(matches!(parse_args(&args(&["-r"])), Err(CliError::MissingValue(a)) if a == "-r"));
    assert!(matches!(parse_args(&args(&["-b", "1.5"])), Err(CliError::InvalidNumber(a)) if a == "1.5"));
    assert!(matches!(parse_args(&args(&[])), Ok(CliCommand::Generate(o)) if o.rate.is_none()));
}

#[test]
fn rate_from_bpm() {
    assert_eq!(rate_for_bpm(180, 120), Some(150));
    assert_eq!(rate_for_bpm(200, 150), Some(133));
    assert_eq!(rate_for_bpm(100, 0), None);
    assert_eq!(rate_for_bpm(u64::MAX, 1), None);
}

#[test]
fn ledger_commands() {
    assert!(matches!(parse_args(&args(&["--clean"])), Ok(CliCommand::Clean)));
    assert!(matches!(parse_args(&args(&["-z", "--space", "-r", "x"])), Ok(CliCommand::Space)));
    assert!(matches!(parse_args(&args(&["--clean", "-q"])), Err(CliError::InvalidCommand(a)) if a == "-q"));
}
