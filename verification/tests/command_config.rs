use flexpart_gpu::config::{normalize_timestamp, CommandConfig, ConfigError};

#[test]
fn parse_minimal_command_namelist() {
    let input = r#"
        &COMMAND
          IBDATE = 20240101,
          IBTIME = 120000,
          IEDATE = 20240101,
          IETIME = 180000,
          LOUTSTEP = 3600,
        /
    "#;
    let command = CommandConfig::parse(input, "<inline>").expect("parse command");
    assert_eq!(command.start_time, "20240101120000");
    assert_eq!(command.end_time, "20240101180000");
    assert_eq!(command.output_interval_seconds, Some(3600));
}

#[test]
fn validation_failures_reported() {
    let bad = CommandConfig::parse(
        "&COMMAND\nSTART=20240102120000, END=20240101120000\n/\n",
        "<inline>",
    );
    match bad {
        Err(ConfigError::Validation { message }) => assert_eq!(
            message,
            "COMMAND start_time `20240102120000` is after end_time `20240101120000`"
        ),
        Err(other) => panic!("unexpected: {}", other.to_message()),
        Ok(_) => panic!("must fail"),
    }
}

#[test]
fn direct_keys_win_over_date_time_pairs() {
    let command = CommandConfig::parse(
        "&command ! comment\n start = '2024-01-01 06', ibdate=20230101, end=2024010112 # x\n lsynctime=+900 /",
        "f",
    )
    .expect("parse");
    assert_eq!(command.start_time, "20240101060000");
    assert_eq!(command.end_time, "20240101120000");
    assert_eq!(command.output_interval_seconds, None);
    assert_eq!(command.sync_interval_seconds, Some(900));
    assert_eq!(command.raw.get("ibdate").map(String::as_str), Some("20230101"));
}

#[test]
fn command_errors_carry_context() {
    let missing = CommandConfig::parse("&RELEASE\nA=1\n/", "C1").err().expect("no section");
    assert_eq!(
        missing.to_message(),
        "parse error in COMMAND (C1): expected `&COMMAND ... /` section"
    );
    let open = CommandConfig::parse("&COMMAND\nA=1\n", "C2").err().expect("open section");
    assert_eq!(
        open.to_message(),
        "parse error in COMMAND (C2): section `&COMMAND` is missing a terminating `/`"
    );
    let no_end = CommandConfig::parse("&COMMAND start=20240101 /", "C3").err().expect("no end");
    assert_eq!(no_end.to_message(), "missing key `end_time` in COMMAND (C3)");
    let bad_step =
        CommandConfig::parse("&COMMAND start=20240101, end=20240102, outstep=-5 /", "C4")
            .err()
            .expect("bad step");
    assert_eq!(
        bad_step.to_message(),
        "invalid value for `loutstep` in COMMAND (C4): `-5` (expected unsigned integer)"
    );
    let zero = CommandConfig::parse("&COMMAND start=20240101, end=20240102, loutstep=0 /", "C5")
        .err()
        .expect("zero step");
    assert_eq!(zero.to_message(), "validation error: COMMAND output interval must be > 0");
    let huge = CommandConfig::parse(
        "&COMMAND start=20240101, end=20240102, loutstep=18446744073709551616 /",
        "C6",
    );
    assert!(matches!(huge, Err(ConfigError::InvalidValue { .. })));
    let pair = CommandConfig::parse("&COMMAND ibdate=20241301, end=20250101 /", "C7")
        .err()
        .expect("bad month");
    assert_eq!(
        pair.to_message(),
        "invalid value for `ibdate/ibtime` in COMMAND (C7): `20241301000000` (month must be in [1, 12])"
    );
}

#[test]
fn timestamps_are_widened_and_checked() {
    assert_eq!(normalize_timestamp("2024-01-01"), Ok("20240101000000".to_string()));
    assert_eq!(normalize_timestamp("2024-01-01T06:30"), Ok("20240101063000".to_string()));
    assert_eq!(normalize_timestamp("20240101235959"), Ok("20240101235959".to_string()));
    assert_eq!(
        normalize_timestamp("202401011"),
        Err("expected a date/time with 8, 10, 12, or 14 digits (YYYYMMDD[HH[MM[SS]]])".to_string())
    );
    assert_eq!(normalize_timestamp("00000101"), Err("year must be > 0".to_string()));
    assert_eq!(normalize_timestamp("20240132"), Err("day must be in [1, 31]".to_string()));
    assert_eq!(normalize_timestamp("2024013124"), Err("hour must be in [0, 23]".to_string()));
    assert_eq!(normalize_timestamp("202401312360"), Err("minute must be in [0, 59]".to_string()));
    assert_eq!(
        normalize_timestamp("20240131235960"),
        Err("second must be in [0, 59]".to_string())
    );
}
