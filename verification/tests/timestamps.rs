use flexpart_gpu::timestamp::{
    civil_from_days, days_from_civil, end_timestamp, format_timestamp_seconds,
    parse_timestamp_seconds, TimestampError,
};

#[test]
fn end_timestamp_is_not_hard_coded_to_2024_01_01() {
    assert_eq!(end_timestamp("20240228235900", 120).expect("timestamp"), "20240229000100");
}

#[test]
fn epoch_origin_reads_as_zero_seconds() {
    assert_eq!(parse_timestamp_seconds("19700101000000"), Ok(0));
    assert_eq!(parse_timestamp_seconds("19700102000001"), Ok(86_401));
}

#[test]
fn parse_then_format_gives_back_the_text() {
    for text in ["20240229235959", "00010101000000", "99991231235959", "19691231235959"] {
        let seconds = parse_timestamp_seconds(text).expect("valid timestamp");
        assert_eq!(format_timestamp_seconds(seconds).expect("in range"), text);
    }
}

#[test]
fn malformed_timestamps_are_rejected() {
    assert_eq!(parse_timestamp_seconds("2024010112000"), Err(TimestampError::NotFourteenDigits));
    assert_eq!(parse_timestamp_seconds("2024010112000x"), Err(TimestampError::NotFourteenDigits));
    assert_eq!(parse_timestamp_seconds("20230229000000"), Err(TimestampError::InvalidGregorian));
    assert_eq!(parse_timestamp_seconds("20240100000000"), Err(TimestampError::InvalidGregorian));
    assert_eq!(parse_timestamp_seconds("20240101240000"), Err(TimestampError::InvalidGregorian));
}

#[test]
fn out_of_range_instants_are_rejected() {
    assert_eq!(format_timestamp_seconds(i64::MAX), Err(TimestampError::OutOfRange));
    assert_eq!(end_timestamp("99991231235959", 1), Err(TimestampError::OutOfRange));
    assert_eq!(end_timestamp("20240101000000", i64::MAX), Err(TimestampError::Overflow));
}

#[test]
fn civil_day_numbers_round_trip() {
    assert_eq!(days_from_civil(1970, 1, 1), 0);
    assert_eq!(days_from_civil(2000, 3, 1), 11_017);
    assert_eq!(civil_from_days(11_017), (2000, 3, 1));
    assert_eq!(civil_from_days(-1), (1969, 12, 31));
    assert_eq!(civil_from_days(days_from_civil(2024, 2, 29)), (2024, 2, 29));
}

#[test]
fn closed_form_covers_years_outside_the_timestamp_range() {
    assert_eq!(days_from_civil(0, 3, 1), -719_468);
    assert_eq!(civil_from_days(-719_468), (0, 3, 1));
    assert_eq!(civil_from_days(-719_469), (0, 2, 29));
    assert_eq!(days_from_civil(-1, 12, 31), -719_529);
    assert_eq!(civil_from_days(-719_529), (-1, 12, 31));
    assert_eq!(days_from_civil(10_000, 1, 1), 2_932_897);
    assert_eq!(civil_from_days(2_932_897), (10_000, 1, 1));
}

#[test]
fn closed_form_rolls_over_out_of_range_months_and_days() {
    assert_eq!(days_from_civil(2024, 13, 1), days_from_civil(2025, 1, 1));
    assert_eq!(days_from_civil(2025, 1, 1), 20_089);
    assert_eq!(days_from_civil(2024, 2, 30), days_from_civil(2024, 3, 1));
    assert_eq!(days_from_civil(2024, 1, 0), days_from_civil(2023, 12, 31));
}
