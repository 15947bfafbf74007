use flexpart_gpu::meteorology::checks::FieldTime;
use flexpart_gpu::meteorology::temporal::{
    bracket_request, extract_series, RequestedSampleTime, SeriesFieldInput, TemporalApplication,
    TemporalError, Verdict,
};
use flexpart_gpu::meteorology::{
    Calendar, FieldId, HorizontalStaggering, TemporalKind, TemporalPolicy, VerticalStaggering,
};

fn entry(t: i64) -> Option<SeriesFieldInput> {
    Some(SeriesFieldInput {
        time: FieldTime {
            calendar: Calendar::Gregorian,
            kind: TemporalKind::Instantaneous,
            valid_time_epoch_seconds: t,
            interval_start_epoch_seconds: None,
            interval_end_epoch_seconds: None,
            accumulation: None,
        },
        horizontal_staggering: HorizontalStaggering::CellCenter,
        vertical_staggering: VerticalStaggering::LevelCenter,
        shape: vec![2, 1, 2],
        value_count: 4,
        first_non_finite: None,
    })
}

#[test]
fn verdicts_round_trip_booleans() {
    assert!(Verdict::from_bool(true).is_pass());
    assert!(!Verdict::from_bool(false).is_pass());
    assert_eq!(Verdict::from_bool(Verdict::Fail.is_pass()), Verdict::Fail);
    let request = RequestedSampleTime::new(Calendar::ProlepticGregorian, 7);
    assert_eq!(request.epoch_seconds, 7);
}

#[test]
fn requests_are_located_in_the_series() {
    let series = extract_series(FieldId::Temperature, &vec![entry(0), entry(3_600), entry(7_200)])
        .expect("valid series");
    let at = |t: i64| bracket_request(&series, RequestedSampleTime::new(Calendar::Gregorian, t));
    let first = at(0).expect("first");
    assert_eq!(first.application, TemporalApplication::FirstEndpoint);
    assert_eq!((first.lower_index, first.dt1_seconds, first.dt2_seconds), (0, 0, 3_600));
    let interior = at(900).expect("interior");
    assert_eq!(interior.application, TemporalApplication::LinearInterior);
    assert_eq!((interior.dt1_seconds, interior.dt2_seconds), (900, 2_700));
    let exact = at(3_600).expect("exact");
    assert_eq!(exact.application, TemporalApplication::ExactSourceTimestamp);
    assert_eq!((exact.lower_index, exact.dt2_seconds), (0, 0));
    let last = at(7_200).expect("last");
    assert_eq!(last.application, TemporalApplication::LastEndpoint);
    assert_eq!(last.source_timestamps.upper_epoch_seconds, 7_200);
    assert_eq!(at(-1), Err(TemporalError::BeforeFirstCoverage { requested: -1, first: 0 }));
    assert_eq!(
        at(7_201),
        Err(TemporalError::AfterLastCoverage { requested: 7_201, last: 7_200 })
    );
    assert_eq!(
        bracket_request(&series, RequestedSampleTime::new(Calendar::ProlepticGregorian, 0)),
        Err(TemporalError::CalendarMismatch {
            requested: Calendar::ProlepticGregorian,
            series: Calendar::Gregorian
        })
    );
}

#[test]
fn inconsistent_series_fail_closed() {
    let id = FieldId::WindU;
    assert_eq!(
        extract_series(id, &vec![entry(0)]).err(),
        Some(TemporalError::InsufficientTemporalCoverage { snapshots: 1 })
    );
    assert_eq!(
        extract_series(id, &vec![entry(0), None]).err(),
        Some(TemporalError::MissingFieldSnapshot { snapshot_index: 1, field_id: id })
    );
    assert_eq!(
        extract_series(id, &vec![entry(10), entry(10)]).err(),
        Some(TemporalError::NonMonotonicTimestamps { index: 1, previous: 10, current: 10 })
    );
    let mut other_calendar = entry(20);
    other_calendar.as_mut().unwrap().time.calendar = Calendar::ProlepticGregorian;
    assert_eq!(
        extract_series(id, &vec![entry(10), other_calendar]).err(),
        Some(TemporalError::InconsistentCalendar {
            calendar_a: Calendar::Gregorian,
            calendar_b: Calendar::ProlepticGregorian
        })
    );
    let mut mean = entry(20);
    mean.as_mut().unwrap().time.kind = TemporalKind::IntervalMean;
    assert_eq!(
        extract_series(id, &vec![entry(10), mean]).err(),
        Some(TemporalError::NonInstantaneousSnapshot {
            snapshot_index: 1,
            field_id: id,
            kind: TemporalKind::IntervalMean
        })
    );
    let mut nan = entry(20);
    nan.as_mut().unwrap().first_non_finite = Some(3);
    assert_eq!(
        extract_series(id, &vec![entry(10), nan]).err(),
        Some(TemporalError::NonFiniteValue { field_id: id, snapshot_index: 1, element_index: 3 })
    );
    let mut bigger = entry(20);
    bigger.as_mut().unwrap().value_count = 6;
    assert_eq!(
        extract_series(id, &vec![entry(10), bigger]).err(),
        Some(TemporalError::InconsistentFieldShape {
            field_id: id,
            snapshot_index: 1,
            expected: 4,
            actual: 6
        })
    );
    let mut face = entry(20);
    face.as_mut().unwrap().horizontal_staggering = HorizontalStaggering::XFace;
    assert_eq!(
        extract_series(id, &vec![entry(10), face]).err(),
        Some(TemporalError::InconsistentStaggering { field_id: id, snapshot_index: 1 })
    );
}

#[test]
fn non_instantaneous_policies_are_refused_before_the_series_is_read() {
    assert_eq!(FieldId::Temperature.temporal_policy(), TemporalPolicy::Instantaneous);
    assert_eq!(
        FieldId::LargeScalePrecipitation.temporal_policy(),
        TemporalPolicy::PrecipitationAmount
    );
    assert_eq!(FieldId::SensibleHeatFlux.temporal_policy(), TemporalPolicy::SurfaceFluxRate);
    assert_eq!(FieldId::Orography.temporal_policy(), TemporalPolicy::Static);
    assert_eq!(
        extract_series(FieldId::ConvectivePrecipitation, &Vec::new()).err(),
        Some(TemporalError::UnsupportedTemporalPolicy {
            field_id: FieldId::ConvectivePrecipitation,
            temporal_policy: TemporalPolicy::PrecipitationAmount,
        })
    );
    assert_eq!(
        extract_series(FieldId::Temperature, &Vec::new()).err(),
        Some(TemporalError::InsufficientTemporalCoverage { snapshots: 0 })
    );
}
