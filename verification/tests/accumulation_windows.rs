use flexpart_gpu::meteorology::accumulation::{
    derive_interval, report_row_outcomes, resolve_interval_windows, AccumulationError, AmountState,
    ObservationWindow, RowOutcome,
};

/// Observations `(valid time, reset, amount)` as the window logic reads them.
fn windows(observations: &[(i64, i64, f64)]) -> Vec<ObservationWindow> {
    observations
        .iter()
        .enumerate()
        .map(|(i, &(t, r, amount))| ObservationWindow {
            valid_time_epoch_seconds: t,
            reset_epoch_seconds: r,
            amount: if !amount.is_finite() {
                AmountState::NonFinite
            } else if amount < 0.0 {
                AmountState::Negative
            } else {
                AmountState::Valid
            },
            below_previous: i > 0 && amount < observations[i - 1].2,
        })
        .collect()
}

#[test]
fn monotonic_run_without_reset_derives_interval_amounts_and_rates() {
    let resolved = resolve_interval_windows(&windows(&[
        (1_800, 0, 1.0),
        (3_600, 0, 3.0),
        (5_400, 0, 6.0),
        (7_200, 0, 6.0),
    ]))
    .expect("single-run sequence must resolve");
    let expected = [
        (0, 1_800, true, false),
        (1_800, 3_600, false, false),
        (3_600, 5_400, false, false),
        (5_400, 7_200, false, false),
    ];
    assert_eq!(resolved.windows.len(), 4);
    for (w, (start, end, reset_applied, detected)) in resolved.windows.iter().zip(expected) {
        assert_eq!(w.interval_start_epoch_seconds, start);
        assert_eq!(w.interval_end_epoch_seconds, end);
        assert_eq!(w.reset_applied, reset_applied);
        assert_eq!(w.detected_reset, detected);
    }
    assert_eq!(resolved.detected_reset_count, 0);
}

#[test]
fn leading_interval_uses_declared_reset_start() {
    let resolved = resolve_interval_windows(&windows(&[(1_800, 600, 2.0), (3_600, 600, 6.0)]))
        .expect("sequence resolves");
    let leading = &resolved.windows[0];
    assert_eq!(leading.interval_start_epoch_seconds, 600);
    assert_eq!(leading.interval_end_epoch_seconds, 1_800);
    assert!(leading.reset_applied);
}

#[test]
fn contiguous_declared_reset_applies_fresh_run_amount() {
    let resolved = resolve_interval_windows(&windows(&[
        (1_800, 0, 1.0),
        (3_600, 1_800, 4.0),
        (5_400, 1_800, 7.0),
    ]))
    .expect("contiguous reset sequence resolves");
    let expected = [(0, 1_800, true), (1_800, 3_600, true), (3_600, 5_400, false)];
    for (w, (start, end, reset_applied)) in resolved.windows.iter().zip(expected) {
        assert_eq!(w.interval_start_epoch_seconds, start);
        assert_eq!(w.interval_end_epoch_seconds, end);
        assert_eq!(w.reset_applied, reset_applied);
    }
    assert_eq!(resolved.detected_reset_count, 1);
}

#[test]
fn same_run_decrease_fails_closed_and_is_not_treated_as_reset() {
    let error = resolve_interval_windows(&windows(&[(1_800, 0, 1.0), (3_600, 0, 0.5)]))
        .expect_err("decreasing same-run amount must fail closed");
    assert_eq!(error, AccumulationError::NegativeDelta { index: 1 });
}

#[test]
fn backwards_reset_fails_closed() {
    let error = resolve_interval_windows(&windows(&[(1_800, 0, 1.0), (3_600, -100, 2.0)]))
        .expect_err("backwards reset must fail closed");
    assert_eq!(error, AccumulationError::BackwardsReset { index: 1, previous: 0, current: -100 });
}

#[test]
fn mid_window_reset_fails_closed() {
    let error = resolve_interval_windows(&windows(&[(1_800, 0, 1.0), (3_600, 1_200, 2.0)]))
        .expect_err("mid-window reset must fail closed");
    assert_eq!(
        error,
        AccumulationError::MidWindowReset { index: 1, reset: 1_200, previous_valid_time: 1_800 }
    );
}

#[test]
fn uncovered_gap_after_forward_reset_fails_closed() {
    let error = resolve_interval_windows(&windows(&[(1_800, 0, 1.0), (5_400, 3_600, 2.0)]))
        .expect_err("uncovered gap must fail closed");
    assert_eq!(
        error,
        AccumulationError::UncoveredGap { index: 1, previous_valid_time: 1_800, reset: 3_600 }
    );
}

#[test]
fn reset_not_before_valid_time_fails_closed() {
    let error = resolve_interval_windows(&windows(&[(1_800, 0, 1.0), (3_600, 3_600, 5.0)]))
        .expect_err("zero-length reset window must fail closed");
    assert_eq!(
        error,
        AccumulationError::ResetNotBeforeValidTime { index: 1, reset: 3_600, valid_time: 3_600 }
    );
}

#[test]
fn equal_valid_times_fail_closed() {
    let error = resolve_interval_windows(&windows(&[(1_800, 0, 1.0), (1_800, 0, 2.0)]))
        .expect_err("equal valid times must fail closed");
    assert_eq!(
        error,
        AccumulationError::NonIncreasingTimestamps { index: 1, previous: 1_800, current: 1_800 }
    );
}

#[test]
fn empty_sequence_fails_closed() {
    let error = resolve_interval_windows(&Vec::new()).expect_err("empty sequence must fail");
    assert_eq!(error, AccumulationError::EmptySequence);
}

#[test]
fn negative_source_amount_fails_closed() {
    let error = resolve_interval_windows(&windows(&[(1_800, 0, -1.0)]))
        .expect_err("negative amount must fail closed");
    assert_eq!(error, AccumulationError::NegativeAmount { index: 0 });
}

#[test]
fn non_finite_source_amount_fails_closed() {
    let error = resolve_interval_windows(&windows(&[(1_800, 0, f64::NAN)]))
        .expect_err("non-finite amount must fail closed");
    assert_eq!(error, AccumulationError::NonFiniteAmount { index: 0 });
}

#[test]
fn windows_tile_the_covered_period() {
    let obs = windows(&[(600, 0, 1.0), (1_200, 0, 2.0), (2_400, 1_200, 0.5), (3_000, 1_200, 0.5)]);
    let resolved = resolve_interval_windows(&obs).expect("resolves");
    assert_eq!(resolved.windows[0].interval_start_epoch_seconds, 0);
    for i in 1..obs.len() {
        assert_eq!(
            resolved.windows[i].interval_start_epoch_seconds,
            resolved.windows[i - 1].interval_end_epoch_seconds
        );
        assert!(
            resolved.windows[i].interval_start_epoch_seconds
                < resolved.windows[i].interval_end_epoch_seconds
        );
    }
    assert_eq!(resolved.windows[3].interval_end_epoch_seconds, 3_000);
    assert_eq!(resolved.detected_reset_count, 1);
}

#[test]
fn later_rows_derive_independently_of_an_earlier_failure() {
    let obs = windows(&[(1_800, 0, 1.0), (3_600, 0, 0.5), (5_400, 0, 2.0)]);
    assert_eq!(derive_interval(&obs, 1), Err(AccumulationError::NegativeDelta { index: 1 }));
    let third = derive_interval(&obs, 2).expect("third row has its own window");
    assert_eq!(third.interval_start_epoch_seconds, 3_600);
    assert!(!third.reset_applied);
}

#[test]
fn report_blocks_rows_after_first_failure() {
    let rows = report_row_outcomes(&windows(&[
        (3_600, 0, 1.0),
        (7_200, 0, 0.5),
        (10_800, 0, 2.0),
    ]));
    assert_eq!(rows.len(), 3);
    match rows[0] {
        RowOutcome::Derived(w) => {
            assert_eq!(w.interval_start_epoch_seconds, 0);
            assert_eq!(w.interval_end_epoch_seconds, 3_600);
        }
        other => panic!("unexpected {other:?}"),
    }
    assert_eq!(
        rows[1],
        RowOutcome::Rejected(
            AccumulationError::NegativeDelta { index: 1 }
        )
    );
    assert_eq!(
        rows[2],
        RowOutcome::Blocked { failed: 1 }
    );
}

#[test]
fn report_rows_all_derived_for_a_resolving_sequence() {
    let obs = windows(&[(3_600, 0, 1.0), (7_200, 3_600, 0.5)]);
    let rows = report_row_outcomes(&obs);
    let resolved = resolve_interval_windows(&obs).expect("resolves");
    for (row, window) in rows.iter().zip(resolved.windows.iter()) {
        assert_eq!(
            *row,
            RowOutcome::Derived(*window)
        );
    }
    assert!(report_row_outcomes(&Vec::new()).is_empty());
}

#[test]
fn report_records_source_metadata_derived_values_and_reset_flags() {
    let rows = report_row_outcomes(&windows(&[
        (1_800, 0, 1.0),
        (3_600, 1_800, 4.0),
        (5_400, 1_800, 7.0),
    ]));
    assert_eq!(rows.len(), 3);
    match rows[0] {
        RowOutcome::Derived(w) => {
            assert!(!w.detected_reset);
            assert!(w.reset_applied);
            assert_eq!(w.interval_start_epoch_seconds, 0);
            assert_eq!(w.interval_end_epoch_seconds, 1_800);
        }
        other => panic!("unexpected {other:?}"),
    }
    match rows[1] {
        RowOutcome::Derived(w) => {
            assert!(w.detected_reset);
            assert!(w.reset_applied);
            assert_eq!(w.interval_start_epoch_seconds, 1_800);
        }
        other => panic!("unexpected {other:?}"),
    }
    assert!(matches!(rows[2], RowOutcome::Derived(_)));
}

#[test]
fn report_records_failed_rows_with_reason() {
    let rows = report_row_outcomes(&windows(&[(1_800, 0, 1.0), (3_600, 0, 0.5)]));
    let failed = rows.iter().filter(|row| !matches!(row, RowOutcome::Derived(_))).count();
    assert_eq!(failed, 1);
    assert_eq!(
        rows[1],
        RowOutcome::Rejected(AccumulationError::NegativeDelta { index: 1 })
    );
}

#[test]
fn report_blocks_tail_after_failed_observation() {
    let rows = report_row_outcomes(&windows(&[
        (1_800, 0, 1.0),
        (3_600, 0, 0.5),
        (5_400, 0, 5.0),
    ]));
    let failed = rows.iter().filter(|row| !matches!(row, RowOutcome::Derived(_))).count();
    assert_eq!(failed, 2);
    assert!(matches!(rows[0], RowOutcome::Derived(_)));
    assert!(matches!(rows[1], RowOutcome::Rejected(_)));
    assert_eq!(rows[2], RowOutcome::Blocked { failed: 1 });
}
