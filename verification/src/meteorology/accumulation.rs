//! Interval and reset semantics of accumulated fields.
//!
//! An accumulated observation `(t_i, R_i, a_i)` holds the total `a_i` since
//! the declared run start `R_i`, read at `t_i`. The leading interval is
//! `[R_0, t_0]`; within a run (`R_i == R_(i-1)`) the interval is
//! `[t_(i-1), t_i]` and its amount the increase of the total; a new run must
//! start exactly at the previous valid time, and then the interval is
//! `[t_(i-1), t_i]` with the new total as amount. Everything else fails
//! closed. The windows found this way tile `[R_0, t_last]` without gaps.

use vstd::prelude::*;

verus! {

/// What the window logic reads of an accumulated amount.
#[derive(Debug, Clone, Copy, PartialEq, Eq, Structural)]
pub enum AmountState {
    /// A finite, non-negative amount.
    Valid,
    /// A finite negative amount.
    Negative,
    /// NaN or infinite.
    NonFinite,
}

/// One accumulated observation as the window logic reads it.
#[derive(Debug, Clone, Copy, PartialEq, Eq, Structural)]
pub struct ObservationWindow {
    pub valid_time_epoch_seconds: i64,
    pub reset_epoch_seconds: i64,
    pub amount: AmountState,
    /// The amount is smaller than the previous observation's amount.
    pub below_previous: bool,
}

/// The interval an observation accounts for.
#[derive(Debug, Clone, Copy, PartialEq, Eq, Structural)]
pub struct IntervalWindow {
    pub interval_start_epoch_seconds: i64,
    pub interval_end_epoch_seconds: i64,
    /// The interval amount is the observed total (leading interval or a new
    /// run) rather than the increase over the previous total.
    pub reset_applied: bool,
    /// The observation declares a new run relative to the previous one.
    pub detected_reset: bool,
}

/// Why an accumulated sequence cannot be resolved.
#[derive(Debug, Clone, Copy, PartialEq, Eq, Structural)]
pub enum AccumulationError {
    EmptySequence,
    NonIncreasingTimestamps { index: usize, previous: i64, current: i64 },
    BackwardsReset { index: usize, previous: i64, current: i64 },
    ResetNotBeforeValidTime { index: usize, reset: i64, valid_time: i64 },
    MidWindowReset { index: usize, reset: i64, previous_valid_time: i64 },
    UncoveredGap { index: usize, previous_valid_time: i64, reset: i64 },
    /// Within a run the total decreased.
    NegativeDelta { index: usize },
    NegativeAmount { index: usize },
    NonFiniteAmount { index: usize },
}

/// Outcome recorded for one report row.
#[derive(Debug, Clone, PartialEq, Eq)]
pub enum Verdict {
    Passed,
    /// Resolution failed closed; the text gives the reason.
    Failed(String),
}

/// The window of observation `i` given its predecessor, or the first
/// violation, checked in order: amount, reset before valid time, then
/// (after the first) increasing time, no backwards reset, and either growth
/// within the run or a new run starting exactly at the previous valid time.
pub open spec fn window_of(obs: Seq<ObservationWindow>, i: int) -> Result<
    IntervalWindow,
    AccumulationError,
> {
    let o = obs[i];
    let idx = i as usize;
    if o.amount == AmountState::NonFinite {
        Err(AccumulationError::NonFiniteAmount { index: idx })
    } else if o.amount == AmountState::Negative {
        Err(AccumulationError::NegativeAmount { index: idx })
    } else if o.reset_epoch_seconds >= o.valid_time_epoch_seconds {
        Err(
            AccumulationError::ResetNotBeforeValidTime {
                index: idx,
                reset: o.reset_epoch_seconds,
                valid_time: o.valid_time_epoch_seconds,
            },
        )
    } else if i == 0 {
        Ok(
            IntervalWindow {
                interval_start_epoch_seconds: o.reset_epoch_seconds,
                interval_end_epoch_seconds: o.valid_time_epoch_seconds,
                reset_applied: true,
                detected_reset: false,
            },
        )
    } else {
        let p = obs[i - 1];
        if o.valid_time_epoch_seconds <= p.valid_time_epoch_seconds {
            Err(
                AccumulationError::NonIncreasingTimestamps {
                    index: idx,
                    previous: p.valid_time_epoch_seconds,
                    current: o.valid_time_epoch_seconds,
                },
            )
        } else if o.reset_epoch_seconds < p.reset_epoch_seconds {
            Err(
                AccumulationError::BackwardsReset {
                    index: idx,
                    previous: p.reset_epoch_seconds,
                    current: o.reset_epoch_seconds,
                },
            )
        } else if o.reset_epoch_seconds == p.reset_epoch_seconds {
            if o.below_previous {
                Err(AccumulationError::NegativeDelta { index: idx })
            } else {
                Ok(
                    IntervalWindow {
                        interval_start_epoch_seconds: p.valid_time_epoch_seconds,
                        interval_end_epoch_seconds: o.valid_time_epoch_seconds,
                        reset_applied: false,
                        detected_reset: false,
                    },
                )
            }
        } else if o.reset_epoch_seconds < p.valid_time_epoch_seconds {
            Err(
                AccumulationError::MidWindowReset {
                    index: idx,
                    reset: o.reset_epoch_seconds,
                    previous_valid_time: p.valid_time_epoch_seconds,
                },
            )
        } else if o.reset_epoch_seconds > p.valid_time_epoch_seconds {
            Err(
                AccumulationError::UncoveredGap {
                    index: idx,
                    previous_valid_time: p.valid_time_epoch_seconds,
                    reset: o.reset_epoch_seconds,
                },
            )
        } else {
            Ok(
                IntervalWindow {
                    interval_start_epoch_seconds: o.reset_epoch_seconds,
                    interval_end_epoch_seconds: o.valid_time_epoch_seconds,
                    reset_applied: true,
                    detected_reset: true,
                },
            )
        }
    }
}

/// The window of observation `index` (its predecessor, if any, is read too).
pub fn derive_interval(observations: &Vec<ObservationWindow>, index: usize) -> (r: Result<
    IntervalWindow,
    AccumulationError,
>)
    requires
        index < observations.len(),
    ensures
        r == window_of(observations@, index as int),
{
    let o = observations[index];
    if o.amount == AmountState::NonFinite {
        return Err(AccumulationError::NonFiniteAmount { index });
    }
    if o.amount == AmountState::Negative {
        return Err(AccumulationError::NegativeAmount { index });
    }
    if o.reset_epoch_seconds >= o.valid_time_epoch_seconds {
        return Err(
            AccumulationError::ResetNotBeforeValidTime {
                index,
                reset: o.reset_epoch_seconds,
                valid_time: o.valid_time_epoch_seconds,
            },
        );
    }
    if index == 0 {
        return Ok(
            IntervalWindow {
                interval_start_epoch_seconds: o.reset_epoch_seconds,
                interval_end_epoch_seconds: o.valid_time_epoch_seconds,
                reset_applied: true,
                detected_reset: false,
            },
        );
    }
    let p = observations[index - 1];
    if o.valid_time_epoch_seconds <= p.valid_time_epoch_seconds {
        return Err(
            AccumulationError::NonIncreasingTimestamps {
                index,
                previous: p.valid_time_epoch_seconds,
                current: o.valid_time_epoch_seconds,
            },
        );
    }
    if o.reset_epoch_seconds < p.reset_epoch_seconds {
        return Err(
            AccumulationError::BackwardsReset {
                index,
                previous: p.reset_epoch_seconds,
                current: o.reset_epoch_seconds,
            },
        );
    }
    if o.reset_epoch_seconds == p.reset_epoch_seconds {
        if o.below_previous {
            return Err(AccumulationError::NegativeDelta { index });
        }
        return Ok(
            IntervalWindow {
                interval_start_epoch_seconds: p.valid_time_epoch_seconds,
                interval_end_epoch_seconds: o.valid_time_epoch_seconds,
                reset_applied: false,
                detected_reset: false,
            },
        );
    }
    let reset = o.reset_epoch_seconds;
    if reset < p.valid_time_epoch_seconds {
        return Err(
            AccumulationError::MidWindowReset {
                index,
                reset,
                previous_valid_time: p.valid_time_epoch_seconds,
            },
        );
    }
    if reset > p.valid_time_epoch_seconds {
        return Err(
            AccumulationError::UncoveredGap {
                index,
                previous_valid_time: p.valid_time_epoch_seconds,
                reset,
            },
        );
    }
    Ok(
        IntervalWindow {
            interval_start_epoch_seconds: reset,
            interval_end_epoch_seconds: o.valid_time_epoch_seconds,
            reset_applied: true,
            detected_reset: true,
        },
    )
}

/// Windows of a whole sequence with the number of declared new runs.
#[derive(Debug, Clone)]
pub struct WindowSequence {
    pub windows: Vec<IntervalWindow>,
    pub detected_reset_count: usize,
}

/// The first index at or after `i` whose window fails.
pub open spec fn first_failure_from(obs: Seq<ObservationWindow>, i: int) -> Option<int>
    decreases obs.len() - i,
{
    if i < 0 || i >= obs.len() {
        None
    } else if window_of(obs, i) is Err {
        Some(i)
    } else {
        first_failure_from(obs, i + 1)
    }
}

/// Number of windows among `w[0..n]` that declare a new run.
pub open spec fn resets_in(w: Seq<IntervalWindow>, n: int) -> int
    decreases n,
{
    if n <= 0 {
        0
    } else {
        resets_in(w, n - 1) + if w[n - 1].detected_reset {
            1int
        } else {
            0int
        }
    }
}

proof fn lemma_first_failure(obs: Seq<ObservationWindow>, i: int)
    requires
        0 <= i <= obs.len(),
    ensures
        first_failure_from(obs, i) is None <==> forall|k: int| i <= k < obs.len() ==> (#[trigger] window_of(
            obs,
            k,
        )) is Ok,
        first_failure_from(obs, i) matches Some(f) ==> i <= f < obs.len() && window_of(obs, f) is Err
            && forall|k: int| i <= k < f ==> (#[trigger] window_of(obs, k)) is Ok,
    decreases obs.len() - i,
{
    if i < obs.len() {
        lemma_first_failure(obs, i + 1);
    }
}

/// Resolves every observation into its window; fails with the first
/// violation in observation order.
pub fn resolve_interval_windows(observations: &Vec<ObservationWindow>) -> (r: Result<
    WindowSequence,
    AccumulationError,
>)
    ensures
        match r {
            Ok(s) => observations@.len() > 0 && first_failure_from(observations@, 0) is None
                && s.windows@.len() == observations@.len() && (forall|i: int|
                0 <= i < observations@.len() ==> window_of(observations@, i) == Ok::<
                    IntervalWindow,
                    AccumulationError,
                >(#[trigger] s.windows@[i])) && s.detected_reset_count == resets_in(
                s.windows@,
                s.windows@.len() as int,
            ),
            Err(e) => (observations@.len() == 0 && e == AccumulationError::EmptySequence) || (
            first_failure_from(observations@, 0) matches Some(f) && window_of(observations@, f)
                == Err::<IntervalWindow, AccumulationError>(e)),
        },
{
    let n = observations.len();
    if n == 0 {
        return Err(AccumulationError::EmptySequence);
    }
    let mut windows: Vec<IntervalWindow> = Vec::new();
    let mut count: usize = 0;
    let mut i: usize = 0;
    proof {
        lemma_first_failure(observations@, 0);
    }
    while i < n
        invariant
            n == observations@.len(),
            i <= n,
            windows@.len() == i,
            count == resets_in(windows@, i as int),
            count <= i,
            forall|k: int| 0 <= k < i ==> window_of(observations@, k) == Ok::<
                IntervalWindow,
                AccumulationError,
            >(#[trigger] windows@[k]),
            first_failure_from(observations@, 0) == first_failure_from(observations@, i as int),
        decreases n - i,
    {
        match derive_interval(observations, i) {
            Ok(w) => {
                let ghost before = windows@;
                windows.push(w);
                proof {
                    assert forall|m: int| 0 <= m <= i implies resets_in(windows@, m) == resets_in(
                        before,
                        m,
                    ) by {
                        lemma_resets_prefix(windows@, before, m);
                    }
                }
                if w.detected_reset {
                    count = count + 1;
                }
            },
            Err(e) => {
                return Err(e);
            },
        }
        i = i + 1;
    }
    Ok(WindowSequence { windows, detected_reset_count: count })
}

proof fn lemma_resets_prefix(a: Seq<IntervalWindow>, b: Seq<IntervalWindow>, m: int)
    requires
        0 <= m <= b.len(),
        b.len() <= a.len(),
        forall|k: int| 0 <= k < b.len() ==> a[k] == b[k],
    ensures
        resets_in(a, m) == resets_in(b, m),
    decreases m,
{
    if m > 0 {
        lemma_resets_prefix(a, b, m - 1);
    }
}

/// The windows of a resolved sequence tile `[R_0, t_last]`: the first starts
/// at the first declared reset, each ends at its observation's valid time,
/// each later one starts where the previous ended, and every window has a
/// positive duration.
pub proof fn lemma_windows_tile(obs: Seq<ObservationWindow>, w: Seq<IntervalWindow>)
    requires
        obs.len() > 0,
        w.len() == obs.len(),
        forall|i: int| 0 <= i < obs.len() ==> window_of(obs, i) == Ok::<
            IntervalWindow,
            AccumulationError,
        >(#[trigger] w[i]),
    ensures
        w[0].interval_start_epoch_seconds == obs[0].reset_epoch_seconds,
        forall|i: int| 0 <= i < w.len() ==> (#[trigger] w[i]).interval_end_epoch_seconds
            == obs[i].valid_time_epoch_seconds,
        forall|i: int| 0 <= i < w.len() ==> (#[trigger] w[i]).interval_start_epoch_seconds
            < w[i].interval_end_epoch_seconds,
        forall|i: int| 0 < i < w.len() ==> (#[trigger] w[i]).interval_start_epoch_seconds
            == w[i - 1].interval_end_epoch_seconds,
        forall|i: int| 0 <= i < w.len() ==> (#[trigger] w[i]).reset_applied == (i == 0
            || obs[i].reset_epoch_seconds != obs[i - 1].reset_epoch_seconds),
{
    assert(window_of(obs, 0) == Ok::<IntervalWindow, AccumulationError>(w[0]));
    assert forall|i: int| 0 < i < w.len() implies (#[trigger] w[i]).interval_start_epoch_seconds
        == w[i - 1].interval_end_epoch_seconds by {
        assert(window_of(obs, i) == Ok::<IntervalWindow, AccumulationError>(w[i]));
        assert(window_of(obs, i - 1) == Ok::<IntervalWindow, AccumulationError>(w[i - 1]));
    }
}

// ---------------------------------------------------------------------------
// Report rows
// ---------------------------------------------------------------------------

/// How one report row relates to the resolution of its sequence.
#[derive(Debug, Clone, Copy, PartialEq, Eq, Structural)]
pub enum RowOutcome {
    /// The row's own observation gives this window.
    Derived(IntervalWindow),
    /// The row's own observation violates the contract.
    Rejected(AccumulationError),
    /// An earlier row, `failed`, failed closed, so this row derives nothing.
    Blocked { failed: usize },
}

/// The outcome of row `i`: its own violation, else blocked when an earlier
/// row failed, else its window.
pub open spec fn row_outcome_of(obs: Seq<ObservationWindow>, i: int) -> RowOutcome {
    match window_of(obs, i) {
        Err(e) => RowOutcome::Rejected(e),
        Ok(w) => match first_failure_from(obs, 0) {
            Some(f) => if i > f {
                RowOutcome::Blocked { failed: f as usize }
            } else {
                RowOutcome::Derived(w)
            },
            None => RowOutcome::Derived(w),
        },
    }
}

/// The outcome of every row of a report over `observations`, in order.
pub fn report_row_outcomes(observations: &Vec<ObservationWindow>) -> (r: Vec<RowOutcome>)
    ensures
        r@.len() == observations@.len(),
        forall|i: int| 0 <= i < r@.len() ==> #[trigger] r@[i] == row_outcome_of(observations@, i),
{
    let n = observations.len();
    let mut results: Vec<Result<IntervalWindow, AccumulationError>> = Vec::new();
    let mut first_failed: Option<usize> = None;
    let mut i: usize = 0;
    proof {
        lemma_first_failure(observations@, 0);
    }
    while i < n
        invariant
            n == observations@.len(),
            i <= n,
            results@.len() == i,
            forall|k: int| 0 <= k < i ==> #[trigger] results@[k] == window_of(observations@, k),
            match first_failed {
                None => forall|k: int| 0 <= k < i ==> (#[trigger] window_of(observations@, k)) is Ok,
                Some(f) => f < i && first_failure_from(observations@, 0) == Some(f as int),
            },
        decreases n - i,
    {
        let w = derive_interval(observations, i);
        if first_failed.is_none() && w.is_err() {
            proof {
                lemma_first_failure(observations@, 0);
                lemma_first_failure_is(observations@, i as int);
            }
            first_failed = Some(i);
        }
        results.push(w);
        i = i + 1;
    }
    proof {
        if first_failed is None {
            lemma_first_failure(observations@, 0);
        }
    }
    let mut rows: Vec<RowOutcome> = Vec::new();
    let mut j: usize = 0;
    while j < n
        invariant
            n == observations@.len(),
            j <= n,
            results@.len() == n,
            rows@.len() == j,
            forall|k: int| 0 <= k < n ==> #[trigger] results@[k] == window_of(observations@, k),
            match first_failed {
                None => first_failure_from(observations@, 0) is None,
                Some(f) => first_failure_from(observations@, 0) == Some(f as int),
            },
            forall|k: int| 0 <= k < j ==> #[trigger] rows@[k] == row_outcome_of(observations@, k),
        decreases n - j,
    {
        let outcome = match results[j] {
            Err(e) => RowOutcome::Rejected(e),
            Ok(w) => match first_failed {
                Some(f) => if j > f {
                    RowOutcome::Blocked { failed: f }
                } else {
                    RowOutcome::Derived(w)
                },
                None => RowOutcome::Derived(w),
            },
        };
        rows.push(outcome);
        j = j + 1;
    }
    rows
}

proof fn lemma_first_failure_is(obs: Seq<ObservationWindow>, i: int)
    requires
        0 <= i < obs.len(),
        window_of(obs, i) is Err,
        forall|k: int| 0 <= k < i ==> (#[trigger] window_of(obs, k)) is Ok,
    ensures
        first_failure_from(obs, 0) == Some(i),
{
    lemma_first_failure(obs, 0);
    match first_failure_from(obs, 0) {
        Some(f) => {
            if f < i {
                assert(window_of(obs, f) is Ok);
            }
            if f > i {
                assert(window_of(obs, i) is Ok);
            }
        },
        None => {
            assert(window_of(obs, i) is Ok);
        },
    }
}

/// Rows of a report are all derived exactly when the whole sequence
/// resolves; once a row fails, no later row derives a window, and earlier
/// rows keep the windows that resolution would give them.
pub proof fn lemma_report_rows_follow_resolution(obs: Seq<ObservationWindow>)
    ensures
        (forall|i: int| 0 <= i < obs.len() ==> (#[trigger] row_outcome_of(obs, i)) is Derived)
            <==> first_failure_from(obs, 0) is None,
        first_failure_from(obs, 0) matches Some(f) ==> {
            &&& row_outcome_of(obs, f) is Rejected
            &&& forall|i: int| f < i < obs.len() ==> !((#[trigger] row_outcome_of(obs, i)) is Derived)
            &&& forall|i: int| 0 <= i < f ==> (#[trigger] row_outcome_of(obs, i)) == RowOutcome::Derived(
                window_of(obs, i)->Ok_0,
            )
        },
{
    lemma_first_failure(obs, 0);
    match first_failure_from(obs, 0) {
        Some(f) => {
            assert(!(row_outcome_of(obs, f) is Derived));
        },
        None => {
            assert forall|i: int| 0 <= i < obs.len() implies (#[trigger] row_outcome_of(
                obs,
                i,
            )) is Derived by {
                assert(window_of(obs, i) is Ok);
            }
        },
    }
}

} // verus!
