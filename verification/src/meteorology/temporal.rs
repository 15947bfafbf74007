//! Temporal sampling of instantaneous fields: validation of a snapshot series
//! and location of a requested time inside it.
//!
//! A request exactly at a snapshot time takes that snapshot unchanged; a
//! request strictly between two snapshots is blended from the bracketing pair
//! with weights `dt2 / (dt1 + dt2)` and `dt1 / (dt1 + dt2)`, where
//! `dt1 = t - t_lower` and `dt2 = t_upper - t`. Requests before the first or
//! after the last snapshot, and inconsistent chronologies, fail closed.

use vstd::prelude::*;
use super::fields::{
    field_temporal_policy, Calendar, FieldId, HorizontalStaggering, TemporalKind, TemporalPolicy,
    VerticalStaggering,
};
use super::checks::FieldTime;

verus! {

/// Requested sample time under a declared calendar.
#[derive(Debug, Clone, Copy, PartialEq, Eq, Structural)]
pub struct RequestedSampleTime {
    pub calendar: Calendar,
    /// Seconds since 1970-01-01T00:00:00Z under `calendar`.
    pub epoch_seconds: i64,
}

impl RequestedSampleTime {
    /// A request for the sample at `epoch_seconds` under `calendar`.
    pub fn new(calendar: Calendar, epoch_seconds: i64) -> (r: Self)
        ensures
            r.calendar == calendar,
            r.epoch_seconds == epoch_seconds,
    {
        RequestedSampleTime { calendar, epoch_seconds }
    }
}

/// How a requested time relates to the snapshot series.
#[derive(Debug, Clone, Copy, PartialEq, Eq, Structural)]
pub enum TemporalApplication {
    /// The request is the first snapshot time.
    FirstEndpoint,
    /// The request is the last snapshot time.
    LastEndpoint,
    /// The request is an interior snapshot time.
    ExactSourceTimestamp,
    /// The request lies strictly between two snapshots.
    LinearInterior,
}

/// Times of the bracketing snapshot pair.
#[derive(Debug, Clone, Copy, PartialEq, Eq, Structural)]
pub struct SourceTimestamps {
    pub lower_epoch_seconds: i64,
    pub upper_epoch_seconds: i64,
}

/// Why a series cannot be sampled.
#[derive(Debug, Clone, Copy, PartialEq, Eq, Structural)]
pub enum TemporalError {
    /// The field's temporal policy is not instantaneous.
    UnsupportedTemporalPolicy { field_id: FieldId, temporal_policy: TemporalPolicy },
    InsufficientTemporalCoverage { snapshots: usize },
    MissingFieldSnapshot { snapshot_index: usize, field_id: FieldId },
    NonInstantaneousSnapshot { snapshot_index: usize, field_id: FieldId, kind: TemporalKind },
    InconsistentCalendar { calendar_a: Calendar, calendar_b: Calendar },
    CalendarMismatch { requested: Calendar, series: Calendar },
    NonMonotonicTimestamps { index: usize, previous: i64, current: i64 },
    InconsistentFieldShape { field_id: FieldId, snapshot_index: usize, expected: usize, actual: usize },
    InconsistentStaggering { field_id: FieldId, snapshot_index: usize },
    NonFiniteValue { field_id: FieldId, snapshot_index: usize, element_index: usize },
    BeforeFirstCoverage { requested: i64, first: i64 },
    AfterLastCoverage { requested: i64, last: i64 },
    OutOfBoundsElement { element_index: usize, length: usize },
    EmptyOracleQueries,
    NonFiniteResult,
}

/// Pass or fail of one comparison facet.
#[derive(Debug, Clone, Copy, PartialEq, Eq, Structural)]
pub enum Verdict {
    Pass,
    Fail,
}

impl Verdict {
    /// Whether the verdict is a pass.
    pub fn is_pass(self) -> (r: bool)
        ensures
            r == (self == Verdict::Pass),
    {
        match self {
            Verdict::Pass => true,
            Verdict::Fail => false,
        }
    }

    /// The verdict for a check that did or did not pass.
    pub fn from_bool(passed: bool) -> (r: Self)
        ensures
            r == (if passed {
                Verdict::Pass
            } else {
                Verdict::Fail
            }),
    {
        if passed {
            Verdict::Pass
        } else {
            Verdict::Fail
        }
    }
}

/// A verdict built from a boolean reports that boolean back, and a verdict is
/// rebuilt from its own pass flag.
pub proof fn lemma_verdict_round_trip(b: bool, v: Verdict)
    ensures
        (if b {
            Verdict::Pass
        } else {
            Verdict::Fail
        }) == Verdict::Pass <==> b,
        (if v == Verdict::Pass {
            Verdict::Pass
        } else {
            Verdict::Fail
        }) == v,
{
}

/// What the series check reads of one snapshot's copy of the field.
#[derive(Debug, Clone)]
pub struct SeriesFieldInput {
    pub time: FieldTime,
    pub horizontal_staggering: HorizontalStaggering,
    pub vertical_staggering: VerticalStaggering,
    pub shape: Vec<usize>,
    /// Number of values.
    pub value_count: usize,
    /// Index of the first non-finite value, if there is one.
    pub first_non_finite: Option<usize>,
}

/// One validated entry of a snapshot series.
#[derive(Debug, Clone)]
pub struct SeriesEntry {
    pub timestamp_epoch_seconds: i64,
    pub calendar: Calendar,
    pub horizontal_staggering: HorizontalStaggering,
    pub vertical_staggering: VerticalStaggering,
    pub shape: Vec<usize>,
    pub value_count: usize,
}

/// The first problem among the snapshots `i..`, read in order: the field is
/// missing, not instantaneous, in another calendar than the earlier ones, or
/// holds a non-finite value.
pub open spec fn entry_problem(
    field_id: FieldId,
    s: Seq<Option<SeriesFieldInput>>,
    i: int,
    calendar: Option<Calendar>,
) -> Option<TemporalError>
    decreases s.len() - i,
{
    if i < 0 || i >= s.len() {
        None
    } else {
        match s[i] {
            None => Some(TemporalError::MissingFieldSnapshot { snapshot_index: i as usize, field_id }),
            Some(f) => if f.time.kind != TemporalKind::Instantaneous {
                Some(
                    TemporalError::NonInstantaneousSnapshot {
                        snapshot_index: i as usize,
                        field_id,
                        kind: f.time.kind,
                    },
                )
            } else if calendar matches Some(c) && c != f.time.calendar {
                Some(
                    TemporalError::InconsistentCalendar {
                        calendar_a: calendar->0,
                        calendar_b: f.time.calendar,
                    },
                )
            } else if f.first_non_finite is Some {
                Some(
                    TemporalError::NonFiniteValue {
                        field_id,
                        snapshot_index: i as usize,
                        element_index: f.first_non_finite->0,
                    },
                )
            } else {
                entry_problem(
                    field_id,
                    s,
                    i + 1,
                    if calendar is None {
                        Some(f.time.calendar)
                    } else {
                        calendar
                    },
                )
            },
        }
    }
}

/// Valid time of the `k`-th field of a series of present fields.
pub open spec fn time_at(s: Seq<Option<SeriesFieldInput>>, k: int) -> i64 {
    s[k]->0.time.valid_time_epoch_seconds
}

/// The first index `k >= i` whose time does not exceed the previous one.
pub open spec fn order_problem(s: Seq<Option<SeriesFieldInput>>, i: int) -> Option<TemporalError>
    decreases s.len() - i,
{
    if i < 1 || i >= s.len() {
        None
    } else if time_at(s, i) <= time_at(s, i - 1) {
        Some(
            TemporalError::NonMonotonicTimestamps {
                index: i as usize,
                previous: time_at(s, i - 1),
                current: time_at(s, i),
            },
        )
    } else {
        order_problem(s, i + 1)
    }
}

/// The first snapshot `k >= i` whose shape, number of values or staggering
/// differs from the first snapshot's.
pub open spec fn consistency_problem(
    field_id: FieldId,
    s: Seq<Option<SeriesFieldInput>>,
    i: int,
) -> Option<TemporalError>
    decreases s.len() - i,
{
    if i < 1 || i >= s.len() {
        None
    } else {
        let first = s[0]->0;
        let e = s[i]->0;
        if e.shape@ != first.shape@ || e.value_count != first.value_count {
            Some(
                TemporalError::InconsistentFieldShape {
                    field_id,
                    snapshot_index: i as usize,
                    expected: first.value_count,
                    actual: e.value_count,
                },
            )
        } else if e.horizontal_staggering != first.horizontal_staggering || e.vertical_staggering
            != first.vertical_staggering {
            Some(TemporalError::InconsistentStaggering { field_id, snapshot_index: i as usize })
        } else {
            consistency_problem(field_id, s, i + 1)
        }
    }
}

/// The first problem of a series, in the order the checks are made: the
/// field's temporal policy first, then the series itself.
pub open spec fn series_problem(field_id: FieldId, s: Seq<Option<SeriesFieldInput>>) -> Option<
    TemporalError,
> {
    if field_temporal_policy(field_id) != TemporalPolicy::Instantaneous {
        Some(
            TemporalError::UnsupportedTemporalPolicy {
                field_id,
                temporal_policy: field_temporal_policy(field_id),
            },
        )
    } else if s.len() < 2 {
        Some(TemporalError::InsufficientTemporalCoverage { snapshots: s.len() as usize })
    } else {
        match entry_problem(field_id, s, 0, None) {
            Some(e) => Some(e),
            None => match order_problem(s, 1) {
                Some(e) => Some(e),
                None => consistency_problem(field_id, s, 1),
            },
        }
    }
}

/// A validated series: at least two entries, strictly increasing times, one
/// calendar.
pub open spec fn valid_series(v: Seq<SeriesEntry>) -> bool {
    &&& v.len() >= 2
    &&& forall|i: int, j: int|
        0 <= i < j < v.len() ==> #[trigger] v[i].timestamp_epoch_seconds
            < #[trigger] v[j].timestamp_epoch_seconds
    &&& forall|i: int| 0 <= i < v.len() ==> #[trigger] v[i].calendar == v[0].calendar
}

proof fn lemma_entries_present(
    field_id: FieldId,
    s: Seq<Option<SeriesFieldInput>>,
    i: int,
    calendar: Option<Calendar>,
)
    requires
        0 <= i <= s.len(),
        entry_problem(field_id, s, i, calendar) is None,
    ensures
        forall|k: int| i <= k < s.len() ==> (#[trigger] s[k]) is Some,
        forall|k: int| i <= k < s.len() ==> s[k]->0.time.kind == TemporalKind::Instantaneous,
        calendar is Some ==> forall|k: int| i <= k < s.len() ==> s[k]->0.time.calendar
            == calendar->0,
        i < s.len() && calendar is None ==> forall|k: int| i <= k < s.len() ==> s[k]->0.time.calendar
            == s[i]->0.time.calendar,
    decreases s.len() - i,
{
    if i < s.len() {
        let f = s[i]->0;
        let next = if calendar is None {
            Some(f.time.calendar)
        } else {
            calendar
        };
        lemma_entries_present(field_id, s, i + 1, next);
    }
}

proof fn lemma_order(s: Seq<Option<SeriesFieldInput>>, i: int)
    requires
        1 <= i <= s.len(),
        order_problem(s, i) is None,
    ensures
        forall|k: int| i <= k < s.len() ==> time_at(s, k - 1) < #[trigger] time_at(s, k),
    decreases s.len() - i,
{
    if i < s.len() {
        lemma_order(s, i + 1);
    }
}

proof fn lemma_strictly_increasing(v: Seq<SeriesEntry>)
    requires
        forall|k: int| 1 <= k < v.len() ==> v[k - 1].timestamp_epoch_seconds
            < #[trigger] v[k].timestamp_epoch_seconds,
    ensures
        forall|i: int, j: int|
            0 <= i < j < v.len() ==> #[trigger] v[i].timestamp_epoch_seconds
                < #[trigger] v[j].timestamp_epoch_seconds,
    decreases v.len(),
{
    if v.len() > 0 {
        let w = v.drop_last();
        assert forall|k: int| 1 <= k < w.len() implies w[k - 1].timestamp_epoch_seconds
            < #[trigger] w[k].timestamp_epoch_seconds by {
            assert(w[k] == v[k] && w[k - 1] == v[k - 1]);
        }
        lemma_strictly_increasing(w);
        assert forall|i: int, j: int|
            0 <= i < j < v.len() implies #[trigger] v[i].timestamp_epoch_seconds
            < #[trigger] v[j].timestamp_epoch_seconds by {
            if j < v.len() - 1 {
                assert(w[i] == v[i] && w[j] == v[j]);
            } else if i < j - 1 {
                assert(w[i] == v[i] && w[j - 1] == v[j - 1]);
                assert(w[i].timestamp_epoch_seconds < w[j - 1].timestamp_epoch_seconds);
            }
        }
    }
}

fn usize_seqs_equal(a: &Vec<usize>, b: &Vec<usize>) -> (r: bool)
    ensures
        r == (a@ == b@),
{
    if a.len() != b.len() {
        return false;
    }
    let mut i: usize = 0;
    while i < a.len()
        invariant
            a.len() == b.len(),
            i <= a.len(),
            forall|j: int| 0 <= j < i ==> a@[j] == b@[j],
        decreases a.len() - i,
    {
        if a[i] != b[i] {
            return false;
        }
        i = i + 1;
    }
    assert(a@ =~= b@);
    true
}

/// Whether a series entry describes the field: same time, calendar and
/// staggering.
pub open spec fn entry_matches(e: SeriesEntry, f: SeriesFieldInput) -> bool {
    &&& e.timestamp_epoch_seconds == f.time.valid_time_epoch_seconds
    &&& e.calendar == f.time.calendar
    &&& e.horizontal_staggering == f.horizontal_staggering
    &&& e.vertical_staggering == f.vertical_staggering
    &&& e.shape@ == f.shape@
    &&& e.value_count == f.value_count
}

/// Validates the series of one field across snapshots (`None` where a
/// snapshot lacks the field), oldest first, and returns its entries.
pub fn extract_series(field_id: FieldId, snapshots: &Vec<Option<SeriesFieldInput>>) -> (r: Result<
    Vec<SeriesEntry>,
    TemporalError,
>)
    ensures
        match r {
            Ok(v) => series_problem(field_id, snapshots@) is None && v@.len() == snapshots@.len()
                && (forall|i: int| 0 <= i < v@.len() ==> entry_matches(#[trigger] v@[i], snapshots@[i]->0))
                && valid_series(v@),
            Err(e) => series_problem(field_id, snapshots@) == Some(e),
        },
{
    let temporal_policy = field_id.temporal_policy();
    if temporal_policy != TemporalPolicy::Instantaneous {
        return Err(TemporalError::UnsupportedTemporalPolicy { field_id, temporal_policy });
    }
    let n = snapshots.len();
    if n < 2 {
        return Err(TemporalError::InsufficientTemporalCoverage { snapshots: n });
    }
    let mut series: Vec<SeriesEntry> = Vec::new();
    let mut series_calendar: Option<Calendar> = None;
    let mut i: usize = 0;
    while i < n
        invariant
            field_temporal_policy(field_id) == TemporalPolicy::Instantaneous,
            n == snapshots.len(),
            n >= 2,
            i <= n,
            series@.len() == i,
            i == 0 <==> series_calendar is None,
            entry_problem(field_id, snapshots@, 0, None) == entry_problem(
                field_id,
                snapshots@,
                i as int,
                series_calendar,
            ),
            forall|k: int| 0 <= k < i ==> (#[trigger] snapshots@[k]) is Some && entry_matches(
                series@[k],
                snapshots@[k]->0,
            ),
            forall|k: int| 0 <= k < i ==> #[trigger] series@[k].calendar == series_calendar->0,
        decreases n - i,
    {
        let field = match &snapshots[i] {
            None => {
                return Err(
                    TemporalError::MissingFieldSnapshot { snapshot_index: i, field_id },
                );
            },
            Some(f) => f,
        };
        if field.time.kind != TemporalKind::Instantaneous {
            return Err(
                TemporalError::NonInstantaneousSnapshot {
                    snapshot_index: i,
                    field_id,
                    kind: field.time.kind,
                },
            );
        }
        match series_calendar {
            Some(c) => {
                if c != field.time.calendar {
                    return Err(
                        TemporalError::InconsistentCalendar {
                            calendar_a: c,
                            calendar_b: field.time.calendar,
                        },
                    );
                }
            },
            None => {
                series_calendar = Some(field.time.calendar);
            },
        }
        match field.first_non_finite {
            Some(e) => {
                return Err(
                    TemporalError::NonFiniteValue { field_id, snapshot_index: i, element_index: e },
                );
            },
            None => {},
        }
        let entry = SeriesEntry {
            timestamp_epoch_seconds: field.time.valid_time_epoch_seconds,
            calendar: field.time.calendar,
            horizontal_staggering: field.horizontal_staggering,
            vertical_staggering: field.vertical_staggering,
            shape: field.shape.clone(),
            value_count: field.value_count,
        };
        proof {
            assert(entry.shape@ == field.shape@);
        }
        series.push(entry);
        i = i + 1;
    }
    let mut k: usize = 1;
    while k < n
        invariant
            field_temporal_policy(field_id) == TemporalPolicy::Instantaneous,
            n == series@.len(),
            n == snapshots@.len(),
            1 <= k <= n,
            forall|j: int| 0 <= j < n ==> (#[trigger] snapshots@[j]) is Some && entry_matches(
                series@[j],
                snapshots@[j]->0,
            ),
            entry_problem(field_id, snapshots@, 0, None) is None,
            order_problem(snapshots@, 1) == order_problem(snapshots@, k as int),
            forall|j: int| 1 <= j < k ==> series@[j - 1].timestamp_epoch_seconds
                < #[trigger] series@[j].timestamp_epoch_seconds,
        decreases n - k,
    {
        let previous = series[k - 1].timestamp_epoch_seconds;
        let current = series[k].timestamp_epoch_seconds;
        proof {
            assert(entry_matches(series@[k as int], snapshots@[k as int]->0));
            assert(entry_matches(series@[k - 1], snapshots@[k - 1]->0));
        }
        if current <= previous {
            return Err(TemporalError::NonMonotonicTimestamps { index: k, previous, current });
        }
        k = k + 1;
    }
    proof {
        lemma_strictly_increasing(series@);
    }
    let mut k: usize = 1;
    while k < n
        invariant
            field_temporal_policy(field_id) == TemporalPolicy::Instantaneous,
            n == series@.len(),
            n == snapshots@.len(),
            n >= 2,
            1 <= k <= n,
            forall|j: int| 0 <= j < n ==> (#[trigger] snapshots@[j]) is Some && entry_matches(
                series@[j],
                snapshots@[j]->0,
            ),
            entry_problem(field_id, snapshots@, 0, None) is None,
            order_problem(snapshots@, 1) is None,
            consistency_problem(field_id, snapshots@, 1) == consistency_problem(
                field_id,
                snapshots@,
                k as int,
            ),
        decreases n - k,
    {
        proof {
            assert(entry_matches(series@[k as int], snapshots@[k as int]->0));
            assert(entry_matches(series@[0], snapshots@[0]->0));
        }
        let same_shape = usize_seqs_equal(&series[k].shape, &series[0].shape);
        if !same_shape || series[k].value_count != series[0].value_count {
            return Err(
                TemporalError::InconsistentFieldShape {
                    field_id,
                    snapshot_index: k,
                    expected: series[0].value_count,
                    actual: series[k].value_count,
                },
            );
        }
        if series[k].horizontal_staggering != series[0].horizontal_staggering
            || series[k].vertical_staggering != series[0].vertical_staggering {
            return Err(TemporalError::InconsistentStaggering { field_id, snapshot_index: k });
        }
        k = k + 1;
    }
    Ok(series)
}

/// How a request relates to strictly increasing snapshot times `ts`.
pub open spec fn application_of(ts: Seq<i64>, t: i64) -> TemporalApplication {
    if ts[0] == t {
        TemporalApplication::FirstEndpoint
    } else if ts.last() == t {
        TemporalApplication::LastEndpoint
    } else if exists|k: int| 0 <= k < ts.len() && ts[k] == t {
        TemporalApplication::ExactSourceTimestamp
    } else {
        TemporalApplication::LinearInterior
    }
}

/// Timestamps of a series, in order.
pub open spec fn series_times(v: Seq<SeriesEntry>) -> Seq<i64> {
    v.map_values(|e: SeriesEntry| e.timestamp_epoch_seconds)
}

/// Where a request falls in a validated series.
#[derive(Debug, Clone, Copy, PartialEq, Eq, Structural)]
pub struct TemporalBracket {
    pub application: TemporalApplication,
    /// Index of the lower snapshot; the upper one follows it.
    pub lower_index: usize,
    pub source_timestamps: SourceTimestamps,
    /// Seconds from the lower snapshot to the request (`dt1`).
    pub dt1_seconds: i128,
    /// Seconds from the request to the upper snapshot (`dt2`).
    pub dt2_seconds: i128,
}

/// Snapshots `k` and `k + 1` enclose `t`.
pub open spec fn brackets(v: Seq<SeriesEntry>, k: int, t: i64) -> bool {
    v[k].timestamp_epoch_seconds <= t && t <= v[k + 1].timestamp_epoch_seconds
}

/// The classification of a request from its leftmost bracketing pair.
proof fn lemma_classify(series: Seq<SeriesEntry>, t: i64, lo: int)
    requires
        valid_series(series),
        0 <= lo,
        lo + 1 < series.len(),
        series[lo].timestamp_epoch_seconds <= t <= series[lo + 1].timestamp_epoch_seconds,
        forall|k: int| 0 <= k < lo ==> !#[trigger] brackets(series, k, t),
    ensures
        application_of(series_times(series), t) == (if series[lo].timestamp_epoch_seconds == t
            && lo == 0 {
            TemporalApplication::FirstEndpoint
        } else if series[lo + 1].timestamp_epoch_seconds == t && lo + 2 == series.len() {
            TemporalApplication::LastEndpoint
        } else if series[lo + 1].timestamp_epoch_seconds == t {
            TemporalApplication::ExactSourceTimestamp
        } else {
            TemporalApplication::LinearInterior
        }),
{
    let n = series.len();
    let ts = series_times(series);
    let lower = series[lo].timestamp_epoch_seconds;
    let upper = series[lo + 1].timestamp_epoch_seconds;
    assert(ts.len() == n);
    assert(ts[0] == series[0].timestamp_epoch_seconds);
    assert(ts.last() == series[n - 1].timestamp_epoch_seconds);
    assert(ts[lo] == lower);
    assert(ts[lo + 1] == upper);
    if lower == t && lo > 0 {
        assert(series[lo - 1].timestamp_epoch_seconds < series[lo].timestamp_epoch_seconds);
        assert(brackets(series, lo - 1, t));
        assert(false);
    }
    if ts[0] == t {
        if lo > 0 {
            assert(series[0].timestamp_epoch_seconds < series[lo].timestamp_epoch_seconds);
        }
    }
    if ts.last() == t && ts[0] != t {
        if lo + 2 < n {
            assert(series[lo + 1].timestamp_epoch_seconds < series[n - 1].timestamp_epoch_seconds);
        }
    }
    if upper != t && lower != t {
        assert forall|k: int| 0 <= k < ts.len() implies ts[k] != t by {
            assert(ts[k] == series[k].timestamp_epoch_seconds);
            if k < lo {
                assert(series[k].timestamp_epoch_seconds < series[lo].timestamp_epoch_seconds);
            } else if k > lo + 1 {
                assert(series[lo + 1].timestamp_epoch_seconds < series[k].timestamp_epoch_seconds);
            }
        }
    }
}

/// Locates a request in a validated series: checks its calendar and that it
/// is inside the covered window, classifies it, and picks the leftmost
/// snapshot pair `(k, k + 1)` with `t_k <= t <= t_(k+1)`.
pub fn bracket_request(series: &Vec<SeriesEntry>, request: RequestedSampleTime) -> (r: Result<
    TemporalBracket,
    TemporalError,
>)
    requires
        valid_series(series@),
    ensures
        request.calendar != series@[0].calendar ==> r == Err::<TemporalBracket, TemporalError>(
            TemporalError::CalendarMismatch {
                requested: request.calendar,
                series: series@[0].calendar,
            },
        ),
        request.calendar == series@[0].calendar && request.epoch_seconds
            < series@[0].timestamp_epoch_seconds ==> r == Err::<TemporalBracket, TemporalError>(
            TemporalError::BeforeFirstCoverage {
                requested: request.epoch_seconds,
                first: series@[0].timestamp_epoch_seconds,
            },
        ),
        request.calendar == series@[0].calendar && series@[0].timestamp_epoch_seconds
            <= request.epoch_seconds && request.epoch_seconds > series@.last().timestamp_epoch_seconds
            ==> r == Err::<TemporalBracket, TemporalError>(
            TemporalError::AfterLastCoverage {
                requested: request.epoch_seconds,
                last: series@.last().timestamp_epoch_seconds,
            },
        ),
        request.calendar == series@[0].calendar && series@[0].timestamp_epoch_seconds
            <= request.epoch_seconds <= series@.last().timestamp_epoch_seconds ==> r is Ok,
        r matches Ok(b) ==> {
            let t = request.epoch_seconds;
            let lo = b.lower_index as int;
            &&& lo + 1 < series@.len()
            &&& series@[lo].timestamp_epoch_seconds <= t <= series@[lo + 1].timestamp_epoch_seconds
            &&& forall|k: int| 0 <= k < lo ==> !#[trigger] brackets(series@, k, t)
            &&& b.source_timestamps.lower_epoch_seconds == series@[lo].timestamp_epoch_seconds
            &&& b.source_timestamps.upper_epoch_seconds == series@[lo + 1].timestamp_epoch_seconds
            &&& b.dt1_seconds == t - series@[lo].timestamp_epoch_seconds
            &&& b.dt2_seconds == series@[lo + 1].timestamp_epoch_seconds - t
            &&& b.application == application_of(series_times(series@), t)
        },
{
    let n = series.len();
    let ghost ts = series_times(series@);
    if request.calendar != series[0].calendar {
        return Err(
            TemporalError::CalendarMismatch {
                requested: request.calendar,
                series: series[0].calendar,
            },
        );
    }
    let t = request.epoch_seconds;
    let first = series[0].timestamp_epoch_seconds;
    if t < first {
        return Err(TemporalError::BeforeFirstCoverage { requested: t, first });
    }
    let last = series[n - 1].timestamp_epoch_seconds;
    if t > last {
        return Err(TemporalError::AfterLastCoverage { requested: t, last });
    }
    let mut lo: usize = 0;
    while lo + 1 < n && !(series[lo].timestamp_epoch_seconds <= t && t <= series[lo
        + 1].timestamp_epoch_seconds)
        invariant
            n == series@.len(),
            valid_series(series@),
            lo + 1 <= n,
            series@[lo as int].timestamp_epoch_seconds <= t,
            t <= series@[n - 1].timestamp_epoch_seconds,
            forall|k: int| 0 <= k < lo ==> !#[trigger] brackets(series@, k, t),
        decreases n - lo,
    {
        lo = lo + 1;
    }
    proof {
        if lo + 1 >= n {
            assert(lo as int == n - 1);
            assert(!brackets(series@, lo - 1, t));
            assert(series@[lo - 1].timestamp_epoch_seconds < series@[lo as int].timestamp_epoch_seconds);
            assert(false);
        }
    }
    let lower = series[lo].timestamp_epoch_seconds;
    let upper = series[lo + 1].timestamp_epoch_seconds;
    let application = if lower == t && lo == 0 {
        TemporalApplication::FirstEndpoint
    } else if upper == t && lo + 2 == n {
        TemporalApplication::LastEndpoint
    } else if upper == t {
        TemporalApplication::ExactSourceTimestamp
    } else {
        TemporalApplication::LinearInterior
    };
    proof {
        lemma_classify(series@, t, lo as int);
    }
    Ok(
        TemporalBracket {
            application,
            lower_index: lo,
            source_timestamps: SourceTimestamps {
                lower_epoch_seconds: lower,
                upper_epoch_seconds: upper,
            },
            dt1_seconds: (t as i128) - (lower as i128),
            dt2_seconds: (upper as i128) - (t as i128),
        },
    )
}

/// A request at a snapshot time puts all weight on that snapshot: the
/// distance to one member of the bracketing pair is zero, the span is
/// positive, and both distances are non-negative.
pub proof fn lemma_bracket_weights(series: Seq<SeriesEntry>, t: i64, b: TemporalBracket)
    requires
        valid_series(series),
        ({
            let lo = b.lower_index as int;
            &&& lo + 1 < series.len()
            &&& series[lo].timestamp_epoch_seconds <= t <= series[lo + 1].timestamp_epoch_seconds
            &&& b.dt1_seconds == t - series[lo].timestamp_epoch_seconds
            &&& b.dt2_seconds == series[lo + 1].timestamp_epoch_seconds - t
            &&& b.application == application_of(series_times(series), t)
        }),
    ensures
        b.dt1_seconds >= 0,
        b.dt2_seconds >= 0,
        b.dt1_seconds + b.dt2_seconds > 0,
        b.application != TemporalApplication::LinearInterior ==> b.dt1_seconds == 0
            || b.dt2_seconds == 0,
        b.application == TemporalApplication::LinearInterior ==> b.dt1_seconds > 0
            && b.dt2_seconds > 0,
{
    let lo = b.lower_index as int;
    let ts = series_times(series);
    assert(series[lo].timestamp_epoch_seconds < series[lo + 1].timestamp_epoch_seconds);
    if b.application != TemporalApplication::LinearInterior {
        if ts[0] != t && ts.last() != t {
            let k = choose|k: int| 0 <= k < ts.len() && ts[k] == t;
            assert(ts[k] == series[k].timestamp_epoch_seconds);
            if k < lo {
                assert(series[k].timestamp_epoch_seconds < series[lo].timestamp_epoch_seconds);
            } else if k > lo + 1 {
                assert(series[lo + 1].timestamp_epoch_seconds < series[k].timestamp_epoch_seconds);
            }
        } else if ts[0] == t {
            assert(ts[0] == series[0].timestamp_epoch_seconds);
            if lo > 0 {
                assert(series[0].timestamp_epoch_seconds < series[lo].timestamp_epoch_seconds);
            }
        } else {
            assert(ts.last() == series[series.len() - 1].timestamp_epoch_seconds);
            if lo + 1 < series.len() - 1 {
                assert(series[lo + 1].timestamp_epoch_seconds < series[series.len()
                    - 1].timestamp_epoch_seconds);
            }
        }
    } else {
        assert(ts[lo] == series[lo].timestamp_epoch_seconds);
        assert(ts[lo + 1] == series[lo + 1].timestamp_epoch_seconds);
    }
}

} // verus!
