//! Schema identity, required-field sets, and the integer parts of snapshot
//! validation: field layout, value counts and time semantics.

use vstd::prelude::*;
use super::fields::{
    FieldId, Unit, SignConvention, HorizontalStaggering, VerticalStaggering, Axis, Calendar,
    TemporalKind, VerticalCoordinateKind, VerticalReference, field_rank, field_of_rank, lemma_rank_round_trip, is_3d_field, field_unit,
    field_sign, horizontal_staggering_ok, vertical_staggering_ok,
};

verus! {

broadcast use vstd::string::group_string_axioms;

/// Identifier of the canonical meteorology schema.
pub const SCHEMA_ID: &'static str = "flexpart-gpu.canonical-meteorology";

/// Version of the canonical meteorology schema.
pub const SCHEMA_VERSION: u32 = 1;

/// Schema identifier and version carried by a snapshot.
#[derive(Debug, Clone, PartialEq, Eq)]
pub struct SchemaIdentity {
    pub id: String,
    pub version: u32,
}

impl Default for SchemaIdentity {
    fn default() -> (r: Self)
        ensures
            r.id@ == SCHEMA_ID@,
            r.version == SCHEMA_VERSION,
    {
        SchemaIdentity { id: String::from_str(SCHEMA_ID), version: SCHEMA_VERSION }
    }
}

impl SchemaIdentity {
    /// Whether this is the current canonical schema.
    pub fn is_current(&self) -> (r: bool)
        ensures
            r == (self.id@ == SCHEMA_ID@ && self.version == SCHEMA_VERSION),
    {
        let current = String::from_str(SCHEMA_ID);
        self.version == SCHEMA_VERSION && self.id == current
    }
}

/// Schema provenance recorded with derived products.
#[derive(Debug, Clone, PartialEq, Eq)]
pub struct Provenance {
    pub schema_id: String,
    pub schema_version: u32,
}

impl Provenance {
    /// The provenance of data in the given schema.
    pub fn of_schema(schema: &SchemaIdentity) -> (r: Self)
        ensures
            r.schema_id@ == schema.id@,
            r.schema_version == schema.version,
    {
        Provenance { schema_id: schema.id.clone(), schema_version: schema.version }
    }
}

/// Reset instant of an accumulated field.
#[derive(Debug, Clone, Copy, PartialEq, Eq, Structural)]
pub struct Accumulation {
    pub reset_epoch_seconds: i64,
}

/// Time semantics of a field.
#[derive(Debug, Clone, Copy, PartialEq, Eq, Structural)]
pub struct FieldTime {
    pub calendar: Calendar,
    pub kind: TemporalKind,
    pub valid_time_epoch_seconds: i64,
    pub interval_start_epoch_seconds: Option<i64>,
    pub interval_end_epoch_seconds: Option<i64>,
    pub accumulation: Option<Accumulation>,
}

/// Why a snapshot does not meet the contract.
#[derive(Debug, Clone, Copy, PartialEq, Eq, Structural)]
pub enum ContractError {
    UnsupportedSchema,
    InvalidHorizontalGrid,
    InvalidVerticalCoordinate,
    DuplicateField(FieldId),
    MissingRequiredField(FieldId),
    UnitMismatch(FieldId),
    SignMismatch(FieldId),
    InvalidStaggering(FieldId),
    ShapeMismatch(FieldId),
    ValueCountMismatch(FieldId),
    NonFiniteValue(FieldId),
    InvalidTemporalMetadata(FieldId),
    InvalidValueDomain(FieldId),
}

// ---------------------------------------------------------------------------
// Sets of field identities
// ---------------------------------------------------------------------------

/// Strictly increasing in canonical order.
pub open spec fn strictly_ranked(s: Seq<FieldId>) -> bool {
    forall|i: int, j: int| 0 <= i < j < s.len() ==> field_rank(#[trigger] s[i]) < field_rank(
        #[trigger] s[j],
    )
}

/// A set of field identities, kept in canonical order.
pub struct FieldIdSet {
    ids: Vec<FieldId>,
}

impl View for FieldIdSet {
    type V = Set<FieldId>;

    closed spec fn view(&self) -> Set<FieldId> {
        self.ids@.to_set()
    }
}

impl FieldIdSet {
    #[verifier::type_invariant]
    closed spec fn inv(self) -> bool {
        strictly_ranked(self.ids@)
    }

    /// The empty set.
    pub fn new() -> (r: Self)
        ensures
            r@ == Set::<FieldId>::empty(),
    {
        let r = FieldIdSet { ids: Vec::new() };
        proof {
            assert(r.ids@.to_set() =~= Set::<FieldId>::empty());
        }
        r
    }

    /// Adds `id`; returns whether it was absent before.
    pub fn insert(&mut self, id: FieldId) -> (added: bool)
        ensures
            final(self)@ == old(self)@.insert(id),
            added == !old(self)@.contains(id),
    {
        proof {
            use_type_invariant(&*self);
        }
        let mut ids: Vec<FieldId> = Vec::new();
        std::mem::swap(&mut ids, &mut self.ids);
        let ghost s = ids@;
        let r = id.rank();
        let mut pos: usize = 0;
        while pos < ids.len() && ids[pos].rank() < r
            invariant
                pos <= ids.len(),
                ids@ == s,
                r == field_rank(id),
                strictly_ranked(s),
                forall|i: int| 0 <= i < pos ==> field_rank(#[trigger] s[i]) < field_rank(id),
            decreases ids.len() - pos,
        {
            pos = pos + 1;
        }
        if pos < ids.len() && ids[pos] == id {
            proof {
                assert(s.to_set().insert(id) =~= s.to_set());
            }
            self.ids = ids;
            return false;
        }
        proof {
            assert forall|i: int| 0 <= i < s.len() implies #[trigger] s[i] != id by {
                if i >= pos {
                    if i > pos {
                        assert(field_rank(s[pos as int]) < field_rank(s[i]));
                    }
                    lemma_rank_round_trip(s[i]);
                    lemma_rank_round_trip(id);
                }
            }
            assert(!s.contains(id));
        }
        ids.insert(pos, id);
        proof {
            let t = s.insert(pos as int, id);
            assert(ids@ == t);
            assert forall|i: int, j: int| 0 <= i < j < t.len() implies field_rank(#[trigger] t[i])
                < field_rank(#[trigger] t[j]) by {
                if j < pos {
                } else if j == pos {
                } else if i < pos {
                    assert(t[j] == s[j - 1]);
                    if pos < s.len() {
                        assert(field_rank(s[pos as int]) >= field_rank(id));
                        if j - 1 > pos {
                            assert(field_rank(s[pos as int]) < field_rank(s[j - 1]));
                        }
                        lemma_rank_round_trip(s[pos as int]);
                        lemma_rank_round_trip(id);
                    }
                } else if i == pos {
                    assert(t[j] == s[j - 1]);
                    assert(field_rank(s[pos as int]) >= field_rank(id));
                    if j - 1 > pos {
                        assert(field_rank(s[pos as int]) < field_rank(s[j - 1]));
                    }
                    lemma_rank_round_trip(s[pos as int]);
                    lemma_rank_round_trip(id);
                } else {
                    assert(t[i] == s[i - 1]);
                    assert(t[j] == s[j - 1]);
                }
            }
            assert forall|x: FieldId| #[trigger] t.to_set().contains(x) == s.to_set().insert(
                id,
            ).contains(x) by {
                if s.contains(x) {
                    let k = choose|k: int| 0 <= k < s.len() && s[k] == x;
                    if k < pos {
                        assert(t[k] == x);
                    } else {
                        assert(t[k + 1] == x);
                    }
                }
                if t.contains(x) {
                    let k = choose|k: int| 0 <= k < t.len() && t[k] == x;
                    if k < pos {
                        assert(s[k] == x);
                    } else if k > pos {
                        assert(s[k - 1] == x);
                    }
                }
                if x == id {
                    assert(t[pos as int] == id);
                }
            }
            assert(t.to_set() =~= s.to_set().insert(id));
        }
        self.ids = ids;
        true
    }

    /// Whether `id` is in the set.
    pub fn contains(&self, id: FieldId) -> (r: bool)
        ensures
            r == self@.contains(id),
    {
        let mut i: usize = 0;
        while i < self.ids.len()
            invariant
                i <= self.ids.len(),
                forall|k: int| 0 <= k < i ==> self.ids@[k] != id,
            decreases self.ids.len() - i,
        {
            if self.ids[i] == id {
                proof {
                    assert(self.ids@.contains(id));
                }
                return true;
            }
            i = i + 1;
        }
        false
    }

    /// The members, in canonical order.
    pub fn ids(&self) -> (r: &Vec<FieldId>)
        ensures
            r@.to_set() == self@,
            strictly_ranked(r@),
    {
        proof {
            use_type_invariant(self);
        }
        &self.ids
    }

    /// The set of the given identities.
    pub fn from_slice(ids: &[FieldId]) -> (r: Self)
        ensures
            r@ == ids@.to_set(),
    {
        let mut set = FieldIdSet::new();
        let mut i: usize = 0;
        while i < ids.len()
            invariant
                i <= ids.len(),
                set@ == ids@.subrange(0, i as int).to_set(),
            decreases ids.len() - i,
        {
            set.insert(ids[i]);
            proof {
                let a = ids@.subrange(0, i as int);
                let b = ids@.subrange(0, i as int + 1);
                assert forall|x: FieldId| #[trigger] b.to_set().contains(x) == a.to_set().insert(
                    ids@[i as int],
                ).contains(x) by {
                    if a.contains(x) {
                        let k = choose|k: int| 0 <= k < a.len() && a[k] == x;
                        assert(b[k] == x);
                    }
                    if b.contains(x) {
                        let k = choose|k: int| 0 <= k < b.len() && b[k] == x;
                        if k < i {
                            assert(a[k] == x);
                        }
                    }
                    assert(b[i as int] == ids@[i as int]);
                }
                assert(b.to_set() =~= a.to_set().insert(ids@[i as int]));
            }
            i = i + 1;
        }
        proof {
            assert(ids@.subrange(0, ids@.len() as int) =~= ids@);
        }
        set
    }
}

/// The first member of `required`, in canonical order, that `seen` lacks.
pub fn first_missing(required: &FieldIdSet, seen: &FieldIdSet) -> (r: Option<FieldId>)
    ensures
        match r {
            None => required@.subset_of(seen@),
            Some(id) => required@.contains(id) && !seen@.contains(id) && forall|x: FieldId|
                #[trigger] required@.contains(x) && field_rank(x) < field_rank(id) ==> seen@.contains(
                    x,
                ),
        },
{
    let ids = required.ids();
    let mut i: usize = 0;
    while i < ids.len()
        invariant
            i <= ids.len(),
            ids@.to_set() == required@,
            strictly_ranked(ids@),
            forall|k: int| 0 <= k < i ==> seen@.contains(#[trigger] ids@[k]),
        decreases ids.len() - i,
    {
        let id = ids[i];
        if !seen.contains(id) {
            proof {
                assert(ids@.contains(id));
                assert forall|x: FieldId| #[trigger] required@.contains(x) && field_rank(x)
                    < field_rank(id) implies seen@.contains(x) by {
                    let k = choose|k: int| 0 <= k < ids@.len() && ids@[k] == x;
                    if k >= i {
                        if k > i {
                            assert(field_rank(ids@[i as int]) < field_rank(ids@[k]));
                        }
                    }
                }
            }
            return Some(id);
        }
        i = i + 1;
    }
    proof {
        assert forall|x: FieldId| #[trigger] required@.contains(x) implies seen@.contains(x) by {
            let k = choose|k: int| 0 <= k < ids@.len() && ids@[k] == x;
            assert(seen@.contains(ids@[k]));
        }
    }
    None
}

/// Fields a consumer requires of a snapshot.
pub struct Requirements {
    pub required_fields: FieldIdSet,
}

impl Requirements {
    /// Every canonical field.
    pub fn p0_complete() -> (r: Self)
        ensures
            forall|id: FieldId| #[trigger] r.required_fields@.contains(id),
    {
        let all = FieldId::p0_fields();
        let set = FieldIdSet::from_slice(all.as_slice());
        proof {
            assert forall|id: FieldId| #[trigger] set@.contains(id) by {
                lemma_rank_round_trip(id);
                let k = field_rank(id);
                lemma_rank_round_trip(all@[k]);
                assert(all@[k] == id);
            }
        }
        Requirements { required_fields: set }
    }

    /// Fields needed for advection: winds, vertical velocity, temperature,
    /// humidity and pressure.
    pub fn advection() -> (r: Self)
        ensures
            r.required_fields@ == set![
                FieldId::WindU,
                FieldId::WindV,
                FieldId::VerticalVelocity,
                FieldId::Temperature,
                FieldId::SpecificHumidity,
                FieldId::Pressure,
            ],
    {
        let ids: &[FieldId] = &[
            FieldId::WindU,
            FieldId::WindV,
            FieldId::VerticalVelocity,
            FieldId::Temperature,
            FieldId::SpecificHumidity,
            FieldId::Pressure,
        ];
        let set = FieldIdSet::from_slice(ids);
        proof {
            assert(ids@.to_set() =~= set![
                FieldId::WindU,
                FieldId::WindV,
                FieldId::VerticalVelocity,
                FieldId::Temperature,
                FieldId::SpecificHumidity,
                FieldId::Pressure,
            ]) by {
                assert(ids@[0] == FieldId::WindU);
                assert(ids@[1] == FieldId::WindV);
                assert(ids@[2] == FieldId::VerticalVelocity);
                assert(ids@[3] == FieldId::Temperature);
                assert(ids@[4] == FieldId::SpecificHumidity);
                assert(ids@[5] == FieldId::Pressure);
            }
        }
        Requirements { required_fields: set }
    }

    /// Fields present in native-level real-data snapshots: winds,
    /// temperature, humidity and surface pressure (no reconstructed pressure
    /// or vertical velocity).
    pub fn real_data_native_levels() -> (r: Self)
        ensures
            r.required_fields@ == set![
                FieldId::WindU,
                FieldId::WindV,
                FieldId::Temperature,
                FieldId::SpecificHumidity,
                FieldId::SurfacePressure,
            ],
    {
        let ids: &[FieldId] = &[
            FieldId::WindU,
            FieldId::WindV,
            FieldId::Temperature,
            FieldId::SpecificHumidity,
            FieldId::SurfacePressure,
        ];
        let set = FieldIdSet::from_slice(ids);
        proof {
            assert(ids@.to_set() =~= set![
                FieldId::WindU,
                FieldId::WindV,
                FieldId::Temperature,
                FieldId::SpecificHumidity,
                FieldId::SurfacePressure,
            ]) by {
                assert(ids@[0] == FieldId::WindU);
                assert(ids@[1] == FieldId::WindV);
                assert(ids@[2] == FieldId::Temperature);
                assert(ids@[3] == FieldId::SpecificHumidity);
                assert(ids@[4] == FieldId::SurfacePressure);
            }
        }
        Requirements { required_fields: set }
    }
}

// ---------------------------------------------------------------------------
// Time semantics
// ---------------------------------------------------------------------------

/// A closed interval `start < end` that ends at the valid time.
pub open spec fn interval_ok(time: FieldTime) -> bool {
    &&& time.interval_start_epoch_seconds matches Some(start)
    &&& time.interval_end_epoch_seconds matches Some(end)
    &&& start < end
    &&& end == time.valid_time_epoch_seconds
}

/// Precipitation fields, which must be accumulated or interval totals.
pub open spec fn is_precipitation(id: FieldId) -> bool {
    id == FieldId::LargeScalePrecipitation || id == FieldId::ConvectivePrecipitation
}

/// Consistent time metadata: an instant has no interval and no reset; a mean
/// or total has an interval and no reset; an accumulation has an interval
/// and a reset no later than its start. Precipitation is a total or an
/// accumulation.
pub open spec fn time_ok(id: FieldId, time: FieldTime) -> bool {
    &&& match time.kind {
        TemporalKind::Instantaneous => time.interval_start_epoch_seconds is None
            && time.interval_end_epoch_seconds is None && time.accumulation is None,
        TemporalKind::IntervalMean | TemporalKind::IntervalTotal => interval_ok(time)
            && time.accumulation is None,
        TemporalKind::AccumulatedSinceReset => interval_ok(time) && (time.accumulation matches Some(
            acc,
        ) && acc.reset_epoch_seconds <= time.interval_start_epoch_seconds->0),
    }
    &&& is_precipitation(id) ==> (time.kind == TemporalKind::IntervalTotal || time.kind
        == TemporalKind::AccumulatedSinceReset)
}

/// Checks that the field's averaging interval is present and ends at its
/// valid time.
pub fn validate_interval(id: FieldId, time: &FieldTime) -> (r: Result<(), ContractError>)
    ensures
        r is Ok <==> interval_ok(*time),
        r matches Err(e) ==> e == ContractError::InvalidTemporalMetadata(id),
{
    let start = match time.interval_start_epoch_seconds {
        Some(s) => s,
        None => {
            return Err(ContractError::InvalidTemporalMetadata(id));
        },
    };
    let end = match time.interval_end_epoch_seconds {
        Some(e) => e,
        None => {
            return Err(ContractError::InvalidTemporalMetadata(id));
        },
    };
    if end <= start || end != time.valid_time_epoch_seconds {
        return Err(ContractError::InvalidTemporalMetadata(id));
    }
    Ok(())
}

/// Checks the time metadata of a field.
pub fn validate_time(id: FieldId, time: &FieldTime) -> (r: Result<(), ContractError>)
    ensures
        r is Ok <==> time_ok(id, *time),
        r matches Err(e) ==> e == ContractError::InvalidTemporalMetadata(id),
{
    match time.kind {
        TemporalKind::Instantaneous => {
            if time.interval_start_epoch_seconds.is_some() || time.interval_end_epoch_seconds.is_some()
                || time.accumulation.is_some() {
                return Err(ContractError::InvalidTemporalMetadata(id));
            }
        },
        TemporalKind::IntervalMean | TemporalKind::IntervalTotal => {
            match validate_interval(id, time) {
                Ok(()) => {},
                Err(e) => {
                    return Err(e);
                },
            }
            if time.accumulation.is_some() {
                return Err(ContractError::InvalidTemporalMetadata(id));
            }
        },
        TemporalKind::AccumulatedSinceReset => {
            match validate_interval(id, time) {
                Ok(()) => {},
                Err(e) => {
                    return Err(e);
                },
            }
            let reset = match time.accumulation {
                Some(a) => a,
                None => {
                    return Err(ContractError::InvalidTemporalMetadata(id));
                },
            };
            let start = match time.interval_start_epoch_seconds {
                Some(s) => s,
                None => {
                    return Err(ContractError::InvalidTemporalMetadata(id));
                },
            };
            if reset.reset_epoch_seconds > start {
                return Err(ContractError::InvalidTemporalMetadata(id));
            }
        },
    }
    if (id == FieldId::LargeScalePrecipitation || id == FieldId::ConvectivePrecipitation) && !(
    time.kind == TemporalKind::IntervalTotal || time.kind == TemporalKind::AccumulatedSinceReset) {
        return Err(ContractError::InvalidTemporalMetadata(id));
    }
    Ok(())
}

// ---------------------------------------------------------------------------
// Field layout
// ---------------------------------------------------------------------------

/// The product of `s`, multiplied left to right, or `None` when a partial
/// product exceeds `usize::MAX`.
pub open spec fn checked_product(s: Seq<usize>) -> Option<int>
    decreases s.len(),
{
    if s.len() == 0 {
        Some(1)
    } else {
        match checked_product(s.drop_last()) {
            None => None,
            Some(p) => if p * s.last() > usize::MAX {
                None
            } else {
                Some(p * s.last())
            },
        }
    }
}

/// The entries of a shape as integers.
pub open spec fn widened(s: Seq<usize>) -> Seq<int> {
    s.map_values(|v: usize| v as int)
}

/// The first layout problem of a field: unit, sign, staggering, then shape
/// and axis order (`[nx, ny, nz]` with `[X, Y, Z]` for 3-D fields,
/// `[nx, ny]` with `[X, Y]` otherwise, one more point along a staggered
/// axis), then the number of values.
pub open spec fn layout_problem(
    id: FieldId,
    unit: Unit,
    sign: SignConvention,
    hs: HorizontalStaggering,
    vs: VerticalStaggering,
    grid_nx: usize,
    grid_ny: usize,
    level_count: usize,
    interface_count: Option<usize>,
    shape: Seq<usize>,
    axes: Seq<Axis>,
    value_count: usize,
) -> Option<ContractError> {
    if unit != field_unit(id) {
        Some(ContractError::UnitMismatch(id))
    } else if sign != field_sign(id) {
        Some(ContractError::SignMismatch(id))
    } else if !horizontal_staggering_ok(id, hs) || !vertical_staggering_ok(id, vs) {
        Some(ContractError::InvalidStaggering(id))
    } else if (hs == HorizontalStaggering::XFace && grid_nx == usize::MAX) || (hs
        == HorizontalStaggering::YFace && grid_ny == usize::MAX) {
        Some(ContractError::ShapeMismatch(id))
    } else {
        let nx = if hs == HorizontalStaggering::XFace {
            grid_nx + 1
        } else {
            grid_nx as int
        };
        let ny = if hs == HorizontalStaggering::YFace {
            grid_ny + 1
        } else {
            grid_ny as int
        };
        if is_3d_field(id) && vs == VerticalStaggering::LevelInterface && interface_count is None {
            Some(ContractError::InvalidStaggering(id))
        } else {
            let expected_shape: Seq<int> = if is_3d_field(id) {
                seq![
                    nx,
                    ny,
                    if vs == VerticalStaggering::LevelCenter {
                        level_count as int
                    } else {
                        interface_count->0 as int
                    },
                ]
            } else {
                seq![nx, ny]
            };
            let expected_axes = if is_3d_field(id) {
                seq![Axis::X, Axis::Y, Axis::Z]
            } else {
                seq![Axis::X, Axis::Y]
            };
            if widened(shape) != expected_shape || axes != expected_axes {
                Some(ContractError::ShapeMismatch(id))
            } else {
                match checked_product(shape) {
                    None => Some(ContractError::ShapeMismatch(id)),
                    Some(count) => if value_count != count {
                        Some(ContractError::ValueCountMismatch(id))
                    } else {
                        None
                    },
                }
            }
        }
    }
}

/// Checks a field's unit, sign, staggering, shape, axis order and number of
/// values against the grid (`grid_nx` by `grid_ny` cells, `level_count`
/// levels, `interface_count` interfaces when the coordinate has them).
pub fn validate_field_layout(
    id: FieldId,
    unit: Unit,
    sign: SignConvention,
    horizontal_staggering: HorizontalStaggering,
    vertical_staggering: VerticalStaggering,
    grid_nx: usize,
    grid_ny: usize,
    level_count: usize,
    interface_count: Option<usize>,
    shape: &Vec<usize>,
    axis_order: &Vec<Axis>,
    value_count: usize,
) -> (r: Result<(), ContractError>)
    ensures
        match r {
            Ok(()) => layout_problem(
                id,
                unit,
                sign,
                horizontal_staggering,
                vertical_staggering,
                grid_nx,
                grid_ny,
                level_count,
                interface_count,
                shape@,
                axis_order@,
                value_count,
            ) is None,
            Err(e) => layout_problem(
                id,
                unit,
                sign,
                horizontal_staggering,
                vertical_staggering,
                grid_nx,
                grid_ny,
                level_count,
                interface_count,
                shape@,
                axis_order@,
                value_count,
            ) == Some(e),
        },
{
    if unit != id.unit() {
        return Err(ContractError::UnitMismatch(id));
    }
    if sign != id.sign() {
        return Err(ContractError::SignMismatch(id));
    }
    if !id.supports_horizontal_staggering(horizontal_staggering)
        || !id.supports_vertical_staggering(vertical_staggering) {
        return Err(ContractError::InvalidStaggering(id));
    }
    let (nx, ny) = match horizontal_staggering {
        HorizontalStaggering::CellCenter => (grid_nx, grid_ny),
        HorizontalStaggering::XFace => match grid_nx.checked_add(1) {
            Some(n) => (n, grid_ny),
            None => {
                return Err(ContractError::ShapeMismatch(id));
            },
        },
        HorizontalStaggering::YFace => match grid_ny.checked_add(1) {
            Some(n) => (grid_nx, n),
            None => {
                return Err(ContractError::ShapeMismatch(id));
            },
        },
    };
    let three_d = id.is_3d();
    let mut expected: Vec<usize> = Vec::new();
    expected.push(nx);
    expected.push(ny);
    let mut axes: Vec<Axis> = Vec::new();
    axes.push(Axis::X);
    axes.push(Axis::Y);
    if three_d {
        let nz = match vertical_staggering {
            VerticalStaggering::LevelCenter => level_count,
            VerticalStaggering::LevelInterface => match interface_count {
                Some(n) => n,
                None => {
                    return Err(ContractError::InvalidStaggering(id));
                },
            },
            VerticalStaggering::NotApplicable => {
                return Err(ContractError::InvalidStaggering(id));
            },
        };
        expected.push(nz);
        axes.push(Axis::Z);
    } else if vertical_staggering != VerticalStaggering::NotApplicable {
        return Err(ContractError::InvalidStaggering(id));
    }
    let ghost expected_int = widened(expected@);
    let mut same = shape.len() == expected.len() && axis_order.len() == axes.len();
    let mut i: usize = 0;
    while same && i < shape.len()
        invariant
            i <= shape.len(),
            expected.len() == axes.len(),
            same ==> shape.len() == expected.len() && axis_order.len() == axes.len(),
            same ==> forall|k: int| 0 <= k < i ==> shape@[k] == expected@[k] && axis_order@[k]
                == axes@[k],
            !same ==> shape@ != expected@ || axis_order@ != axes@,
        decreases shape.len() - i,
    {
        if shape[i] != expected[i] || axis_order[i] != axes[i] {
            same = false;
        }
        i = i + 1;
    }
    proof {
        if same {
            assert(shape@ =~= expected@);
            assert(axis_order@ =~= axes@);
        }
        assert(widened(shape@) == expected_int <==> shape@ == expected@)
            by {
            if widened(shape@) == expected_int {
                assert(widened(shape@).len() == shape@.len());
                assert(expected_int.len() == expected@.len());
                assert forall|k: int| 0 <= k < shape@.len() implies shape@[k] == expected@[k] by {
                    assert(widened(shape@)[k] == expected_int[k]);
                }
                assert(shape@ =~= expected@);
            }
        }
        if three_d {
            assert(expected_int =~= seq![
                nx as int,
                ny as int,
                expected@[2] as int,
            ]);
            assert(axes@ =~= seq![Axis::X, Axis::Y, Axis::Z]);
        } else {
            assert(expected_int =~= seq![nx as int, ny as int]);
            assert(axes@ =~= seq![Axis::X, Axis::Y]);
        }
    }
    if !same {
        return Err(ContractError::ShapeMismatch(id));
    }
    let mut count: usize = 1;
    let mut k: usize = 0;
    proof {
        assert(shape@.subrange(0, 0) =~= Seq::<usize>::empty());
    }
    while k < shape.len()
        invariant
            k <= shape.len(),
            checked_product(shape@.subrange(0, k as int)) == Some(count as int),
            layout_problem(
                id,
                unit,
                sign,
                horizontal_staggering,
                vertical_staggering,
                grid_nx,
                grid_ny,
                level_count,
                interface_count,
                shape@,
                axis_order@,
                value_count,
            ) == match checked_product(shape@) {
                None => Some(ContractError::ShapeMismatch(id)),
                Some(c) => if value_count != c {
                    Some(ContractError::ValueCountMismatch(id))
                } else {
                    None
                },
            },
        decreases shape.len() - k,
    {
        proof {
            assert(shape@.subrange(0, k as int + 1).drop_last() =~= shape@.subrange(0, k as int));
        }
        match count.checked_mul(shape[k]) {
            Some(c) => {
                count = c;
            },
            None => {
                proof {
                    lemma_product_none_stays(shape@, k as int + 1);
                    assert(shape@.subrange(0, shape@.len() as int) =~= shape@);
                }
                return Err(ContractError::ShapeMismatch(id));
            },
        }
        k = k + 1;
    }
    proof {
        assert(shape@.subrange(0, shape@.len() as int) =~= shape@);
    }
    if value_count != count {
        return Err(ContractError::ValueCountMismatch(id));
    }
    Ok(())
}

/// Once a partial product overflows, the whole product does.
proof fn lemma_product_none_stays(s: Seq<usize>, j: int)
    requires
        0 <= j <= s.len(),
        checked_product(s.subrange(0, j)) is None,
    ensures
        checked_product(s) is None,
    decreases s.len() - j,
{
    if j < s.len() {
        assert(s.subrange(0, j + 1).drop_last() =~= s.subrange(0, j));
        lemma_product_none_stays(s, j + 1);
    } else {
        assert(s.subrange(0, j) =~= s);
    }
}

// ---------------------------------------------------------------------------
// Vertical coordinate structure
// ---------------------------------------------------------------------------

/// The part of a vertical coordinate's validity that does not depend on
/// coordinate values: at least one level, one more interface than levels,
/// and the reference and hybrid metadata that each kind of coordinate must
/// (or must not) carry.
pub open spec fn vertical_structure_ok(
    kind: VerticalCoordinateKind,
    reference: VerticalReference,
    level_count: usize,
    interface_count: Option<usize>,
    hybrid_a_count: Option<usize>,
    hybrid_b_count: Option<usize>,
    has_reference_surface_pressure: bool,
    surface_pressure_dependency: Option<FieldId>,
) -> bool {
    &&& level_count > 0
    &&& (interface_count matches Some(n) ==> n == level_count + 1)
    &&& match kind {
        VerticalCoordinateKind::GeometricHeight => {
            &&& reference != VerticalReference::ModelNative
            &&& hybrid_a_count is None
            &&& hybrid_b_count is None
            &&& !has_reference_surface_pressure
            &&& surface_pressure_dependency is None
        },
        VerticalCoordinateKind::Pressure => {
            &&& reference == VerticalReference::ModelNative
            &&& hybrid_a_count is None
            &&& hybrid_b_count is None
            &&& !has_reference_surface_pressure
            &&& surface_pressure_dependency is None
        },
        VerticalCoordinateKind::HybridSigmaPressure => {
            &&& reference == VerticalReference::ModelNative
            &&& interface_count is Some
            &&& hybrid_a_count == Some((level_count + 1) as usize)
            &&& hybrid_b_count == Some((level_count + 1) as usize)
            &&& has_reference_surface_pressure
            &&& surface_pressure_dependency == Some(FieldId::SurfacePressure)
        },
    }
}

/// Checks a vertical coordinate: its structure (see
/// [`vertical_structure_ok`]) and `values_ok`, whether its values are finite,
/// strictly monotonic in the declared ordering and, for hybrid coordinates,
/// consistent with the hybrid coefficients.
pub fn validate_vertical_coordinate(
    kind: VerticalCoordinateKind,
    reference: VerticalReference,
    level_count: usize,
    interface_count: Option<usize>,
    hybrid_a_count: Option<usize>,
    hybrid_b_count: Option<usize>,
    has_reference_surface_pressure: bool,
    surface_pressure_dependency: Option<FieldId>,
    values_ok: bool,
) -> (r: Result<(), ContractError>)
    ensures
        r is Ok <==> values_ok && vertical_structure_ok(
            kind,
            reference,
            level_count,
            interface_count,
            hybrid_a_count,
            hybrid_b_count,
            has_reference_surface_pressure,
            surface_pressure_dependency,
        ),
        r matches Err(e) ==> e == ContractError::InvalidVerticalCoordinate,
{
    let bad = Err(ContractError::InvalidVerticalCoordinate);
    if level_count == 0 || !values_ok {
        return bad;
    }
    match interface_count {
        Some(n) => {
            if level_count == usize::MAX || n != level_count + 1 {
                return bad;
            }
        },
        None => {},
    }
    let no_hybrid = hybrid_a_count.is_none() && hybrid_b_count.is_none()
        && !has_reference_surface_pressure && surface_pressure_dependency.is_none();
    let native = reference == VerticalReference::ModelNative;
    let ok = match kind {
        VerticalCoordinateKind::GeometricHeight => !native && no_hybrid,
        VerticalCoordinateKind::Pressure => native && no_hybrid,
        VerticalCoordinateKind::HybridSigmaPressure => {
            if level_count == usize::MAX {
                false
            } else {
                let n = level_count + 1;
                native && interface_count.is_some() && hybrid_a_count == Some(n) && hybrid_b_count
                    == Some(n) && has_reference_surface_pressure && surface_pressure_dependency
                    == Some(FieldId::SurfacePressure)
            }
        },
    };
    if ok {
        Ok(())
    } else {
        bad
    }
}

// ---------------------------------------------------------------------------
// Snapshot validation order
// ---------------------------------------------------------------------------

/// The first problem among the fields `ids[i..]`, `seen` holding the
/// identities met before: a repeated identity, else the field's own problem
/// `problems[i]`.
pub open spec fn fields_problem_from(
    ids: Seq<FieldId>,
    problems: Seq<Option<ContractError>>,
    i: int,
    seen: Set<FieldId>,
) -> Option<ContractError>
    decreases ids.len() - i,
{
    if i < 0 || i >= ids.len() {
        None
    } else if seen.contains(ids[i]) {
        Some(ContractError::DuplicateField(ids[i]))
    } else if problems[i] is Some {
        problems[i]
    } else {
        fields_problem_from(ids, problems, i + 1, seen.insert(ids[i]))
    }
}

/// `id` is the first member, in canonical order, of `required` missing from
/// `present`.
pub open spec fn first_missing_is(required: Set<FieldId>, present: Set<FieldId>, id: FieldId) -> bool {
    &&& required.contains(id)
    &&& !present.contains(id)
    &&& forall|x: FieldId| #[trigger] required.contains(x) && field_rank(x) < field_rank(id)
        ==> present.contains(x)
}

/// Validates a snapshot in the contract's order: schema, horizontal grid,
/// vertical coordinate, then each field in turn (a repeated identity, else
/// the field's own problem `field_problems[i]`), then the required fields.
///
/// `grid_ok` and `vertical_ok` are the outcomes of the grid and coordinate
/// checks.
pub fn validate_snapshot_parts(
    schema: &SchemaIdentity,
    grid_ok: bool,
    vertical_ok: bool,
    ids: &Vec<FieldId>,
    field_problems: &Vec<Option<ContractError>>,
    requirements: &Requirements,
) -> (r: Result<(), ContractError>)
    requires
        ids.len() == field_problems.len(),
    ensures
        match r {
            Ok(()) => {
                &&& schema.id@ == SCHEMA_ID@ && schema.version == SCHEMA_VERSION
                &&& grid_ok && vertical_ok
                &&& fields_problem_from(ids@, field_problems@, 0, Set::empty()) is None
                &&& requirements.required_fields@.subset_of(ids@.to_set())
            },
            Err(e) => if !(schema.id@ == SCHEMA_ID@ && schema.version == SCHEMA_VERSION) {
                e == ContractError::UnsupportedSchema
            } else if !grid_ok {
                e == ContractError::InvalidHorizontalGrid
            } else if !vertical_ok {
                e == ContractError::InvalidVerticalCoordinate
            } else {
                match fields_problem_from(ids@, field_problems@, 0, Set::empty()) {
                    Some(p) => e == p,
                    None => e matches ContractError::MissingRequiredField(id) && first_missing_is(
                        requirements.required_fields@,
                        ids@.to_set(),
                        id,
                    ),
                }
            },
        },
{
    if !schema.is_current() {
        return Err(ContractError::UnsupportedSchema);
    }
    if !grid_ok {
        return Err(ContractError::InvalidHorizontalGrid);
    }
    if !vertical_ok {
        return Err(ContractError::InvalidVerticalCoordinate);
    }
    let mut seen = FieldIdSet::new();
    let mut i: usize = 0;
    while i < ids.len()
        invariant
            i <= ids.len(),
            ids.len() == field_problems.len(),
            schema.id@ == SCHEMA_ID@ && schema.version == SCHEMA_VERSION,
            grid_ok && vertical_ok,
            seen@ == ids@.subrange(0, i as int).to_set(),
            fields_problem_from(ids@, field_problems@, 0, Set::empty()) == fields_problem_from(
                ids@,
                field_problems@,
                i as int,
                seen@,
            ),
        decreases ids.len() - i,
    {
        let id = ids[i];
        if !seen.insert(id) {
            return Err(ContractError::DuplicateField(id));
        }
        match field_problems[i] {
            Some(p) => {
                return Err(p);
            },
            None => {},
        }
        proof {
            let a = ids@.subrange(0, i as int);
            let b = ids@.subrange(0, i as int + 1);
            assert forall|x: FieldId| #[trigger] b.to_set().contains(x) == a.to_set().insert(
                id,
            ).contains(x) by {
                if a.contains(x) {
                    let k = choose|k: int| 0 <= k < a.len() && a[k] == x;
                    assert(b[k] == x);
                }
                if b.contains(x) {
                    let k = choose|k: int| 0 <= k < b.len() && b[k] == x;
                    if k < i {
                        assert(a[k] == x);
                    }
                }
                assert(b[i as int] == id);
            }
            assert(b.to_set() =~= a.to_set().insert(id));
        }
        i = i + 1;
    }
    proof {
        assert(ids@.subrange(0, ids@.len() as int) =~= ids@);
    }
    match first_missing(&requirements.required_fields, &seen) {
        Some(id) => Err(ContractError::MissingRequiredField(id)),
        None => Ok(()),
    }
}

proof fn lemma_fields_pass_from(
    ids: Seq<FieldId>,
    problems: Seq<Option<ContractError>>,
    i: int,
    seen: Set<FieldId>,
)
    requires
        ids.len() == problems.len(),
        0 <= i <= ids.len(),
        fields_problem_from(ids, problems, i, seen) is None,
    ensures
        forall|k: int| i <= k < ids.len() ==> !seen.contains(#[trigger] ids[k]),
        forall|k: int| i <= k < ids.len() ==> #[trigger] problems[k] is None,
        forall|k: int, l: int| i <= k < l < ids.len() ==> #[trigger] ids[k] != #[trigger] ids[l],
    decreases ids.len() - i,
{
    if i < ids.len() {
        lemma_fields_pass_from(ids, problems, i + 1, seen.insert(ids[i]));
    }
}

/// A snapshot whose fields pass validation has pairwise distinct field
/// identities, and none of its fields has a problem of its own.
pub proof fn lemma_accepted_fields_distinct(ids: Seq<FieldId>, problems: Seq<Option<ContractError>>)
    requires
        ids.len() == problems.len(),
        fields_problem_from(ids, problems, 0, Set::empty()) is None,
    ensures
        forall|k: int, l: int| 0 <= k < l < ids.len() ==> ids[k] != ids[l],
        forall|k: int| 0 <= k < ids.len() ==> problems[k] is None,
{
    lemma_fields_pass_from(ids, problems, 0, Set::empty());
    assert forall|k: int, l: int| 0 <= k < l < ids.len() implies ids[k] != ids[l] by {
        assert(ids[k] != ids[l]);
    }
    assert forall|k: int| 0 <= k < ids.len() implies problems[k] is None by {
        assert(problems[k] is None);
    }
}

/// An accumulation over an interval that ends at its valid time is accepted
/// exactly when its reset lies at or before the interval start: a reset long
/// before the interval (a later step of a forecast) is as good as one at its
/// start, for every field, precipitation included.
pub proof fn lemma_accumulation_accepts_every_reset_up_to_the_start(id: FieldId, time: FieldTime)
    requires
        time.kind == TemporalKind::AccumulatedSinceReset,
        time.interval_start_epoch_seconds is Some,
        time.interval_end_epoch_seconds is Some,
        time.interval_start_epoch_seconds->0 < time.interval_end_epoch_seconds->0,
        time.interval_end_epoch_seconds->0 == time.valid_time_epoch_seconds,
        time.accumulation is Some,
    ensures
        time_ok(id, time) <==> time.accumulation->0.reset_epoch_seconds
            <= time.interval_start_epoch_seconds->0,
{
}

} // verus!
