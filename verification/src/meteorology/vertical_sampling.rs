//! Field, staggering and shape checks of vertical column sampling, and the
//! map from physical (bottom-to-top) position to storage index.
//!
//! Centre-staggered fields are sampled on model-level heights and need at
//! least two levels; vertical velocity may also be sampled on interfaces.
//! Values are a whole X-fastest volume: `nx * ny * nz` of them for centres,
//! `nx * ny * (nz + 1)` for interfaces.

use vstd::prelude::*;
use super::fields::{is_3d_field, FieldId, VerticalOrdering, VerticalReference, VerticalStaggering};
use super::vertical::VerticalTransformError;

verus! {

/// Why a vertical sample was refused (the cases that carry no measured
/// values).
#[derive(Debug, Clone, Copy, PartialEq, Eq, Structural)]
pub enum VerticalSamplingError {
    /// Only explicit AGL or ASL heights can be sampled.
    AmbiguousReference { reference: VerticalReference },
    UnsupportedField { field: FieldId },
    WrongStaggering { field: FieldId, requested: VerticalStaggering },
    ShapeMismatch { field: FieldId, expected: usize, actual: usize },
    NonFiniteFieldValue { field: FieldId, x: usize, y: usize, index: usize },
    InsufficientLevels { nz: usize },
    Runtime(VerticalTransformError),
}

/// Three-dimensional fields that vertical sampling serves.
pub open spec fn vertically_sampled(field: FieldId) -> bool {
    match field {
        FieldId::WindU | FieldId::WindV | FieldId::VerticalVelocity | FieldId::Temperature
        | FieldId::SpecificHumidity | FieldId::Pressure | FieldId::AirDensity
        | FieldId::DensityGradient => true,
        _ => false,
    }
}

/// Whether the field is three-dimensional and so sampled in the vertical.
pub fn is_vertically_sampled(field: FieldId) -> (r: bool)
    ensures
        r == vertically_sampled(field),
{
    match field {
        FieldId::WindU | FieldId::WindV | FieldId::VerticalVelocity | FieldId::Temperature
        | FieldId::SpecificHumidity | FieldId::Pressure | FieldId::AirDensity
        | FieldId::DensityGradient => true,
        _ => false,
    }
}

/// Staggering a sampled field may use: level centres, and also interfaces
/// for vertical velocity.
pub open spec fn sampling_staggering_ok(field: FieldId, s: VerticalStaggering) -> bool {
    if field == FieldId::VerticalVelocity {
        s == VerticalStaggering::LevelCenter || s == VerticalStaggering::LevelInterface
    } else {
        s == VerticalStaggering::LevelCenter
    }
}

/// Checks that the field is sampled vertically with a staggering it has.
pub fn validate_field_and_staggering(field: FieldId, staggering: VerticalStaggering) -> (r: Result<
    (),
    VerticalSamplingError,
>)
    ensures
        !vertically_sampled(field) ==> r == Err::<(), VerticalSamplingError>(
            VerticalSamplingError::UnsupportedField { field },
        ),
        vertically_sampled(field) && !sampling_staggering_ok(field, staggering) ==> r == Err::<
            (),
            VerticalSamplingError,
        >(VerticalSamplingError::WrongStaggering { field, requested: staggering }),
        vertically_sampled(field) && sampling_staggering_ok(field, staggering) ==> r is Ok,
{
    if !is_vertically_sampled(field) {
        return Err(VerticalSamplingError::UnsupportedField { field });
    }
    let supported = match field {
        FieldId::VerticalVelocity => staggering == VerticalStaggering::LevelCenter || staggering
            == VerticalStaggering::LevelInterface,
        _ => staggering == VerticalStaggering::LevelCenter,
    };
    if !supported {
        return Err(VerticalSamplingError::WrongStaggering { field, requested: staggering });
    }
    Ok(())
}

/// The first problem of sampling `field` with `staggering` from
/// `value_count` values on an `nx` by `ny` grid of `nz` levels.
pub open spec fn sampling_shape_problem(
    field: FieldId,
    staggering: VerticalStaggering,
    nx: usize,
    ny: usize,
    nz: usize,
    value_count: usize,
) -> Option<VerticalSamplingError> {
    if !vertically_sampled(field) {
        Some(VerticalSamplingError::UnsupportedField { field })
    } else if !sampling_staggering_ok(field, staggering) {
        Some(VerticalSamplingError::WrongStaggering { field, requested: staggering })
    } else if nx * ny > usize::MAX {
        Some(VerticalSamplingError::ShapeMismatch { field, expected: usize::MAX, actual: value_count })
    } else {
        let expected = if staggering == VerticalStaggering::LevelCenter {
            nx * ny * nz
        } else {
            nx * ny * (nz + 1)
        };
        if expected > usize::MAX || (staggering == VerticalStaggering::LevelInterface && nz
            == usize::MAX) {
            Some(
                VerticalSamplingError::ShapeMismatch {
                    field,
                    expected: usize::MAX,
                    actual: value_count,
                },
            )
        } else if value_count != expected {
            Some(
                VerticalSamplingError::ShapeMismatch {
                    field,
                    expected: expected as usize,
                    actual: value_count,
                },
            )
        } else if staggering == VerticalStaggering::LevelCenter && nz < 2 {
            Some(VerticalSamplingError::InsufficientLevels { nz })
        } else {
            None
        }
    }
}

/// Checks the field, its staggering, the number of values and the number of
/// levels before a column is sampled.
pub fn check_vertical_sampling_shape(
    field: FieldId,
    staggering: VerticalStaggering,
    nx: usize,
    ny: usize,
    nz: usize,
    value_count: usize,
) -> (r: Result<(), VerticalSamplingError>)
    ensures
        match r {
            Ok(()) => sampling_shape_problem(field, staggering, nx, ny, nz, value_count) is None,
            Err(e) => sampling_shape_problem(field, staggering, nx, ny, nz, value_count) == Some(e),
        },
{
    match validate_field_and_staggering(field, staggering) {
        Ok(()) => {},
        Err(e) => {
            return Err(e);
        },
    }
    let horizontal = match nx.checked_mul(ny) {
        Some(h) => h,
        None => {
            return Err(
                VerticalSamplingError::ShapeMismatch {
                    field,
                    expected: usize::MAX,
                    actual: value_count,
                },
            );
        },
    };
    let expected = match staggering {
        VerticalStaggering::LevelCenter => match horizontal.checked_mul(nz) {
            Some(e) => e,
            None => {
                return Err(
                    VerticalSamplingError::ShapeMismatch {
                        field,
                        expected: usize::MAX,
                        actual: value_count,
                    },
                );
            },
        },
        VerticalStaggering::LevelInterface => {
            let per_column = match nz.checked_add(1) {
                Some(c) => c,
                None => {
                    return Err(
                        VerticalSamplingError::ShapeMismatch {
                            field,
                            expected: usize::MAX,
                            actual: value_count,
                        },
                    );
                },
            };
            match horizontal.checked_mul(per_column) {
                Some(e) => e,
                None => {
                    return Err(
                        VerticalSamplingError::ShapeMismatch {
                            field,
                            expected: usize::MAX,
                            actual: value_count,
                        },
                    );
                },
            }
        },
        VerticalStaggering::NotApplicable => {
            return Err(VerticalSamplingError::WrongStaggering { field, requested: staggering });
        },
    };
    if value_count != expected {
        return Err(VerticalSamplingError::ShapeMismatch { field, expected, actual: value_count });
    }
    if staggering == VerticalStaggering::LevelCenter && nz < 2 {
        return Err(VerticalSamplingError::InsufficientLevels { nz });
    }
    Ok(())
}

/// Storage index of the `physical`-th entry counted from the surface: of
/// `nz` levels for centres, of `nz + 1` interfaces otherwise.
pub open spec fn canonical_index(
    ordering: VerticalOrdering,
    staggering: VerticalStaggering,
    nz: int,
    physical: int,
) -> int {
    let last = if staggering == VerticalStaggering::LevelCenter {
        nz - 1
    } else {
        nz
    };
    match ordering {
        VerticalOrdering::Increasing => last - physical,
        VerticalOrdering::Decreasing => physical,
    }
}

/// Number of stored entries in one column: `nz` levels or `nz + 1`
/// interfaces.
pub open spec fn column_len(staggering: VerticalStaggering, nz: int) -> int {
    if staggering == VerticalStaggering::LevelCenter {
        nz
    } else {
        nz + 1
    }
}

/// Storage index of the `physical`-th entry of a column counted from the
/// surface.
pub fn canonical_column_index(
    ordering: VerticalOrdering,
    staggering: VerticalStaggering,
    nz: usize,
    physical: usize,
) -> (r: usize)
    requires
        staggering == VerticalStaggering::LevelCenter ==> physical < nz,
        staggering != VerticalStaggering::LevelCenter ==> physical <= nz,
    ensures
        r == canonical_index(ordering, staggering, nz as int, physical as int),
        r < column_len(staggering, nz as int),
{
    let last = if staggering == VerticalStaggering::LevelCenter {
        nz - 1
    } else {
        nz
    };
    match ordering {
        VerticalOrdering::Increasing => last - physical,
        VerticalOrdering::Decreasing => physical,
    }
}

/// Reading a column bottom to top visits every stored entry of it exactly
/// once.
pub proof fn lemma_canonical_index_bijective(
    ordering: VerticalOrdering,
    staggering: VerticalStaggering,
    nz: int,
    p: int,
    q: int,
)
    requires
        0 <= p < column_len(staggering, nz),
        0 <= q < column_len(staggering, nz),
    ensures
        0 <= canonical_index(ordering, staggering, nz, p) < column_len(staggering, nz),
        canonical_index(ordering, staggering, nz, p) == canonical_index(ordering, staggering, nz, q)
            ==> p == q,
        canonical_index(
            ordering,
            staggering,
            nz,
            canonical_index(ordering, staggering, nz, p),
        ) == p,
{
}

/// Vertical sampling serves three-dimensional fields only, and every
/// three-dimensional field but cloud liquid and cloud ice water.
pub proof fn lemma_sampled_fields_are_the_volume_fields(field: FieldId)
    ensures
        vertically_sampled(field) ==> is_3d_field(field),
        is_3d_field(field) && field != FieldId::CloudLiquidWater && field
            != FieldId::CloudIceWater ==> vertically_sampled(field),
{
}

/// A level-centre volume of any three-dimensional field other than cloud
/// water, with one value per cell and at least two levels, passes the
/// sampling shape check.
pub proof fn lemma_level_centre_volume_is_accepted(field: FieldId, nx: usize, ny: usize, nz: usize)
    requires
        is_3d_field(field),
        field != FieldId::CloudLiquidWater,
        field != FieldId::CloudIceWater,
        nz >= 2,
        nx * ny * nz <= usize::MAX,
    ensures
        sampling_shape_problem(
            field,
            VerticalStaggering::LevelCenter,
            nx,
            ny,
            nz,
            (nx * ny * nz) as usize,
        ) is None,
{
    assert(nx * ny <= nx * ny * nz) by (nonlinear_arith)
        requires
            nz >= 2,
            nx >= 0,
            ny >= 0,
    ;
}

} // verus!
