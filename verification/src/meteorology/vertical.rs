//! Index arithmetic, shape checks and semantic decisions of the vertical
//! transform from a canonical snapshot to runtime geometry.
//!
//! Volumes are stored X-fastest: `(x, y, z)` lives at `x + nx * (y + ny * z)`
//! and `z` follows the snapshot's declared vertical ordering. `Increasing`
//! stores the model top first, so the surface level is the last one;
//! `Decreasing` stores the surface first.

use vstd::prelude::*;
use super::fields::{
    FieldId, VerticalCoordinateKind, VerticalOrdering, VerticalReference, VerticalStaggering,
};
use super::checks::{ContractError, FieldIdSet, Requirements, SCHEMA_ID, SCHEMA_VERSION};
use crate::digest::{hex_text, sha256_hex, sha256_of};

verus! {

broadcast use vstd::string::group_string_axioms;

/// Representation of native vertical air motion.
#[derive(Debug, Clone, Copy, PartialEq, Eq, Structural)]
pub enum NativeVerticalMotionKind {
    /// Geometric `dz/dt`.
    GeometricVelocity,
    /// Pressure velocity `omega = dp/dt`.
    PressureVelocityOmega,
    /// Hybrid-coordinate tendency `d(eta)/dt`.
    EtaCoordinateVelocity,
}

/// Unit of native vertical-motion values.
#[derive(Debug, Clone, Copy, PartialEq, Eq, Structural)]
pub enum NativeVerticalMotionUnit {
    MeterPerSecond,
    PascalPerSecond,
    PerSecond,
}

/// Which direction of native vertical motion counts as positive.
#[derive(Debug, Clone, Copy, PartialEq, Eq, Structural)]
pub enum NativeVerticalMotionSign {
    PositiveUpward,
    PositivePressureIncreasing,
    PositiveEtaIncreasing,
    PositiveEtaDecreasing,
}

/// Lineage of a native vertical-motion field.
#[derive(Debug, Clone, PartialEq, Eq)]
pub struct NativeVerticalMotionProvenance {
    pub source_id: String,
}

/// Lineage of a normalised vertical-motion field.
#[derive(Debug, Clone, PartialEq, Eq)]
pub struct NormalizedVerticalMotionProvenance {
    pub source_id: String,
    /// SHA-256 of the serialised native motion.
    pub source_native_motion_sha256: String,
    pub source_kind: NativeVerticalMotionKind,
    pub source_unit: NativeVerticalMotionUnit,
    pub source_sign: NativeVerticalMotionSign,
    pub source_vertical_staggering: VerticalStaggering,
    pub output_vertical_staggering: VerticalStaggering,
    /// Machine identity of the conversion.
    pub algorithm_id: String,
    /// Human-readable summary of the conversion.
    pub conversion: String,
}

/// Identity of the vertical transformation that produced runtime geometry.
#[derive(Debug, Clone, PartialEq, Eq)]
pub struct VerticalTransformProvenance {
    pub source_schema_id: String,
    pub source_schema_version: u32,
    /// SHA-256 of the serialised source snapshot.
    pub source_snapshot_sha256: String,
    pub source_vertical_ordering: VerticalOrdering,
    pub source_level_count: usize,
    pub pressure_algorithm_id: String,
    pub height_algorithm_id: String,
    pub w_height_algorithm_id: String,
    pub terrain_reference: VerticalReference,
    pub pressure_reconstruction: String,
    pub height_reconstruction: String,
    pub height_reference: String,
}

impl VerticalTransformProvenance {
    /// The provenance of geometry derived from the snapshot whose compact
    /// serialisation is `snapshot_encoding`, with the given vertical ordering
    /// and number of levels; the snapshot is identified by the SHA-256 of its
    /// serialisation.
    pub fn from_snapshot_encoding(
        snapshot_encoding: &[u8],
        ordering: VerticalOrdering,
        level_count: usize,
    ) -> (r: Self)
        ensures
            r.source_schema_id@ == SCHEMA_ID@,
            r.source_schema_version == SCHEMA_VERSION,
            r.source_snapshot_sha256@ == hex_text(sha256_of(snapshot_encoding@)),
            r.source_vertical_ordering == ordering,
            r.source_level_count == level_count,
            r.terrain_reference == VerticalReference::AboveMeanSeaLevel,
            r.pressure_algorithm_id@ == "hybrid_interface_ab_local_ps_fulllevel_adjacent_mean_v1"@,
            r.height_algorithm_id@ == "flexpart11_verttransform_ecmwf_heights_v1"@,
            r.w_height_algorithm_id@ == "flexpart11_wzlev_from_uvzlev_v1"@,
            r.pressure_reconstruction@
                == "p_interface=a_interface+b_interface*local_surface_pressure; p_level=mean(adjacent_interfaces)"@,
            r.height_reconstruction@
                == "FLEXPART-11.1 verttransform_ecmwf_heights hypsometric integration from surface virtual temperature (T2m/dewpoint) through model-level T/q"@,
            r.height_reference@ == "agl_integrated_from_local_surface; asl=agl+orography_asl"@,
    {
        VerticalTransformProvenance {
            source_schema_id: String::from_str(SCHEMA_ID),
            source_schema_version: SCHEMA_VERSION,
            source_snapshot_sha256: sha256_hex(snapshot_encoding),
            source_vertical_ordering: ordering,
            source_level_count: level_count,
            pressure_algorithm_id: String::from_str(
                "hybrid_interface_ab_local_ps_fulllevel_adjacent_mean_v1",
            ),
            height_algorithm_id: String::from_str("flexpart11_verttransform_ecmwf_heights_v1"),
            w_height_algorithm_id: String::from_str("flexpart11_wzlev_from_uvzlev_v1"),
            terrain_reference: VerticalReference::AboveMeanSeaLevel,
            pressure_reconstruction: String::from_str(
                "p_interface=a_interface+b_interface*local_surface_pressure; p_level=mean(adjacent_interfaces)",
            ),
            height_reconstruction: String::from_str(
                "FLEXPART-11.1 verttransform_ecmwf_heights hypsometric integration from surface virtual temperature (T2m/dewpoint) through model-level T/q",
            ),
            height_reference: String::from_str(
                "agl_integrated_from_local_surface; asl=agl+orography_asl",
            ),
        }
    }
}

/// Why a vertical transform or runtime access was refused (the cases that
/// carry no measured values).
#[derive(Debug, Clone, Copy, PartialEq, Eq, Structural)]
pub enum VerticalTransformError {
    Contract(ContractError),
    UnsupportedVerticalCoordinate,
    MissingField(FieldId),
    InvalidPressureColumn { x: usize, y: usize, index: usize },
    ShapeMismatch { field: ShapeField, expected: usize, actual: usize },
    RuntimeShapeMismatch { field: ShapeField, expected: usize, actual: usize },
    RuntimeIndexOutOfBounds {
        x: usize,
        y: usize,
        z: Option<usize>,
        nx: usize,
        ny: usize,
        nz: Option<usize>,
    },
    UnsupportedReleaseHeightReference { reference: VerticalReference },
    InvalidNativeVerticalMotion { reason: MotionRefusal },
    /// A native vertical-motion value is not finite.
    InvalidNativeVerticalMotionValue { index: usize },
    InvalidEtaDotTransform { x: usize, y: usize, k: usize },
    InsufficientVerticalLevels,
    InvalidPressureToHeightDerivative { x: usize, y: usize, z: usize },
}

/// The arrays whose lengths are checked.
#[derive(Debug, Clone, Copy, PartialEq, Eq, Structural)]
pub enum ShapeField {
    Horizontal,
    TerrainAslM,
    Height,
    LevelGeometry,
    LevelPressurePa,
    HeightAslM,
    HeightAglM,
    InterfacePressurePa,
    InterfaceHeightAslM,
    InterfaceHeightAglM,
    VerticalVelocityValues,
    NativeVerticalMotion,
}

/// Why native vertical motion was refused.
#[derive(Debug, Clone, Copy, PartialEq, Eq, Structural)]
pub enum MotionRefusal {
    /// The kind, unit and sign do not form a canonical combination.
    NonCanonicalSemantics,
    /// Vertical motion cannot be unstaggered.
    NotApplicableStaggering,
    /// The geometry was not derived from this snapshot's grid.
    GeometryMismatch,
    /// Centre-staggered pressure velocity has no pinned reference.
    CenterOmegaDisabled,
    /// Eta-dot normalisation is validation-only.
    EtaDotDisabled,
}

// ---------------------------------------------------------------------------
// Requirements
// ---------------------------------------------------------------------------

/// No required fields: the contract check alone.
pub fn validation_requirements() -> (r: Requirements)
    ensures
        r.required_fields@ == Set::<FieldId>::empty(),
{
    Requirements { required_fields: FieldIdSet::new() }
}

/// Fields the height reconstruction reads.
pub fn vertical_transform_requirements() -> (r: Requirements)
    ensures
        r.required_fields@ == set![
            FieldId::SurfacePressure,
            FieldId::Temperature,
            FieldId::SpecificHumidity,
            FieldId::Orography,
            FieldId::Temperature2m,
            FieldId::Dewpoint2m,
        ],
{
    let ids: &[FieldId] = &[
        FieldId::SurfacePressure,
        FieldId::Temperature,
        FieldId::SpecificHumidity,
        FieldId::Orography,
        FieldId::Temperature2m,
        FieldId::Dewpoint2m,
    ];
    let set = FieldIdSet::from_slice(ids);
    proof {
        assert(ids@.to_set() =~= set![
            FieldId::SurfacePressure,
            FieldId::Temperature,
            FieldId::SpecificHumidity,
            FieldId::Orography,
            FieldId::Temperature2m,
            FieldId::Dewpoint2m,
        ]) by {
            assert(ids@[0] == FieldId::SurfacePressure);
            assert(ids@[1] == FieldId::Temperature);
            assert(ids@[2] == FieldId::SpecificHumidity);
            assert(ids@[3] == FieldId::Orography);
            assert(ids@[4] == FieldId::Temperature2m);
            assert(ids@[5] == FieldId::Dewpoint2m);
        }
    }
    Requirements { required_fields: set }
}

/// Fields the eta-dot preprocessing reads.
pub fn eta_dot_preprocessing_requirements() -> (r: Requirements)
    ensures
        r.required_fields@ == set![FieldId::SurfacePressure],
{
    let ids: &[FieldId] = &[FieldId::SurfacePressure];
    let set = FieldIdSet::from_slice(ids);
    proof {
        assert(ids@.to_set() =~= set![FieldId::SurfacePressure]) by {
            assert(ids@[0] == FieldId::SurfacePressure);
        }
    }
    Requirements { required_fields: set }
}

// ---------------------------------------------------------------------------
// Index arithmetic
// ---------------------------------------------------------------------------

/// Offset of `(x, y)` in an X-fastest surface array.
pub open spec fn surface_index(x: int, y: int, nx: int) -> int {
    x + nx * y
}

/// Offset of `(x, y, z)` in an X-fastest volume.
pub open spec fn volume_index(x: int, y: int, z: int, nx: int, ny: int) -> int {
    x + nx * (y + ny * z)
}

/// Offset of `(x, y)` in an X-fastest surface array.
pub fn surface_offset(x: usize, y: usize, nx: usize) -> (r: usize)
    requires
        x < nx,
        nx * (y + 1) <= usize::MAX,
    ensures
        r == surface_index(x as int, y as int, nx as int),
{
    proof {
        assert(nx * (y + 1) == nx * y + nx) by (nonlinear_arith);
    }
    x + nx * y
}

/// Offset of `(x, y, z)` in an X-fastest volume; it lies below the size of
/// the first `z + 1` layers.
pub fn volume_offset(x: usize, y: usize, z: usize, nx: usize, ny: usize) -> (r: usize)
    requires
        x < nx,
        y < ny,
        nx * ny * (z + 1) <= usize::MAX,
    ensures
        r == volume_index(x as int, y as int, z as int, nx as int, ny as int),
        r < nx * ny * (z + 1),
{
    proof {
        lemma_volume_index_bound(x as int, y as int, z as int, nx as int, ny as int);
    }
    x + nx * (y + ny * z)
}

/// Offset of `(x, y, interface)` in an X-fastest interface volume (`nz + 1`
/// interfaces per column).
pub fn interface_offset(x: usize, y: usize, z: usize, nx: usize, ny: usize) -> (r: usize)
    requires
        x < nx,
        y < ny,
        nx * ny * (z + 1) <= usize::MAX,
    ensures
        r == volume_index(x as int, y as int, z as int, nx as int, ny as int),
{
    volume_offset(x, y, z, nx, ny)
}

proof fn lemma_volume_index_bound(x: int, y: int, z: int, nx: int, ny: int)
    requires
        0 <= x < nx,
        0 <= y < ny,
        0 <= z,
    ensures
        0 <= volume_index(x, y, z, nx, ny) < nx * ny * (z + 1),
        nx * (y + ny * z) <= nx * ny * (z + 1),
        ny * z + y < ny * (z + 1),
        ny * (z + 1) <= nx * ny * (z + 1),
        0 <= ny * z,
{
    assert(ny * (z + 1) <= nx * ny * (z + 1)) by (nonlinear_arith)
        requires
            1 <= nx,
            0 <= ny,
            0 <= z,
    ;
    assert(0 <= ny * z) by (nonlinear_arith)
        requires
            0 <= ny,
            0 <= z,
    ;
    assert(y + ny * z < ny * (z + 1)) by (nonlinear_arith)
        requires
            0 <= y < ny,
            0 <= z,
    ;
    assert(nx * (y + ny * z) + x < nx * (ny * (z + 1))) by (nonlinear_arith)
        requires
            0 <= x < nx,
            0 <= y + ny * z < ny * (z + 1),
    ;
    assert(nx * (ny * (z + 1)) == nx * ny * (z + 1)) by (nonlinear_arith);
    assert(0 <= nx * (y + ny * z)) by (nonlinear_arith)
        requires
            0 <= nx,
            0 <= y + ny * z,
    ;
}

/// Every cell of an `nx` by `ny` by `nz` volume has an offset inside the
/// volume, and distinct cells have distinct offsets.
pub proof fn lemma_volume_offsets_distinct_and_in_bounds(
    nx: int,
    ny: int,
    nz: int,
    a: (int, int, int),
    b: (int, int, int),
)
    requires
        0 <= a.0 < nx,
        0 <= a.1 < ny,
        0 <= a.2 < nz,
        0 <= b.0 < nx,
        0 <= b.1 < ny,
        0 <= b.2 < nz,
    ensures
        0 <= volume_index(a.0, a.1, a.2, nx, ny) < nx * ny * nz,
        volume_index(a.0, a.1, a.2, nx, ny) == volume_index(b.0, b.1, b.2, nx, ny) ==> a == b,
{
    lemma_volume_index_bound(a.0, a.1, a.2, nx, ny);
    assert(nx * ny * (a.2 + 1) <= nx * ny * nz) by (nonlinear_arith)
        requires
            0 <= nx,
            0 <= ny,
            a.2 + 1 <= nz,
    ;
    if volume_index(a.0, a.1, a.2, nx, ny) == volume_index(b.0, b.1, b.2, nx, ny) {
        let ra = a.1 + ny * a.2;
        let rb = b.1 + ny * b.2;
        assert(a.0 == b.0 && ra == rb) by (nonlinear_arith)
            requires
                0 <= a.0 < nx,
                0 <= b.0 < nx,
                0 <= ra,
                0 <= rb,
                a.0 + nx * ra == b.0 + nx * rb,
        {
            if ra < rb {
                assert(nx * ra + nx <= nx * rb);
            } else if ra > rb {
                assert(nx * rb + nx <= nx * ra);
            }
        }
        assert(a.1 == b.1 && a.2 == b.2) by (nonlinear_arith)
            requires
                0 <= a.1 < ny,
                0 <= b.1 < ny,
                0 <= a.2,
                0 <= b.2,
                a.1 + ny * a.2 == b.1 + ny * b.2,
        {
            if a.2 < b.2 {
                assert(ny * a.2 + ny <= ny * b.2);
            } else if a.2 > b.2 {
                assert(ny * b.2 + ny <= ny * a.2);
            }
        }
    }
    assert(0 <= ny * a.2) by (nonlinear_arith)
        requires
            0 <= ny,
            0 <= a.2,
    ;
}

/// Storage index of the `k`-th interface counted from the model top
/// (`k` in `1..=nz + 1`).
pub open spec fn interface_from_top(ordering: VerticalOrdering, nz: int, k: int) -> int {
    match ordering {
        VerticalOrdering::Increasing => k - 1,
        VerticalOrdering::Decreasing => nz + 1 - k,
    }
}

/// Storage index of the `k`-th interface counted from the model top.
pub fn interface_index_from_top(ordering: VerticalOrdering, nz: usize, k: usize) -> (r: usize)
    requires
        1 <= k <= nz + 1,
    ensures
        r == interface_from_top(ordering, nz as int, k as int),
        r <= nz,
{
    match ordering {
        VerticalOrdering::Increasing => k - 1,
        VerticalOrdering::Decreasing => nz - (k - 1),
    }
}

/// Counting interfaces from the model top visits every stored interface
/// exactly once, whatever the ordering.
pub proof fn lemma_interface_from_top_bijective(ordering: VerticalOrdering, nz: int, k1: int, k2: int)
    requires
        nz >= 0,
        1 <= k1 <= nz + 1,
        1 <= k2 <= nz + 1,
    ensures
        0 <= interface_from_top(ordering, nz, k1) <= nz,
        interface_from_top(ordering, nz, k1) == interface_from_top(ordering, nz, k2) ==> k1 == k2,
        exists|k: int|
            1 <= k <= nz + 1 && #[trigger] interface_from_top(ordering, nz, k) == interface_from_top(
                ordering,
                nz,
                k1,
            ),
{
}

/// Storage index of the surface model level.
pub open spec fn surface_level(ordering: VerticalOrdering, nz: int) -> int {
    match ordering {
        VerticalOrdering::Increasing => nz - 1,
        VerticalOrdering::Decreasing => 0,
    }
}

/// Storage index of the model level `step` levels above the surface.
pub open spec fn level_from_surface(ordering: VerticalOrdering, nz: int, step: int) -> int {
    match ordering {
        VerticalOrdering::Increasing => nz - 1 - step,
        VerticalOrdering::Decreasing => step,
    }
}

/// Storage index of the surface model level.
pub fn surface_level_index(ordering: VerticalOrdering, nz: usize) -> (r: usize)
    requires
        nz >= 1,
    ensures
        r == surface_level(ordering, nz as int),
        r < nz,
{
    match ordering {
        VerticalOrdering::Increasing => nz - 1,
        VerticalOrdering::Decreasing => 0,
    }
}

/// Storage index of the model level `step` levels above the surface.
pub fn model_level_index_from_surface(ordering: VerticalOrdering, nz: usize, step: usize) -> (r:
    usize)
    requires
        step < nz,
    ensures
        r == level_from_surface(ordering, nz as int, step as int),
        r < nz,
{
    match ordering {
        VerticalOrdering::Increasing => nz - 1 - step,
        VerticalOrdering::Decreasing => step,
    }
}

/// Walking up from the surface visits every stored level exactly once,
/// starting at the surface level, whatever the ordering.
pub proof fn lemma_level_from_surface_bijective(
    ordering: VerticalOrdering,
    nz: int,
    s1: int,
    s2: int,
)
    requires
        0 <= s1 < nz,
        0 <= s2 < nz,
    ensures
        0 <= level_from_surface(ordering, nz, s1) < nz,
        level_from_surface(ordering, nz, 0) == surface_level(ordering, nz),
        level_from_surface(ordering, nz, s1) == level_from_surface(ordering, nz, s2) ==> s1 == s2,
        level_from_surface(ordering, nz, level_from_surface(ordering, nz, s1)) == s1,
{
}

/// The neighbours used for a centred difference at `index` of `count`
/// points: one-sided at either end.
pub open spec fn derivative_neighbours(index: int, count: int) -> (int, int) {
    if index == 0 {
        (0, 1)
    } else if index + 1 == count {
        (count - 2, count - 1)
    } else {
        (index - 1, index + 1)
    }
}

/// Neighbours used for the centred difference at `index` of `count` points,
/// one-sided at either end.
pub fn derivative_pair(index: usize, count: usize) -> (r: (usize, usize))
    requires
        count >= 2,
        index < count,
    ensures
        r.0 == derivative_neighbours(index as int, count as int).0,
        r.1 == derivative_neighbours(index as int, count as int).1,
        r.0 < r.1 < count,
        r.0 <= index <= r.1,
        r.1 - r.0 <= 2,
{
    if index == 0 {
        (0, 1)
    } else if index + 1 == count {
        (count - 2, count - 1)
    } else {
        (index - 1, index + 1)
    }
}

// ---------------------------------------------------------------------------
// Bounds and shapes
// ---------------------------------------------------------------------------

/// Checks a column index against the horizontal grid.
pub fn validate_xy(x: usize, y: usize, nx: usize, ny: usize) -> (r: Result<(), VerticalTransformError>)
    ensures
        r is Ok <==> x < nx && y < ny,
        r matches Err(e) ==> e == (VerticalTransformError::RuntimeIndexOutOfBounds {
            x,
            y,
            z: None,
            nx,
            ny,
            nz: None,
        }),
{
    if x >= nx || y >= ny {
        return Err(
            VerticalTransformError::RuntimeIndexOutOfBounds { x, y, z: None, nx, ny, nz: None },
        );
    }
    Ok(())
}

/// Checks a cell index against a volume.
pub fn validate_xyz(x: usize, y: usize, z: usize, nx: usize, ny: usize, nz: usize) -> (r: Result<
    (),
    VerticalTransformError,
>)
    ensures
        r is Ok <==> x < nx && y < ny && z < nz,
        r matches Err(e) ==> e == (VerticalTransformError::RuntimeIndexOutOfBounds {
            x,
            y,
            z: Some(z),
            nx,
            ny,
            nz: Some(nz),
        }),
{
    if x >= nx || y >= ny || z >= nz {
        return Err(
            VerticalTransformError::RuntimeIndexOutOfBounds {
                x,
                y,
                z: Some(z),
                nx,
                ny,
                nz: Some(nz),
            },
        );
    }
    Ok(())
}

/// Checks that terrain holds `nx * ny` values and heights `nx * ny * nz`.
pub fn validate_height_shapes(
    nx: usize,
    ny: usize,
    nz: usize,
    heights_len: usize,
    terrain_len: usize,
) -> (r: Result<(), VerticalTransformError>)
    ensures
        nx * ny > usize::MAX ==> r == Err::<(), VerticalTransformError>(
            VerticalTransformError::ShapeMismatch {
                field: ShapeField::TerrainAslM,
                expected: usize::MAX,
                actual: terrain_len,
            },
        ),
        nx * ny <= usize::MAX && nx * ny * nz > usize::MAX ==> r == Err::<
            (),
            VerticalTransformError,
        >(
            VerticalTransformError::ShapeMismatch {
                field: ShapeField::Height,
                expected: usize::MAX,
                actual: heights_len,
            },
        ),
        nx * ny <= usize::MAX && nx * ny * nz <= usize::MAX ==> (r is Ok <==> terrain_len == nx
            * ny && heights_len == nx * ny * nz),
        nx * ny <= usize::MAX && nx * ny * nz <= usize::MAX && terrain_len != nx * ny ==> r == Err::<
            (),
            VerticalTransformError,
        >(
            VerticalTransformError::ShapeMismatch {
                field: ShapeField::TerrainAslM,
                expected: (nx * ny) as usize,
                actual: terrain_len,
            },
        ),
        nx * ny <= usize::MAX && nx * ny * nz <= usize::MAX && terrain_len == nx * ny
            && heights_len != nx * ny * nz ==> r
            == Err::<(), VerticalTransformError>(
            VerticalTransformError::ShapeMismatch {
                field: ShapeField::Height,
                expected: (nx * ny * nz) as usize,
                actual: heights_len,
            },
        ),
{
    let horizontal = match nx.checked_mul(ny) {
        Some(h) => h,
        None => {
            proof {
                if nx * ny <= usize::MAX {
                    assert(false);
                }
                lemma_product_grows(nx as int, ny as int, nz as int);
            }
            return Err(
                VerticalTransformError::ShapeMismatch {
                    field: ShapeField::TerrainAslM,
                    expected: usize::MAX,
                    actual: terrain_len,
                },
            );
        },
    };
    let volume = match horizontal.checked_mul(nz) {
        Some(v) => v,
        None => {
            return Err(
                VerticalTransformError::ShapeMismatch {
                    field: ShapeField::Height,
                    expected: usize::MAX,
                    actual: heights_len,
                },
            );
        },
    };
    if terrain_len != horizontal {
        return Err(
            VerticalTransformError::ShapeMismatch {
                field: ShapeField::TerrainAslM,
                expected: horizontal,
                actual: terrain_len,
            },
        );
    }
    if heights_len != volume {
        return Err(
            VerticalTransformError::ShapeMismatch {
                field: ShapeField::Height,
                expected: volume,
                actual: heights_len,
            },
        );
    }
    Ok(())
}

proof fn lemma_product_grows(a: int, b: int, c: int)
    requires
        a * b > usize::MAX,
        a >= 0,
        b >= 0,
        c >= 0,
    ensures
        c > 0 ==> a * b * c > usize::MAX,
{
    if c > 0 {
        assert(a * b * c >= a * b) by (nonlinear_arith)
            requires
                a * b >= 0,
                c >= 1,
        ;
    }
}

/// Lengths of the arrays of derived runtime geometry.
#[derive(Debug, Clone, Copy, PartialEq, Eq, Structural)]
pub struct RuntimeLengths {
    pub terrain_asl_m: usize,
    pub level_pressure_pa: usize,
    pub height_asl_m: usize,
    pub height_agl_m: usize,
    pub interface_pressure_pa: usize,
    pub interface_height_asl_m: usize,
    pub interface_height_agl_m: usize,
}

/// The first shape problem of derived geometry with `nx * ny` columns of
/// `nz` levels and `nz + 1` interfaces, and of its vertical velocity
/// (staggering and number of values) when there is one.
pub open spec fn runtime_shape_problem(
    nx: usize,
    ny: usize,
    nz: usize,
    l: RuntimeLengths,
    motion: Option<(VerticalStaggering, usize)>,
) -> Option<VerticalTransformError> {
    let h = nx * ny;
    let levels = h * nz;
    let interfaces = h * (nz + 1);
    if h > usize::MAX {
        Some(
            VerticalTransformError::RuntimeShapeMismatch {
                field: ShapeField::Horizontal,
                expected: usize::MAX,
                actual: 0,
            },
        )
    } else if levels > usize::MAX {
        Some(
            VerticalTransformError::RuntimeShapeMismatch {
                field: ShapeField::LevelGeometry,
                expected: usize::MAX,
                actual: 0,
            },
        )
    } else if nz + 1 > usize::MAX || interfaces > usize::MAX {
        Some(
            VerticalTransformError::RuntimeShapeMismatch {
                field: ShapeField::InterfacePressurePa,
                expected: usize::MAX,
                actual: 0,
            },
        )
    } else if l.terrain_asl_m != h {
        Some(
            VerticalTransformError::RuntimeShapeMismatch {
                field: ShapeField::TerrainAslM,
                expected: h as usize,
                actual: l.terrain_asl_m,
            },
        )
    } else if l.level_pressure_pa != levels {
        Some(
            VerticalTransformError::RuntimeShapeMismatch {
                field: ShapeField::LevelPressurePa,
                expected: levels as usize,
                actual: l.level_pressure_pa,
            },
        )
    } else if l.height_asl_m != levels {
        Some(
            VerticalTransformError::RuntimeShapeMismatch {
                field: ShapeField::HeightAslM,
                expected: levels as usize,
                actual: l.height_asl_m,
            },
        )
    } else if l.height_agl_m != levels {
        Some(
            VerticalTransformError::RuntimeShapeMismatch {
                field: ShapeField::HeightAglM,
                expected: levels as usize,
                actual: l.height_agl_m,
            },
        )
    } else if l.interface_pressure_pa != interfaces {
        Some(
            VerticalTransformError::RuntimeShapeMismatch {
                field: ShapeField::InterfacePressurePa,
                expected: interfaces as usize,
                actual: l.interface_pressure_pa,
            },
        )
    } else if l.interface_height_asl_m != interfaces {
        Some(
            VerticalTransformError::RuntimeShapeMismatch {
                field: ShapeField::InterfaceHeightAslM,
                expected: interfaces as usize,
                actual: l.interface_height_asl_m,
            },
        )
    } else if l.interface_height_agl_m != interfaces {
        Some(
            VerticalTransformError::RuntimeShapeMismatch {
                field: ShapeField::InterfaceHeightAglM,
                expected: interfaces as usize,
                actual: l.interface_height_agl_m,
            },
        )
    } else {
        match motion {
            None => None,
            Some((s, n)) => if s == VerticalStaggering::NotApplicable {
                Some(
                    VerticalTransformError::InvalidNativeVerticalMotion {
                        reason: MotionRefusal::NotApplicableStaggering,
                    },
                )
            } else {
                let expected = if s == VerticalStaggering::LevelCenter {
                    levels
                } else {
                    interfaces
                };
                if n != expected {
                    Some(
                        VerticalTransformError::RuntimeShapeMismatch {
                            field: ShapeField::VerticalVelocityValues,
                            expected: expected as usize,
                            actual: n,
                        },
                    )
                } else {
                    None
                }
            },
        }
    }
}

fn length_check(field: ShapeField, actual: usize, expected: usize) -> (r: Result<
    (),
    VerticalTransformError,
>)
    ensures
        r is Ok <==> actual == expected,
        r matches Err(e) ==> e == (VerticalTransformError::RuntimeShapeMismatch {
            field,
            expected,
            actual,
        }),
{
    if actual != expected {
        return Err(VerticalTransformError::RuntimeShapeMismatch { field, expected, actual });
    }
    Ok(())
}

/// Checks every derived array length against the grid dimensions before
/// the geometry is handed to samplers.
pub fn check_runtime_shapes(
    nx: usize,
    ny: usize,
    nz: usize,
    lengths: &RuntimeLengths,
    motion: Option<(VerticalStaggering, usize)>,
) -> (r: Result<(), VerticalTransformError>)
    ensures
        match r {
            Ok(()) => runtime_shape_problem(nx, ny, nz, *lengths, motion) is None,
            Err(e) => runtime_shape_problem(nx, ny, nz, *lengths, motion) == Some(e),
        },
{
    let horizontal = match nx.checked_mul(ny) {
        Some(h) => h,
        None => {
            return Err(
                VerticalTransformError::RuntimeShapeMismatch {
                    field: ShapeField::Horizontal,
                    expected: usize::MAX,
                    actual: 0,
                },
            );
        },
    };
    let level_count = match horizontal.checked_mul(nz) {
        Some(c) => c,
        None => {
            return Err(
                VerticalTransformError::RuntimeShapeMismatch {
                    field: ShapeField::LevelGeometry,
                    expected: usize::MAX,
                    actual: 0,
                },
            );
        },
    };
    let interfaces_per_column = match nz.checked_add(1) {
        Some(c) => c,
        None => {
            return Err(
                VerticalTransformError::RuntimeShapeMismatch {
                    field: ShapeField::InterfacePressurePa,
                    expected: usize::MAX,
                    actual: 0,
                },
            );
        },
    };
    let interface_count = match horizontal.checked_mul(interfaces_per_column) {
        Some(c) => c,
        None => {
            return Err(
                VerticalTransformError::RuntimeShapeMismatch {
                    field: ShapeField::InterfacePressurePa,
                    expected: usize::MAX,
                    actual: 0,
                },
            );
        },
    };
    match length_check(ShapeField::TerrainAslM, lengths.terrain_asl_m, horizontal) {
        Ok(()) => {},
        Err(e) => {
            return Err(e);
        },
    }
    match length_check(ShapeField::LevelPressurePa, lengths.level_pressure_pa, level_count) {
        Ok(()) => {},
        Err(e) => {
            return Err(e);
        },
    }
    match length_check(ShapeField::HeightAslM, lengths.height_asl_m, level_count) {
        Ok(()) => {},
        Err(e) => {
            return Err(e);
        },
    }
    match length_check(ShapeField::HeightAglM, lengths.height_agl_m, level_count) {
        Ok(()) => {},
        Err(e) => {
            return Err(e);
        },
    }
    match length_check(
        ShapeField::InterfacePressurePa,
        lengths.interface_pressure_pa,
        interface_count,
    ) {
        Ok(()) => {},
        Err(e) => {
            return Err(e);
        },
    }
    match length_check(
        ShapeField::InterfaceHeightAslM,
        lengths.interface_height_asl_m,
        interface_count,
    ) {
        Ok(()) => {},
        Err(e) => {
            return Err(e);
        },
    }
    match length_check(
        ShapeField::InterfaceHeightAglM,
        lengths.interface_height_agl_m,
        interface_count,
    ) {
        Ok(()) => {},
        Err(e) => {
            return Err(e);
        },
    }
    if let Some((staggering, count)) = motion {
        let expected = match staggering {
            VerticalStaggering::LevelCenter => level_count,
            VerticalStaggering::LevelInterface => interface_count,
            VerticalStaggering::NotApplicable => {
                return Err(
                    VerticalTransformError::InvalidNativeVerticalMotion {
                        reason: MotionRefusal::NotApplicableStaggering,
                    },
                );
            },
        };
        match length_check(ShapeField::VerticalVelocityValues, count, expected) {
            Ok(()) => {},
            Err(e) => {
                return Err(e);
            },
        }
    }
    Ok(())
}

// ---------------------------------------------------------------------------
// Native vertical motion
// ---------------------------------------------------------------------------

/// The canonical combinations: geometric velocity in m/s positive upward;
/// pressure velocity in Pa/s positive with increasing pressure, on
/// interfaces; eta-dot per second positive with increasing eta.
pub open spec fn motion_semantics_ok(
    kind: NativeVerticalMotionKind,
    unit: NativeVerticalMotionUnit,
    sign: NativeVerticalMotionSign,
    staggering: VerticalStaggering,
) -> bool {
    match kind {
        NativeVerticalMotionKind::GeometricVelocity => unit == NativeVerticalMotionUnit::MeterPerSecond
            && sign == NativeVerticalMotionSign::PositiveUpward,
        NativeVerticalMotionKind::PressureVelocityOmega => unit
            == NativeVerticalMotionUnit::PascalPerSecond && sign
            == NativeVerticalMotionSign::PositivePressureIncreasing && staggering
            == VerticalStaggering::LevelInterface,
        NativeVerticalMotionKind::EtaCoordinateVelocity => unit == NativeVerticalMotionUnit::PerSecond
            && sign == NativeVerticalMotionSign::PositiveEtaIncreasing,
    }
}

/// Checks that the declared kind, unit, sign and staggering of native
/// vertical motion form a canonical combination.
pub fn validate_native_motion_semantics(
    kind: NativeVerticalMotionKind,
    unit: NativeVerticalMotionUnit,
    sign: NativeVerticalMotionSign,
    staggering: VerticalStaggering,
) -> (r: Result<(), VerticalTransformError>)
    ensures
        r is Ok <==> motion_semantics_ok(kind, unit, sign, staggering),
        r matches Err(e) ==> e == (VerticalTransformError::InvalidNativeVerticalMotion {
            reason: MotionRefusal::NonCanonicalSemantics,
        }),
{
    let valid = match kind {
        NativeVerticalMotionKind::GeometricVelocity => unit == NativeVerticalMotionUnit::MeterPerSecond
            && sign == NativeVerticalMotionSign::PositiveUpward,
        NativeVerticalMotionKind::PressureVelocityOmega => unit
            == NativeVerticalMotionUnit::PascalPerSecond && sign
            == NativeVerticalMotionSign::PositivePressureIncreasing && staggering
            == VerticalStaggering::LevelInterface,
        NativeVerticalMotionKind::EtaCoordinateVelocity => unit == NativeVerticalMotionUnit::PerSecond
            && sign == NativeVerticalMotionSign::PositiveEtaIncreasing,
    };
    if !valid {
        return Err(
            VerticalTransformError::InvalidNativeVerticalMotion {
                reason: MotionRefusal::NonCanonicalSemantics,
            },
        );
    }
    Ok(())
}

/// How native vertical motion becomes geometric velocity.
#[derive(Debug, Clone, Copy, PartialEq, Eq, Structural)]
pub enum MotionConversion {
    /// The values are already geometric m/s positive upward.
    Identity,
    /// Interface pressure velocity times `dz/dp` on the interface geometry.
    OmegaInterfaceToGeometric,
}

/// The decided normalisation of native vertical motion.
#[derive(Debug, Clone, PartialEq, Eq)]
pub struct MotionNormalizationPlan {
    pub conversion: MotionConversion,
    pub output_vertical_staggering: VerticalStaggering,
    pub algorithm_id: String,
    pub conversion_summary: String,
}

/// What normalising native vertical motion decides, from the snapshot and
/// geometry dimensions, the declared semantics, the number of values and the
/// index of the first non-finite value: the conversion and output
/// staggering, or the first refusal.
pub open spec fn motion_plan(
    snapshot_dims: (usize, usize, usize),
    geometry_dims: (usize, usize, usize),
    kind: NativeVerticalMotionKind,
    unit: NativeVerticalMotionUnit,
    sign: NativeVerticalMotionSign,
    staggering: VerticalStaggering,
    value_count: usize,
    first_non_finite: Option<usize>,
) -> Result<(MotionConversion, VerticalStaggering), VerticalTransformError> {
    let (nx, ny, nz) = geometry_dims;
    if geometry_dims != snapshot_dims {
        Err(VerticalTransformError::InvalidNativeVerticalMotion { reason: MotionRefusal::GeometryMismatch })
    } else if !motion_semantics_ok(kind, unit, sign, staggering) {
        Err(
            VerticalTransformError::InvalidNativeVerticalMotion {
                reason: MotionRefusal::NonCanonicalSemantics,
            },
        )
    } else if staggering == VerticalStaggering::NotApplicable {
        Err(
            VerticalTransformError::InvalidNativeVerticalMotion {
                reason: MotionRefusal::NotApplicableStaggering,
            },
        )
    } else {
        let expected = if staggering == VerticalStaggering::LevelCenter {
            nx * ny * nz
        } else {
            nx * ny * (nz + 1)
        };
        if value_count != expected {
            Err(
                VerticalTransformError::ShapeMismatch {
                    field: ShapeField::NativeVerticalMotion,
                    expected: expected as usize,
                    actual: value_count,
                },
            )
        } else if first_non_finite is Some {
            Err(VerticalTransformError::InvalidNativeVerticalMotionValue { index: first_non_finite->0 })
        } else {
            match kind {
                NativeVerticalMotionKind::GeometricVelocity => Ok(
                    (MotionConversion::Identity, staggering),
                ),
                NativeVerticalMotionKind::PressureVelocityOmega => if staggering
                    == VerticalStaggering::LevelCenter {
                    Err(
                        VerticalTransformError::InvalidNativeVerticalMotion {
                            reason: MotionRefusal::CenterOmegaDisabled,
                        },
                    )
                } else {
                    Ok((MotionConversion::OmegaInterfaceToGeometric, VerticalStaggering::LevelInterface))
                },
                NativeVerticalMotionKind::EtaCoordinateVelocity => Err(
                    VerticalTransformError::InvalidNativeVerticalMotion {
                        reason: MotionRefusal::EtaDotDisabled,
                    },
                ),
            }
        }
    }
}

/// Decides how native vertical motion is normalised (see [`motion_plan`]).
pub fn plan_vertical_motion_normalization(
    snapshot_dims: (usize, usize, usize),
    geometry_dims: (usize, usize, usize),
    kind: NativeVerticalMotionKind,
    unit: NativeVerticalMotionUnit,
    sign: NativeVerticalMotionSign,
    staggering: VerticalStaggering,
    value_count: usize,
    first_non_finite: Option<usize>,
) -> (r: Result<MotionNormalizationPlan, VerticalTransformError>)
    requires
        geometry_dims.2 < usize::MAX,
        geometry_dims.0 * geometry_dims.1 * (geometry_dims.2 + 1) <= usize::MAX,
    ensures
        match r {
            Ok(p) => motion_plan(
                snapshot_dims,
                geometry_dims,
                kind,
                unit,
                sign,
                staggering,
                value_count,
                first_non_finite,
            ) == Ok::<(MotionConversion, VerticalStaggering), VerticalTransformError>(
                (p.conversion, p.output_vertical_staggering),
            ),
            Err(e) => motion_plan(
                snapshot_dims,
                geometry_dims,
                kind,
                unit,
                sign,
                staggering,
                value_count,
                first_non_finite,
            ) == Err::<(MotionConversion, VerticalStaggering), VerticalTransformError>(e),
        },
        match r {
            Ok(p) => match p.conversion {
                MotionConversion::Identity => p.algorithm_id@ == "geometric_identity_v1"@
                    && p.conversion_summary@
                    == "identity: already geometric m/s positive upward"@,
                MotionConversion::OmegaInterfaceToGeometric => p.algorithm_id@
                    == "omega_interface_flexpart11_pinmconv_v1"@ && p.conversion_summary@
                    == "omega[Pa/s] * FLEXPART-style pinmconv dz/dp on W/interfaces -> geometric m/s positive upward"@,
            },
            Err(_) => true,
        },
{
    let (nx, ny, nz) = geometry_dims;
    if nx != snapshot_dims.0 || ny != snapshot_dims.1 || nz != snapshot_dims.2 {
        return Err(
            VerticalTransformError::InvalidNativeVerticalMotion {
                reason: MotionRefusal::GeometryMismatch,
            },
        );
    }
    match validate_native_motion_semantics(kind, unit, sign, staggering) {
        Ok(()) => {},
        Err(e) => {
            return Err(e);
        },
    }
    proof {
        assert(nx * ny * nz <= nx * ny * (nz + 1)) by (nonlinear_arith)
            requires
                nx * ny >= 0,
        ;
        assert(nx * ny <= nx * ny * (nz + 1)) by (nonlinear_arith)
            requires
                nx * ny >= 0,
        ;
    }
    let horizontal = nx * ny;
    let expected = match staggering {
        VerticalStaggering::LevelCenter => horizontal * nz,
        VerticalStaggering::LevelInterface => horizontal * (nz + 1),
        VerticalStaggering::NotApplicable => {
            return Err(
                VerticalTransformError::InvalidNativeVerticalMotion {
                    reason: MotionRefusal::NotApplicableStaggering,
                },
            );
        },
    };
    if value_count != expected {
        return Err(
            VerticalTransformError::ShapeMismatch {
                field: ShapeField::NativeVerticalMotion,
                expected,
                actual: value_count,
            },
        );
    }
    if let Some(index) = first_non_finite {
        return Err(VerticalTransformError::InvalidNativeVerticalMotionValue { index });
    }
    match kind {
        NativeVerticalMotionKind::GeometricVelocity => Ok(
            MotionNormalizationPlan {
                conversion: MotionConversion::Identity,
                output_vertical_staggering: staggering,
                algorithm_id: String::from_str("geometric_identity_v1"),
                conversion_summary: String::from_str(
                    "identity: already geometric m/s positive upward",
                ),
            },
        ),
        NativeVerticalMotionKind::PressureVelocityOmega => {
            if staggering == VerticalStaggering::LevelCenter {
                return Err(
                    VerticalTransformError::InvalidNativeVerticalMotion {
                        reason: MotionRefusal::CenterOmegaDisabled,
                    },
                );
            }
            Ok(
                MotionNormalizationPlan {
                    conversion: MotionConversion::OmegaInterfaceToGeometric,
                    output_vertical_staggering: VerticalStaggering::LevelInterface,
                    algorithm_id: String::from_str("omega_interface_flexpart11_pinmconv_v1"),
                    conversion_summary: String::from_str(
                        "omega[Pa/s] * FLEXPART-style pinmconv dz/dp on W/interfaces -> geometric m/s positive upward",
                    ),
                },
            )
        },
        NativeVerticalMotionKind::EtaCoordinateVelocity => Err(
            VerticalTransformError::InvalidNativeVerticalMotion {
                reason: MotionRefusal::EtaDotDisabled,
            },
        ),
    }
}

// ---------------------------------------------------------------------------
// Eta-dot preprocessing
// ---------------------------------------------------------------------------

/// Why eta-dot preprocessing was refused before any value was computed.
#[derive(Debug, Clone, Copy, PartialEq, Eq, Structural)]
pub enum EtaDotRefusal {
    /// The coordinate is not hybrid sigma-pressure, or lacks A or B.
    UnsupportedVerticalCoordinate,
    /// The kind, unit and sign do not form a canonical combination.
    NonCanonicalSemantics,
    /// Raw eta-dot is a full-level field; other staggerings are refused.
    InterfaceStaggering,
    /// There is no model level.
    InsufficientVerticalLevels,
    /// The number of values of the volume or of its interfaces exceeds `usize`.
    VolumeOverflow,
    /// A or B does not hold `nz + 1` coefficients; `actual` is the longer.
    CoefficientCount { expected: usize, actual: usize },
    /// The motion does not hold one value per grid cell and level.
    MotionValueCount { expected: usize, actual: usize },
    /// The motion value at `index` is not finite.
    NonFiniteValue { index: usize },
    /// The surface pressure does not hold one value per column.
    SurfacePressureCount { expected: usize, actual: usize },
}

/// Sizes of an accepted eta-dot preprocessing: columns, level values and
/// interface values.
#[derive(Debug, Clone, Copy, PartialEq, Eq, Structural)]
pub struct EtaDotLayout {
    pub horizontal: usize,
    pub volume: usize,
    pub interfaces: usize,
}

/// What eta-dot preprocessing decides before computing: the sizes of the
/// result, or the first refusal in this order: coordinate kind and
/// coefficients present, motion semantics, level-centre staggering, at least
/// one level, volume size, coefficient counts, value count, finite values,
/// surface-pressure count, interface-volume size.
pub open spec fn eta_dot_plan(
    coordinate: VerticalCoordinateKind,
    a_len: Option<usize>,
    b_len: Option<usize>,
    kind: NativeVerticalMotionKind,
    unit: NativeVerticalMotionUnit,
    sign: NativeVerticalMotionSign,
    staggering: VerticalStaggering,
    nx: usize,
    ny: usize,
    nz: usize,
    value_count: usize,
    first_non_finite: Option<usize>,
    surface_count: usize,
) -> Result<(int, int, int), EtaDotRefusal> {
    let h = nx * ny;
    if coordinate != VerticalCoordinateKind::HybridSigmaPressure || a_len is None || b_len is None {
        Err(EtaDotRefusal::UnsupportedVerticalCoordinate)
    } else if !motion_semantics_ok(kind, unit, sign, staggering) {
        Err(EtaDotRefusal::NonCanonicalSemantics)
    } else if staggering != VerticalStaggering::LevelCenter {
        Err(EtaDotRefusal::InterfaceStaggering)
    } else if nz < 1 {
        Err(EtaDotRefusal::InsufficientVerticalLevels)
    } else if h > usize::MAX || h * nz > usize::MAX {
        Err(EtaDotRefusal::VolumeOverflow)
    } else if a_len->0 != nz + 1 || b_len->0 != nz + 1 {
        Err(
            EtaDotRefusal::CoefficientCount {
                expected: (nz + 1) as usize,
                actual: if a_len->0 >= b_len->0 {
                    a_len->0
                } else {
                    b_len->0
                },
            },
        )
    } else if value_count != h * nz {
        Err(EtaDotRefusal::MotionValueCount { expected: (h * nz) as usize, actual: value_count })
    } else if first_non_finite is Some {
        Err(EtaDotRefusal::NonFiniteValue { index: first_non_finite->0 })
    } else if surface_count != h {
        Err(EtaDotRefusal::SurfacePressureCount { expected: h as usize, actual: surface_count })
    } else if h * (nz + 1) > usize::MAX {
        Err(EtaDotRefusal::VolumeOverflow)
    } else {
        Ok((h, h * nz, h * (nz + 1)))
    }
}

/// Decides eta-dot preprocessing from the coordinate, the coefficient
/// counts (`None` when absent), the declared motion semantics, the grid
/// dimensions, the number of motion values, the index of the first
/// non-finite one and the number of surface-pressure values (see
/// [`eta_dot_plan`]).
pub fn plan_eta_dot_preprocessing(
    coordinate: VerticalCoordinateKind,
    a_len: Option<usize>,
    b_len: Option<usize>,
    kind: NativeVerticalMotionKind,
    unit: NativeVerticalMotionUnit,
    sign: NativeVerticalMotionSign,
    staggering: VerticalStaggering,
    nx: usize,
    ny: usize,
    nz: usize,
    value_count: usize,
    first_non_finite: Option<usize>,
    surface_count: usize,
) -> (r: Result<EtaDotLayout, EtaDotRefusal>)
    requires
        nz < usize::MAX,
    ensures
        match r {
            Ok(l) => eta_dot_plan(
                coordinate,
                a_len,
                b_len,
                kind,
                unit,
                sign,
                staggering,
                nx,
                ny,
                nz,
                value_count,
                first_non_finite,
                surface_count,
            ) == Ok::<(int, int, int), EtaDotRefusal>(
                (l.horizontal as int, l.volume as int, l.interfaces as int),
            ),
            Err(e) => eta_dot_plan(
                coordinate,
                a_len,
                b_len,
                kind,
                unit,
                sign,
                staggering,
                nx,
                ny,
                nz,
                value_count,
                first_non_finite,
                surface_count,
            ) == Err::<(int, int, int), EtaDotRefusal>(e),
        },
{
    if coordinate != VerticalCoordinateKind::HybridSigmaPressure {
        return Err(EtaDotRefusal::UnsupportedVerticalCoordinate);
    }
    let (a, b) = match (a_len, b_len) {
        (Some(a), Some(b)) => (a, b),
        _ => {
            return Err(EtaDotRefusal::UnsupportedVerticalCoordinate);
        },
    };
    if validate_native_motion_semantics(kind, unit, sign, staggering).is_err() {
        return Err(EtaDotRefusal::NonCanonicalSemantics);
    }
    if staggering != VerticalStaggering::LevelCenter {
        return Err(EtaDotRefusal::InterfaceStaggering);
    }
    if nz < 1 {
        return Err(EtaDotRefusal::InsufficientVerticalLevels);
    }
    let horizontal = match nx.checked_mul(ny) {
        Some(h) => h,
        None => {
            return Err(EtaDotRefusal::VolumeOverflow);
        },
    };
    let volume = match horizontal.checked_mul(nz) {
        Some(v) => v,
        None => {
            return Err(EtaDotRefusal::VolumeOverflow);
        },
    };
    if a != nz + 1 || b != nz + 1 {
        let actual = if a >= b {
            a
        } else {
            b
        };
        return Err(EtaDotRefusal::CoefficientCount { expected: nz + 1, actual });
    }
    if value_count != volume {
        return Err(EtaDotRefusal::MotionValueCount { expected: volume, actual: value_count });
    }
    if let Some(index) = first_non_finite {
        return Err(EtaDotRefusal::NonFiniteValue { index });
    }
    if surface_count != horizontal {
        return Err(EtaDotRefusal::SurfacePressureCount { expected: horizontal, actual: surface_count });
    }
    let interfaces = match horizontal.checked_mul(nz + 1) {
        Some(i) => i,
        None => {
            return Err(EtaDotRefusal::VolumeOverflow);
        },
    };
    Ok(EtaDotLayout { horizontal, volume, interfaces })
}

/// The identity conversion keeps the staggering the motion was given on:
/// a plan that passes values through unchanged labels them with the input
/// staggering, and only geometric velocity is passed through.
pub proof fn lemma_identity_plan_keeps_staggering(
    snapshot_dims: (usize, usize, usize),
    geometry_dims: (usize, usize, usize),
    kind: NativeVerticalMotionKind,
    unit: NativeVerticalMotionUnit,
    sign: NativeVerticalMotionSign,
    staggering: VerticalStaggering,
    value_count: usize,
    first_non_finite: Option<usize>,
    output: VerticalStaggering,
)
    requires
        motion_plan(
            snapshot_dims,
            geometry_dims,
            kind,
            unit,
            sign,
            staggering,
            value_count,
            first_non_finite,
        ) == Ok::<(MotionConversion, VerticalStaggering), VerticalTransformError>(
            (MotionConversion::Identity, output),
        ),
    ensures
        output == staggering,
        kind == NativeVerticalMotionKind::GeometricVelocity,
        staggering != VerticalStaggering::NotApplicable,
{
}

/// Geometric velocity in m/s positive upward, on level centres or on
/// interfaces, with one finite value per point of the matching geometry, is
/// accepted and passed through on the staggering it was given on.
pub proof fn lemma_geometric_velocity_is_passed_through(
    dims: (usize, usize, usize),
    staggering: VerticalStaggering,
    value_count: usize,
)
    requires
        staggering != VerticalStaggering::NotApplicable,
        value_count == if staggering == VerticalStaggering::LevelCenter {
            dims.0 * dims.1 * dims.2
        } else {
            dims.0 * dims.1 * (dims.2 + 1)
        },
    ensures
        motion_plan(
            dims,
            dims,
            NativeVerticalMotionKind::GeometricVelocity,
            NativeVerticalMotionUnit::MeterPerSecond,
            NativeVerticalMotionSign::PositiveUpward,
            staggering,
            value_count,
            None,
        ) == Ok::<(MotionConversion, VerticalStaggering), VerticalTransformError>(
            (MotionConversion::Identity, staggering),
        ),
{
}

} // verus!
