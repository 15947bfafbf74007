use flexpart_gpu::meteorology::vertical::{
    check_runtime_shapes, plan_eta_dot_preprocessing, plan_vertical_motion_normalization,
    EtaDotLayout, EtaDotRefusal, MotionConversion, MotionNormalizationPlan, MotionRefusal,
    NativeVerticalMotionKind as K, NativeVerticalMotionSign as S, NativeVerticalMotionUnit as U,
    RuntimeLengths, ShapeField, VerticalTransformError,
};
use flexpart_gpu::meteorology::vertical_sampling::{
    check_vertical_sampling_shape, VerticalSamplingError,
};
use flexpart_gpu::meteorology::{
    validate_vertical_coordinate, ContractError, FieldId, VerticalCoordinateKind,
    VerticalReference, VerticalStaggering,
};

/// The two-column, two-level geometry of the vertical scenarios.
const GEOMETRY: (usize, usize, usize) = (2, 1, 2);

fn plan(
    kind: K,
    unit: U,
    sign: S,
    staggering: VerticalStaggering,
    values: usize,
    first_non_finite: Option<usize>,
) -> Result<MotionNormalizationPlan, VerticalTransformError> {
    plan_vertical_motion_normalization(
        GEOMETRY,
        GEOMETRY,
        kind,
        unit,
        sign,
        staggering,
        values,
        first_non_finite,
    )
}

fn refusal(reason: MotionRefusal) -> VerticalTransformError {
    VerticalTransformError::InvalidNativeVerticalMotion { reason }
}

#[test]
fn center_staggered_omega_fails_closed_without_flexpart_oracle() {
    assert_eq!(
        plan(
            K::PressureVelocityOmega,
            U::PascalPerSecond,
            S::PositivePressureIncreasing,
            VerticalStaggering::LevelCenter,
            4,
            None
        ),
        Err(refusal(MotionRefusal::NonCanonicalSemantics))
    );
}

#[test]
fn eta_dot_production_path_remains_fail_closed_after_validation() {
    assert_eq!(
        plan(
            K::EtaCoordinateVelocity,
            U::PerSecond,
            S::PositiveEtaIncreasing,
            VerticalStaggering::LevelCenter,
            4,
            None
        ),
        Err(refusal(MotionRefusal::EtaDotDisabled))
    );
}

#[test]
fn geometric_vertical_motion_is_identity_with_explicit_upward_semantics() {
    let accepted = plan(
        K::GeometricVelocity,
        U::MeterPerSecond,
        S::PositiveUpward,
        VerticalStaggering::LevelCenter,
        4,
        None,
    )
    .expect("identity normalize");
    assert_eq!(accepted.conversion, MotionConversion::Identity);
    assert_eq!(accepted.output_vertical_staggering, VerticalStaggering::LevelCenter);
    assert_eq!(accepted.algorithm_id, "geometric_identity_v1");
}

#[test]
fn ambiguous_native_vertical_motion_semantics_fail_closed() {
    assert!(matches!(
        plan(
            K::PressureVelocityOmega,
            U::MeterPerSecond,
            S::PositivePressureIncreasing,
            VerticalStaggering::LevelCenter,
            4,
            None
        ),
        Err(VerticalTransformError::InvalidNativeVerticalMotion { .. })
    ));
}

#[test]
fn native_vertical_motion_wrong_shape_fails_closed() {
    assert_eq!(
        plan(
            K::PressureVelocityOmega,
            U::PascalPerSecond,
            S::PositivePressureIncreasing,
            VerticalStaggering::LevelInterface,
            4,
            None
        ),
        Err(VerticalTransformError::ShapeMismatch {
            field: ShapeField::NativeVerticalMotion,
            expected: 6,
            actual: 4,
        })
    );
}

#[test]
fn eta_dot_interface_staggering_fails_closed() {
    assert!(matches!(
        plan(
            K::EtaCoordinateVelocity,
            U::PerSecond,
            S::PositiveEtaIncreasing,
            VerticalStaggering::LevelInterface,
            6,
            None
        ),
        Err(VerticalTransformError::InvalidNativeVerticalMotion { .. })
    ));
}

#[test]
fn non_finite_native_vertical_motion_fails_closed() {
    assert_eq!(
        plan(
            K::GeometricVelocity,
            U::MeterPerSecond,
            S::PositiveUpward,
            VerticalStaggering::LevelCenter,
            4,
            Some(1)
        ),
        Err(VerticalTransformError::InvalidNativeVerticalMotionValue { index: 1 })
    );
}

#[test]
fn runtime_view_rejects_internal_corrupt_derived_shape() {
    let (nx, ny, nz) = GEOMETRY;
    let levels = nx * ny * nz;
    let interfaces = nx * ny * (nz + 1);
    let mut lengths = RuntimeLengths {
        terrain_asl_m: nx * ny,
        level_pressure_pa: levels,
        height_asl_m: levels,
        height_agl_m: levels,
        interface_pressure_pa: interfaces,
        interface_height_asl_m: interfaces,
        interface_height_agl_m: interfaces,
    };
    assert_eq!(check_runtime_shapes(nx, ny, nz, &lengths, None), Ok(()));
    lengths.height_agl_m -= 1;
    assert!(matches!(
        check_runtime_shapes(nx, ny, nz, &lengths, None),
        Err(VerticalTransformError::RuntimeShapeMismatch {
            field: ShapeField::HeightAglM,
            ..
        })
    ));
}

/// Eta-dot preprocessing of the one-column, three-level hybrid scenario.
fn eta_dot(
    coordinate: VerticalCoordinateKind,
    a: Option<usize>,
    b: Option<usize>,
    unit: U,
    sign: S,
    staggering: VerticalStaggering,
    values: usize,
    first_non_finite: Option<usize>,
) -> Result<EtaDotLayout, EtaDotRefusal> {
    plan_eta_dot_preprocessing(
        coordinate,
        a,
        b,
        K::EtaCoordinateVelocity,
        unit,
        sign,
        staggering,
        1,
        1,
        3,
        values,
        first_non_finite,
        1,
    )
}

const HYBRID: VerticalCoordinateKind = VerticalCoordinateKind::HybridSigmaPressure;
const CENTER: VerticalStaggering = VerticalStaggering::LevelCenter;

#[test]
fn eta_dot_rejects_non_canonical_semantics_fail_closed() {
    let accepted = eta_dot(HYBRID, Some(4), Some(4), U::PerSecond, S::PositiveEtaIncreasing, CENTER, 3, None);
    assert_eq!(
        accepted,
        Ok(EtaDotLayout {
            horizontal: 1,
            volume: 3,
            interfaces: 4,
        })
    );
    assert_eq!(
        eta_dot(HYBRID, Some(4), Some(4), U::PascalPerSecond, S::PositiveEtaIncreasing, CENTER, 3, None),
        Err(EtaDotRefusal::NonCanonicalSemantics)
    );
    assert_eq!(
        eta_dot(
            HYBRID,
            Some(4),
            Some(4),
            U::PerSecond,
            S::PositiveEtaIncreasing,
            VerticalStaggering::LevelInterface,
            3,
            None
        ),
        Err(EtaDotRefusal::InterfaceStaggering)
    );
    assert_eq!(
        eta_dot(HYBRID, Some(4), Some(4), U::PerSecond, S::PositiveEtaDecreasing, CENTER, 3, None),
        Err(EtaDotRefusal::NonCanonicalSemantics)
    );
    assert_eq!(
        eta_dot(HYBRID, Some(4), Some(4), U::PerSecond, S::PositiveEtaIncreasing, CENTER, 2, None),
        Err(EtaDotRefusal::MotionValueCount {
            expected: 3,
            actual: 2,
        })
    );
}

#[test]
fn eta_dot_rejects_non_finite_inputs_and_bad_coefficients_fail_closed() {
    // Three A coefficients for three levels break the coordinate contract
    // before preprocessing is planned.
    assert_eq!(
        validate_vertical_coordinate(
            HYBRID,
            VerticalReference::ModelNative,
            3,
            Some(4),
            Some(3),
            Some(4),
            true,
            Some(FieldId::SurfacePressure),
            true,
        ),
        Err(ContractError::InvalidVerticalCoordinate)
    );
    assert_eq!(
        eta_dot(HYBRID, Some(4), Some(4), U::PerSecond, S::PositiveEtaIncreasing, CENTER, 3, Some(0)),
        Err(EtaDotRefusal::NonFiniteValue { index: 0 })
    );
    assert_eq!(
        eta_dot(HYBRID, Some(3), Some(4), U::PerSecond, S::PositiveEtaIncreasing, CENTER, 3, None),
        Err(EtaDotRefusal::CoefficientCount {
            expected: 4,
            actual: 4,
        })
    );
}

#[test]
fn eta_dot_rejects_non_hybrid_coordinates_fail_closed() {
    assert_eq!(
        eta_dot(
            VerticalCoordinateKind::Pressure,
            None,
            None,
            U::PerSecond,
            S::PositiveEtaIncreasing,
            CENTER,
            3,
            None
        ),
        Err(EtaDotRefusal::UnsupportedVerticalCoordinate)
    );
}

#[test]
fn ambiguous_reference_and_bad_shapes_fail_closed() {
    // The one-column, three-level synthetic geometry.
    assert_eq!(
        check_vertical_sampling_shape(FieldId::Temperature, CENTER, 1, 1, 3, 3),
        Ok(())
    );
    assert!(matches!(
        check_vertical_sampling_shape(FieldId::Temperature, CENTER, 1, 1, 3, 2),
        Err(VerticalSamplingError::ShapeMismatch { .. })
    ));
    assert!(matches!(
        check_vertical_sampling_shape(
            FieldId::SurfacePressure,
            VerticalStaggering::NotApplicable,
            1,
            1,
            3,
            0
        ),
        Err(VerticalSamplingError::UnsupportedField { .. })
    ));
}
