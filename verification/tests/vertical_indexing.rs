use flexpart_gpu::meteorology::horizontal::{horizontal_neighbours, stored_value_offset};
use flexpart_gpu::meteorology::vertical::{
    check_runtime_shapes, derivative_pair, eta_dot_preprocessing_requirements,
    interface_index_from_top, model_level_index_from_surface, plan_vertical_motion_normalization,
    surface_level_index, surface_offset, validate_height_shapes, validate_native_motion_semantics,
    validate_xy, validate_xyz, validation_requirements, vertical_transform_requirements,
    volume_offset, MotionConversion, MotionRefusal, NativeVerticalMotionKind,
    NativeVerticalMotionSign, NativeVerticalMotionUnit, RuntimeLengths, ShapeField,
    VerticalTransformError, VerticalTransformProvenance,
};
use flexpart_gpu::meteorology::vertical_sampling::{
    canonical_column_index, check_vertical_sampling_shape, is_vertically_sampled,
    validate_field_and_staggering, VerticalSamplingError,
};
use flexpart_gpu::meteorology::{FieldId, VerticalOrdering, VerticalReference, VerticalStaggering};
use flexpart_gpu::meteorology::vertical::NativeVerticalMotionKind as K;
use flexpart_gpu::meteorology::vertical::NativeVerticalMotionSign as S;
use flexpart_gpu::meteorology::vertical::NativeVerticalMotionUnit as U;

#[test]
fn level_indices_follow_the_storage_order() {
    assert_eq!(surface_level_index(VerticalOrdering::Increasing, 4), 3);
    assert_eq!(surface_level_index(VerticalOrdering::Decreasing, 4), 0);
    let up: Vec<usize> =
        (0..4).map(|s| model_level_index_from_surface(VerticalOrdering::Increasing, 4, s)).collect();
    assert_eq!(up, vec![3, 2, 1, 0]);
    let down: Vec<usize> =
        (0..4).map(|s| model_level_index_from_surface(VerticalOrdering::Decreasing, 4, s)).collect();
    assert_eq!(down, vec![0, 1, 2, 3]);
    let top: Vec<usize> =
        (1..=4).map(|k| interface_index_from_top(VerticalOrdering::Decreasing, 3, k)).collect();
    assert_eq!(top, vec![3, 2, 1, 0]);
    assert_eq!(interface_index_from_top(VerticalOrdering::Increasing, 3, 1), 0);
    assert_eq!(derivative_pair(0, 5), (0, 1));
    assert_eq!(derivative_pair(4, 5), (3, 4));
    assert_eq!(derivative_pair(2, 5), (1, 3));
}

#[test]
fn offsets_are_x_fastest() {
    assert_eq!(surface_offset(1, 2, 3), 7);
    assert_eq!(volume_offset(1, 0, 2, 2, 3), 13);
    assert_eq!(validate_xy(1, 0, 2, 1), Ok(()));
    assert_eq!(
        validate_xyz(0, 0, 3, 1, 1, 3),
        Err(VerticalTransformError::RuntimeIndexOutOfBounds {
            x: 0,
            y: 0,
            z: Some(3),
            nx: 1,
            ny: 1,
            nz: Some(3)
        })
    );
}

#[test]
fn shapes_are_checked_with_overflow_guards() {
    assert_eq!(validate_height_shapes(2, 3, 4, 24, 6), Ok(()));
    assert_eq!(
        validate_height_shapes(2, 3, 4, 24, 5),
        Err(VerticalTransformError::ShapeMismatch {
            field: ShapeField::TerrainAslM,
            expected: 6,
            actual: 5
        })
    );
    assert_eq!(
        validate_height_shapes(usize::MAX, 2, 1, 0, 0),
        Err(VerticalTransformError::ShapeMismatch {
            field: ShapeField::TerrainAslM,
            expected: usize::MAX,
            actual: 0
        })
    );
    let good = RuntimeLengths {
        terrain_asl_m: 2,
        level_pressure_pa: 6,
        height_asl_m: 6,
        height_agl_m: 6,
        interface_pressure_pa: 8,
        interface_height_asl_m: 8,
        interface_height_agl_m: 8,
    };
    assert_eq!(check_runtime_shapes(2, 1, 3, &good, None), Ok(()));
    assert_eq!(
        check_runtime_shapes(2, 1, 3, &good, Some((VerticalStaggering::LevelInterface, 8))),
        Ok(())
    );
    assert_eq!(
        check_runtime_shapes(2, 1, 3, &good, Some((VerticalStaggering::LevelCenter, 8))),
        Err(VerticalTransformError::RuntimeShapeMismatch {
            field: ShapeField::VerticalVelocityValues,
            expected: 6,
            actual: 8
        })
    );
    let bad = RuntimeLengths { height_agl_m: 5, ..good };
    assert_eq!(
        check_runtime_shapes(2, 1, 3, &bad, None),
        Err(VerticalTransformError::RuntimeShapeMismatch {
            field: ShapeField::HeightAglM,
            expected: 6,
            actual: 5
        })
    );
}

#[test]
fn native_motion_semantics_and_plans() {
    let i = VerticalStaggering::LevelInterface;
    let c = VerticalStaggering::LevelCenter;
    assert_eq!(validate_native_motion_semantics(K::GeometricVelocity, U::MeterPerSecond, S::PositiveUpward, c), Ok(()));
    assert!(validate_native_motion_semantics(K::PressureVelocityOmega, U::PascalPerSecond, S::PositivePressureIncreasing, c).is_err());
    assert!(validate_native_motion_semantics(K::EtaCoordinateVelocity, U::PerSecond, S::PositiveEtaDecreasing, i).is_err());
    let plan = plan_vertical_motion_normalization((2, 1, 2), (2, 1, 2), K::PressureVelocityOmega, U::PascalPerSecond, S::PositivePressureIncreasing, i, 6, None)
        .expect("omega on interfaces");
    assert_eq!(plan.conversion, MotionConversion::OmegaInterfaceToGeometric);
    assert_eq!(plan.algorithm_id, "omega_interface_flexpart11_pinmconv_v1");
    let identity = plan_vertical_motion_normalization((2, 1, 2), (2, 1, 2), K::GeometricVelocity, U::MeterPerSecond, S::PositiveUpward, c, 4, None)
        .expect("identity");
    assert_eq!(identity.output_vertical_staggering, c);
    assert_eq!(
        plan_vertical_motion_normalization((2, 1, 2), (2, 1, 2), K::GeometricVelocity, U::MeterPerSecond, S::PositiveUpward, c, 4, Some(2)),
        Err(VerticalTransformError::InvalidNativeVerticalMotionValue { index: 2 })
    );
    assert_eq!(
        plan_vertical_motion_normalization((2, 1, 2), (2, 1, 2), K::EtaCoordinateVelocity, U::PerSecond, S::PositiveEtaIncreasing, c, 4, None),
        Err(VerticalTransformError::InvalidNativeVerticalMotion { reason: MotionRefusal::EtaDotDisabled })
    );
    assert_eq!(
        plan_vertical_motion_normalization((2, 1, 3), (2, 1, 2), K::GeometricVelocity, U::MeterPerSecond, S::PositiveUpward, c, 4, None),
        Err(VerticalTransformError::InvalidNativeVerticalMotion { reason: MotionRefusal::GeometryMismatch })
    );
    assert_eq!(
        plan_vertical_motion_normalization((2, 1, 2), (2, 1, 2), K::GeometricVelocity, U::MeterPerSecond, S::PositiveUpward, c, 5, None),
        Err(VerticalTransformError::ShapeMismatch { field: ShapeField::NativeVerticalMotion, expected: 4, actual: 5 })
    );
}

#[test]
fn requirement_helpers_and_provenance() {
    assert!(validation_requirements().required_fields.ids().is_empty());
    assert_eq!(vertical_transform_requirements().required_fields.ids().len(), 6);
    assert_eq!(
        eta_dot_preprocessing_requirements().required_fields.ids().clone(),
        vec![FieldId::SurfacePressure]
    );
    let p = VerticalTransformProvenance::from_snapshot_encoding(
        b"abc",
        VerticalOrdering::Decreasing,
        7,
    );
    assert_eq!(
        p.source_snapshot_sha256,
        "ba7816bf8f01cfea414140de5dae2223b00361a396177a9cb410ff61f20015ad"
    );
    assert_eq!(p.source_vertical_ordering, VerticalOrdering::Decreasing);
    assert_eq!(p.source_level_count, 7);
    assert_eq!(p.terrain_reference, VerticalReference::AboveMeanSeaLevel);
}

#[test]
fn sampling_checks_and_column_order() {
    assert!(is_vertically_sampled(FieldId::Pressure));
    assert!(!is_vertically_sampled(FieldId::Orography));
    assert_eq!(
        validate_field_and_staggering(FieldId::Temperature, VerticalStaggering::LevelInterface),
        Err(VerticalSamplingError::WrongStaggering {
            field: FieldId::Temperature,
            requested: VerticalStaggering::LevelInterface
        })
    );
    assert_eq!(check_vertical_sampling_shape(FieldId::WindU, VerticalStaggering::LevelCenter, 2, 1, 3, 6), Ok(()));
    assert_eq!(
        check_vertical_sampling_shape(FieldId::WindU, VerticalStaggering::LevelCenter, 2, 1, 1, 2),
        Err(VerticalSamplingError::InsufficientLevels { nz: 1 })
    );
    assert_eq!(
        check_vertical_sampling_shape(FieldId::VerticalVelocity, VerticalStaggering::LevelInterface, 2, 1, 3, 6),
        Err(VerticalSamplingError::ShapeMismatch { field: FieldId::VerticalVelocity, expected: 8, actual: 6 })
    );
    let column: Vec<usize> = (0..4)
        .map(|p| canonical_column_index(VerticalOrdering::Increasing, VerticalStaggering::LevelInterface, 3, p))
        .collect();
    assert_eq!(column, vec![3, 2, 1, 0]);
    assert_eq!(canonical_column_index(VerticalOrdering::Decreasing, VerticalStaggering::LevelCenter, 3, 2), 2);
}

#[test]
fn bilinear_stencil_indices() {
    assert_eq!(horizontal_neighbours(1, 1, 4, 3, false), (2, 2));
    assert_eq!(horizontal_neighbours(3, 2, 4, 3, false), (3, 2));
    assert_eq!(horizontal_neighbours(3, 0, 4, 3, true), (4, 1));
    assert_eq!(stored_value_offset(4, 1, 4, 3, true), Some(4));
    assert_eq!(stored_value_offset(4, 1, 4, 3, false), None);
    assert_eq!(stored_value_offset(2, 3, 4, 3, false), None);
    assert_eq!(stored_value_offset(2, 2, 4, 3, false), Some(10));
}
