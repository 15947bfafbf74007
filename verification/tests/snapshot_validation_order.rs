use flexpart_gpu::meteorology::{
    validate_snapshot_parts, validate_vertical_coordinate, ContractError, FieldId, FieldIdSet,
    Requirements, SchemaIdentity, VerticalCoordinateKind, VerticalReference,
};

fn required(ids: &[FieldId]) -> Requirements {
    Requirements {
        required_fields: FieldIdSet::from_slice(ids),
    }
}

#[test]
fn snapshot_checks_schema_grid_and_vertical_first() {
    let stale = SchemaIdentity {
        id: "flexpart-gpu.canonical-meteorology".to_string(),
        version: 2,
    };
    let none = required(&[]);
    assert_eq!(
        validate_snapshot_parts(&stale, false, false, &vec![], &vec![], &none),
        Err(ContractError::UnsupportedSchema)
    );
    let current = SchemaIdentity::default();
    assert_eq!(
        validate_snapshot_parts(&current, false, false, &vec![], &vec![], &none),
        Err(ContractError::InvalidHorizontalGrid)
    );
    assert_eq!(
        validate_snapshot_parts(&current, true, false, &vec![], &vec![], &none),
        Err(ContractError::InvalidVerticalCoordinate)
    );
    assert_eq!(
        validate_snapshot_parts(&current, true, true, &vec![], &vec![], &none),
        Ok(())
    );
}

#[test]
fn duplicate_field_is_reported_before_its_own_problem() {
    let current = SchemaIdentity::default();
    let ids = vec![FieldId::WindU, FieldId::Temperature, FieldId::WindU];
    let problems = vec![None, None, Some(ContractError::UnitMismatch(FieldId::WindU))];
    assert_eq!(
        validate_snapshot_parts(&current, true, true, &ids, &problems, &required(&[])),
        Err(ContractError::DuplicateField(FieldId::WindU))
    );
}

#[test]
fn first_field_problem_wins() {
    let current = SchemaIdentity::default();
    let ids = vec![FieldId::WindU, FieldId::Temperature];
    let problems = vec![
        Some(ContractError::ShapeMismatch(FieldId::WindU)),
        Some(ContractError::UnitMismatch(FieldId::Temperature)),
    ];
    assert_eq!(
        validate_snapshot_parts(&current, true, true, &ids, &problems, &required(&[])),
        Err(ContractError::ShapeMismatch(FieldId::WindU))
    );
}

#[test]
fn missing_required_field_is_the_first_in_canonical_order() {
    let current = SchemaIdentity::default();
    let ids = vec![FieldId::Temperature, FieldId::WindV];
    let problems = vec![None, None];
    let needs = required(&[FieldId::SurfacePressure, FieldId::WindU, FieldId::WindV]);
    assert_eq!(
        validate_snapshot_parts(&current, true, true, &ids, &problems, &needs),
        Err(ContractError::MissingRequiredField(FieldId::WindU))
    );
    let ids = vec![FieldId::SurfacePressure, FieldId::WindV, FieldId::WindU];
    assert_eq!(
        validate_snapshot_parts(&current, true, true, &ids, &vec![None, None, None], &needs),
        Ok(())
    );
}

#[test]
fn vertical_structure_by_kind() {
    let bad = Err(ContractError::InvalidVerticalCoordinate);
    assert_eq!(
        validate_vertical_coordinate(VerticalCoordinateKind::GeometricHeight, VerticalReference::AboveGroundLevel, 3, Some(4), None, None, false, None, true),
        Ok(())
    );
    assert_eq!(
        validate_vertical_coordinate(VerticalCoordinateKind::GeometricHeight, VerticalReference::ModelNative, 3, None, None, None, false, None, true),
        bad
    );
    assert_eq!(
        validate_vertical_coordinate(VerticalCoordinateKind::GeometricHeight, VerticalReference::AboveGroundLevel, 0, None, None, None, false, None, true),
        bad
    );
    assert_eq!(
        validate_vertical_coordinate(VerticalCoordinateKind::GeometricHeight, VerticalReference::AboveGroundLevel, 3, Some(3), None, None, false, None, true),
        bad
    );
    assert_eq!(
        validate_vertical_coordinate(VerticalCoordinateKind::Pressure, VerticalReference::ModelNative, 3, None, None, None, false, None, true),
        Ok(())
    );
    assert_eq!(
        validate_vertical_coordinate(VerticalCoordinateKind::Pressure, VerticalReference::ModelNative, 3, None, Some(4), None, false, None, true),
        bad
    );
    assert_eq!(
        validate_vertical_coordinate(
            VerticalCoordinateKind::HybridSigmaPressure, VerticalReference::ModelNative, 3, Some(4), Some(4), Some(4), true,
            Some(FieldId::SurfacePressure), true
        ),
        Ok(())
    );
    assert_eq!(
        validate_vertical_coordinate(
            VerticalCoordinateKind::HybridSigmaPressure, VerticalReference::ModelNative, 3, Some(4), Some(4), Some(4), true,
            Some(FieldId::SurfacePressure), false
        ),
        bad
    );
    assert_eq!(
        validate_vertical_coordinate(
            VerticalCoordinateKind::HybridSigmaPressure, VerticalReference::ModelNative, 3, None, Some(4), Some(4), true,
            Some(FieldId::SurfacePressure), true
        ),
        bad
    );
    assert_eq!(
        validate_vertical_coordinate(
            VerticalCoordinateKind::HybridSigmaPressure, VerticalReference::ModelNative, 3, Some(4), Some(4), Some(3), true,
            Some(FieldId::SurfacePressure), true
        ),
        bad
    );
    assert_eq!(
        validate_vertical_coordinate(
            VerticalCoordinateKind::HybridSigmaPressure, VerticalReference::ModelNative, 3, Some(4), Some(4), Some(4), true,
            Some(FieldId::Pressure), true
        ),
        bad
    );
}
