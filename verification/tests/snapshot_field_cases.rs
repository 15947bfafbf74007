use flexpart_gpu::meteorology::checks::validate_field_layout;
use flexpart_gpu::meteorology::vertical::vertical_transform_requirements;
use flexpart_gpu::meteorology::{
    validate_snapshot_parts, validate_time, validate_vertical_coordinate, Accumulation, Axis,
    Calendar, ContractError, FieldId, FieldTime, HorizontalStaggering, Requirements,
    SchemaIdentity, SignConvention, TemporalKind, Unit, VerticalCoordinateKind,
    VerticalReference, VerticalStaggering,
};

/// One field as snapshot validation reads it: everything but the values,
/// which are finite and inside their domains in every scenario here.
#[derive(Clone)]
struct FieldSpec {
    id: FieldId,
    unit: Unit,
    sign: SignConvention,
    shape: Vec<usize>,
    axes: Vec<Axis>,
    horizontal: HorizontalStaggering,
    vertical: VerticalStaggering,
    time: FieldTime,
    value_count: usize,
}

fn instant() -> FieldTime {
    FieldTime {
        calendar: Calendar::Gregorian,
        kind: TemporalKind::Instantaneous,
        valid_time_epoch_seconds: 1_000,
        interval_start_epoch_seconds: None,
        interval_end_epoch_seconds: None,
        accumulation: None,
    }
}

fn volume_field(id: FieldId) -> FieldSpec {
    FieldSpec {
        id,
        unit: id.unit(),
        sign: id.sign(),
        shape: vec![2, 1, 2],
        axes: vec![Axis::X, Axis::Y, Axis::Z],
        horizontal: HorizontalStaggering::CellCenter,
        vertical: VerticalStaggering::LevelCenter,
        time: instant(),
        value_count: 4,
    }
}

fn surface_field(id: FieldId, sign: SignConvention) -> FieldSpec {
    FieldSpec {
        id,
        unit: id.unit(),
        sign,
        shape: vec![2, 1],
        axes: vec![Axis::X, Axis::Y],
        horizontal: HorizontalStaggering::CellCenter,
        vertical: VerticalStaggering::NotApplicable,
        time: instant(),
        value_count: 2,
    }
}

/// Validates a two-column, two-level snapshot whose coordinate is the given
/// structure, field by field (layout, then time) and then as a whole.
fn validate(
    fields: &[FieldSpec],
    vertical_ok: bool,
    interfaces: Option<usize>,
    requirements: &Requirements,
) -> Result<(), ContractError> {
    let ids: Vec<FieldId> = fields.iter().map(|f| f.id).collect();
    let problems: Vec<Option<ContractError>> = fields
        .iter()
        .map(|f| {
            validate_field_layout(
                f.id,
                f.unit,
                f.sign,
                f.horizontal,
                f.vertical,
                2,
                1,
                2,
                interfaces,
                &f.shape,
                &f.axes,
                f.value_count,
            )
            .and_then(|()| validate_time(f.id, &f.time))
            .err()
        })
        .collect();
    validate_snapshot_parts(&SchemaIdentity::default(), true, vertical_ok, &ids, &problems, requirements)
}

/// The pressure-level advection scenario (two levels, no interfaces unless
/// given).
fn advection_fields() -> Vec<FieldSpec> {
    vec![
        volume_field(FieldId::WindU),
        volume_field(FieldId::WindV),
        volume_field(FieldId::VerticalVelocity),
        volume_field(FieldId::Temperature),
        volume_field(FieldId::SpecificHumidity),
        volume_field(FieldId::Pressure),
    ]
}

fn pressure_coordinate(interfaces: Option<usize>) -> bool {
    validate_vertical_coordinate(
        VerticalCoordinateKind::Pressure,
        VerticalReference::ModelNative,
        2,
        interfaces,
        None,
        None,
        false,
        None,
        true,
    )
    .is_ok()
}

fn advection(fields: &[FieldSpec], interfaces: Option<usize>) -> Result<(), ContractError> {
    validate(fields, pressure_coordinate(interfaces), interfaces, &Requirements::advection())
}

fn with<F: Fn(&mut FieldSpec)>(mut fields: Vec<FieldSpec>, id: FieldId, change: F) -> Vec<FieldSpec> {
    for field in fields.iter_mut().filter(|f| f.id == id) {
        change(field);
    }
    fields
}

#[test]
fn synthetic_advection_snapshot_validates() {
    assert_eq!(advection(&advection_fields(), None), Ok(()));
}

#[test]
fn missing_field_fails_closed() {
    let fields: Vec<FieldSpec> = advection_fields()
        .into_iter()
        .filter(|f| f.id != FieldId::SpecificHumidity)
        .collect();
    assert_eq!(
        advection(&fields, None),
        Err(ContractError::MissingRequiredField(FieldId::SpecificHumidity))
    );
}

#[test]
fn wind_u_x_face_staggering_is_supported() {
    let fields = with(advection_fields(), FieldId::WindU, |f| {
        f.horizontal = HorizontalStaggering::XFace;
        f.shape = vec![3, 1, 2];
        f.value_count = 6;
    });
    assert_eq!(advection(&fields, None), Ok(()));
}

#[test]
fn wind_u_y_face_staggering_fails_closed() {
    let fields = with(advection_fields(), FieldId::WindU, |f| {
        f.horizontal = HorizontalStaggering::YFace;
        f.shape = vec![2, 2, 2];
        f.value_count = 8;
    });
    assert_eq!(
        advection(&fields, None),
        Err(ContractError::InvalidStaggering(FieldId::WindU))
    );
}

#[test]
fn scalar_face_staggering_fails_closed() {
    let fields = with(advection_fields(), FieldId::Temperature, |f| {
        f.horizontal = HorizontalStaggering::XFace;
        f.shape = vec![3, 1, 2];
        f.value_count = 6;
    });
    assert_eq!(
        advection(&fields, None),
        Err(ContractError::InvalidStaggering(FieldId::Temperature))
    );
}

#[test]
fn vertical_velocity_interface_staggering_is_supported() {
    let fields = with(advection_fields(), FieldId::VerticalVelocity, |f| {
        f.vertical = VerticalStaggering::LevelInterface;
        f.shape = vec![2, 1, 3];
        f.value_count = 6;
    });
    assert_eq!(advection(&fields, Some(3)), Ok(()));
}

#[test]
fn scalar_interface_staggering_fails_closed() {
    let fields = with(advection_fields(), FieldId::Temperature, |f| {
        f.vertical = VerticalStaggering::LevelInterface;
        f.shape = vec![2, 1, 3];
        f.value_count = 6;
    });
    assert_eq!(
        advection(&fields, Some(3)),
        Err(ContractError::InvalidStaggering(FieldId::Temperature))
    );
}

#[test]
fn ambiguous_accumulation_fails_closed() {
    let mut fields = advection_fields();
    let mut precipitation =
        surface_field(FieldId::LargeScalePrecipitation, SignConvention::NonNegative);
    precipitation.time = FieldTime {
        kind: TemporalKind::AccumulatedSinceReset,
        interval_start_epoch_seconds: Some(0),
        interval_end_epoch_seconds: Some(1_000),
        accumulation: None,
        ..instant()
    };
    fields.push(precipitation.clone());
    assert_eq!(
        advection(&fields, None),
        Err(ContractError::InvalidTemporalMetadata(FieldId::LargeScalePrecipitation))
    );
    let last = fields.len() - 1;
    fields[last].time.accumulation = Some(Accumulation { reset_epoch_seconds: 0 });
    assert_eq!(advection(&fields, None), Ok(()));
}

/// The two-column hybrid scenario: surface pressure and signed terrain
/// (one column below sea level), with the thermodynamic fields of height
/// reconstruction when asked for.
fn hybrid_fields(thermodynamics: bool) -> Vec<FieldSpec> {
    let mut fields = vec![
        surface_field(FieldId::SurfacePressure, SignConvention::NonNegative),
        surface_field(FieldId::Orography, SignConvention::SignedScalar),
    ];
    if thermodynamics {
        fields.push(volume_field(FieldId::Temperature));
        fields.push(volume_field(FieldId::SpecificHumidity));
        fields.push(surface_field(FieldId::Temperature2m, SignConvention::SignedScalar));
        fields.push(surface_field(FieldId::Dewpoint2m, SignConvention::SignedScalar));
    }
    fields
}

fn hybrid_coordinate() -> bool {
    validate_vertical_coordinate(
        VerticalCoordinateKind::HybridSigmaPressure,
        VerticalReference::ModelNative,
        2,
        Some(3),
        Some(3),
        Some(3),
        true,
        Some(FieldId::SurfacePressure),
        true,
    )
    .is_ok()
}

#[test]
fn hybrid_pressure_uses_local_surface_pressure_and_declared_ordering() {
    // The pressures themselves are real numbers; the snapshot, with terrain
    // declared as a signed scalar, must pass validation first.
    assert_eq!(FieldId::Orography.sign(), SignConvention::SignedScalar);
    let empty = Requirements {
        required_fields: flexpart_gpu::meteorology::FieldIdSet::new(),
    };
    assert_eq!(validate(&hybrid_fields(false), hybrid_coordinate(), Some(3), &empty), Ok(()));
}

#[test]
fn exact_height_reconstruction_requires_flexpart_surface_thermodynamics() {
    let fields: Vec<FieldSpec> = hybrid_fields(true)
        .into_iter()
        .filter(|f| f.id != FieldId::Dewpoint2m)
        .collect();
    assert_eq!(
        validate(&fields, hybrid_coordinate(), Some(3), &vertical_transform_requirements()),
        Err(ContractError::MissingRequiredField(FieldId::Dewpoint2m))
    );
    assert_eq!(
        validate(&hybrid_fields(true), hybrid_coordinate(), Some(3), &vertical_transform_requirements()),
        Ok(())
    );
}
