use flexpart_gpu::meteorology::checks::{first_missing, validate_field_layout};
use flexpart_gpu::meteorology::{
    validate_interval, validate_time, Accumulation, Axis, Calendar, ContractError, FieldId,
    FieldIdSet, FieldTime, HorizontalStaggering, Provenance, Requirements, SchemaIdentity,
    SignConvention, TemporalKind, Unit, VerticalStaggering, SCHEMA_ID, SCHEMA_VERSION,
};

fn instant(valid: i64) -> FieldTime {
    FieldTime {
        calendar: Calendar::Gregorian,
        kind: TemporalKind::Instantaneous,
        valid_time_epoch_seconds: valid,
        interval_start_epoch_seconds: None,
        interval_end_epoch_seconds: None,
        accumulation: None,
    }
}

#[test]
fn canonical_order_and_field_rules() {
    let all = FieldId::p0_fields();
    assert_eq!(all.len(), 31);
    assert_eq!(all[0], FieldId::WindU);
    assert_eq!(all[30], FieldId::LandUseClass);
    for (i, id) in all.iter().enumerate() {
        assert_eq!(id.rank() as usize, i);
        assert_eq!(FieldId::from_rank(i as u8), *id);
    }
    assert_eq!(FieldId::Temperature.unit(), Unit::Kelvin);
    assert_eq!(FieldId::SensibleHeatFlux.sign(), SignConvention::PositiveUpwardFlux);
    assert_eq!(FieldId::LandSeaMask.sign(), SignConvention::NonNegative);
    assert!(FieldId::CloudIceWater.is_3d());
    assert!(!FieldId::Orography.is_3d());
    assert!(FieldId::WindU.supports_horizontal_staggering(HorizontalStaggering::XFace));
    assert!(!FieldId::WindU.supports_horizontal_staggering(HorizontalStaggering::YFace));
    assert!(FieldId::VerticalVelocity.supports_vertical_staggering(VerticalStaggering::LevelInterface));
    assert!(!FieldId::Temperature.supports_vertical_staggering(VerticalStaggering::LevelInterface));
    assert!(FieldId::Orography.supports_vertical_staggering(VerticalStaggering::NotApplicable));
}

#[test]
fn schema_identity_and_provenance() {
    let schema = SchemaIdentity::default();
    assert_eq!(schema.id, SCHEMA_ID);
    assert_eq!(schema.version, SCHEMA_VERSION);
    assert!(schema.is_current());
    assert!(!SchemaIdentity { id: SCHEMA_ID.to_string(), version: 2 }.is_current());
    let provenance = Provenance::of_schema(&schema);
    assert_eq!(provenance.schema_version, SCHEMA_VERSION);
    assert_eq!(provenance.schema_id, SCHEMA_ID);
}

#[test]
fn requirement_sets() {
    let advection = Requirements::advection();
    assert_eq!(
        advection.required_fields.ids().clone(),
        vec![
            FieldId::WindU,
            FieldId::WindV,
            FieldId::VerticalVelocity,
            FieldId::Temperature,
            FieldId::SpecificHumidity,
            FieldId::Pressure
        ]
    );
    assert_eq!(Requirements::p0_complete().required_fields.ids().len(), 31);
    let native = Requirements::real_data_native_levels();
    assert!(native.required_fields.contains(FieldId::SurfacePressure));
    assert!(!native.required_fields.contains(FieldId::Pressure));
}

#[test]
fn field_sets_report_duplicates_and_the_first_missing_field() {
    let mut seen = FieldIdSet::new();
    assert!(seen.insert(FieldId::Temperature));
    assert!(seen.insert(FieldId::WindU));
    assert!(!seen.insert(FieldId::Temperature));
    assert_eq!(seen.ids().clone(), vec![FieldId::WindU, FieldId::Temperature]);
    let required = Requirements::advection().required_fields;
    assert_eq!(first_missing(&required, &seen), Some(FieldId::WindV));
    let all = FieldIdSet::from_slice(&FieldId::p0_fields());
    assert_eq!(first_missing(&required, &all), None);
}

#[test]
fn time_semantics_are_checked() {
    assert_eq!(validate_time(FieldId::Temperature, &instant(1_000)), Ok(()));
    let mut with_interval = instant(1_000);
    with_interval.interval_start_epoch_seconds = Some(0);
    assert_eq!(
        validate_time(FieldId::Temperature, &with_interval),
        Err(ContractError::InvalidTemporalMetadata(FieldId::Temperature))
    );
    let accumulated = FieldTime {
        calendar: Calendar::Gregorian,
        kind: TemporalKind::AccumulatedSinceReset,
        valid_time_epoch_seconds: 1_000,
        interval_start_epoch_seconds: Some(0),
        interval_end_epoch_seconds: Some(1_000),
        accumulation: None,
    };
    assert_eq!(
        validate_time(FieldId::LargeScalePrecipitation, &accumulated),
        Err(ContractError::InvalidTemporalMetadata(FieldId::LargeScalePrecipitation))
    );
    let with_reset =
        FieldTime { accumulation: Some(Accumulation { reset_epoch_seconds: 0 }), ..accumulated };
    assert_eq!(validate_time(FieldId::LargeScalePrecipitation, &with_reset), Ok(()));
    let late_reset =
        FieldTime { accumulation: Some(Accumulation { reset_epoch_seconds: 1 }), ..accumulated };
    assert!(validate_time(FieldId::LargeScalePrecipitation, &late_reset).is_err());
    assert!(validate_time(FieldId::ConvectivePrecipitation, &instant(5)).is_err());
    let mean = FieldTime { kind: TemporalKind::IntervalMean, accumulation: None, ..accumulated };
    assert_eq!(validate_interval(FieldId::SensibleHeatFlux, &mean), Ok(()));
    let shifted = FieldTime { valid_time_epoch_seconds: 999, ..mean };
    assert!(validate_interval(FieldId::SensibleHeatFlux, &shifted).is_err());
}

fn layout(
    id: FieldId,
    h: HorizontalStaggering,
    v: VerticalStaggering,
    shape: Vec<usize>,
    axes: Vec<Axis>,
    values: usize,
    interfaces: Option<usize>,
) -> Result<(), ContractError> {
    validate_field_layout(id, id.unit(), id.sign(), h, v, 2, 1, 2, interfaces, &shape, &axes, values)
}

#[test]
fn wind_faces_and_interfaces_follow_the_field_rules() {
    let xyz = vec![Axis::X, Axis::Y, Axis::Z];
    let c = HorizontalStaggering::CellCenter;
    let l = VerticalStaggering::LevelCenter;
    assert_eq!(layout(FieldId::WindU, c, l, vec![2, 1, 2], xyz.clone(), 4, None), Ok(()));
    assert_eq!(
        layout(FieldId::WindU, HorizontalStaggering::XFace, l, vec![3, 1, 2], xyz.clone(), 6, None),
        Ok(())
    );
    assert_eq!(
        layout(FieldId::WindU, HorizontalStaggering::YFace, l, vec![2, 2, 2], xyz.clone(), 8, None),
        Err(ContractError::InvalidStaggering(FieldId::WindU))
    );
    assert_eq!(
        layout(
            FieldId::VerticalVelocity,
            c,
            VerticalStaggering::LevelInterface,
            vec![2, 1, 3],
            xyz.clone(),
            6,
            Some(3)
        ),
        Ok(())
    );
    assert_eq!(
        layout(
            FieldId::VerticalVelocity,
            c,
            VerticalStaggering::LevelInterface,
            vec![2, 1, 3],
            xyz.clone(),
            6,
            None
        ),
        Err(ContractError::InvalidStaggering(FieldId::VerticalVelocity))
    );
    assert_eq!(
        layout(FieldId::Temperature, c, l, vec![2, 1, 3], xyz.clone(), 6, None),
        Err(ContractError::ShapeMismatch(FieldId::Temperature))
    );
    assert_eq!(
        layout(FieldId::Temperature, c, l, vec![2, 1, 2], xyz.clone(), 5, None),
        Err(ContractError::ValueCountMismatch(FieldId::Temperature))
    );
    assert_eq!(
        layout(
            FieldId::Orography,
            c,
            VerticalStaggering::NotApplicable,
            vec![2, 1],
            vec![Axis::X, Axis::Y],
            2,
            None
        ),
        Ok(())
    );
    assert_eq!(
        validate_field_layout(
            FieldId::Temperature,
            Unit::Pascal,
            SignConvention::SignedScalar,
            c,
            l,
            2,
            1,
            2,
            None,
            &vec![2, 1, 2],
            &xyz,
            4
        ),
        Err(ContractError::UnitMismatch(FieldId::Temperature))
    );
}
