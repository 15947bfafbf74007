//! Canonical field identities and the enumerations that describe fields.

use vstd::prelude::*;

verus! {

/// Canonical field identities, in their canonical order.
#[derive(Debug, Clone, Copy, PartialEq, Eq, Structural, PartialOrd, Ord, Hash)]
pub enum FieldId {
    WindU,
    WindV,
    VerticalVelocity,
    Temperature,
    SpecificHumidity,
    Pressure,
    AirDensity,
    DensityGradient,
    SurfacePressure,
    Orography,
    LandSeaMask,
    WindU10m,
    WindV10m,
    Temperature2m,
    Dewpoint2m,
    LargeScalePrecipitation,
    ConvectivePrecipitation,
    TotalCloudCover,
    CloudLiquidWater,
    CloudIceWater,
    SensibleHeatFlux,
    SurfaceSolarRadiation,
    SurfaceStressEastward,
    SurfaceStressNorthward,
    FrictionVelocity,
    ConvectiveVelocityScale,
    MixingHeight,
    TropopauseHeight,
    InverseObukhovLength,
    RoughnessLength,
    LandUseClass,
}

/// Physical units of canonical fields.
#[derive(Debug, Clone, Copy, PartialEq, Eq, Structural)]
pub enum Unit {
    MeterPerSecond,
    Kelvin,
    KilogramPerKilogram,
    Pascal,
    KilogramPerCubicMeter,
    KilogramPerQuarticMeter,
    Meter,
    Fraction,
    KilogramPerSquareMeter,
    WattPerSquareMeter,
    NewtonPerSquareMeter,
    PerMeter,
    ClassIndex,
}

/// Sign conventions of canonical fields.
#[derive(Debug, Clone, Copy, PartialEq, Eq, Structural)]
pub enum SignConvention {
    PositiveEastward,
    PositiveNorthward,
    PositiveUpward,
    PositiveUpwardFlux,
    NonNegative,
    SignedScalar,
}

/// Axes of a field's storage shape.
#[derive(Debug, Clone, Copy, PartialEq, Eq, Structural)]
pub enum Axis {
    X,
    Y,
    Z,
}

/// Linearisation of field values. Only X-fastest storage exists: for shape
/// `[nx, ny, nz]` the offset of `(x, y, z)` is `x + nx * (y + ny * z)`, for
/// `[nx, ny]` that of `(x, y)` is `x + nx * y`.
#[derive(Debug, Clone, Copy, PartialEq, Eq, Structural)]
pub enum StorageOrder {
    XFastest,
}

/// Where on the horizontal grid cell a value sits.
#[derive(Debug, Clone, Copy, PartialEq, Eq, Structural)]
pub enum HorizontalStaggering {
    CellCenter,
    XFace,
    YFace,
}

/// Where in the vertical a value sits: none for surface fields, on model
/// levels, or on the interfaces between them.
#[derive(Debug, Clone, Copy, PartialEq, Eq, Structural)]
pub enum VerticalStaggering {
    NotApplicable,
    LevelCenter,
    LevelInterface,
}

/// Range in which grid longitudes are written.
#[derive(Debug, Clone, Copy, PartialEq, Eq, Structural)]
pub enum LongitudeDomain {
    Minus180To180,
    ZeroTo360,
}

/// Kind of vertical coordinate a snapshot declares.
#[derive(Debug, Clone, Copy, PartialEq, Eq, Structural)]
pub enum VerticalCoordinateKind {
    GeometricHeight,
    Pressure,
    HybridSigmaPressure,
}

/// Datum a height or vertical coordinate is measured from.
#[derive(Debug, Clone, Copy, PartialEq, Eq, Structural)]
pub enum VerticalReference {
    AboveMeanSeaLevel,
    AboveGroundLevel,
    ModelNative,
}

/// Direction in which stored level values run.
#[derive(Debug, Clone, Copy, PartialEq, Eq, Structural)]
pub enum VerticalOrdering {
    Increasing,
    Decreasing,
}

/// Calendar of field valid times.
#[derive(Debug, Clone, Copy, PartialEq, Eq, Structural)]
pub enum Calendar {
    Gregorian,
    ProlepticGregorian,
}

/// How a field may be sampled in time: only instantaneous fields are
/// interpolated between snapshots; precipitation amounts, surface flux rates
/// and static fields are not.
#[derive(Debug, Clone, Copy, PartialEq, Eq, Structural)]
pub enum TemporalPolicy {
    Instantaneous,
    PrecipitationAmount,
    SurfaceFluxRate,
    Static,
}

/// How a field's value relates to time: at an instant, over an interval, or
/// accumulated since a reset.
#[derive(Debug, Clone, Copy, PartialEq, Eq, Structural)]
pub enum TemporalKind {
    Instantaneous,
    IntervalMean,
    IntervalTotal,
    AccumulatedSinceReset,
}

/// Position of a field in the canonical order.
pub open spec fn field_rank(id: FieldId) -> int {
    match id {
        FieldId::WindU => 0,
        FieldId::WindV => 1,
        FieldId::VerticalVelocity => 2,
        FieldId::Temperature => 3,
        FieldId::SpecificHumidity => 4,
        FieldId::Pressure => 5,
        FieldId::AirDensity => 6,
        FieldId::DensityGradient => 7,
        FieldId::SurfacePressure => 8,
        FieldId::Orography => 9,
        FieldId::LandSeaMask => 10,
        FieldId::WindU10m => 11,
        FieldId::WindV10m => 12,
        FieldId::Temperature2m => 13,
        FieldId::Dewpoint2m => 14,
        FieldId::LargeScalePrecipitation => 15,
        FieldId::ConvectivePrecipitation => 16,
        FieldId::TotalCloudCover => 17,
        FieldId::CloudLiquidWater => 18,
        FieldId::CloudIceWater => 19,
        FieldId::SensibleHeatFlux => 20,
        FieldId::SurfaceSolarRadiation => 21,
        FieldId::SurfaceStressEastward => 22,
        FieldId::SurfaceStressNorthward => 23,
        FieldId::FrictionVelocity => 24,
        FieldId::ConvectiveVelocityScale => 25,
        FieldId::MixingHeight => 26,
        FieldId::TropopauseHeight => 27,
        FieldId::InverseObukhovLength => 28,
        FieldId::RoughnessLength => 29,
        FieldId::LandUseClass => 30,
    }
}

/// The field at a position of the canonical order.
pub open spec fn field_of_rank(r: int) -> FieldId {
    if r == 0 {
        FieldId::WindU
    } else if r == 1 {
        FieldId::WindV
    } else if r == 2 {
        FieldId::VerticalVelocity
    } else if r == 3 {
        FieldId::Temperature
    } else if r == 4 {
        FieldId::SpecificHumidity
    } else if r == 5 {
        FieldId::Pressure
    } else if r == 6 {
        FieldId::AirDensity
    } else if r == 7 {
        FieldId::DensityGradient
    } else if r == 8 {
        FieldId::SurfacePressure
    } else if r == 9 {
        FieldId::Orography
    } else if r == 10 {
        FieldId::LandSeaMask
    } else if r == 11 {
        FieldId::WindU10m
    } else if r == 12 {
        FieldId::WindV10m
    } else if r == 13 {
        FieldId::Temperature2m
    } else if r == 14 {
        FieldId::Dewpoint2m
    } else if r == 15 {
        FieldId::LargeScalePrecipitation
    } else if r == 16 {
        FieldId::ConvectivePrecipitation
    } else if r == 17 {
        FieldId::TotalCloudCover
    } else if r == 18 {
        FieldId::CloudLiquidWater
    } else if r == 19 {
        FieldId::CloudIceWater
    } else if r == 20 {
        FieldId::SensibleHeatFlux
    } else if r == 21 {
        FieldId::SurfaceSolarRadiation
    } else if r == 22 {
        FieldId::SurfaceStressEastward
    } else if r == 23 {
        FieldId::SurfaceStressNorthward
    } else if r == 24 {
        FieldId::FrictionVelocity
    } else if r == 25 {
        FieldId::ConvectiveVelocityScale
    } else if r == 26 {
        FieldId::MixingHeight
    } else if r == 27 {
        FieldId::TropopauseHeight
    } else if r == 28 {
        FieldId::InverseObukhovLength
    } else if r == 29 {
        FieldId::RoughnessLength
    } else if r == 30 {
        FieldId::LandUseClass
    } else {
        FieldId::LandUseClass
    }
}

/// Every field identity has a rank below the number of identities, and the
/// rank gives the identity back.
pub proof fn lemma_rank_round_trip(id: FieldId)
    ensures
        0 <= field_rank(id) < 31,
        field_of_rank(field_rank(id)) == id,
{
}

/// Three-dimensional fields; all others are surface fields.
pub open spec fn is_3d_field(id: FieldId) -> bool {
    match id {
        FieldId::WindU | FieldId::WindV | FieldId::VerticalVelocity | FieldId::Temperature
        | FieldId::SpecificHumidity | FieldId::Pressure | FieldId::AirDensity
        | FieldId::DensityGradient | FieldId::CloudLiquidWater | FieldId::CloudIceWater => true,
        _ => false,
    }
}

/// Horizontal staggering a field may have: cell centres, and also x faces for
/// eastward wind and y faces for northward wind.
pub open spec fn horizontal_staggering_ok(id: FieldId, s: HorizontalStaggering) -> bool {
    match id {
        FieldId::WindU => s == HorizontalStaggering::CellCenter || s == HorizontalStaggering::XFace,
        FieldId::WindV => s == HorizontalStaggering::CellCenter || s == HorizontalStaggering::YFace,
        _ => s == HorizontalStaggering::CellCenter,
    }
}

/// Vertical staggering a field may have: none for surface fields, level
/// centres for 3-D fields, and also level interfaces for vertical velocity.
pub open spec fn vertical_staggering_ok(id: FieldId, s: VerticalStaggering) -> bool {
    if !is_3d_field(id) {
        s == VerticalStaggering::NotApplicable
    } else if id == FieldId::VerticalVelocity {
        s == VerticalStaggering::LevelCenter || s == VerticalStaggering::LevelInterface
    } else {
        s == VerticalStaggering::LevelCenter
    }
}

/// The canonical unit of each field.
pub open spec fn field_unit(id: FieldId) -> Unit {
    match id {
        FieldId::WindU | FieldId::WindV | FieldId::VerticalVelocity | FieldId::WindU10m
        | FieldId::WindV10m | FieldId::FrictionVelocity | FieldId::ConvectiveVelocityScale =>
            Unit::MeterPerSecond,
        FieldId::Temperature | FieldId::Temperature2m | FieldId::Dewpoint2m => Unit::Kelvin,
        FieldId::SpecificHumidity | FieldId::CloudLiquidWater | FieldId::CloudIceWater =>
            Unit::KilogramPerKilogram,
        FieldId::Pressure | FieldId::SurfacePressure => Unit::Pascal,
        FieldId::AirDensity => Unit::KilogramPerCubicMeter,
        FieldId::DensityGradient => Unit::KilogramPerQuarticMeter,
        FieldId::Orography | FieldId::MixingHeight | FieldId::TropopauseHeight
        | FieldId::RoughnessLength => Unit::Meter,
        FieldId::LandSeaMask | FieldId::TotalCloudCover => Unit::Fraction,
        FieldId::LargeScalePrecipitation | FieldId::ConvectivePrecipitation =>
            Unit::KilogramPerSquareMeter,
        FieldId::SensibleHeatFlux | FieldId::SurfaceSolarRadiation => Unit::WattPerSquareMeter,
        FieldId::SurfaceStressEastward | FieldId::SurfaceStressNorthward =>
            Unit::NewtonPerSquareMeter,
        FieldId::InverseObukhovLength => Unit::PerMeter,
        FieldId::LandUseClass => Unit::ClassIndex,
    }
}

/// The temporal policy of each field: precipitation is an amount, the
/// radiative and sensible heat fluxes are rates, terrain is static, and all
/// other fields are instantaneous.
pub open spec fn field_temporal_policy(id: FieldId) -> TemporalPolicy {
    match id {
        FieldId::LargeScalePrecipitation | FieldId::ConvectivePrecipitation =>
            TemporalPolicy::PrecipitationAmount,
        FieldId::SensibleHeatFlux | FieldId::SurfaceSolarRadiation => TemporalPolicy::SurfaceFluxRate,
        FieldId::Orography => TemporalPolicy::Static,
        _ => TemporalPolicy::Instantaneous,
    }
}

/// The canonical sign convention of each field.
pub open spec fn field_sign(id: FieldId) -> SignConvention {
    match id {
        FieldId::WindU | FieldId::SurfaceStressEastward => SignConvention::PositiveEastward,
        FieldId::WindV | FieldId::SurfaceStressNorthward => SignConvention::PositiveNorthward,
        FieldId::VerticalVelocity => SignConvention::PositiveUpward,
        FieldId::SensibleHeatFlux => SignConvention::PositiveUpwardFlux,
        FieldId::Temperature | FieldId::Temperature2m | FieldId::Dewpoint2m
        | FieldId::DensityGradient | FieldId::InverseObukhovLength | FieldId::Orography =>
            SignConvention::SignedScalar,
        _ => SignConvention::NonNegative,
    }
}

impl FieldId {
    /// Position in the canonical order.
    pub fn rank(self) -> (r: u8)
        ensures
            r == field_rank(self),
    {
        match self {
            FieldId::WindU => 0,
            FieldId::WindV => 1,
            FieldId::VerticalVelocity => 2,
            FieldId::Temperature => 3,
            FieldId::SpecificHumidity => 4,
            FieldId::Pressure => 5,
            FieldId::AirDensity => 6,
            FieldId::DensityGradient => 7,
            FieldId::SurfacePressure => 8,
            FieldId::Orography => 9,
            FieldId::LandSeaMask => 10,
            FieldId::WindU10m => 11,
            FieldId::WindV10m => 12,
            FieldId::Temperature2m => 13,
            FieldId::Dewpoint2m => 14,
            FieldId::LargeScalePrecipitation => 15,
            FieldId::ConvectivePrecipitation => 16,
            FieldId::TotalCloudCover => 17,
            FieldId::CloudLiquidWater => 18,
            FieldId::CloudIceWater => 19,
            FieldId::SensibleHeatFlux => 20,
            FieldId::SurfaceSolarRadiation => 21,
            FieldId::SurfaceStressEastward => 22,
            FieldId::SurfaceStressNorthward => 23,
            FieldId::FrictionVelocity => 24,
            FieldId::ConvectiveVelocityScale => 25,
            FieldId::MixingHeight => 26,
            FieldId::TropopauseHeight => 27,
            FieldId::InverseObukhovLength => 28,
            FieldId::RoughnessLength => 29,
            FieldId::LandUseClass => 30,
        }
    }

    /// The field at position `r` of the canonical order.
    pub fn from_rank(r: u8) -> (id: FieldId)
        requires
            r < 31,
        ensures
            id == field_of_rank(r as int),
            field_rank(id) == r,
    {
        match r {
            0 => FieldId::WindU,
            1 => FieldId::WindV,
            2 => FieldId::VerticalVelocity,
            3 => FieldId::Temperature,
            4 => FieldId::SpecificHumidity,
            5 => FieldId::Pressure,
            6 => FieldId::AirDensity,
            7 => FieldId::DensityGradient,
            8 => FieldId::SurfacePressure,
            9 => FieldId::Orography,
            10 => FieldId::LandSeaMask,
            11 => FieldId::WindU10m,
            12 => FieldId::WindV10m,
            13 => FieldId::Temperature2m,
            14 => FieldId::Dewpoint2m,
            15 => FieldId::LargeScalePrecipitation,
            16 => FieldId::ConvectivePrecipitation,
            17 => FieldId::TotalCloudCover,
            18 => FieldId::CloudLiquidWater,
            19 => FieldId::CloudIceWater,
            20 => FieldId::SensibleHeatFlux,
            21 => FieldId::SurfaceSolarRadiation,
            22 => FieldId::SurfaceStressEastward,
            23 => FieldId::SurfaceStressNorthward,
            24 => FieldId::FrictionVelocity,
            25 => FieldId::ConvectiveVelocityScale,
            26 => FieldId::MixingHeight,
            27 => FieldId::TropopauseHeight,
            28 => FieldId::InverseObukhovLength,
            29 => FieldId::RoughnessLength,
            _ => FieldId::LandUseClass,
        }
    }

    /// Every canonical field, in canonical order (the complete first-priority
    /// set).
    pub fn p0_fields() -> (r: Vec<FieldId>)
        ensures
            r@.len() == 31,
            forall|i: int| 0 <= i < 31 ==> field_rank(#[trigger] r@[i]) == i,
    {
        let mut v: Vec<FieldId> = Vec::new();
        let mut k: u8 = 0;
        while k < 31
            invariant
                k <= 31,
                v@.len() == k,
                forall|i: int| 0 <= i < k ==> field_rank(#[trigger] v@[i]) == i,
            decreases 31 - k,
        {
            v.push(FieldId::from_rank(k));
            k = k + 1;
        }
        v
    }

    /// Whether the field is three-dimensional.
    pub fn is_3d(self) -> (r: bool)
        ensures
            r == is_3d_field(self),
    {
        match self {
            FieldId::WindU | FieldId::WindV | FieldId::VerticalVelocity | FieldId::Temperature
            | FieldId::SpecificHumidity | FieldId::Pressure | FieldId::AirDensity
            | FieldId::DensityGradient | FieldId::CloudLiquidWater | FieldId::CloudIceWater => true,
            _ => false,
        }
    }

    /// Whether the field may be stored with this horizontal staggering: wind
    /// components also on their own cell faces, all others at cell centres.
    pub fn supports_horizontal_staggering(self, staggering: HorizontalStaggering) -> (r: bool)
        ensures
            r == horizontal_staggering_ok(self, staggering),
    {
        match self {
            FieldId::WindU => staggering == HorizontalStaggering::CellCenter || staggering
                == HorizontalStaggering::XFace,
            FieldId::WindV => staggering == HorizontalStaggering::CellCenter || staggering
                == HorizontalStaggering::YFace,
            _ => staggering == HorizontalStaggering::CellCenter,
        }
    }

    /// Whether the field may be stored with this vertical staggering: surface
    /// fields have none, three-dimensional fields sit on levels, and vertical
    /// velocity also on interfaces.
    pub fn supports_vertical_staggering(self, staggering: VerticalStaggering) -> (r: bool)
        ensures
            r == vertical_staggering_ok(self, staggering),
    {
        if !self.is_3d() {
            return staggering == VerticalStaggering::NotApplicable;
        }
        match self {
            FieldId::VerticalVelocity => staggering == VerticalStaggering::LevelCenter || staggering
                == VerticalStaggering::LevelInterface,
            _ => staggering == VerticalStaggering::LevelCenter,
        }
    }

    /// Canonical unit of the field.
    pub fn unit(self) -> (r: Unit)
        ensures
            r == field_unit(self),
    {
        match self {
            FieldId::WindU | FieldId::WindV | FieldId::VerticalVelocity | FieldId::WindU10m
            | FieldId::WindV10m | FieldId::FrictionVelocity | FieldId::ConvectiveVelocityScale =>
                Unit::MeterPerSecond,
            FieldId::Temperature | FieldId::Temperature2m | FieldId::Dewpoint2m => Unit::Kelvin,
            FieldId::SpecificHumidity | FieldId::CloudLiquidWater | FieldId::CloudIceWater =>
                Unit::KilogramPerKilogram,
            FieldId::Pressure | FieldId::SurfacePressure => Unit::Pascal,
            FieldId::AirDensity => Unit::KilogramPerCubicMeter,
            FieldId::DensityGradient => Unit::KilogramPerQuarticMeter,
            FieldId::Orography | FieldId::MixingHeight | FieldId::TropopauseHeight
            | FieldId::RoughnessLength => Unit::Meter,
            FieldId::LandSeaMask | FieldId::TotalCloudCover => Unit::Fraction,
            FieldId::LargeScalePrecipitation | FieldId::ConvectivePrecipitation =>
                Unit::KilogramPerSquareMeter,
            FieldId::SensibleHeatFlux | FieldId::SurfaceSolarRadiation =>
                Unit::WattPerSquareMeter,
            FieldId::SurfaceStressEastward | FieldId::SurfaceStressNorthward =>
                Unit::NewtonPerSquareMeter,
            FieldId::InverseObukhovLength => Unit::PerMeter,
            FieldId::LandUseClass => Unit::ClassIndex,
        }
    }

    /// Temporal policy of the field.
    pub fn temporal_policy(self) -> (r: TemporalPolicy)
        ensures
            r == field_temporal_policy(self),
    {
        match self {
            FieldId::LargeScalePrecipitation | FieldId::ConvectivePrecipitation =>
                TemporalPolicy::PrecipitationAmount,
            FieldId::SensibleHeatFlux | FieldId::SurfaceSolarRadiation =>
                TemporalPolicy::SurfaceFluxRate,
            FieldId::Orography => TemporalPolicy::Static,
            _ => TemporalPolicy::Instantaneous,
        }
    }

    /// Canonical sign convention of the field.
    pub fn sign(self) -> (r: SignConvention)
        ensures
            r == field_sign(self),
    {
        match self {
            FieldId::WindU | FieldId::SurfaceStressEastward => SignConvention::PositiveEastward,
            FieldId::WindV | FieldId::SurfaceStressNorthward => SignConvention::PositiveNorthward,
            FieldId::VerticalVelocity => SignConvention::PositiveUpward,
            FieldId::SensibleHeatFlux => SignConvention::PositiveUpwardFlux,
            FieldId::Temperature | FieldId::Temperature2m | FieldId::Dewpoint2m
            | FieldId::DensityGradient | FieldId::InverseObukhovLength | FieldId::Orography =>
                SignConvention::SignedScalar,
            _ => SignConvention::NonNegative,
        }
    }
}

} // verus!
