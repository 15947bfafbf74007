//! Canonical, provider-independent meteorology contract.
//!
//! Provider adapters normalise their data into these types. Physics depends on
//! canonical field identities, units, sign conventions, staggering and time
//! semantics only, never on provider naming or implicit conventions.

pub mod fields;
pub mod checks;
pub mod temporal;
pub mod accumulation;
pub mod vertical;
pub mod vertical_sampling;
pub mod horizontal;

pub use fields::{
    FieldId, Unit, SignConvention, HorizontalStaggering, VerticalStaggering, Axis, StorageOrder,
    LongitudeDomain, VerticalCoordinateKind, VerticalReference, VerticalOrdering, Calendar,
    TemporalKind, TemporalPolicy, field_rank, field_temporal_policy, field_of_rank, is_3d_field, field_unit, field_sign,
    horizontal_staggering_ok, vertical_staggering_ok,
};
pub use checks::{
    SCHEMA_ID, SCHEMA_VERSION, SchemaIdentity, Provenance, Accumulation, FieldTime, FieldIdSet,
    Requirements, ContractError, validate_time, validate_interval, validate_field_layout,
    first_missing, validate_vertical_coordinate, validate_snapshot_parts,
};
