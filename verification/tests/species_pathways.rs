use flexpart_gpu::config::{ConfigError, SpeciesKind};
use flexpart_gpu::species::SpeciesPathways;

fn none() -> SpeciesPathways {
    SpeciesPathways {
        relative_diffusivity: false,
        particle_density: false,
        dry_deposition_velocity: false,
        decay_constant: false,
        wet_a_gas: false,
        wet_b_gas: false,
        crain_aero: false,
        csnow_aero: false,
        ccn_aero: false,
        in_aero: false,
        henry: false,
        mean_diameter: false,
        diameter_sigma_above_one: false,
    }
}

fn validation_message(r: Result<(), ConfigError>) -> String {
    match r {
        Err(ConfigError::Validation { message }) => message,
        other => panic!("unexpected {other:?}"),
    }
}

#[test]
fn tracer_without_pathways_is_passive() {
    let p = none();
    assert_eq!(p.species_kind(), SpeciesKind::Gas);
    assert!(p.is_passive_tracer());
    assert!(!p.decay_active());
    assert!(!p.dry_deposition_active());
    assert!(!p.gas_deposition_enabled());
    assert!(!p.gas_below_cloud_enabled());
    assert!(!p.aerosol_below_cloud_enabled());
    assert!(!p.aerosol_in_cloud_enabled());
    assert!(!p.gas_in_cloud_enabled());
    assert!(p.validate_gas_particle_branching("AIRTRACER").is_ok());
}

#[test]
fn aerosol_with_efficiencies_has_aerosol_pathways_only() {
    let p = SpeciesPathways {
        crain_aero: true,
        csnow_aero: true,
        ccn_aero: true,
        in_aero: true,
        particle_density: true,
        mean_diameter: true,
        diameter_sigma_above_one: true,
        ..none()
    };
    assert_eq!(p.species_kind(), SpeciesKind::Aerosol);
    assert!(p.dry_deposition_active());
    assert!(p.below_cloud_wet_active());
    assert!(p.in_cloud_wet_active());
    assert!(!p.decay_active());
    assert!(!p.is_passive_tracer());
    assert!(!p.gas_deposition_enabled());
    assert!(p.aerosol_below_cloud_enabled());
    assert!(!p.gas_below_cloud_enabled());
    assert!(p.aerosol_in_cloud_enabled());
    assert!(p.validate_gas_particle_branching("EXAMPLE").is_ok());
}

#[test]
fn gas_scavenging_needs_gas_kind() {
    let gas = SpeciesPathways { relative_diffusivity: true, wet_a_gas: true, wet_b_gas: true, henry: true, ..none() };
    assert!(gas.gas_deposition_enabled());
    assert!(gas.gas_below_cloud_enabled());
    assert!(gas.gas_in_cloud_enabled());
    assert!(!gas.aerosol_below_cloud_enabled());
    let aerosol = SpeciesPathways { wet_a_gas: true, henry: true, mean_diameter: true, diameter_sigma_above_one: true, ..none() };
    assert!(!aerosol.below_cloud_wet_active());
    assert!(!aerosol.gas_below_cloud_enabled());
    assert!(!aerosol.gas_in_cloud_enabled());
}

#[test]
fn in_cloud_scavenging_is_for_aerosols_only() {
    let gas = SpeciesPathways { ccn_aero: true, in_aero: true, ..none() };
    assert!(!gas.in_cloud_wet_active());
    let decaying = SpeciesPathways { decay_constant: true, ..none() };
    assert!(decaying.decay_active());
    assert!(!decaying.is_passive_tracer());
}

#[test]
fn gas_particle_mix_is_rejected() {
    let p = SpeciesPathways {
        relative_diffusivity: true,
        particle_density: true,
        mean_diameter: true,
        diameter_sigma_above_one: true,
        ..none()
    };
    assert_eq!(
        validation_message(p.validate_gas_particle_branching("MIX")),
        "species `MIX` cannot be both gas (PRELDIFF > 0) and particle (PDENSITY > 0)"
    );
}

#[test]
fn particle_without_diameter_is_rejected() {
    let p = SpeciesPathways { particle_density: true, ..none() };
    assert_eq!(
        validation_message(p.validate_gas_particle_branching("DUST")),
        "species `DUST` has PDENSITY > 0 but no positive PDIA"
    );
}

#[test]
fn aerosol_width_must_exceed_one() {
    let p = SpeciesPathways { particle_density: true, mean_diameter: true, ..none() };
    assert_eq!(
        validation_message(p.validate_gas_particle_branching("AERO")),
        "species `AERO` aerosol diameter requires PDSIGMA > 1"
    );
}

#[test]
fn gas_species_maps_to_gas_deposition_input() {
    let species = SpeciesPathways {
        relative_diffusivity: true,
        ..none()
    };
    assert!(species.gas_deposition_enabled());
    assert!(!species.aerosol_below_cloud_enabled());
}

#[test]
fn aerosol_species_has_no_gas_pathway() {
    let species = SpeciesPathways {
        crain_aero: true,
        csnow_aero: true,
        ccn_aero: true,
        in_aero: true,
        particle_density: true,
        mean_diameter: true,
        diameter_sigma_above_one: true,
        ..none()
    };
    assert!(!species.gas_deposition_enabled());
    assert!(species.aerosol_below_cloud_enabled());
    assert!(species.aerosol_in_cloud_enabled());
}

#[test]
fn passive_tracer_maps_to_no_pathways() {
    let species = none();
    assert!(species.is_passive_tracer());
    assert!(!species.gas_deposition_enabled());
    assert!(!species.gas_below_cloud_enabled());
    assert!(!species.aerosol_below_cloud_enabled());
    assert!(!species.aerosol_in_cloud_enabled());
    assert!(!species.gas_in_cloud_enabled());
    assert!(!species.decay_active());
}

#[test]
fn gas_below_cloud_params_require_gas_kind() {
    let species = SpeciesPathways {
        relative_diffusivity: true,
        wet_a_gas: true,
        wet_b_gas: true,
        ..none()
    };
    assert_eq!(species.species_kind(), SpeciesKind::Gas);
    assert!(species.gas_below_cloud_enabled());
    let aerosol = SpeciesPathways {
        mean_diameter: true,
        ..species
    };
    assert!(!aerosol.gas_below_cloud_enabled());
}
