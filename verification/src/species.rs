//! Which removal pathways a species takes part in.
//!
//! Species parameters are real numbers, but every decision about them only
//! asks whether a parameter is present and strictly positive (or, for the
//! aerosol width, strictly above one). [`SpeciesPathways`] holds exactly those
//! answers, and the classification, the pathway switches and the consistency
//! checks are decided from it.

use vstd::prelude::*;
use crate::config::{ConfigError, ConfigErrorModel, SpeciesKind};

verus! {

broadcast use vstd::string::group_string_axioms;

/// For each species parameter, whether it is present and strictly positive
/// (`diameter_sigma_above_one`: present and strictly above one).
#[derive(Debug, Clone, Copy, PartialEq, Eq, Structural)]
pub struct SpeciesPathways {
    pub relative_diffusivity: bool,
    pub particle_density: bool,
    pub dry_deposition_velocity: bool,
    pub decay_constant: bool,
    pub wet_a_gas: bool,
    pub wet_b_gas: bool,
    pub crain_aero: bool,
    pub csnow_aero: bool,
    pub ccn_aero: bool,
    pub in_aero: bool,
    pub henry: bool,
    pub mean_diameter: bool,
    pub diameter_sigma_above_one: bool,
}

/// Gas or aerosol: a positive mean diameter makes an aerosol.
pub open spec fn kind_of(p: SpeciesPathways) -> SpeciesKind {
    if p.mean_diameter {
        SpeciesKind::Aerosol
    } else {
        SpeciesKind::Gas
    }
}

/// Dry deposition applies: diffusivity, particle density or a deposition
/// velocity is given.
pub open spec fn dry_active(p: SpeciesPathways) -> bool {
    p.relative_diffusivity || p.particle_density || p.dry_deposition_velocity
}

/// Below-cloud scavenging applies, by the parameters of the species kind.
pub open spec fn below_cloud_active(p: SpeciesPathways) -> bool {
    match kind_of(p) {
        SpeciesKind::Gas => p.wet_a_gas || p.wet_b_gas,
        SpeciesKind::Aerosol => p.crain_aero || p.csnow_aero,
    }
}

/// In-cloud scavenging of an aerosol applies.
pub open spec fn in_cloud_active(p: SpeciesPathways) -> bool {
    kind_of(p) == SpeciesKind::Aerosol && (p.ccn_aero || p.in_aero)
}

/// Radioactive decay applies.
pub open spec fn decay_on(p: SpeciesPathways) -> bool {
    p.decay_constant
}

/// No removal or decay process applies.
pub open spec fn passive(p: SpeciesPathways) -> bool {
    !dry_active(p) && !below_cloud_active(p) && !in_cloud_active(p) && !decay_on(p)
}

/// The first gas/particle inconsistency of a species named `name`.
pub open spec fn branching_problem(p: SpeciesPathways, name: Seq<char>) -> Option<Seq<char>> {
    if p.relative_diffusivity && p.particle_density {
        Some(
            "species `"@ + name
                + "` cannot be both gas (PRELDIFF > 0) and particle (PDENSITY > 0)"@,
        )
    } else if p.particle_density && !p.mean_diameter {
        Some("species `"@ + name + "` has PDENSITY > 0 but no positive PDIA"@)
    } else if p.mean_diameter && !p.diameter_sigma_above_one {
        Some("species `"@ + name + "` aerosol diameter requires PDSIGMA > 1"@)
    } else {
        None
    }
}

impl SpeciesPathways {
    /// Gas or aerosol classification from the mean diameter.
    pub fn species_kind(&self) -> (k: SpeciesKind)
        ensures
            k == kind_of(*self),
    {
        if self.mean_diameter {
            SpeciesKind::Aerosol
        } else {
            SpeciesKind::Gas
        }
    }

    /// Dry deposition is on when the relative diffusivity, the particle
    /// density or a constant deposition velocity is positive.
    pub fn dry_deposition_active(&self) -> (b: bool)
        ensures
            b == dry_active(*self),
    {
        self.relative_diffusivity || self.particle_density || self.dry_deposition_velocity
    }

    /// Below-cloud scavenging is on when a gas has a positive `A` or `B`
    /// coefficient, or an aerosol a positive rain or snow efficiency.
    pub fn below_cloud_wet_active(&self) -> (b: bool)
        ensures
            b == below_cloud_active(*self),
    {
        match self.species_kind() {
            SpeciesKind::Gas => self.wet_a_gas || self.wet_b_gas,
            SpeciesKind::Aerosol => self.crain_aero || self.csnow_aero,
        }
    }

    /// In-cloud scavenging is on for aerosols with a positive CCN or ice
    /// activation fraction.
    pub fn in_cloud_wet_active(&self) -> (b: bool)
        ensures
            b == in_cloud_active(*self),
    {
        match self.species_kind() {
            SpeciesKind::Gas => false,
            SpeciesKind::Aerosol => self.ccn_aero || self.in_aero,
        }
    }

    /// Radioactive decay is on when the decay constant is positive.
    pub fn decay_active(&self) -> (b: bool)
        ensures
            b == decay_on(*self),
    {
        self.decay_constant
    }

    /// No deposition, scavenging or decay pathway is on.
    pub fn is_passive_tracer(&self) -> (b: bool)
        ensures
            b == passive(*self),
    {
        !self.dry_deposition_active() && !self.below_cloud_wet_active()
            && !self.in_cloud_wet_active() && !self.decay_active()
    }

    /// The gas resistance deposition pathway exists when the relative
    /// diffusivity is positive.
    pub fn gas_deposition_enabled(&self) -> (b: bool)
        ensures
            b == self.relative_diffusivity,
    {
        self.relative_diffusivity
    }

    /// Gas below-cloud parameters exist for gases with below-cloud removal.
    pub fn gas_below_cloud_enabled(&self) -> (b: bool)
        ensures
            b == (kind_of(*self) == SpeciesKind::Gas && below_cloud_active(*self)),
    {
        match self.species_kind() {
            SpeciesKind::Gas => self.below_cloud_wet_active(),
            SpeciesKind::Aerosol => false,
        }
    }

    /// Aerosol below-cloud parameters exist for aerosols with below-cloud
    /// removal.
    pub fn aerosol_below_cloud_enabled(&self) -> (b: bool)
        ensures
            b == (kind_of(*self) == SpeciesKind::Aerosol && below_cloud_active(*self)),
    {
        match self.species_kind() {
            SpeciesKind::Gas => false,
            SpeciesKind::Aerosol => self.below_cloud_wet_active(),
        }
    }

    /// Aerosol in-cloud parameters exist when in-cloud removal is on.
    pub fn aerosol_in_cloud_enabled(&self) -> (b: bool)
        ensures
            b == in_cloud_active(*self),
    {
        self.in_cloud_wet_active()
    }

    /// Gas in-cloud parameters exist for gases with a positive Henry
    /// coefficient.
    pub fn gas_in_cloud_enabled(&self) -> (b: bool)
        ensures
            b == (kind_of(*self) == SpeciesKind::Gas && self.henry),
    {
        match self.species_kind() {
            SpeciesKind::Gas => self.henry,
            SpeciesKind::Aerosol => false,
        }
    }

    /// Rejects a species that is both gas and particle, a particle without a
    /// diameter, and an aerosol whose width is not above one.
    pub fn validate_gas_particle_branching(&self, name: &str) -> (r: Result<(), ConfigError>)
        ensures
            match r {
                Ok(()) => branching_problem(*self, name@) is None,
                Err(e) => branching_problem(*self, name@) matches Some(m) && e@
                    == ConfigErrorModel::Validation(m),
            },
    {
        if self.relative_diffusivity && self.particle_density {
            let mut message = String::from_str("species `");
            message.append(name);
            message.append("` cannot be both gas (PRELDIFF > 0) and particle (PDENSITY > 0)");
            return Err(ConfigError::Validation { message });
        }
        if self.particle_density && !self.mean_diameter {
            let mut message = String::from_str("species `");
            message.append(name);
            message.append("` has PDENSITY > 0 but no positive PDIA");
            return Err(ConfigError::Validation { message });
        }
        if self.mean_diameter && !self.diameter_sigma_above_one {
            let mut message = String::from_str("species `");
            message.append(name);
            message.append("` aerosol diameter requires PDSIGMA > 1");
            return Err(ConfigError::Validation { message });
        }
        Ok(())
    }
}

// ---------------------------------------------------------------------------
// Laws
// ---------------------------------------------------------------------------

/// A passive tracer takes part in no deposition or scavenging pathway: it has
/// no gas deposition input and no below-cloud or aerosol in-cloud parameters.
pub proof fn lemma_passive_tracer_has_no_pathways(p: SpeciesPathways)
    requires
        passive(p),
    ensures
        !p.relative_diffusivity,
        !(kind_of(p) == SpeciesKind::Gas && below_cloud_active(p)),
        !(kind_of(p) == SpeciesKind::Aerosol && below_cloud_active(p)),
        !in_cloud_active(p),
        !decay_on(p),
{
}

/// Gas and aerosol parameter sets exclude each other: no species gets both
/// gas and aerosol below-cloud parameters, nor both gas and aerosol in-cloud
/// parameters.
pub proof fn lemma_gas_and_aerosol_pathways_exclusive(p: SpeciesPathways)
    ensures
        !(kind_of(p) == SpeciesKind::Gas && below_cloud_active(p) && kind_of(p)
            == SpeciesKind::Aerosol),
        in_cloud_active(p) ==> kind_of(p) == SpeciesKind::Aerosol,
        !(in_cloud_active(p) && kind_of(p) == SpeciesKind::Gas && p.henry),
{
}

/// A species that passes the branching check is not both gas and particle,
/// has a diameter when it has a particle density, and has a width above one
/// when it is an aerosol.
pub proof fn lemma_accepted_branching_is_consistent(p: SpeciesPathways, name: Seq<char>)
    requires
        branching_problem(p, name) is None,
    ensures
        !(p.relative_diffusivity && p.particle_density),
        p.particle_density ==> kind_of(p) == SpeciesKind::Aerosol,
        kind_of(p) == SpeciesKind::Aerosol ==> p.diameter_sigma_above_one,
{
}

/// Each of the three dry-deposition parameters switches dry deposition on by
/// itself: a species with a relative diffusivity, a particle density or a
/// constant deposition velocity deposits dry, and so is no passive tracer.
pub proof fn lemma_any_dry_parameter_makes_dry_deposition_active(p: SpeciesPathways)
    requires
        p.relative_diffusivity || p.particle_density || p.dry_deposition_velocity,
    ensures
        dry_active(p),
        !passive(p),
{
}

} // verus!
