//! Desirability for houses and offices, with the bookkeeping of vacant homes,
//! vacant jobs and unemployed inhabitants that decides who arrives next.
use vstd::prelude::*;

use crate::buildings::{snapshot_position, BuildingSnapshot};
use crate::configuration::{BuildingsConfiguration, SourcePalatabilityConfiguration};
use crate::inhabitant::EducationLevel;
use crate::palatability::{total_at, sums_fit_i32, HouseSourcePalatabilityDescriptor, Palatability};
use crate::EntityId;

verus! {

/// An inhabitant about to arrive in the city.
#[derive(Clone, Copy, PartialEq, Eq, Structural, Debug)]
pub struct InhabitantToSpawn {
    pub education_level: EducationLevel,
}

/// The desirability at a building.
#[derive(Clone, Copy, PartialEq, Eq, Structural, Debug)]
pub struct BuildingPalatability {
    pub value: i32,
}

impl BuildingPalatability {
    /// Whether the building may progress; zero counts as acceptable.
    pub fn is_positive(&self) -> (r: bool)
        ensures
            r == (self.value >= 0),
    {
        self.value >= 0
    }
}

/// The source a building kind places for offices, if any.
pub open spec fn office_source_of(configuration: BuildingsConfiguration, building: BuildingSnapshot) -> Option<
    SourcePalatabilityConfiguration,
> {
    match building {
        BuildingSnapshot::House(_) => configuration.house.palatability_configuration.source_for_office,
        BuildingSnapshot::Office(_) => configuration.office.palatability_configuration.source_for_office,
        BuildingSnapshot::Street(_) => configuration.street.palatability_configuration.source_for_office,
        BuildingSnapshot::Garden(_) => configuration.garden.palatability_configuration.source_for_office,
        BuildingSnapshot::BiomassPowerPlant(_) => configuration.biomass_power_plant.palatability_configuration.source_for_office,
    }
}

/// A configured source placed at `origin`.
pub open spec fn placed(c: SourcePalatabilityConfiguration, origin: crate::position::Position) -> HouseSourcePalatabilityDescriptor {
    HouseSourcePalatabilityDescriptor {
        origin,
        value: c.value,
        max_horizontal_distribution_distance: c.max_horizontal_distribution_distance,
        max_linear_distribution_distance: c.max_linear_distribution_distance,
        linear_factor: c.linear_factor,
    }
}

/// `v` moved by `delta`, never below zero.
pub open spec fn moved(v: nat, delta: int) -> nat {
    if v + delta > 0 {
        (v + delta) as nat
    } else {
        0
    }
}

/// How many arrive at once: the vacant homes, at most 255.
pub open spec fn arrivals(vacant: nat) -> nat {
    if vacant < 255 {
        vacant
    } else {
        255
    }
}

/// Desirability for houses and for offices, and the vacancy counts.
pub struct PalatabilityManager {
    configuration: BuildingsConfiguration,
    total_populations: u64,
    unemployed_inhabitants: Vec<EntityId>,
    vacant_inhabitants: u64,
    vacant_work: u64,
    for_houses: Palatability,
    for_offices: Palatability,
}

impl PalatabilityManager {
    pub closed spec fn config(&self) -> BuildingsConfiguration {
        self.configuration
    }

    pub closed spec fn populations(&self) -> nat {
        self.total_populations as nat
    }

    pub closed spec fn unemployed(&self) -> Seq<EntityId> {
        self.unemployed_inhabitants@
    }

    pub closed spec fn vacant_homes(&self) -> nat {
        self.vacant_inhabitants as nat
    }

    pub closed spec fn vacant_jobs(&self) -> nat {
        self.vacant_work as nat
    }

    pub closed spec fn house_sources(&self) -> Seq<HouseSourcePalatabilityDescriptor> {
        self.for_houses.sources()
    }

    pub closed spec fn office_sources(&self) -> Seq<HouseSourcePalatabilityDescriptor> {
        self.for_offices.sources()
    }

    pub fn new(configuration: BuildingsConfiguration) -> (r: Self)
        ensures
            r.config() == configuration,
            r.populations() == 0,
            r.unemployed().len() == 0,
            r.vacant_homes() == 0,
            r.vacant_jobs() == 0,
            r.house_sources().len() == 0,
            r.office_sources().len() == 0,
    {
        PalatabilityManager {
            configuration,
            total_populations: 0,
            unemployed_inhabitants: Vec::new(),
            vacant_inhabitants: 0,
            vacant_work: 0,
            for_houses: Palatability::new(),
            for_offices: Palatability::new(),
        }
    }

    /// Place the sources that the configuration gives to the kind of
    /// `source`, one for houses and one for offices where configured.
    pub fn add_palatability_source(&mut self, source: &BuildingSnapshot)
        ensures
            final(self).config() == old(self).config(),
            final(self).populations() == old(self).populations(),
            final(self).unemployed() == old(self).unemployed(),
            final(self).vacant_homes() == old(self).vacant_homes(),
            final(self).vacant_jobs() == old(self).vacant_jobs(),
            final(self).house_sources() == match crate::palatability::house_source_of(old(self).config(), *source) {
                Some(c) => old(self).house_sources().push(placed(c, snapshot_position(*source))),
                None => old(self).house_sources(),
            },
            final(self).office_sources() == match office_source_of(old(self).config(), *source) {
                Some(c) => old(self).office_sources().push(placed(c, snapshot_position(*source))),
                None => old(self).office_sources(),
            },
    {
        self.for_houses.add_building_source(&self.configuration, source);
        let office = match source {
            BuildingSnapshot::House(_) => self.configuration.house.palatability_configuration.source_for_office,
            BuildingSnapshot::Office(_) => self.configuration.office.palatability_configuration.source_for_office,
            BuildingSnapshot::Street(_) => self.configuration.street.palatability_configuration.source_for_office,
            BuildingSnapshot::Garden(_) => self.configuration.garden.palatability_configuration.source_for_office,
            BuildingSnapshot::BiomassPowerPlant(_) => self.configuration.biomass_power_plant.palatability_configuration.source_for_office,
        };
        match office {
            Some(c) => {
                self.for_offices.add_house_source(
                    HouseSourcePalatabilityDescriptor {
                        origin: *source.get_position(),
                        value: c.value,
                        max_horizontal_distribution_distance: c.max_horizontal_distribution_distance,
                        max_linear_distribution_distance: c.max_linear_distribution_distance,
                        linear_factor: c.linear_factor,
                    },
                );
            },
            None => {},
        }
    }

    /// The desirability at a building: the house sources for a house, the
    /// office sources for an office, zero for any other building. `None`
    /// when a running sum of the contributions leaves the `i32` range.
    pub fn get_palatability(&self, building: &BuildingSnapshot) -> (r: Option<BuildingPalatability>)
        ensures
            building matches BuildingSnapshot::House(_) ==> (r is Some <==> sums_fit_i32(
                self.house_sources(),
                snapshot_position(*building),
            )) && (r matches Some(p) ==> p.value == total_at(self.house_sources(), snapshot_position(*building))),
            building matches BuildingSnapshot::Office(_) ==> (r is Some <==> sums_fit_i32(
                self.office_sources(),
                snapshot_position(*building),
            )) && (r matches Some(p) ==> p.value == total_at(self.office_sources(), snapshot_position(*building))),
            !(building matches BuildingSnapshot::House(_)) && !(building matches BuildingSnapshot::Office(_)) ==> r == Some(
                BuildingPalatability { value: 0 },
            ),
    {
        let position = *building.get_position();
        let found = match building {
            BuildingSnapshot::House(_) => self.for_houses.checked_house_palatability(&position),
            BuildingSnapshot::Office(_) => self.for_offices.checked_house_palatability(&position),
            _ => {
                return Some(BuildingPalatability { value: 0 });
            },
        };
        match found {
            Some(p) => Some(BuildingPalatability { value: p.value() }),
            None => None,
        }
    }

    pub fn add_unemployed_inhabitants(&mut self, inhabitants: Vec<EntityId>)
        ensures
            final(self).unemployed() == old(self).unemployed() + inhabitants@,
            final(self).config() == old(self).config(),
            final(self).populations() == old(self).populations(),
            final(self).vacant_homes() == old(self).vacant_homes(),
            final(self).vacant_jobs() == old(self).vacant_jobs(),
            final(self).house_sources() == old(self).house_sources(),
            final(self).office_sources() == old(self).office_sources(),
    {
        let mut more = inhabitants;
        self.unemployed_inhabitants.append(&mut more);
    }

    /// Change the vacant jobs by `delta`, never below zero.
    pub fn increment_vacant_work(&mut self, delta: i32)
        requires
            old(self).vacant_jobs() + delta <= u64::MAX,
        ensures
            final(self).vacant_jobs() == moved(old(self).vacant_jobs(), delta as int),
            final(self).config() == old(self).config(),
            final(self).populations() == old(self).populations(),
            final(self).unemployed() == old(self).unemployed(),
            final(self).vacant_homes() == old(self).vacant_homes(),
            final(self).house_sources() == old(self).house_sources(),
            final(self).office_sources() == old(self).office_sources(),
    {
        let next: i128 = self.vacant_work as i128 + delta as i128;
        self.vacant_work = if next > 0 { next as u64 } else { 0 };
    }

    /// Change the vacant homes by `delta`, never below zero.
    pub fn increment_vacant_inhabitants(&mut self, delta: i32)
        requires
            old(self).vacant_homes() + delta <= u64::MAX,
        ensures
            final(self).vacant_homes() == moved(old(self).vacant_homes(), delta as int),
            final(self).config() == old(self).config(),
            final(self).populations() == old(self).populations(),
            final(self).unemployed() == old(self).unemployed(),
            final(self).vacant_jobs() == old(self).vacant_jobs(),
            final(self).house_sources() == old(self).house_sources(),
            final(self).office_sources() == old(self).office_sources(),
    {
        let next: i128 = self.vacant_inhabitants as i128 + delta as i128;
        self.vacant_inhabitants = if next > 0 { next as u64 } else { 0 };
    }

    /// Newcomers for the vacant homes, at most 255 at once: they leave the
    /// vacancies and join the population.
    pub fn consume_inhabitants_to_spawn_and_increment_populations(&mut self) -> (r: Vec<InhabitantToSpawn>)
        requires
            old(self).populations() + arrivals(old(self).vacant_homes()) <= u64::MAX,
        ensures
            r@.len() == arrivals(old(self).vacant_homes()),
            forall|k: int| 0 <= k < r@.len() ==> #[trigger] r@[k] == (InhabitantToSpawn { education_level: EducationLevel::Unschooled }),
            final(self).vacant_homes() == old(self).vacant_homes() - arrivals(old(self).vacant_homes()),
            final(self).populations() == old(self).populations() + arrivals(old(self).vacant_homes()),
            final(self).config() == old(self).config(),
            final(self).unemployed() == old(self).unemployed(),
            final(self).vacant_jobs() == old(self).vacant_jobs(),
            final(self).house_sources() == old(self).house_sources(),
            final(self).office_sources() == old(self).office_sources(),
    {
        let c: u8 = if self.vacant_inhabitants < 255 { self.vacant_inhabitants as u8 } else { 255 };
        self.vacant_inhabitants = self.vacant_inhabitants - c as u64;
        self.total_populations = self.total_populations + c as u64;
        let education_level = EducationLevel::Unschooled;
        let mut r: Vec<InhabitantToSpawn> = Vec::new();
        let mut k: u8 = 0;
        while k < c
            invariant
                k <= c,
                education_level == EducationLevel::Unschooled,
                r@.len() == k,
                forall|m: int| 0 <= m < r@.len() ==> #[trigger] r@[m] == (InhabitantToSpawn { education_level: EducationLevel::Unschooled }),
            decreases c - k,
        {
            r.push(InhabitantToSpawn { education_level });
            k = k + 1;
        }
        r
    }

    /// The next unemployed inhabitant to send to work, when a job is vacant.
    pub fn consume_workers_to_spawn(&mut self) -> (r: Vec<EntityId>)
        ensures
            old(self).vacant_jobs() == 0 || old(self).unemployed().len() == 0 ==> r@.len() == 0 && final(self).unemployed()
                == old(self).unemployed(),
            old(self).vacant_jobs() > 0 && old(self).unemployed().len() > 0 ==> r@ == seq![old(self).unemployed()[0]]
                && final(self).unemployed() == old(self).unemployed().subrange(1, old(self).unemployed().len() as int),
            final(self).config() == old(self).config(),
            final(self).populations() == old(self).populations(),
            final(self).vacant_homes() == old(self).vacant_homes(),
            final(self).vacant_jobs() == old(self).vacant_jobs(),
            final(self).house_sources() == old(self).house_sources(),
            final(self).office_sources() == old(self).office_sources(),
    {
        if self.vacant_work == 0 || self.unemployed_inhabitants.len() == 0 {
            return Vec::new();
        }
        let first = self.unemployed_inhabitants.remove(0);
        let mut r: Vec<EntityId> = Vec::new();
        r.push(first);
        proof {
            assert(r@ =~= seq![old(self).unemployed()[0]]);
            assert(self.unemployed_inhabitants@ =~= old(self).unemployed().subrange(1, old(self).unemployed().len() as int));
        }
        r
    }

    pub fn total_populations(&self) -> (r: u64)
        ensures
            r == self.populations(),
    {
        self.total_populations
    }

    pub fn unemployed_inhabitants(&self) -> (r: Vec<EntityId>)
        ensures
            r@ == self.unemployed(),
    {
        let mut r: Vec<EntityId> = Vec::new();
        let mut k: usize = 0;
        while k < self.unemployed_inhabitants.len()
            invariant
                k <= self.unemployed_inhabitants@.len(),
                r@ == self.unemployed_inhabitants@.subrange(0, k as int),
            decreases self.unemployed_inhabitants@.len() - k,
        {
            r.push(self.unemployed_inhabitants[k]);
            k = k + 1;
            assert(r@ =~= self.unemployed_inhabitants@.subrange(0, k as int));
        }
        assert(r@ =~= self.unemployed_inhabitants@);
        r
    }

    pub fn vacant_work(&self) -> (r: u64)
        ensures
            r == self.vacant_jobs(),
    {
        self.vacant_work
    }

    pub fn vacant_inhabitants(&self) -> (r: u64)
        ensures
            r == self.vacant_homes(),
    {
        self.vacant_inhabitants
    }
}

} // verus!
