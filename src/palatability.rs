//! The desirability field: point sources whose influence fades with the
//! distance, summed at the queried cell.
use vstd::prelude::*;

use crate::buildings::{snapshot_position, BuildingSnapshot};
use crate::configuration::{BuildingsConfiguration, SourcePalatabilityConfiguration};
use crate::position::{manhattan, Position};
use crate::sums::{lemma_sum_prefix, seq_sum};

verus! {

/// A point source of desirability.
#[derive(Clone, Copy, Debug)]
pub struct HouseSourcePalatabilityDescriptor {
    pub origin: Position,
    pub value: i32,
    /// Up to this distance (excluded) the full value applies.
    pub max_horizontal_distribution_distance: u32,
    /// From the inner radius up to this distance (excluded) the value decays
    /// linearly; beyond it the source has no effect.
    pub max_linear_distribution_distance: u32,
    /// How much the value loses per cell beyond the inner radius.
    pub linear_factor: i32,
}

/// What a source contributes at a cell: the full value inside the inner
/// radius, a linear decay that never crosses zero up to the outer radius,
/// and nothing beyond.
pub open spec fn contribution(s: HouseSourcePalatabilityDescriptor, p: Position) -> int {
    let d = manhattan(s.origin, p) as int;
    if d < s.max_horizontal_distribution_distance {
        s.value as int
    } else if d < s.max_linear_distribution_distance {
        let v = s.value - s.linear_factor * (d - s.max_horizontal_distribution_distance);
        if s.value > 0 {
            if v > 0 { v } else { 0 }
        } else {
            if v < 0 { v } else { 0 }
        }
    } else {
        0
    }
}

/// The sum of the contributions of `sources` at `p`.
pub open spec fn total_at(sources: Seq<HouseSourcePalatabilityDescriptor>, p: Position) -> int {
    seq_sum(sources, |s: HouseSourcePalatabilityDescriptor| contribution(s, p))
}

/// Every running sum of the contributions at `p`, in the order of the
/// sources, fits in an `i32`.
pub open spec fn sums_fit_i32(sources: Seq<HouseSourcePalatabilityDescriptor>, p: Position) -> bool {
    forall|n: int| 0 <= n <= sources.len() ==> i32::MIN <= #[trigger] total_at(sources.subrange(0, n), p) <= i32::MAX
}

impl HouseSourcePalatabilityDescriptor {
    /// The contribution of this source at `position`, computed exactly.
    pub fn calculate(&self, position: &Position) -> (r: i128)
        ensures
            r == contribution(*self, *position),
            -0x1_0000_0000_0000_0000 <= r <= 0x1_0000_0000_0000_0000,
    {
        let distance: u128 = self.origin.manhattan_to(position);
        if distance < self.max_horizontal_distribution_distance as u128 {
            return self.value as i128;
        }
        if distance < self.max_linear_distribution_distance as u128 {
            let d: i128 = (distance - self.max_horizontal_distribution_distance as u128) as i128;
            let f: i128 = self.linear_factor as i128;
            assert(-0x8000_0000 <= f <= 0x7fff_ffff && 0 <= d < 0x1_0000_0000 ==> -0x8000_0000_0000_0000 <= f * d
                <= 0x8000_0000_0000_0000) by (nonlinear_arith);
            let value: i128 = self.value as i128 - f * d;
            if self.value > 0 {
                return if value > 0 { value } else { 0 };
            } else {
                return if value < 0 { value } else { 0 };
            }
        }
        0
    }
}

/// Desirability depends on the distance alone: swapping the origin of a
/// source and the queried cell leaves its contribution unchanged, and from
/// the outer radius on the contribution is exactly zero, unless the inner
/// radius reaches further than the outer one.
pub proof fn lemma_contribution_by_distance(s: HouseSourcePalatabilityDescriptor, p: Position)
    ensures
        contribution(s, p) == contribution(HouseSourcePalatabilityDescriptor { origin: p, ..s }, s.origin),
        manhattan(s.origin, p) >= s.max_linear_distribution_distance && manhattan(s.origin, p)
            >= s.max_horizontal_distribution_distance ==> contribution(s, p) == 0,
{
}

/// The source for houses that a building of this kind places, if any.
pub open spec fn house_source_of(configuration: BuildingsConfiguration, building: BuildingSnapshot) -> Option<
    SourcePalatabilityConfiguration,
> {
    match building {
        BuildingSnapshot::House(_) => configuration.house.palatability_configuration.source_for_house,
        BuildingSnapshot::Office(_) => configuration.office.palatability_configuration.source_for_house,
        BuildingSnapshot::Street(_) => configuration.street.palatability_configuration.source_for_house,
        BuildingSnapshot::Garden(_) => configuration.garden.palatability_configuration.source_for_house,
        BuildingSnapshot::BiomassPowerPlant(_) => configuration.biomass_power_plant.palatability_configuration.source_for_house,
    }
}

/// The desirability measured at a cell.
pub struct HousePalatability {
    value: i32,
}

impl HousePalatability {
    pub closed spec fn spec_value(&self) -> int {
        self.value as int
    }

    pub fn new(value: i32) -> (r: Self)
        ensures
            r.spec_value() == value,
    {
        HousePalatability { value }
    }

    pub fn value(&self) -> (r: i32)
        ensures
            r == self.spec_value(),
    {
        self.value
    }

    /// Whether a building may progress here; zero counts as acceptable.
    pub fn is_positive(&self) -> (r: bool)
        ensures
            r == (self.spec_value() >= 0),
    {
        self.value >= 0
    }
}

/// The desirability sources placed so far, and the population count.
pub struct Palatability {
    total_populations: u64,
    houses_sources: Vec<HouseSourcePalatabilityDescriptor>,
}

impl Palatability {
    pub closed spec fn sources(&self) -> Seq<HouseSourcePalatabilityDescriptor> {
        self.houses_sources@
    }

    pub closed spec fn populations(&self) -> nat {
        self.total_populations as nat
    }

    pub fn new() -> (r: Self)
        ensures
            r.sources() == Seq::<HouseSourcePalatabilityDescriptor>::empty(),
            r.populations() == 0,
    {
        Palatability { total_populations: 0, houses_sources: Vec::new() }
    }

    pub fn add_house_source(&mut self, source: HouseSourcePalatabilityDescriptor)
        ensures
            final(self).sources() == old(self).sources().push(source),
            final(self).populations() == old(self).populations(),
    {
        self.houses_sources.push(source);
    }

    /// Place the source for houses that the configuration gives to the kind
    /// of `building`, centred on it; kinds without one add nothing.
    pub fn add_building_source(&mut self, configuration: &BuildingsConfiguration, building: &BuildingSnapshot)
        ensures
            final(self).populations() == old(self).populations(),
            final(self).sources() == match house_source_of(*configuration, *building) {
                Some(c) => old(self).sources().push(
                    HouseSourcePalatabilityDescriptor {
                        origin: snapshot_position(*building),
                        value: c.value,
                        max_horizontal_distribution_distance: c.max_horizontal_distribution_distance,
                        max_linear_distribution_distance: c.max_linear_distribution_distance,
                        linear_factor: c.linear_factor,
                    },
                ),
                None => old(self).sources(),
            },
    {
        let source = match building {
            BuildingSnapshot::House(_) => configuration.house.palatability_configuration.source_for_house,
            BuildingSnapshot::Office(_) => configuration.office.palatability_configuration.source_for_house,
            BuildingSnapshot::Street(_) => configuration.street.palatability_configuration.source_for_house,
            BuildingSnapshot::Garden(_) => configuration.garden.palatability_configuration.source_for_house,
            BuildingSnapshot::BiomassPowerPlant(_) => configuration.biomass_power_plant.palatability_configuration.source_for_house,
        };
        match source {
            Some(c) => {
                self.add_house_source(
                    HouseSourcePalatabilityDescriptor {
                        origin: *building.get_position(),
                        value: c.value,
                        max_horizontal_distribution_distance: c.max_horizontal_distribution_distance,
                        max_linear_distribution_distance: c.max_linear_distribution_distance,
                        linear_factor: c.linear_factor,
                    },
                );
            },
            None => {},
        }
    }

    /// The sum of the contributions at `position`, or `None` when a running
    /// sum of them leaves the `i32` range.
    pub fn checked_house_palatability(&self, position: &Position) -> (r: Option<HousePalatability>)
        ensures
            r is Some <==> sums_fit_i32(self.sources(), *position),
            r matches Some(h) ==> h.spec_value() == total_at(self.sources(), *position),
    {
        let mut total: i128 = 0;
        let mut i: usize = 0;
        proof {
            assert(self.houses_sources@.subrange(0, 0) =~= Seq::<HouseSourcePalatabilityDescriptor>::empty());
        }
        while i < self.houses_sources.len()
            invariant
                i <= self.houses_sources@.len(),
                total == total_at(self.houses_sources@.subrange(0, i as int), *position),
                forall|n: int| 0 <= n <= i ==> i32::MIN <= #[trigger] total_at(self.houses_sources@.subrange(0, n), *position) <= i32::MAX,
            decreases self.houses_sources@.len() - i,
        {
            let c = self.houses_sources[i].calculate(position);
            proof {
                lemma_sum_prefix(
                    self.houses_sources@,
                    |s: HouseSourcePalatabilityDescriptor| contribution(s, *position),
                    i as int,
                );
            }
            total = total + c;
            if total < i32::MIN as i128 || total > i32::MAX as i128 {
                assert(!(i32::MIN <= total_at(self.houses_sources@.subrange(0, i + 1), *position) <= i32::MAX));
                return None;
            }
            i = i + 1;
        }
        assert(self.houses_sources@.subrange(0, i as int) =~= self.houses_sources@);
        Some(HousePalatability { value: total as i32 })
    }

    /// The sum of the contributions of every source at `position`.
    pub fn get_house_palatability(&self, position: &Position) -> (r: HousePalatability)
        requires
            sums_fit_i32(self.sources(), *position),
        ensures
            r.spec_value() == total_at(self.sources(), *position),
    {
        let mut total: i128 = 0;
        let mut i: usize = 0;
        while i < self.houses_sources.len()
            invariant
                i <= self.houses_sources@.len(),
                sums_fit_i32(self.sources(), *position),
                total == total_at(self.houses_sources@.subrange(0, i as int), *position),
            decreases self.houses_sources@.len() - i,
        {
            let c = self.houses_sources[i].calculate(position);
            proof {
                lemma_sum_prefix(
                    self.houses_sources@,
                    |s: HouseSourcePalatabilityDescriptor| contribution(s, *position),
                    i as int,
                );
                assert(i32::MIN <= total_at(self.houses_sources@.subrange(0, i + 1), *position) <= i32::MAX);
            }
            total = total + c;
            i = i + 1;
        }
        assert(self.houses_sources@.subrange(0, i as int) =~= self.houses_sources@);
        assert(i32::MIN <= total_at(self.houses_sources@.subrange(0, i as int), *position) <= i32::MAX);
        HousePalatability { value: total as i32 }
    }

    /// Change the population by `delta`, never below zero.
    pub fn increment_populations(&mut self, delta: i32)
        requires
            old(self).populations() + delta <= u64::MAX,
        ensures
            final(self).populations() == if old(self).populations() + delta > 0 {
                old(self).populations() + delta
            } else {
                0
            },
            final(self).sources() == old(self).sources(),
    {
        let next: i128 = self.total_populations as i128 + delta as i128;
        self.total_populations = if next > 0 { next as u64 } else { 0 };
    }

    pub fn total_populations(&self) -> (r: u64)
        ensures
            r == self.populations(),
    {
        self.total_populations
    }
}

} // verus!
