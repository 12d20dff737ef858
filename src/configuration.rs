//! Tunable constants of the simulation, grouped by building kind.
use vstd::prelude::*;

verus! {

/// Size of the playing table, in cells.
#[derive(Clone, Copy, Debug)]
pub struct GameConfiguration {
    pub width_table: usize,
    pub depth_table: usize,
}

/// Name and construction time shared by every building kind.
#[derive(Clone, Copy, Debug)]
pub struct CommonBuildingConfiguration {
    pub building_name: &'static str,
    pub time_for_building: u8,
}

/// A desirability source that a building kind places around itself.
#[derive(Clone, Copy, Debug)]
pub struct SourcePalatabilityConfiguration {
    pub value: i32,
    pub max_horizontal_distribution_distance: u32,
    pub max_linear_distribution_distance: u32,
    pub linear_factor: i32,
}

/// The desirability a building kind adds for houses and for offices.
#[derive(Clone, Copy, Debug)]
pub struct PalatabilityConfiguration {
    pub source_for_house: Option<SourcePalatabilityConfiguration>,
    pub source_for_office: Option<SourcePalatabilityConfiguration>,
}

/// Energy each occupant of a building needs.
#[derive(Clone, Copy, Debug)]
pub struct PowerConsumerConfiguration {
    pub consume_wh: u32,
}

/// Energy a power plant provides.
#[derive(Clone, Copy, Debug)]
pub struct PowerSourceConfiguration {
    pub capacity_wh: u32,
}

#[derive(Clone, Copy, Debug)]
pub struct HouseConfiguration {
    pub max_residents: u32,
    pub max_inhabitant_per_travel: u32,
    pub common: CommonBuildingConfiguration,
    pub palatability_configuration: PalatabilityConfiguration,
    pub power_consumer_configuration: PowerConsumerConfiguration,
}

#[derive(Clone, Copy, Debug)]
pub struct OfficeConfiguration {
    pub max_worker: u32,
    pub common: CommonBuildingConfiguration,
    pub palatability_configuration: PalatabilityConfiguration,
    pub power_consumer_configuration: PowerConsumerConfiguration,
}

#[derive(Clone, Copy, Debug)]
pub struct GardenConfiguration {
    pub common: CommonBuildingConfiguration,
    pub palatability_configuration: PalatabilityConfiguration,
}

#[derive(Clone, Copy, Debug)]
pub struct StreetConfiguration {
    pub common: CommonBuildingConfiguration,
    pub palatability_configuration: PalatabilityConfiguration,
}

#[derive(Clone, Copy, Debug)]
pub struct BiomassPowerPlantConfiguration {
    pub common: CommonBuildingConfiguration,
    pub palatability_configuration: PalatabilityConfiguration,
    pub power_source: PowerSourceConfiguration,
}

/// The constants of every building kind.
#[derive(Clone, Copy, Debug)]
pub struct BuildingsConfiguration {
    pub house: HouseConfiguration,
    pub office: OfficeConfiguration,
    pub garden: GardenConfiguration,
    pub street: StreetConfiguration,
    pub biomass_power_plant: BiomassPowerPlantConfiguration,
}

impl Default for GameConfiguration {
    fn default() -> (r: Self)
        ensures
            r.width_table == 32,
            r.depth_table == 32,
    {
        GameConfiguration { width_table: 32, depth_table: 32 }
    }
}

impl Default for BuildingsConfiguration {
    /// The standard game: houses for 8 residents needing 300 Wh each, offices
    /// for 6 workers needing 2000 Wh each, power plants of 7 000 000 Wh, and
    /// gardens that make their surroundings more desirable.
    fn default() -> (r: Self)
        ensures
            r.house.max_residents == 8,
            r.house.power_consumer_configuration.consume_wh == 300,
            r.house.common.time_for_building == 10,
            r.office.max_worker == 6,
            r.office.power_consumer_configuration.consume_wh == 2000,
            r.office.common.time_for_building == 5,
            r.garden.common.time_for_building == 2,
            r.street.common.time_for_building == 2,
            r.biomass_power_plant.common.time_for_building == 10,
            r.biomass_power_plant.power_source.capacity_wh == 7_000_000,
    {
        let garden_source = SourcePalatabilityConfiguration {
            value: 10,
            max_horizontal_distribution_distance: 3,
            max_linear_distribution_distance: 10,
            linear_factor: 2,
        };
        BuildingsConfiguration {
            house: HouseConfiguration {
                max_residents: 8,
                max_inhabitant_per_travel: 6,
                common: CommonBuildingConfiguration { building_name: "house", time_for_building: 10 },
                palatability_configuration: PalatabilityConfiguration {
                    source_for_house: Some(
                        SourcePalatabilityConfiguration {
                            value: -1,
                            max_horizontal_distribution_distance: 2,
                            max_linear_distribution_distance: 1,
                            linear_factor: 0,
                        },
                    ),
                    source_for_office: None,
                },
                power_consumer_configuration: PowerConsumerConfiguration { consume_wh: 300 },
            },
            office: OfficeConfiguration {
                max_worker: 6,
                common: CommonBuildingConfiguration { building_name: "office", time_for_building: 5 },
                palatability_configuration: PalatabilityConfiguration {
                    source_for_house: None,
                    source_for_office: Some(
                        SourcePalatabilityConfiguration {
                            value: 1,
                            max_horizontal_distribution_distance: 3,
                            max_linear_distribution_distance: 0,
                            linear_factor: 0,
                        },
                    ),
                },
                power_consumer_configuration: PowerConsumerConfiguration { consume_wh: 2000 },
            },
            garden: GardenConfiguration {
                common: CommonBuildingConfiguration { building_name: "garden", time_for_building: 2 },
                palatability_configuration: PalatabilityConfiguration {
                    source_for_house: Some(garden_source),
                    source_for_office: Some(garden_source),
                },
            },
            street: StreetConfiguration {
                common: CommonBuildingConfiguration { building_name: "street", time_for_building: 2 },
                palatability_configuration: PalatabilityConfiguration { source_for_house: None, source_for_office: None },
            },
            biomass_power_plant: BiomassPowerPlantConfiguration {
                common: CommonBuildingConfiguration { building_name: "biomassPowerPlant", time_for_building: 10 },
                palatability_configuration: PalatabilityConfiguration { source_for_house: None, source_for_office: None },
                power_source: PowerSourceConfiguration { capacity_wh: 7_000_000 },
            },
        }
    }
}

} // verus!
