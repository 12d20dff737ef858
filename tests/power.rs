use std::collections::HashMap;

use citysim::buildings::{BiomassPowerPlantSnapshot, BuildingSnapshot, HouseSnapshot, OfficeSnapshot};
use citysim::configuration::BuildingsConfiguration;
use citysim::position::Position;
use citysim::power::PowerManager;

fn consumer_changes(manager_changes: &citysim::power::ChangePowerAssignment) -> HashMap<u64, (u32, u32)> {
    manager_changes.consumers().iter().cloned().collect()
}

fn producer_changes(manager_changes: &citysim::power::ChangePowerAssignment) -> HashMap<u64, u32> {
    manager_changes.producers().iter().cloned().collect()
}

#[test]
fn test_dedicate_power_to_consumer() {
    let mut manager = PowerManager::new(BuildingsConfiguration::default());

    let house1 = 0_u64;
    let position = Position { x: 0, y: 0 };
    let building = &BuildingSnapshot::House(HouseSnapshot {
        id: house1,
        position,
        current_residents: 16,
        max_residents: 16,
    });
    manager.register_power_consumer(building);

    let house2 = 1_u64;
    let position = Position { x: 1, y: 0 };
    let building = &BuildingSnapshot::House(HouseSnapshot {
        id: house2,
        position,
        current_residents: 8,
        max_residents: 16,
    });
    manager.register_power_consumer(building);

    let office1 = 2_u64;
    let position = Position { x: 2, y: 0 };
    let building = &BuildingSnapshot::Office(OfficeSnapshot {
        id: office1,
        position,
        current_workers: 10,
        max_workers: 16,
    });
    manager.register_power_consumer(building);

    let change_assignment = manager.dedicate_power_to_consumers();

    assert_eq!(HashMap::new(), consumer_changes(&change_assignment));
    assert_eq!(HashMap::new(), producer_changes(&change_assignment));

    let biomass_power1 = 3_u64;
    let position = Position { x: 3, y: 0 };
    let building = &BuildingSnapshot::BiomassPowerPlant(BiomassPowerPlantSnapshot {
        id: biomass_power1,
        position,
    });
    manager.register_power_source(building);

    let change_assignment = manager.dedicate_power_to_consumers();

    let covered = |id: u64| manager.get_consumer(&id).unwrap().covered;
    assert_eq!(
        HashMap::from([
            (house1, (covered(house1), 0)),
            (house2, (covered(house2), 0)),
            (office1, (covered(office1), 0))
        ]),
        consumer_changes(&change_assignment)
    );
    assert_eq!(
        HashMap::from([(biomass_power1, covered(house1) + covered(house2) + covered(office1))]),
        producer_changes(&change_assignment)
    );

    let change_assignment = manager.dedicate_power_to_consumers();
    assert_eq!(HashMap::from([]), consumer_changes(&change_assignment));
    assert_eq!(HashMap::from([]), producer_changes(&change_assignment));

    assert_eq!((0, true), manager.is_completely_covered(&house1));
    assert_eq!((0, true), manager.is_completely_covered(&house2));
    assert_eq!((0, true), manager.is_completely_covered(&office1));
    assert_eq!((0, true), manager.is_completely_covered(&biomass_power1));
}

#[test]
fn test_dedicate_power_to_consumer_insufficient_power() {
    let configuration = BuildingsConfiguration::default();
    let mut manager = PowerManager::new(configuration);

    let entity_id = 0_u64;
    let position = Position { x: 3, y: 0 };
    let building = &BuildingSnapshot::BiomassPowerPlant(BiomassPowerPlantSnapshot {
        id: entity_id,
        position,
    });
    manager.register_power_source(building);

    let max_residents = configuration.house.max_residents;

    let mut i = 0;
    let mut changes;
    loop {
        i += 1;

        let house = i;
        let position = Position { x: 0, y: 0 };
        let building = &BuildingSnapshot::House(HouseSnapshot {
            id: house,
            position,
            current_residents: max_residents,
            max_residents,
        });
        manager.register_power_consumer(building);

        changes = manager.dedicate_power_to_consumers();

        if changes.consumers().is_empty() {
            break;
        }
    }

    let missing_power = manager.calculate_missing_power_energy();
    assert_eq!(missing_power, 2400);

    let house = i + 1;
    let position = Position { x: 0, y: 0 };
    let building = &BuildingSnapshot::House(HouseSnapshot {
        id: house,
        position,
        current_residents: max_residents,
        max_residents,
    });
    manager.register_power_consumer(building);

    changes = manager.dedicate_power_to_consumers();
    assert_eq!(true, changes.consumers().is_empty());
    assert_eq!(true, changes.producers().is_empty());

    let missing_power = manager.calculate_missing_power_energy();
    assert_eq!(missing_power, 2400 + manager.get_consumer(&house).unwrap().requested());
}

#[test]
fn scenario_one_plant_covers_one_consumer() {
    let mut manager = PowerManager::new(BuildingsConfiguration::default());
    manager.register_producer(1, Position { x: 0, y: 0 }, 7_000_000);
    manager.register_consumer(2, Position { x: 1, y: 0 }, 2_400, 0, 0);
    let changes = manager.dedicate_power_to_consumers();
    assert_eq!(changes.consumers(), &vec![(2, (2_400, 0))]);
    assert_eq!(changes.producers(), &vec![(1, 2_400)]);
    assert_eq!(manager.calculate_missing_power_energy(), 0);
    assert_eq!(manager.is_completely_covered(&2), (0, true));
}

#[test]
fn linked_producers_are_drained_before_a_new_one_is_taken() {
    let mut manager = PowerManager::new(BuildingsConfiguration::default());
    manager.register_producer(10, Position { x: 0, y: 0 }, 1_000);
    manager.register_consumer(1, Position { x: 1, y: 0 }, 0, 100, 6);
    let first = manager.dedicate_power_to_consumers();
    assert_eq!(first.consumers(), &vec![(1, (600, 0))]);

    // more occupants: the linked producer gives what it has left, the rest
    // must come from a producer able to cover it alone
    manager.register_new_inhabitants_at_home(1, 6);
    assert_eq!(manager.is_completely_covered(&1), (600, false));
    let second = manager.dedicate_power_to_consumers();
    assert_eq!(second.consumers(), &vec![(1, (400, 200))]);
    assert_eq!(second.producers(), &vec![(10, 400)]);
    assert_eq!(manager.calculate_missing_power_energy(), 200);

    manager.register_producer(11, Position { x: 2, y: 0 }, 150);
    let third = manager.dedicate_power_to_consumers();
    assert!(third.consumers().is_empty());
    assert_eq!(manager.calculate_missing_power_energy(), 200);

    manager.register_producer(12, Position { x: 3, y: 0 }, 250);
    let fourth = manager.dedicate_power_to_consumers();
    assert_eq!(fourth.consumers(), &vec![(1, (200, 0))]);
    assert_eq!(fourth.producers(), &vec![(12, 200)]);
    assert_eq!(manager.calculate_missing_power_energy(), 0);
    assert_eq!(manager.is_completely_covered(&1), (0, true));
}

#[test]
fn coverage_never_exceeds_request_and_draws_never_exceed_capacity() {
    let mut manager = PowerManager::new(BuildingsConfiguration::default());
    manager.register_producer(100, Position { x: 0, y: 0 }, 1_000);
    manager.register_producer(101, Position { x: 0, y: 1 }, 500);
    let mut drawn = 0_u32;
    for id in 0..6_u64 {
        manager.register_consumer(id, Position { x: 1, y: id as i64 }, 50, 100, 3);
        let changes = manager.dedicate_power_to_consumers();
        drawn += changes.producers().iter().map(|p| p.1).sum::<u32>();
    }
    assert!(drawn <= 1_500);
    let mut covered = 0_u32;
    for id in 0..6_u64 {
        let c = manager.get_consumer(&id).unwrap();
        assert!(c.covered <= c.requested());
        let (missing, full) = manager.is_completely_covered(&id);
        assert_eq!(c.covered + missing, c.requested());
        assert_eq!(full, missing == 0);
        covered += c.covered;
    }
    assert_eq!(covered, drawn);
    assert_eq!(manager.calculate_missing_power_energy(), 6 * 350 - covered);
}

#[test]
fn unknown_building_is_not_covered() {
    let manager = PowerManager::new(BuildingsConfiguration::default());
    assert_eq!(manager.is_completely_covered(&9), (0, false));
    assert_eq!(manager.calculate_missing_power_energy(), 0);
}
