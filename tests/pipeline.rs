use citysim::buildings::{BiomassPowerPlantSnapshot, BuildingSnapshot, HouseSnapshot, OfficeSnapshot, StreetSnapshot};
use citysim::configuration::BuildingsConfiguration;
use citysim::entity_storage::EntityStorage;
use citysim::inhabitant::{EducationLevel, Inhabitant};
use citysim::navigator::Navigator;
use citysim::position::Position;
use citysim::power::PowerManager;

fn street(id: u64, x: i64, y: i64) -> BuildingSnapshot {
    BuildingSnapshot::Street(StreetSnapshot { id, position: Position { x, y } })
}

#[test]
fn streets_reach_the_graph_in_one_batch() {
    let mut navigator = Navigator::new();
    let house = BuildingSnapshot::House(HouseSnapshot {
        id: 9,
        position: Position { x: 5, y: 5 },
        current_residents: 0,
        max_residents: 8,
    });
    assert_eq!(navigator.expand_navigator_graph(&vec![house]), 0);
    assert_eq!(navigator.expand_navigator_graph(&vec![street(1, 0, 0), street(2, 1, 0), house]), 2);
    assert_eq!(navigator.expand_navigator_graph(&vec![street(3, 7, 7)]), 0);
    assert_eq!(navigator.expand_navigator_graph(&vec![street(4, 2, 0)]), 1);
}

#[test]
fn a_tick_pairs_only_where_streets_lead() {
    let configuration = BuildingsConfiguration::default();
    let mut navigator = Navigator::new();
    let mut storage = EntityStorage::new();
    let mut power = PowerManager::new(configuration);

    let house = BuildingSnapshot::House(HouseSnapshot {
        id: 20,
        position: Position { x: 3, y: 1 },
        current_residents: 0,
        max_residents: 2,
    });
    let office = BuildingSnapshot::Office(OfficeSnapshot {
        id: 21,
        position: Position { x: 4, y: 1 },
        current_workers: 0,
        max_workers: 1,
    });
    let plant = BuildingSnapshot::BiomassPowerPlant(BiomassPowerPlantSnapshot { id: 22, position: Position { x: 9, y: 9 } });
    let completed = vec![house, office, plant];
    for b in &completed {
        storage.register_target(b);
        power.register_power_consumer(b);
        power.register_power_source(b);
    }
    navigator.expand_navigator_graph(&completed);

    storage.introduce_inhabitant(Inhabitant::new(1, EducationLevel::Unschooled));
    // no street yet: the pairing is handed back
    assert!(storage.find_houses_for_inhabitants(&navigator).is_empty());

    navigator.expand_navigator_graph(&vec![street(30, 0, 0), street(31, 1, 0), street(32, 2, 0), street(33, 3, 0)]);
    let homes = storage.find_houses_for_inhabitants(&navigator);
    assert_eq!(homes.len(), 1);
    assert_eq!(homes[0].from, 1);
    assert_eq!(homes[0].to, 20);
    power.register_new_inhabitants_at_home(20, 1);

    storage.register_unemployee(1);
    let jobs = storage.find_job_for_inhabitants(&navigator);
    assert_eq!(jobs.len(), 1);
    assert_eq!(jobs[0].from_position, Position { x: 3, y: 1 });
    assert_eq!(jobs[0].to, 21);
    assert!(storage.find_job_for_inhabitants(&navigator).is_empty());

    let changes = power.dedicate_power_to_consumers();
    assert_eq!(changes.consumers(), &vec![(20, (300, 0))]);
    assert_eq!(power.calculate_missing_power_energy(), 0);
}

fn house_at(id: u64, x: i64, y: i64, places: u32) -> BuildingSnapshot {
    BuildingSnapshot::House(HouseSnapshot { id, position: Position { x, y }, current_residents: 0, max_residents: places })
}

#[test]
fn eight_rounds_fill_eight_places_then_nothing() {
    let mut navigator = Navigator::new();
    navigator.expand_navigator_graph(&vec![street(1, 0, 0), street(2, 1, 0), street(3, 2, 0)]);
    let mut storage = EntityStorage::new();
    storage.register_target(&house_at(50, 3, 0, 8));
    for k in 1..=8_u64 {
        storage.introduce_inhabitant(Inhabitant::new(k, EducationLevel::Unschooled));
        let r = storage.find_houses_for_inhabitants(&navigator);
        assert_eq!(r.len(), 1);
        assert_eq!(r[0].from, k);
        assert_eq!(r[0].to, 50);
        assert_eq!(r[0].count, 1);
        assert_eq!(r[0].to_position, Position { x: 3, y: 0 });
    }
    assert!(storage.find_houses_for_inhabitants(&navigator).is_empty());
    storage.introduce_inhabitant(Inhabitant::new(9, EducationLevel::Unschooled));
    assert!(storage.find_houses_for_inhabitants(&navigator).is_empty());
}

#[test]
fn a_failed_round_keeps_everyone_and_a_later_one_succeeds() {
    let mut navigator = Navigator::new();
    let mut storage = EntityStorage::new();
    storage.register_target(&house_at(60, 5, 0, 1));
    storage.introduce_inhabitant(Inhabitant::new(1, EducationLevel::Unschooled));
    assert!(storage.find_houses_for_inhabitants(&navigator).is_empty());
    assert!(storage.is_homeless(1));
    assert!(storage.find_houses_for_inhabitants(&navigator).is_empty());

    navigator.expand_navigator_graph(&vec![street(1, 0, 0), street(2, 1, 0), street(3, 2, 0), street(4, 3, 0), street(5, 4, 0)]);
    let r = storage.find_houses_for_inhabitants(&navigator);
    assert_eq!(r.len(), 1);
    assert_eq!(r[0].from, 1);
    assert_eq!(r[0].to, 60);
    assert!(!storage.is_homeless(1));
    // the single place is taken now
    storage.introduce_inhabitant(Inhabitant::new(2, EducationLevel::Unschooled));
    assert!(storage.find_houses_for_inhabitants(&navigator).is_empty());
}

#[test]
fn registering_again_moves_and_grows_the_offer() {
    let mut storage = EntityStorage::new();
    let navigator = Navigator::new();
    storage.register_target(&house_at(70, 9, 9, 1));
    storage.register_target(&house_at(70, 0, 1, 1));
    storage.introduce_inhabitant(Inhabitant::new(1, EducationLevel::Unschooled));
    storage.introduce_inhabitant(Inhabitant::new(2, EducationLevel::Unschooled));
    storage.introduce_inhabitant(Inhabitant::new(3, EducationLevel::Unschooled));
    let first = storage.find_houses_for_inhabitants(&navigator);
    assert_eq!(first.len(), 1);
    assert_eq!(first[0].to_position, Position { x: 0, y: 1 });
    assert_eq!(storage.find_houses_for_inhabitants(&navigator).len(), 1);
    assert!(storage.find_houses_for_inhabitants(&navigator).is_empty());
}
