use citysim::buildings::{BuildingSnapshot, GardenSnapshot, HouseSnapshot, OfficeSnapshot, StreetSnapshot};
use citysim::configuration::BuildingsConfiguration;
use citysim::inhabitant::EducationLevel;
use citysim::palatability::{HouseSourcePalatabilityDescriptor, Palatability};
use citysim::palatability_manager::PalatabilityManager;
use citysim::position::Position;

#[test]
fn houses_and_offices_see_their_own_sources() {
    let mut manager = PalatabilityManager::new(BuildingsConfiguration::default());
    let garden = BuildingSnapshot::Garden(GardenSnapshot { id: 1, position: Position { x: 0, y: 0 } });
    let office = BuildingSnapshot::Office(OfficeSnapshot { id: 2, position: Position { x: 5, y: 0 }, current_workers: 0, max_workers: 6 });
    let house = BuildingSnapshot::House(HouseSnapshot { id: 3, position: Position { x: 5, y: 0 }, current_residents: 0, max_residents: 8 });
    manager.add_palatability_source(&garden);
    assert_eq!(manager.get_palatability(&house).unwrap().value, 6);
    assert_eq!(manager.get_palatability(&office).unwrap().value, 6);
    manager.add_palatability_source(&office);
    assert_eq!(manager.get_palatability(&office).unwrap().value, 7);
    assert_eq!(manager.get_palatability(&house).unwrap().value, 6);
    manager.add_palatability_source(&house);
    assert_eq!(manager.get_palatability(&house).unwrap().value, 5);
    assert!(manager.get_palatability(&house).unwrap().is_positive());
    let street = BuildingSnapshot::Street(StreetSnapshot { id: 4, position: Position { x: 5, y: 0 } });
    assert_eq!(manager.get_palatability(&street).unwrap().value, 0);
}

#[test]
fn vacancies_bring_newcomers_and_workers() {
    let mut manager = PalatabilityManager::new(BuildingsConfiguration::default());
    manager.increment_vacant_inhabitants(300);
    let first = manager.consume_inhabitants_to_spawn_and_increment_populations();
    assert_eq!(first.len(), 255);
    assert!(first.iter().all(|i| i.education_level == EducationLevel::Unschooled));
    assert_eq!(manager.vacant_inhabitants(), 45);
    assert_eq!(manager.total_populations(), 255);
    assert_eq!(manager.consume_inhabitants_to_spawn_and_increment_populations().len(), 45);
    assert_eq!(manager.consume_inhabitants_to_spawn_and_increment_populations().len(), 0);
    manager.increment_vacant_inhabitants(-10);
    assert_eq!(manager.vacant_inhabitants(), 0);

    manager.add_unemployed_inhabitants(vec![7, 8]);
    assert!(manager.consume_workers_to_spawn().is_empty());
    manager.increment_vacant_work(1);
    assert_eq!(manager.vacant_work(), 1);
    assert_eq!(manager.consume_workers_to_spawn(), vec![7]);
    assert_eq!(manager.unemployed_inhabitants(), vec![8]);
    assert_eq!(manager.consume_workers_to_spawn(), vec![8]);
    assert!(manager.consume_workers_to_spawn().is_empty());
}

#[test]
fn checked_query_reports_overflow() {
    let mut field = Palatability::new();
    let big = HouseSourcePalatabilityDescriptor {
        origin: Position { x: 0, y: 0 },
        value: i32::MAX,
        max_horizontal_distribution_distance: 5,
        max_linear_distribution_distance: 5,
        linear_factor: 0,
    };
    field.add_house_source(big);
    assert_eq!(field.checked_house_palatability(&Position { x: 0, y: 0 }).unwrap().value(), i32::MAX);
    field.add_house_source(big);
    assert!(field.checked_house_palatability(&Position { x: 0, y: 0 }).is_none());
    assert_eq!(field.checked_house_palatability(&Position { x: 9, y: 0 }).unwrap().value(), 0);
}
