use citysim::buildings::{Building, BuildingSnapshot, BuildingType, House, HouseSnapshot, Office};
use citysim::configuration::BuildingsConfiguration;
use citysim::construction::{BuildRequest, BuildingManager, ProgressStatus};
use citysim::position::Position;

#[test]
fn construction_takes_the_configured_steps() {
    let mut manager = BuildingManager::new(BuildingsConfiguration::default());
    let house = Building::House(manager.house(7, Position { x: 1, y: 1 }));
    let mut site = manager.start_building_creation(house).unwrap();
    assert_eq!(site.progress_status, ProgressStatus { current_step: 0, step_to_reach: 10 });
    assert!(manager
        .start_building_creation(Building::Street(manager.street(8, Position { x: 1, y: 1 })))
        .is_err());

    assert_eq!(manager.tick_construction(&mut site, false), None);
    assert_eq!(site.progress_status.current_step, 0);
    for _ in 0..9 {
        assert_eq!(manager.tick_construction(&mut site, true), None);
    }
    let snapshot = manager.tick_construction(&mut site, true);
    assert_eq!(
        snapshot,
        Some(BuildingSnapshot::House(HouseSnapshot {
            id: 7,
            position: Position { x: 1, y: 1 },
            current_residents: 0,
            max_residents: 8,
        }))
    );
    assert!(site.is_completed());
    assert_eq!(manager.tick_construction(&mut site, true), None);

    manager.inhabitants_arrived_at_home(7, 3);
    match manager.get_building(&7) {
        Some(Building::House(h)) => assert_eq!(h.current_residents, 3),
        _ => panic!("the house should be completed"),
    }
    assert!(manager.get_building(&8).is_none());
}

#[test]
fn offices_hire_workers() {
    let mut manager = BuildingManager::new(BuildingsConfiguration::default());
    let office = manager.building_for(BuildingType::Office, 3, Position { x: 0, y: 2 });
    assert_eq!(office.get_id(), 3);
    assert_eq!(office.id(), 3);
    assert_eq!(*office.get_position(), Position { x: 0, y: 2 });
    let mut site = manager.start_building_creation(office).unwrap();
    assert!(!manager.make_progress(&mut site));
    for _ in 0..3 {
        manager.make_progress(&mut site);
    }
    assert!(manager.make_progress(&mut site));
    manager.finalize_building_creation(&site);
    manager.workers_found_job(3, 6);
    match manager.get_building(&3) {
        Some(Building::Office(o)) => assert_eq!(o.current_workers, 6),
        _ => panic!("the office should be completed"),
    }
}

#[test]
fn building_accessors() {
    let mut house = House::new(1, Position { x: 0, y: 0 }, 2);
    house.inhabitants_arrived(2);
    house.inhabitant_left();
    assert_eq!(house.current_residents, 1);
    let mut office = Office::new(2, Position { x: 1, y: 0 }, 3);
    office.workers_arrived(3);
    office.worker_left();
    assert_eq!(office.current_workers, 2);

    let mut b = Building::House(house);
    b.as_mut_house().unwrap().inhabitants_arrived(1);
    assert!(b.as_mut_office().is_none());
    assert_eq!(b.into_house().unwrap().current_residents, 2);
    assert!(Building::Office(office).into_house().is_none());
    assert!(Building::Office(office).into_office().is_some());
    let snapshot = Building::Office(office).snapshot();
    assert_eq!(*snapshot.get_id(), 2);
    assert_eq!(*snapshot.get_position(), Position { x: 1, y: 0 });
    assert!(snapshot.into_office().is_some());
    assert!(snapshot.into_house().is_none());

    let request = BuildRequest::new(Position { x: 4, y: 4 }, BuildingType::Garden);
    assert_eq!(request.building_type, BuildingType::Garden);
    let status = ProgressStatus { current_step: 1, step_to_reach: 2 }.progress();
    assert!(status.is_completed());
}
