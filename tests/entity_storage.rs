use citysim::entity_storage::{AssignmentType, BuildingNeedToBeFulfilled, EntityStorage};
use citysim::inhabitant::{EducationLevel, Inhabitant};
use citysim::navigator::Navigator;
use citysim::position::Position;

#[test]
fn test_consume_assignments() {
    let mut entity_storage = EntityStorage::default();

    let house = 0_u64;
    let house_position = Position { x: 0, y: 0 };
    entity_storage.register_house(BuildingNeedToBeFulfilled {
        building_entity_id: house,
        building_position: house_position,
        remain: 1,
    });

    let inhabitant = 1_u64;
    entity_storage.introduce_inhabitant(Inhabitant::new(inhabitant, EducationLevel::Unschooled));

    let mut assignments = entity_storage.get_inhabitant_house_assignment();
    assert_eq!(assignments.len(), 1);

    let assignment = assignments.pop().unwrap();
    assert_eq!(assignment.from, inhabitant);
    assert_eq!(assignment.to, house);

    entity_storage.resign_assign_result(assignment);

    let assignments = entity_storage.get_inhabitant_house_assignment();
    assert_eq!(assignments.len(), 1);

    let assignments = entity_storage.get_inhabitant_house_assignment();
    assert_eq!(assignments.len(), 0);
}

#[test]
fn test_consume_assignments_erase_all() {
    let mut entity_storage = EntityStorage::default();

    let house = 0_u64;
    let house_position = Position { x: 0, y: 0 };
    entity_storage.register_house(BuildingNeedToBeFulfilled {
        building_entity_id: house,
        building_position: house_position,
        remain: 5,
    });

    let inhabitant1 = 1_u64;
    entity_storage.introduce_inhabitant(Inhabitant::new(inhabitant1, EducationLevel::Unschooled));
    let inhabitant2 = 2_u64;
    entity_storage.introduce_inhabitant(Inhabitant::new(inhabitant2, EducationLevel::Unschooled));
    let inhabitant3 = 3_u64;
    entity_storage.introduce_inhabitant(Inhabitant::new(inhabitant3, EducationLevel::Unschooled));

    let mut assignments = entity_storage.get_inhabitant_house_assignment();
    assert_eq!(assignments.len(), 1);

    let assignment = assignments.pop().unwrap();
    assert!(vec![inhabitant1, inhabitant2, inhabitant3].contains(&assignment.from));
    assert_eq!(assignment.to, house);

    entity_storage.resign_assign_result(assignment);

    let assignments = entity_storage.get_inhabitant_house_assignment();
    assert_eq!(assignments.len(), 1);

    let assignments = entity_storage.get_inhabitant_house_assignment();
    assert_eq!(assignments.len(), 1);

    let assignments = entity_storage.get_inhabitant_house_assignment();
    assert_eq!(assignments.len(), 1);

    // inhabitants are missing
    let assignments = entity_storage.get_inhabitant_house_assignment();
    assert_eq!(assignments.len(), 0);

    let inhabitant4 = 4_u64;
    entity_storage.introduce_inhabitant(Inhabitant::new(inhabitant4, EducationLevel::Unschooled));
    let inhabitant5 = 5_u64;
    entity_storage.introduce_inhabitant(Inhabitant::new(inhabitant5, EducationLevel::Unschooled));
    let inhabitant6 = 6_u64;
    entity_storage.introduce_inhabitant(Inhabitant::new(inhabitant6, EducationLevel::Unschooled));

    let assignments = entity_storage.get_inhabitant_house_assignment();
    assert_eq!(assignments.len(), 1);
    let assignments = entity_storage.get_inhabitant_house_assignment();
    assert_eq!(assignments.len(), 1);

    // houses are missing
    let assignments = entity_storage.get_inhabitant_house_assignment();
    assert_eq!(assignments.len(), 0);
}

#[test]
fn test_consume_assignments_0() {
    let mut entity_storage = EntityStorage::default();

    let house = 0_u64;
    let house_position = Position { x: 0, y: 0 };
    entity_storage.register_house(BuildingNeedToBeFulfilled {
        building_entity_id: house,
        building_position: house_position,
        remain: 0,
    });

    let inhabitant = 1_u64;
    entity_storage.introduce_inhabitant(Inhabitant::new(inhabitant, EducationLevel::Unschooled));

    let assignments = entity_storage.get_inhabitant_house_assignment();
    assert_eq!(assignments.len(), 0);

    let assignments = entity_storage.get_inhabitant_house_assignment();
    assert_eq!(assignments.len(), 0);
}

#[test]
fn scenario_eight_places_eight_matches() {
    let mut storage = EntityStorage::new();
    storage.register_house(BuildingNeedToBeFulfilled::new(100, Position { x: 4, y: 4 }, 8));
    for id in 1..=8_u64 {
        storage.introduce_inhabitant(Inhabitant::new(id, EducationLevel::Unschooled));
    }
    for id in 1..=8_u64 {
        let r = storage.get_inhabitant_house_assignment();
        assert_eq!(r.len(), 1);
        assert_eq!(r[0].count, 1);
        assert_eq!(r[0].from, id);
        assert_eq!(r[0].to, 100);
        assert_eq!(r[0].to_position, Position { x: 4, y: 4 });
        assert_eq!(r[0].assignment_type, AssignmentType::InhabitantHouse);
    }
    assert_eq!(storage.get_inhabitant_house_assignment().len(), 0);
}

#[test]
fn scenario_failed_path_resigns_and_retries() {
    let mut storage = EntityStorage::new();
    storage.register_house(BuildingNeedToBeFulfilled::new(7, Position { x: 10, y: 10 }, 1));
    storage.introduce_inhabitant(Inhabitant::new(1, EducationLevel::Unschooled));

    let navigator = Navigator::new();
    let mut proposals = storage.get_inhabitant_house_assignment();
    assert_eq!(proposals.len(), 1);
    let proposal = proposals.pop().unwrap();
    assert_eq!(navigator.get_navigation_descriptor(&proposal.from_position, proposal.to_position), None);
    storage.resign_assign_result(proposal);

    let again = storage.get_inhabitant_house_assignment();
    assert_eq!(again.len(), 1);
    assert_eq!(again[0].from, 1);
    assert_eq!(again[0].to, 7);
    assert_eq!(storage.get_inhabitant_house_assignment().len(), 0);
}

#[test]
fn matched_plus_waiting_is_what_was_introduced() {
    let mut storage = EntityStorage::new();
    storage.register_house(BuildingNeedToBeFulfilled::new(1, Position { x: 0, y: 0 }, 2));
    for id in 10..15_u64 {
        storage.introduce_inhabitant(Inhabitant::new(id, EducationLevel::Low));
    }
    let first = storage.get_inhabitant_house_assignment();
    let second = storage.get_inhabitant_house_assignment();
    let third = storage.get_inhabitant_house_assignment();
    assert_eq!(first.len() + second.len() + third.len(), 2);
    storage.resign_assign_result(second[0]);
    storage.resign_assign_result(second[0]);
    let mut matched = 0;
    loop {
        storage.register_house(BuildingNeedToBeFulfilled::new(2, Position { x: 1, y: 1 }, 1));
        let r = storage.get_inhabitant_house_assignment();
        if r.is_empty() {
            break;
        }
        matched += r.len();
    }
    // one was kept by the first match, four were still waiting
    assert_eq!(matched, 4);
}

#[test]
fn registering_a_known_house_adds_places() {
    let mut storage = EntityStorage::new();
    storage.register_house(BuildingNeedToBeFulfilled::new(3, Position { x: 0, y: 0 }, 1));
    storage.register_house(BuildingNeedToBeFulfilled::new(3, Position { x: 0, y: 0 }, 1));
    storage.introduce_inhabitant(Inhabitant::new(1, EducationLevel::Unschooled));
    storage.introduce_inhabitant(Inhabitant::new(2, EducationLevel::Unschooled));
    storage.introduce_inhabitant(Inhabitant::new(2, EducationLevel::Unschooled));
    assert_eq!(storage.get_inhabitant_house_assignment().len(), 1);
    assert_eq!(storage.get_inhabitant_house_assignment().len(), 1);
    assert_eq!(storage.get_inhabitant_house_assignment().len(), 0);
}

#[test]
fn job_matching_uses_the_home_of_the_worker() {
    let mut storage = EntityStorage::new();
    storage.introduce_inhabitant(Inhabitant::new(5, EducationLevel::Unschooled));
    storage.register_house(BuildingNeedToBeFulfilled::new(50, Position { x: 2, y: 3 }, 1));
    let home = storage.get_inhabitant_house_assignment().pop().unwrap();
    let resident = storage.found_home_for_inhabitant(&home.from, home.to, home.to_position);
    assert_eq!(resident.home.unwrap().house_position, Position { x: 2, y: 3 });

    assert_eq!(storage.get_inhabitant_job_assignment().len(), 0);
    storage.register_unemployee(5);
    assert_eq!(storage.get_inhabitant_job_assignment().len(), 0);
    storage.register_office(BuildingNeedToBeFulfilled::new(60, Position { x: 9, y: 9 }, 1));
    let mut jobs = storage.get_inhabitant_job_assignment();
    assert_eq!(jobs.len(), 1);
    let job = jobs.pop().unwrap();
    assert_eq!(job.assignment_type, AssignmentType::InhabitantOffice);
    assert_eq!(job.from, 5);
    assert_eq!(job.from_position, Position { x: 2, y: 3 });
    assert_eq!(job.to, 60);
    assert_eq!(job.to_position, Position { x: 9, y: 9 });
    assert_eq!(storage.get_inhabitant_job_assignment().len(), 0);

    storage.resign_assign_result(job);
    let again = storage.get_inhabitant_job_assignment();
    assert_eq!(again.len(), 1);
    storage.found_job_for_unemployee(&again[0].from, again[0].to, again[0].to_position);
}

#[test]
fn education_levels_are_ordered() {
    assert!(EducationLevel::Low.is_at_least(&EducationLevel::Unschooled));
    assert!(EducationLevel::Low.is_at_least(&EducationLevel::Low));
    assert!(EducationLevel::Unschooled.is_at_least(&EducationLevel::Unschooled));
    assert!(!EducationLevel::Unschooled.is_at_least(&EducationLevel::Low));
}
