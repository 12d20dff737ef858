use citysim::buildings::{BuildingSnapshot, GardenSnapshot, HouseSnapshot, StreetSnapshot};
use citysim::configuration::BuildingsConfiguration;
use citysim::palatability::{HousePalatability, HouseSourcePalatabilityDescriptor, Palatability};
use citysim::position::Position;

fn source(origin: Position, value: i32, inner: u32, outer: u32, decay: i32) -> HouseSourcePalatabilityDescriptor {
    HouseSourcePalatabilityDescriptor {
        origin,
        value,
        max_horizontal_distribution_distance: inner,
        max_linear_distribution_distance: outer,
        linear_factor: decay,
    }
}

#[test]
fn scenario_linear_decay_at_distance_five() {
    let s = source(Position { x: 0, y: 0 }, 10, 3, 10, 2);
    assert_eq!(s.calculate(&Position { x: 5, y: 0 }), 6);
    assert_eq!(s.calculate(&Position { x: 2, y: -3 }), 6);
    let mut field = Palatability::new();
    field.add_house_source(s);
    assert_eq!(field.get_house_palatability(&Position { x: 0, y: 5 }).value(), 6);
}

#[test]
fn contribution_by_zone() {
    let s = source(Position { x: 0, y: 0 }, 10, 3, 10, 2);
    assert_eq!(s.calculate(&Position { x: 0, y: 0 }), 10);
    assert_eq!(s.calculate(&Position { x: 2, y: 0 }), 10);
    assert_eq!(s.calculate(&Position { x: 3, y: 0 }), 10);
    assert_eq!(s.calculate(&Position { x: 9, y: 0 }), 0);
    assert_eq!(s.calculate(&Position { x: 10, y: 0 }), 0);
    assert_eq!(s.calculate(&Position { x: 100, y: 100 }), 0);
    let steep = source(Position { x: 0, y: 0 }, 10, 1, 10, 4);
    assert_eq!(steep.calculate(&Position { x: 2, y: 0 }), 6);
    assert_eq!(steep.calculate(&Position { x: 5, y: 0 }), 0);
    let negative = source(Position { x: 0, y: 0 }, -10, 1, 10, -4);
    assert_eq!(negative.calculate(&Position { x: 2, y: 0 }), -6);
    assert_eq!(negative.calculate(&Position { x: 5, y: 0 }), 0);
}

#[test]
fn contribution_is_symmetric_in_origin_and_query() {
    let a = Position { x: 1, y: 2 };
    let b = Position { x: 4, y: -1 };
    let from_a = source(a, 9, 2, 12, 1);
    let from_b = source(b, 9, 2, 12, 1);
    assert_eq!(from_a.calculate(&b), from_b.calculate(&a));
    assert_eq!(from_a.calculate(&b), 5);
}

#[test]
fn sources_add_up_and_zero_is_acceptable() {
    let mut field = Palatability::new();
    field.add_house_source(source(Position { x: 0, y: 0 }, 10, 3, 10, 2));
    field.add_house_source(source(Position { x: 1, y: 0 }, -10, 3, 10, 2));
    let total = field.get_house_palatability(&Position { x: 0, y: 0 });
    assert_eq!(total.value(), 0);
    assert!(total.is_positive());
    assert!(!HousePalatability::new(-1).is_positive());
    assert!(HousePalatability::new(3).is_positive());
    assert_eq!(Palatability::new().get_house_palatability(&Position { x: 5, y: 5 }).value(), 0);
}

#[test]
fn configured_sources_follow_the_building_kind() {
    let configuration = BuildingsConfiguration::default();
    let mut field = Palatability::new();
    field.add_building_source(
        &configuration,
        &BuildingSnapshot::Street(StreetSnapshot { id: 1, position: Position { x: 0, y: 0 } }),
    );
    assert_eq!(field.get_house_palatability(&Position { x: 0, y: 0 }).value(), 0);
    field.add_building_source(
        &configuration,
        &BuildingSnapshot::Garden(GardenSnapshot { id: 2, position: Position { x: 0, y: 0 } }),
    );
    assert_eq!(field.get_house_palatability(&Position { x: 5, y: 0 }).value(), 6);
    field.add_building_source(
        &configuration,
        &BuildingSnapshot::House(HouseSnapshot {
            id: 3,
            position: Position { x: 5, y: 0 },
            current_residents: 0,
            max_residents: 8,
        }),
    );
    assert_eq!(field.get_house_palatability(&Position { x: 5, y: 0 }).value(), 5);
}

#[test]
fn population_never_goes_below_zero() {
    let mut field = Palatability::new();
    field.increment_populations(5);
    assert_eq!(field.total_populations(), 5);
    field.increment_populations(-2);
    assert_eq!(field.total_populations(), 3);
    field.increment_populations(-10);
    assert_eq!(field.total_populations(), 0);
}
