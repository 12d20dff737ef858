use std::rc::Rc;

use citysim::blueprint::{concretize_building, Building, BuildingPrototype, BuildingPrototypeType, ConcreteBuilding, House1x1};
use citysim::city_map::MatrixMap;
use citysim::errors::{AddBuildingError, DeleteBuildingError};
use citysim::point::Point;
use citysim::requests::{AddBuildingRequest, DeleteBuildingRequest, Heigth};
use citysim::responses::AddBuildingResponse;

#[test]
fn it_works() {
    assert_eq!(2 + 2, 4);
}

#[test]
fn check_for_adding_building_should_throw_if_point_is_out_of_the_map() {
    let map = MatrixMap::new(Point::new(20, 20));

    let request = AddBuildingRequest::new(BuildingPrototypeType::Street, Point::new(50, 50), Heigth::Ground);

    let result = map.check_for_adding_building(&request);

    assert_eq!(Some(AddBuildingError::OutOfMap), result, "Out of map points are not admitted");
}

#[test]
fn check_for_adding_building_should_throw_if_point_already_taken_by_another_building() {
    let mut map = MatrixMap::new(Point::new(20, 20));

    let request = AddBuildingRequest::new(BuildingPrototypeType::House1x1, Point::new(1, 1), Heigth::Ground);

    let result = map.add_building(request);
    assert_eq!(
        Ok(AddBuildingResponse::new(Rc::new(Building {
            id: 44,
            building: ConcreteBuilding::House1x1(House1x1::new(1, 0)),
            prototype: BuildingPrototype::house_1x1()
        }))),
        result,
        "in-map points are admitted"
    );

    let request = AddBuildingRequest::new(BuildingPrototypeType::House1x1, Point::new(1, 1), Heigth::Ground);
    let result = map.check_for_adding_building(&request);
    assert_eq!(Some(AddBuildingError::AlreadyTaken), result, "overlapped buildings are not admitted");
}

#[test]
fn check_for_deleting_building_should_throw_if_point_is_out_of_the_map() {
    let map = MatrixMap::new(Point::new(20, 20));
    let request = DeleteBuildingRequest::new(Point::new(50, 50), Heigth::Ground);

    let result = map.check_for_deleting_building(&request);

    assert_eq!(Some(DeleteBuildingError::OutOfMap), result, "Out of map points are not admitted");
}

#[test]
fn check_for_deleting_building_should_throw_if_point_is_not_already_taken() {
    let map = MatrixMap::new(Point::new(20, 20));

    let request = DeleteBuildingRequest::new(Point::new(0, 0), Heigth::Ground);
    let result = map.check_for_deleting_building(&request);
    assert_eq!(Some(DeleteBuildingError::NoBuildingFound), result, "cannot delete if building is not found");
}

#[test]
fn flow() {
    let mut map = MatrixMap::new(Point::new(20, 20));
    let request = AddBuildingRequest::new(BuildingPrototypeType::Street, Point::new(0, 0), Heigth::Ground);

    map.add_building(request).unwrap();
    let snapshot = map.get_snapshot();
    let cell = snapshot.get_cell_at(&Point::new(0, 0));

    assert_eq!(
        cell.buildings_on_point.unwrap().ground.is_some(),
        true,
        "After add the cell should not be empty"
    );

    let request = DeleteBuildingRequest::new(Point::new(0, 0), Heigth::Ground);
    map.delete_building(request).unwrap();

    let snapshot = map.get_snapshot();
    let cell = snapshot.get_cell_at(&Point::new(0, 0));
    assert_eq!(
        cell.buildings_on_point.unwrap().ground.is_none(),
        true,
        "After deletion the cell should be empty"
    );
}

#[test]
fn map_borders_are_inside_the_map() {
    let mut map = MatrixMap::new(Point::new(20, 20));
    let corner = AddBuildingRequest::new(BuildingPrototypeType::Street, Point::new(20, 20), Heigth::Ground);
    assert_eq!(map.check_for_adding_building(&corner), None);
    let outside = AddBuildingRequest::new(BuildingPrototypeType::Street, Point::new(-1, 0), Heigth::Ground);
    assert_eq!(map.add_building(outside), Err(AddBuildingError::OutOfMap));
    let again = DeleteBuildingRequest::new(Point::new(3, 3), Heigth::Ground);
    assert_eq!(map.delete_building(again), Err(DeleteBuildingError::NoBuildingFound));
    let snapshot = map.get_snapshot();
    assert!(snapshot.get_cell_at(&Point::new(3, 3)).buildings_on_point.is_none());
}

#[test]
fn concretized_buildings() {
    let street = concretize_building(&BuildingPrototypeType::Street);
    assert_eq!(street.id, 44);
    assert_eq!(street.prototype, BuildingPrototype::street());
    assert_eq!(street.building, ConcreteBuilding::Street(citysim::blueprint::Street {}));
    let house = concretize_building(&BuildingPrototypeType::House1x1);
    assert_eq!(house.building, ConcreteBuilding::House1x1(House1x1::new(1, 0)));
    assert_eq!(Point::new(3, 4).x(), 3);
    assert_eq!(Point::new(3, 4).y(), 4);
}
