use std::rc::Rc;

use citysim::blueprint::{Building, BuildingPrototype, BuildingPrototypeType, ConcreteBuilding, House1x1};
use citysim::city_map::{CityMap, MapSnapshot, MatrixMap};
use citysim::errors::{AddBuildingError, DeleteBuildingError};
use citysim::mayor::{DescrementBudgetError, MainMayor, Mayor};
use citysim::orchestrator::Orchestrator;
use citysim::point::Point;
use citysim::requests::{AddBuildingRequest, DeleteBuildingRequest, Heigth, Request};
use citysim::responses::{AddBuildingResponse, DeleteBuildingResponse, Response};

struct StubMayor {
    budget: bool,
}

impl Mayor for StubMayor {
    fn affords(&self, _cost: u32) -> bool {
        self.budget
    }

    fn spend(&self, _cost: u32) -> Self {
        StubMayor { budget: self.budget }
    }

    fn has_budget(&self, cost: u32) -> bool {
        assert_eq!(cost, 0);
        self.budget
    }

    fn decrement_budget(&mut self, cost: u32) -> Result<(), DescrementBudgetError> {
        assert_eq!(cost, 0);
        Ok(())
    }
}

struct StubMap {
    add: Option<Result<AddBuildingResponse, AddBuildingError>>,
    delete: Option<Result<DeleteBuildingResponse, DeleteBuildingError>>,
}

impl CityMap for StubMap {
    fn adding_refused(&self, _request: AddBuildingRequest) -> Option<AddBuildingError> {
        match &self.add {
            Some(Err(e)) => Some(*e),
            _ => None,
        }
    }

    fn deleting_refused(&self, _request: DeleteBuildingRequest) -> Option<DeleteBuildingError> {
        match &self.delete {
            Some(Err(e)) => Some(*e),
            _ => None,
        }
    }

    fn add_building(&mut self, _request: AddBuildingRequest) -> Result<AddBuildingResponse, AddBuildingError> {
        self.add.take().expect("add_building was not expected")
    }

    fn check_for_adding_building(&self, _request: &AddBuildingRequest) -> Option<AddBuildingError> {
        None
    }

    fn delete_building(&mut self, _request: DeleteBuildingRequest) -> Result<DeleteBuildingResponse, DeleteBuildingError> {
        self.delete.take().expect("delete_building was not expected")
    }

    fn check_for_deleting_building(&self, _request: &DeleteBuildingRequest) -> Option<DeleteBuildingError> {
        None
    }

    fn get_snapshot(&self) -> MapSnapshot {
        MapSnapshot::new(Point::new(0, 0), vec![])
    }
}

#[test]
fn add_building() {
    let building_id = 42;
    let building = Rc::new(Building {
        id: building_id,
        building: ConcreteBuilding::House1x1(House1x1::new(0, 0)),
        prototype: BuildingPrototype::house_1x1(),
    });
    let expected_add_building_response = AddBuildingResponse::new(building);

    let mock_mayor = StubMayor { budget: true };
    let mock_map = StubMap { add: Some(Ok(expected_add_building_response.clone())), delete: None };

    let mut orchestrator = Orchestrator::new(mock_map, mock_mayor);

    let request = AddBuildingRequest::new(BuildingPrototypeType::Street, Point::new(0, 0), Heigth::Ground);
    let add_building_response = orchestrator.add_building(request);

    assert_eq!(add_building_response, Ok(expected_add_building_response));
}

#[test]
fn add_building_no_budget() {
    let mock_mayor = StubMayor { budget: false };
    let mock_map = StubMap { add: None, delete: None };

    let mut orchestrator = Orchestrator::new(mock_map, mock_mayor);

    let request = AddBuildingRequest::new(BuildingPrototypeType::Street, Point::new(0, 0), Heigth::Ground);
    let add_building_response = orchestrator.add_building(request);

    assert_eq!(add_building_response, Err(AddBuildingError::InsufficientBudget));
}

#[test]
fn add_building_already_taken() {
    let mock_mayor = StubMayor { budget: true };
    let mock_map = StubMap { add: Some(Err(AddBuildingError::AlreadyTaken)), delete: None };

    let mut orchestrator = Orchestrator::new(mock_map, mock_mayor);

    let request = AddBuildingRequest::new(BuildingPrototypeType::Street, Point::new(0, 0), Heigth::Ground);
    let add_building_response = orchestrator.add_building(request);

    assert_eq!(add_building_response, Err(AddBuildingError::AlreadyTaken));
}

#[test]
fn delete_building() {
    let expected_delete_building_response = DeleteBuildingResponse::new();

    let mock_mayor = StubMayor { budget: true };
    let mock_map = StubMap { add: None, delete: Some(Ok(expected_delete_building_response.clone())) };

    let mut orchestrator = Orchestrator::new(mock_map, mock_mayor);

    let request = DeleteBuildingRequest::new(Point::new(0, 0), Heigth::Ground);
    let delete_building_response = orchestrator.delete_building(request);

    assert_eq!(delete_building_response, Ok(expected_delete_building_response));
}

#[test]
fn delete_building_no_building() {
    let mock_mayor = StubMayor { budget: true };
    let mock_map = StubMap { add: None, delete: Some(Err(DeleteBuildingError::NoBuildingFound)) };

    let mut orchestrator = Orchestrator::new(mock_map, mock_mayor);

    let request = DeleteBuildingRequest::new(Point::new(0, 0), Heigth::Ground);
    let delete_building_response = orchestrator.delete_building(request);

    assert_eq!(delete_building_response, Err(DeleteBuildingError::NoBuildingFound));
}

#[test]
fn orchestrator_on_a_real_map() {
    let mut orchestrator = Orchestrator::new(MatrixMap::new(Point::new(5, 5)), MainMayor::new());
    let request = AddBuildingRequest::new(BuildingPrototypeType::House1x1, Point::new(2, 2), Heigth::Ground);
    assert!(orchestrator.add_building(request).is_ok());
    assert_eq!(orchestrator.add_building(request), Err(AddBuildingError::AlreadyTaken));
    let delete = DeleteBuildingRequest::new(Point::new(2, 2), Heigth::Ground);
    assert_eq!(orchestrator.delete_building(delete), Ok(DeleteBuildingResponse::new()));
    let snapshot = orchestrator.get_map_snapshot(citysim::requests::GetSnapshotRequest {});
    assert!(snapshot.get_cell_at(&Point::new(2, 2)).buildings_on_point.unwrap().ground.is_none());
}

#[test]
fn requests_are_answered_with_reasons() {
    let mut orchestrator = Orchestrator::new(MatrixMap::new(Point::new(5, 5)), MainMayor::new());
    assert!(matches!(orchestrator.handle_request(Request::Ping), Response::Pong));
    let add = AddBuildingRequest::new(BuildingPrototypeType::Street, Point::new(1, 1), Heigth::Ground);
    assert!(matches!(orchestrator.handle_request(Request::AddBuildingRequest(add)), Response::AddBuildingResponse(_)));
    assert!(matches!(
        orchestrator.handle_request(Request::AddBuildingRequest(add)),
        Response::AddBuildingRefused(AddBuildingError::AlreadyTaken)
    ));
    let outside = AddBuildingRequest::new(BuildingPrototypeType::Street, Point::new(9, 1), Heigth::Ground);
    assert!(matches!(
        orchestrator.handle_request(Request::AddBuildingRequest(outside)),
        Response::AddBuildingRefused(AddBuildingError::OutOfMap)
    ));
    let delete = DeleteBuildingRequest::new(Point::new(2, 2), Heigth::Ground);
    assert!(matches!(
        orchestrator.handle_request(Request::DeleteBuildingRequest(delete)),
        Response::DeleteBuildingRefused(DeleteBuildingError::NoBuildingFound)
    ));
    let delete = DeleteBuildingRequest::new(Point::new(1, 1), Heigth::Ground);
    assert!(matches!(
        orchestrator.handle_request(Request::DeleteBuildingRequest(delete)),
        Response::DeleteBuildingResponse(_)
    ));
    assert!(matches!(
        orchestrator.handle_request(Request::GetSnapshotRequest(citysim::requests::GetSnapshotRequest {})),
        Response::GetSnapshotResponse(_)
    ));
    assert!(matches!(orchestrator.handle_request(Request::Close), Response::Close));
}

#[test]
fn budget_refusal_comes_first() {
    let mut orchestrator = Orchestrator::new(MatrixMap::new(Point::new(5, 5)), StubMayor { budget: false });
    let add = AddBuildingRequest::new(BuildingPrototypeType::Street, Point::new(9, 9), Heigth::Ground);
    assert!(matches!(
        orchestrator.handle_request(Request::AddBuildingRequest(add)),
        Response::AddBuildingRefused(AddBuildingError::InsufficientBudget)
    ));
}
