//! The orchestrator checks the budget before changing the city map.
use vstd::prelude::*;

use crate::city_map::{CityMap, MapSnapshot};
use crate::errors::{AddBuildingError, DeleteBuildingError};
use crate::mayor::Mayor;
use crate::requests::{AddBuildingRequest, DeleteBuildingRequest, GetSnapshotRequest, Request, SpawnCitizensRequest};
use crate::responses::{AddBuildingResponse, DeleteBuildingResponse, Response};

verus! {

pub type Cost = u32;

/// What placing a building costs; building is free for now.
pub open spec fn cost_of(request: AddBuildingRequest) -> Cost {
    0
}

/// Drives the city map under the mayor's budget.
pub struct Orchestrator<Map_: CityMap, Mayor_: Mayor> {
    map: Map_,
    mayor: Mayor_,
}

impl<Map_: CityMap, Mayor_: Mayor> Orchestrator<Map_, Mayor_> {
    pub closed spec fn mayor_of(&self) -> Mayor_ {
        self.mayor
    }

    pub closed spec fn map_of(&self) -> Map_ {
        self.map
    }

    pub fn new(map: Map_, mayor: Mayor_) -> (r: Self)
        ensures
            r.mayor_of() == mayor,
            r.map_of() == map,
    {
        Orchestrator { map, mayor }
    }

    /// Place a building if the budget allows it and the map accepts it:
    /// the answer is the map's, and the budget is charged exactly when the
    /// building was placed.
    pub fn add_building(&mut self, request: AddBuildingRequest) -> (r: Result<AddBuildingResponse, AddBuildingError>)
        ensures
            !old(self).mayor_of().affords(cost_of(request)) ==> r == Err::<AddBuildingResponse, AddBuildingError>(
                AddBuildingError::InsufficientBudget,
            ) && *final(self) == *old(self),
            old(self).mayor_of().affords(cost_of(request)) ==> match old(self).map_of().adding_refused(request) {
                Some(e) => r == Err::<AddBuildingResponse, AddBuildingError>(e) && final(self).mayor_of() == old(
                    self,
                ).mayor_of(),
                None => r is Ok && final(self).mayor_of() == old(self).mayor_of().spend(cost_of(request)),
            },
    {
        let cost = self.calculate_cost(&request);
        let has_budget = self.mayor.has_budget(cost);
        if !has_budget {
            return Err(AddBuildingError::InsufficientBudget);
        }
        let result = self.map.add_building(request);
        if let Err(err) = result {
            return Err(err);
        }
        let _charged = self.mayor.decrement_budget(cost);
        result
    }

    /// Clear a point; the answer is the map's and the budget is untouched.
    pub fn delete_building(&mut self, request: DeleteBuildingRequest) -> (r: Result<DeleteBuildingResponse, DeleteBuildingError>)
        ensures
            match old(self).map_of().deleting_refused(request) {
                Some(e) => r == Err::<DeleteBuildingResponse, DeleteBuildingError>(e),
                None => r is Ok,
            },
            final(self).mayor_of() == old(self).mayor_of(),
    {
        self.map.delete_building(request)
    }

    pub fn get_map_snapshot(&self, _request: GetSnapshotRequest) -> MapSnapshot {
        self.map.get_snapshot()
    }

    /// Citizens are not spawned through the orchestrator yet.
    pub fn spawn_citizens(&self, _request: SpawnCitizensRequest) {
    }

    /// Answer one request; a refused change is answered with its reason.
    pub fn handle_request(&mut self, request: Request) -> (r: Response)
        ensures
            request is Ping ==> r is Pong && *final(self) == *old(self),
            request is Close ==> r is Close && *final(self) == *old(self),
            request is GetSnapshotRequest ==> r is GetSnapshotResponse && *final(self) == *old(self),
            request matches Request::AddBuildingRequest(q) ==> {
                if !old(self).mayor_of().affords(cost_of(q)) {
                    r == Response::AddBuildingRefused(AddBuildingError::InsufficientBudget)
                } else {
                    match old(self).map_of().adding_refused(q) {
                        Some(e) => r == Response::AddBuildingRefused(e),
                        None => r is AddBuildingResponse,
                    }
                }
            },
            request matches Request::DeleteBuildingRequest(q) ==> match old(self).map_of().deleting_refused(q) {
                Some(e) => r == Response::DeleteBuildingRefused(e),
                None => r is DeleteBuildingResponse,
            },
    {
        match request {
            Request::AddBuildingRequest(q) => match self.add_building(q) {
                Ok(response) => Response::AddBuildingResponse(response),
                Err(e) => Response::AddBuildingRefused(e),
            },
            Request::DeleteBuildingRequest(q) => match self.delete_building(q) {
                Ok(response) => Response::DeleteBuildingResponse(response),
                Err(e) => Response::DeleteBuildingRefused(e),
            },
            Request::GetSnapshotRequest(q) => Response::GetSnapshotResponse(self.get_map_snapshot(q)),
            Request::Ping => Response::Pong,
            Request::Close => Response::Close,
        }
    }

    fn calculate_cost(&self, request: &AddBuildingRequest) -> (r: Cost)
        ensures
            r == cost_of(*request),
    {
        0
    }
}

} // verus!
