//! Answers of the city.
use vstd::prelude::*;

use std::rc::Rc;

use crate::blueprint::Building;
use crate::city_map::MapSnapshot;
use crate::errors::{AddBuildingError, DeleteBuildingError};

verus! {

/// The building that was placed.
#[derive(Clone, PartialEq, Debug)]
pub struct AddBuildingResponse {
    pub building: Rc<Building>,
}

impl AddBuildingResponse {
    pub fn new(building: Rc<Building>) -> (r: Self)
        ensures
            r.building == building,
    {
        AddBuildingResponse { building }
    }
}

/// The building was removed.
#[derive(Clone, Copy, PartialEq, Eq, Structural, Debug)]
pub struct DeleteBuildingResponse {}

impl DeleteBuildingResponse {
    pub fn new() -> (r: Self) {
        DeleteBuildingResponse {  }
    }
}

/// Every answer the city gives.
pub enum Response {
    AddBuildingResponse(AddBuildingResponse),
    DeleteBuildingResponse(DeleteBuildingResponse),
    GetSnapshotResponse(MapSnapshot),
    AddBuildingRefused(AddBuildingError),
    DeleteBuildingRefused(DeleteBuildingError),
    Pong,
    Close,
}

} // verus!
