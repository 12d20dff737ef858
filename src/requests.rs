//! Requests sent to the city.
use vstd::prelude::*;

use crate::blueprint::BuildingPrototypeType;
use crate::point::Point;

verus! {

/// The level of the map a building occupies.
#[derive(Clone, Copy, PartialEq, Eq, Structural, Debug)]
pub enum Heigth {
    Ground,
}

/// Place a building of a kind at a point.
#[derive(Clone, Copy, PartialEq, Eq, Structural, Debug)]
pub struct AddBuildingRequest {
    pub building_prototype_type: BuildingPrototypeType,
    pub position: Point,
    pub heigth: Heigth,
}

impl AddBuildingRequest {
    pub fn new(building_prototype_type: BuildingPrototypeType, position: Point, heigth: Heigth) -> (r: Self)
        ensures
            r == (AddBuildingRequest { building_prototype_type, position, heigth }),
    {
        AddBuildingRequest { building_prototype_type, position, heigth }
    }
}

/// Remove the building at a point.
#[derive(Clone, Copy, PartialEq, Eq, Structural, Debug)]
pub struct DeleteBuildingRequest {
    pub position: Point,
    pub heigth: Heigth,
}

impl DeleteBuildingRequest {
    pub fn new(position: Point, heigth: Heigth) -> (r: Self)
        ensures
            r == (DeleteBuildingRequest { position, heigth }),
    {
        DeleteBuildingRequest { position, heigth }
    }
}

/// Ask for a copy of the map.
#[derive(Clone, Copy, PartialEq, Eq, Structural, Debug)]
pub struct GetSnapshotRequest {}

/// Ask for new citizens.
#[derive(Clone, Copy, PartialEq, Eq, Structural, Debug)]
pub struct SpawnCitizensRequest {}

/// Everything the city can be asked.
#[derive(Clone, Copy, PartialEq, Eq, Structural, Debug)]
pub enum Request {
    AddBuildingRequest(AddBuildingRequest),
    DeleteBuildingRequest(DeleteBuildingRequest),
    GetSnapshotRequest(GetSnapshotRequest),
    Ping,
    Close,
}

} // verus!
