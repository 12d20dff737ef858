//! The city map: what stands on each point of a bounded grid.
use vstd::prelude::*;

use std::rc::Rc;

use crate::blueprint::{concretize_building, concretized, Building};
use crate::errors::{AddBuildingError, DeleteBuildingError};
use crate::point::Point;
use crate::requests::{AddBuildingRequest, DeleteBuildingRequest, Heigth};
use crate::responses::{AddBuildingResponse, DeleteBuildingResponse};

verus! {

/// What stands on a point, level by level.
#[derive(Clone, PartialEq, Debug)]
pub struct BuildingsOnPoint {
    pub ground: Option<Rc<Building>>,
}

/// A point and what stands on it, if anything was ever placed there.
pub struct CellDescriptor {
    pub point: Point,
    pub buildings_on_point: Option<BuildingsOnPoint>,
}

/// A city map.
pub trait CityMap {
    /// Why the map would refuse to place the request, if it would.
    spec fn adding_refused(&self, request: AddBuildingRequest) -> Option<AddBuildingError>;

    /// Why the map would refuse to clear the request's point, if it would.
    spec fn deleting_refused(&self, request: DeleteBuildingRequest) -> Option<DeleteBuildingError>;

    /// Place a building; refused exactly as `adding_refused` says.
    fn add_building(&mut self, request: AddBuildingRequest) -> (r: Result<AddBuildingResponse, AddBuildingError>)
        ensures
            match old(self).adding_refused(request) {
                Some(e) => r == Err::<AddBuildingResponse, AddBuildingError>(e),
                None => r is Ok,
            },
    ;

    fn check_for_adding_building(&self, request: &AddBuildingRequest) -> (r: Option<AddBuildingError>)
        ensures
            r == self.adding_refused(*request),
    ;

    /// Clear a point; refused exactly as `deleting_refused` says.
    fn delete_building(&mut self, request: DeleteBuildingRequest) -> (r: Result<DeleteBuildingResponse, DeleteBuildingError>)
        ensures
            match old(self).deleting_refused(request) {
                Some(e) => r == Err::<DeleteBuildingResponse, DeleteBuildingError>(e),
                None => r is Ok,
            },
    ;

    fn check_for_deleting_building(&self, request: &DeleteBuildingRequest) -> (r: Option<DeleteBuildingError>)
        ensures
            r == self.deleting_refused(*request),
    ;

    fn get_snapshot(&self) -> MapSnapshot;
}

/// Whether `p` lies on a map of size `dim`, borders included.
pub open spec fn in_map(dim: Point, p: Point) -> bool {
    0 <= p.0 <= dim.0 && 0 <= p.1 <= dim.1
}

/// The points whose ground is taken.
pub open spec fn taken(cells: Seq<(Point, BuildingsOnPoint)>) -> Set<Point> {
    Set::new(|p: Point| exists|k: int| 0 <= k < cells.len() && cells[k].0 == p && cells[k].1.ground is Some)
}

/// Why adding would be refused, if it would.
pub open spec fn adding_refusal(dim: Point, occupied: Set<Point>, p: Point) -> Option<AddBuildingError> {
    if !in_map(dim, p) {
        Some(AddBuildingError::OutOfMap)
    } else if occupied.contains(p) {
        Some(AddBuildingError::AlreadyTaken)
    } else {
        None
    }
}

/// Why deleting would be refused, if it would.
pub open spec fn deleting_refusal(dim: Point, occupied: Set<Point>, p: Point) -> Option<DeleteBuildingError> {
    if !in_map(dim, p) {
        Some(DeleteBuildingError::OutOfMap)
    } else if !occupied.contains(p) {
        Some(DeleteBuildingError::NoBuildingFound)
    } else {
        None
    }
}

/// Index of the cell recorded for `p`.
fn cell_index(cells: &Vec<(Point, BuildingsOnPoint)>, p: Point) -> (r: Option<usize>)
    ensures
        r matches Some(k) ==> k < cells@.len() && cells@[k as int].0 == p && forall|m: int| 0 <= m < k ==> cells@[m].0 != p,
        r is None ==> forall|k: int| 0 <= k < cells@.len() ==> cells@[k].0 != p,
{
    let mut k: usize = 0;
    while k < cells.len()
        invariant
            k <= cells.len(),
            forall|m: int| 0 <= m < k ==> cells@[m].0 != p,
        decreases cells.len() - k,
    {
        if cells[k].0 == p {
            return Some(k);
        }
        k = k + 1;
    }
    None
}

/// A copy of what stands on a point.
fn copy_cell(cell: &BuildingsOnPoint) -> (r: BuildingsOnPoint)
    ensures
        r == *cell,
{
    match &cell.ground {
        Some(b) => BuildingsOnPoint { ground: Some(Rc::new(**b)) },
        None => BuildingsOnPoint { ground: None },
    }
}

/// A copy of every recorded point.
fn copy_cells(cells: &Vec<(Point, BuildingsOnPoint)>) -> (r: Vec<(Point, BuildingsOnPoint)>)
    ensures
        r@ == cells@,
{
    let mut r: Vec<(Point, BuildingsOnPoint)> = Vec::new();
    let mut k: usize = 0;
    while k < cells.len()
        invariant
            k <= cells.len(),
            r@ == cells@.subrange(0, k as int),
        decreases cells.len() - k,
    {
        let cell = copy_cell(&cells[k].1);
        r.push((cells[k].0, cell));
        k = k + 1;
        assert(r@ =~= cells@.subrange(0, k as int));
    }
    assert(r@ =~= cells@);
    r
}

/// A map of a fixed size holding at most one building on the ground of each
/// point.
pub struct MatrixMap {
    dim: Point,
    buildings: Vec<(Point, BuildingsOnPoint)>,
}

impl MatrixMap {
    pub closed spec fn size(&self) -> Point {
        self.dim
    }

    /// The points whose ground is taken.
    pub closed spec fn occupied(&self) -> Set<Point> {
        taken(self.buildings@)
    }

    /// The recorded points and what stands on them, in order.
    pub closed spec fn cells(&self) -> Seq<(Point, BuildingsOnPoint)> {
        self.buildings@
    }

    /// An empty map of size `dim`.
    pub fn new(dim: Point) -> (r: Self)
        ensures
            r.size() == dim,
            r.occupied() == Set::<Point>::empty(),
    {
        let r = MatrixMap { dim, buildings: Vec::new() };
        assert(r.occupied() =~= Set::<Point>::empty());
        r
    }

    fn is_in_map(&self, point: &Point) -> (r: bool)
        ensures
            r == in_map(self.dim, *point),
    {
        let max_x = self.dim.x();
        let max_y = self.dim.y();
        let x = point.x();
        let y = point.y();
        x <= max_x && x >= 0 && y <= max_y && y >= 0
    }

    /// Whether the ground of `p` is taken.
    fn is_taken(&self, p: Point) -> (r: bool)
        ensures
            r == self.occupied().contains(p),
    {
        let mut k: usize = 0;
        while k < self.buildings.len()
            invariant
                k <= self.buildings.len(),
                forall|m: int| 0 <= m < k ==> !(self.buildings@[m].0 == p && self.buildings@[m].1.ground is Some),
            decreases self.buildings.len() - k,
        {
            if self.buildings[k].0 == p && self.buildings[k].1.ground.is_some() {
                return true;
            }
            k = k + 1;
        }
        false
    }

    /// Why placing the request would be refused: out of the map, or the
    /// ground already taken. `None` when it can be placed.
    pub fn check_for_adding_building(&self, request: &AddBuildingRequest) -> (r: Option<AddBuildingError>)
        ensures
            r == adding_refusal(self.size(), self.occupied(), request.position),
    {
        if !self.is_in_map(&request.position) {
            return Some(AddBuildingError::OutOfMap);
        }
        if self.is_taken(request.position) {
            Some(AddBuildingError::AlreadyTaken)
        } else {
            None
        }
    }

    /// Place the building the request asks for, unless refused.
    pub fn add_building(&mut self, request: AddBuildingRequest) -> (r: Result<AddBuildingResponse, AddBuildingError>)
        ensures
            final(self).size() == old(self).size(),
            match adding_refusal(old(self).size(), old(self).occupied(), request.position) {
                Some(e) => r == Err::<AddBuildingResponse, AddBuildingError>(e) && final(self).occupied() == old(self).occupied(),
                None => r matches Ok(resp) && *resp.building == concretized(request.building_prototype_type)
                    && final(self).occupied() == old(self).occupied().insert(request.position),
            },
    {
        if let Some(err) = self.check_for_adding_building(&request) {
            return Err(err);
        }
        let building = concretize_building(&request.building_prototype_type);
        let placed = BuildingsOnPoint { ground: Some(Rc::new(building)) };
        let ghost mut at: int = 0;
        match request.heigth {
            Heigth::Ground => {
                match cell_index(&self.buildings, request.position) {
                    Some(k) => {
                        self.buildings.set(k, (request.position, placed));
                        proof {
                            at = k as int;
                        }
                    },
                    None => {
                        self.buildings.push((request.position, placed));
                        proof {
                            at = old(self).buildings@.len() as int;
                        }
                    },
                }
            },
        }
        proof {
            assert(self.buildings@[at].0 == request.position && self.buildings@[at].1.ground is Some);
            assert forall|m: int| 0 <= m < self.buildings@.len() && m != at implies #[trigger] self.buildings@[m]
                == old(self).buildings@[m] by {}
            assert forall|p: Point| self.occupied().contains(p) == old(self).occupied().insert(request.position).contains(p) by {
                if p != request.position && old(self).occupied().contains(p) {
                    let m = choose|m: int| 0 <= m < old(self).buildings@.len() && old(self).buildings@[m].0 == p
                        && old(self).buildings@[m].1.ground is Some;
                    assert(self.buildings@[m] == old(self).buildings@[m]);
                }
                if p == request.position {
                    assert(self.buildings@[at].0 == p && self.buildings@[at].1.ground is Some);
                }
                if p != request.position && self.occupied().contains(p) {
                    let m = choose|m: int| 0 <= m < self.buildings@.len() && self.buildings@[m].0 == p
                        && self.buildings@[m].1.ground is Some;
                    assert(old(self).buildings@[m] == self.buildings@[m]);
                }
            }
            assert(self.occupied() =~= old(self).occupied().insert(request.position));
        }
        Ok(AddBuildingResponse::new(Rc::new(building)))
    }

    /// Why removing the building at the request's point would be refused:
    /// out of the map, or nothing there. `None` when it can be removed.
    pub fn check_for_deleting_building(&self, request: &DeleteBuildingRequest) -> (r: Option<DeleteBuildingError>)
        ensures
            r == deleting_refusal(self.size(), self.occupied(), request.position),
    {
        if !self.is_in_map(&request.position) {
            return Some(DeleteBuildingError::OutOfMap);
        }
        if self.is_taken(request.position) {
            None
        } else {
            Some(DeleteBuildingError::NoBuildingFound)
        }
    }

    /// Remove the building at the request's point, unless refused.
    pub fn delete_building(&mut self, request: DeleteBuildingRequest) -> (r: Result<DeleteBuildingResponse, DeleteBuildingError>)
        ensures
            final(self).size() == old(self).size(),
            match deleting_refusal(old(self).size(), old(self).occupied(), request.position) {
                Some(e) => r == Err::<DeleteBuildingResponse, DeleteBuildingError>(e) && final(self).occupied() == old(self).occupied(),
                None => r is Ok && final(self).occupied() == old(self).occupied().remove(request.position),
            },
    {
        if let Some(err) = self.check_for_deleting_building(&request) {
            return Err(err);
        }
        match request.heigth {
            Heigth::Ground => {
                let mut k: usize = 0;
                while k < self.buildings.len()
                    invariant
                        k <= self.buildings.len(),
                        self.dim == old(self).dim,
                        self.buildings@.len() == old(self).buildings@.len(),
                        forall|m: int| 0 <= m < k ==> #[trigger] self.buildings@[m] == if old(self).buildings@[m].0 == request.position {
                            (request.position, BuildingsOnPoint { ground: None })
                        } else {
                            old(self).buildings@[m]
                        },
                        forall|m: int| k <= m < self.buildings@.len() ==> #[trigger] self.buildings@[m] == old(self).buildings@[m],
                    decreases self.buildings.len() - k,
                {
                    if self.buildings[k].0 == request.position {
                        self.buildings.set(k, (request.position, BuildingsOnPoint { ground: None }));
                    }
                    k = k + 1;
                }
            },
        }
        proof {
            assert forall|p: Point| self.occupied().contains(p) == old(self).occupied().remove(request.position).contains(p) by {
                if p != request.position && old(self).occupied().contains(p) {
                    let m = choose|m: int| 0 <= m < old(self).buildings@.len() && old(self).buildings@[m].0 == p
                        && old(self).buildings@[m].1.ground is Some;
                    assert(self.buildings@[m] == old(self).buildings@[m]);
                }
                if p == request.position && self.occupied().contains(p) {
                    let m = choose|m: int| 0 <= m < self.buildings@.len() && self.buildings@[m].0 == p
                        && self.buildings@[m].1.ground is Some;
                }
                if p != request.position && self.occupied().contains(p) {
                    let m = choose|m: int| 0 <= m < self.buildings@.len() && self.buildings@[m].0 == p
                        && self.buildings@[m].1.ground is Some;
                    assert(old(self).buildings@[m] == self.buildings@[m]);
                }
            }
            assert(self.occupied() =~= old(self).occupied().remove(request.position));
        }
        Ok(DeleteBuildingResponse::new())
    }

    /// A copy of the map.
    pub fn get_snapshot(&self) -> (r: MapSnapshot)
        ensures
            r.size() == self.size(),
            r.occupied() == self.occupied(),
            r.cells() == self.cells(),
    {
        let buildings = copy_cells(&self.buildings);
        let r = MapSnapshot { dim: self.dim, buildings };
        assert forall|p: Point| r.occupied().contains(p) == self.occupied().contains(p) by {
            if r.occupied().contains(p) {
                let m = choose|m: int| 0 <= m < r.buildings@.len() && r.buildings@[m].0 == p && r.buildings@[m].1.ground is Some;
                assert(self.buildings@[m].0 == p);
            }
            if self.occupied().contains(p) {
                let m = choose|m: int| 0 <= m < self.buildings@.len() && self.buildings@[m].0 == p && self.buildings@[m].1.ground is Some;
                assert(r.buildings@[m].0 == p);
            }
        }
        assert(r.occupied() =~= self.occupied());
        r
    }
}

impl CityMap for MatrixMap {
    open spec fn adding_refused(&self, request: AddBuildingRequest) -> Option<AddBuildingError> {
        adding_refusal(self.size(), self.occupied(), request.position)
    }

    open spec fn deleting_refused(&self, request: DeleteBuildingRequest) -> Option<DeleteBuildingError> {
        deleting_refusal(self.size(), self.occupied(), request.position)
    }

    fn add_building(&mut self, request: AddBuildingRequest) -> (r: Result<AddBuildingResponse, AddBuildingError>) {
        MatrixMap::add_building(self, request)
    }

    fn check_for_adding_building(&self, request: &AddBuildingRequest) -> (r: Option<AddBuildingError>) {
        MatrixMap::check_for_adding_building(self, request)
    }

    fn delete_building(&mut self, request: DeleteBuildingRequest) -> (r: Result<DeleteBuildingResponse, DeleteBuildingError>) {
        MatrixMap::delete_building(self, request)
    }

    fn check_for_deleting_building(&self, request: &DeleteBuildingRequest) -> (r: Option<DeleteBuildingError>) {
        MatrixMap::check_for_deleting_building(self, request)
    }

    fn get_snapshot(&self) -> MapSnapshot {
        MatrixMap::get_snapshot(self)
    }
}

/// A copy of the city map.
pub struct MapSnapshot {
    dim: Point,
    buildings: Vec<(Point, BuildingsOnPoint)>,
}

impl MapSnapshot {
    pub closed spec fn size(&self) -> Point {
        self.dim
    }

    pub closed spec fn occupied(&self) -> Set<Point> {
        taken(self.buildings@)
    }

    /// The recorded points, in order.
    pub closed spec fn cells(&self) -> Seq<(Point, BuildingsOnPoint)> {
        self.buildings@
    }

    pub fn new(dim: Point, buildings: Vec<(Point, BuildingsOnPoint)>) -> (r: Self)
        ensures
            r.size() == dim,
            r.cells() == buildings@,
    {
        MapSnapshot { dim, buildings }
    }

    /// The point and a copy of what stands on it; `None` inside when nothing
    /// was ever placed there.
    pub fn get_cell_at(&self, point: &Point) -> (r: CellDescriptor)
        ensures
            r.point == *point,
            r.buildings_on_point is None <==> forall|k: int| 0 <= k < self.cells().len() ==> self.cells()[k].0 != *point,
            r.buildings_on_point matches Some(c) ==> exists|k: int|
                0 <= k < self.cells().len() && self.cells()[k].0 == *point && c == self.cells()[k].1 && forall|m: int|
                    0 <= m < k ==> self.cells()[m].0 != *point,
    {
        match cell_index(&self.buildings, *point) {
            Some(k) => {
                let cell = copy_cell(&self.buildings[k].1);
                assert(self.cells()[k as int].0 == *point && cell == self.cells()[k as int].1);
                CellDescriptor { point: *point, buildings_on_point: Some(cell) }
            },
            None => CellDescriptor { point: *point, buildings_on_point: None },
        }
    }
}

} // verus!
