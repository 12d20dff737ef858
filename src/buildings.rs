//! The buildings of the city, their snapshots, and their construction.
use vstd::prelude::*;

use crate::configuration::BuildingsConfiguration;
use crate::navigator::Reachable;
use crate::position::Position;
use crate::EntityId;

verus! {

/// A house and the residents living in it.
#[derive(Clone, Copy, Debug)]
pub struct House {
    pub id: EntityId,
    pub position: Position,
    pub current_residents: u32,
    pub max_residents: u32,
}

impl House {
    /// An empty house.
    pub fn new(id: EntityId, position: Position, max_residents: u32) -> (r: Self)
        ensures
            r == (House { id, position, current_residents: 0, max_residents }),
    {
        House { id, position, current_residents: 0, max_residents }
    }

    /// `count` residents move in; a house never holds more than its maximum.
    pub fn inhabitants_arrived(&mut self, count: u32)
        requires
            old(self).current_residents + count <= old(self).max_residents,
        ensures
            *final(self) == (House { current_residents: (old(self).current_residents + count) as u32, ..*old(self) }),
    {
        self.current_residents = self.current_residents + count;
    }

    /// One resident leaves.
    pub fn inhabitant_left(&mut self)
        requires
            old(self).current_residents >= 1,
        ensures
            *final(self) == (House { current_residents: (old(self).current_residents - 1) as u32, ..*old(self) }),
    {
        self.current_residents = self.current_residents - 1;
    }
}

impl Reachable for House {
    fn to_position(&self) -> Position {
        self.position
    }
}

/// An office and the people working in it.
#[derive(Clone, Copy, Debug)]
pub struct Office {
    pub id: EntityId,
    pub position: Position,
    pub current_workers: u32,
    pub max_workers: u32,
}

impl Office {
    /// An office with nobody working yet.
    pub fn new(id: EntityId, position: Position, max_workers: u32) -> (r: Self)
        ensures
            r == (Office { id, position, current_workers: 0, max_workers }),
    {
        Office { id, position, current_workers: 0, max_workers }
    }

    /// `count` workers are hired; an office never holds more than its maximum.
    pub fn workers_arrived(&mut self, count: u32)
        requires
            old(self).current_workers + count <= old(self).max_workers,
        ensures
            *final(self) == (Office { current_workers: (old(self).current_workers + count) as u32, ..*old(self) }),
    {
        self.current_workers = self.current_workers + count;
    }

    /// One worker leaves.
    pub fn worker_left(&mut self)
        requires
            old(self).current_workers >= 1,
        ensures
            *final(self) == (Office { current_workers: (old(self).current_workers - 1) as u32, ..*old(self) }),
    {
        self.current_workers = self.current_workers - 1;
    }
}

/// A piece of street.
#[derive(Clone, Copy, Debug)]
pub struct Street {
    pub id: EntityId,
    pub position: Position,
}

impl Street {
    pub fn new(id: EntityId, position: Position) -> (r: Self)
        ensures
            r == (Street { id, position }),
    {
        Street { id, position }
    }
}

/// A garden.
#[derive(Clone, Copy, Debug)]
pub struct Garden {
    pub id: EntityId,
    pub position: Position,
}

impl Garden {
    pub fn new(id: EntityId, position: Position) -> (r: Self)
        ensures
            r == (Garden { id, position }),
    {
        Garden { id, position }
    }
}

/// A power plant burning biomass.
#[derive(Clone, Copy, Debug)]
pub struct BiomassPowerPlant {
    pub id: EntityId,
    pub position: Position,
}

impl BiomassPowerPlant {
    pub fn new(id: EntityId, position: Position) -> (r: Self)
        ensures
            r == (BiomassPowerPlant { id, position }),
    {
        BiomassPowerPlant { id, position }
    }
}

/// The kinds of building.
#[derive(Clone, Copy, PartialEq, Eq, Structural, Debug)]
pub enum BuildingType {
    House,
    Street,
    Garden,
    Office,
    BiomassPowerPlant,
}

/// A placed building.
#[derive(Clone, Copy, Debug)]
pub enum Building {
    House(House),
    Street(Street),
    Garden(Garden),
    Office(Office),
    BiomassPowerPlant(BiomassPowerPlant),
}

/// The id of a building.
pub open spec fn building_id(b: Building) -> EntityId {
    match b {
        Building::House(h) => h.id,
        Building::Street(s) => s.id,
        Building::Garden(g) => g.id,
        Building::Office(o) => o.id,
        Building::BiomassPowerPlant(p) => p.id,
    }
}

/// Where a building stands.
pub open spec fn building_position(b: Building) -> Position {
    match b {
        Building::House(h) => h.position,
        Building::Street(s) => s.position,
        Building::Garden(g) => g.position,
        Building::Office(o) => o.position,
        Building::BiomassPowerPlant(p) => p.position,
    }
}

/// The kind of a building.
pub open spec fn building_kind(b: Building) -> BuildingType {
    match b {
        Building::House(_) => BuildingType::House,
        Building::Street(_) => BuildingType::Street,
        Building::Garden(_) => BuildingType::Garden,
        Building::Office(_) => BuildingType::Office,
        Building::BiomassPowerPlant(_) => BuildingType::BiomassPowerPlant,
    }
}

/// The snapshot of a building.
pub open spec fn snapshot_of(b: Building) -> BuildingSnapshot {
    match b {
        Building::House(h) => BuildingSnapshot::House(
            HouseSnapshot {
                id: h.id,
                position: h.position,
                current_residents: h.current_residents,
                max_residents: h.max_residents,
            },
        ),
        Building::Office(o) => BuildingSnapshot::Office(
            OfficeSnapshot { id: o.id, position: o.position, current_workers: o.current_workers, max_workers: o.max_workers },
        ),
        Building::Street(s) => BuildingSnapshot::Street(StreetSnapshot { id: s.id, position: s.position }),
        Building::Garden(g) => BuildingSnapshot::Garden(GardenSnapshot { id: g.id, position: g.position }),
        Building::BiomassPowerPlant(p) => BuildingSnapshot::BiomassPowerPlant(
            BiomassPowerPlantSnapshot { id: p.id, position: p.position },
        ),
    }
}

impl Building {
    pub fn id(&self) -> (r: EntityId)
        ensures
            r == building_id(*self),
    {
        match self {
            Building::House(h) => h.id,
            Building::Street(s) => s.id,
            Building::Garden(g) => g.id,
            Building::Office(o) => o.id,
            Building::BiomassPowerPlant(p) => p.id,
        }
    }

    pub fn get_id(&self) -> (r: EntityId)
        ensures
            r == building_id(*self),
    {
        self.id()
    }

    pub fn get_position(&self) -> (r: &Position)
        ensures
            *r == building_position(*self),
    {
        match self {
            Building::House(h) => &h.position,
            Building::Street(s) => &s.position,
            Building::Garden(g) => &g.position,
            Building::Office(o) => &o.position,
            Building::BiomassPowerPlant(p) => &p.position,
        }
    }

    /// The kind of this building.
    pub fn kind(&self) -> (r: BuildingType)
        ensures
            r == building_kind(*self),
    {
        match self {
            Building::House(_) => BuildingType::House,
            Building::Street(_) => BuildingType::Street,
            Building::Garden(_) => BuildingType::Garden,
            Building::Office(_) => BuildingType::Office,
            Building::BiomassPowerPlant(_) => BuildingType::BiomassPowerPlant,
        }
    }

    /// The house, for a house.
    pub fn as_mut_house(&mut self) -> (r: Option<&mut House>)
        ensures
            match *old(self) {
                Building::House(h) => r matches Some(x) && *x == h && *final(self) == Building::House(*final(x)),
                _ => r is None && *final(self) == *old(self),
            },
    {
        match self {
            Building::House(h) => Some(h),
            _ => None,
        }
    }

    /// The office, for an office.
    pub fn as_mut_office(&mut self) -> (r: Option<&mut Office>)
        ensures
            match *old(self) {
                Building::Office(o) => r matches Some(x) && *x == o && *final(self) == Building::Office(*final(x)),
                _ => r is None && *final(self) == *old(self),
            },
    {
        match self {
            Building::Office(o) => Some(o),
            _ => None,
        }
    }

    pub fn into_house(self) -> (r: Option<House>)
        ensures
            r == match self {
                Building::House(h) => Some(h),
                _ => None,
            },
    {
        match self {
            Building::House(h) => Some(h),
            _ => None,
        }
    }

    pub fn into_office(self) -> (r: Option<Office>)
        ensures
            r == match self {
                Building::Office(o) => Some(o),
                _ => None,
            },
    {
        match self {
            Building::Office(o) => Some(o),
            _ => None,
        }
    }

    pub fn into_street(self) -> (r: Option<Street>)
        ensures
            r == match self {
                Building::Street(s) => Some(s),
                _ => None,
            },
    {
        match self {
            Building::Street(s) => Some(s),
            _ => None,
        }
    }

    pub fn into_garden(self) -> (r: Option<Garden>)
        ensures
            r == match self {
                Building::Garden(g) => Some(g),
                _ => None,
            },
    {
        match self {
            Building::Garden(g) => Some(g),
            _ => None,
        }
    }

    /// What the rest of the simulation is told about this building.
    pub fn snapshot(&self) -> (r: BuildingSnapshot)
        ensures
            r == snapshot_of(*self),
    {
        match self {
            Building::House(h) => BuildingSnapshot::House(
                HouseSnapshot {
                    id: h.id,
                    position: h.position,
                    current_residents: h.current_residents,
                    max_residents: h.max_residents,
                },
            ),
            Building::Office(o) => BuildingSnapshot::Office(
                OfficeSnapshot {
                    id: o.id,
                    position: o.position,
                    current_workers: o.current_workers,
                    max_workers: o.max_workers,
                },
            ),
            Building::Street(s) => BuildingSnapshot::Street(StreetSnapshot { id: s.id, position: s.position }),
            Building::Garden(g) => BuildingSnapshot::Garden(GardenSnapshot { id: g.id, position: g.position }),
            Building::BiomassPowerPlant(p) => BuildingSnapshot::BiomassPowerPlant(
                BiomassPowerPlantSnapshot { id: p.id, position: p.position },
            ),
        }
    }
}

#[derive(Clone, Copy, PartialEq, Eq, Structural, Debug)]
pub struct HouseSnapshot {
    pub id: EntityId,
    pub position: Position,
    pub current_residents: u32,
    pub max_residents: u32,
}

#[derive(Clone, Copy, PartialEq, Eq, Structural, Debug)]
pub struct OfficeSnapshot {
    pub id: EntityId,
    pub position: Position,
    pub current_workers: u32,
    pub max_workers: u32,
}

#[derive(Clone, Copy, PartialEq, Eq, Structural, Debug)]
pub struct StreetSnapshot {
    pub id: EntityId,
    pub position: Position,
}

#[derive(Clone, Copy, PartialEq, Eq, Structural, Debug)]
pub struct GardenSnapshot {
    pub id: EntityId,
    pub position: Position,
}

#[derive(Clone, Copy, PartialEq, Eq, Structural, Debug)]
pub struct BiomassPowerPlantSnapshot {
    pub id: EntityId,
    pub position: Position,
}

/// A read-only view of a building, handed to the other components.
#[derive(Clone, Copy, PartialEq, Eq, Structural, Debug)]
pub enum BuildingSnapshot {
    House(HouseSnapshot),
    Office(OfficeSnapshot),
    Street(StreetSnapshot),
    Garden(GardenSnapshot),
    BiomassPowerPlant(BiomassPowerPlantSnapshot),
}

/// The id carried by a snapshot.
pub open spec fn snapshot_id(s: BuildingSnapshot) -> EntityId {
    match s {
        BuildingSnapshot::House(b) => b.id,
        BuildingSnapshot::Office(b) => b.id,
        BuildingSnapshot::Street(b) => b.id,
        BuildingSnapshot::Garden(b) => b.id,
        BuildingSnapshot::BiomassPowerPlant(b) => b.id,
    }
}

/// The position carried by a snapshot.
pub open spec fn snapshot_position(s: BuildingSnapshot) -> Position {
    match s {
        BuildingSnapshot::House(b) => b.position,
        BuildingSnapshot::Office(b) => b.position,
        BuildingSnapshot::Street(b) => b.position,
        BuildingSnapshot::Garden(b) => b.position,
        BuildingSnapshot::BiomassPowerPlant(b) => b.position,
    }
}

impl BuildingSnapshot {
    pub fn into_house(self) -> (r: Option<HouseSnapshot>)
        ensures
            r == match self {
                BuildingSnapshot::House(h) => Some(h),
                _ => None,
            },
    {
        match self {
            BuildingSnapshot::House(h) => Some(h),
            _ => None,
        }
    }

    pub fn into_office(self) -> (r: Option<OfficeSnapshot>)
        ensures
            r == match self {
                BuildingSnapshot::Office(o) => Some(o),
                _ => None,
            },
    {
        match self {
            BuildingSnapshot::Office(o) => Some(o),
            _ => None,
        }
    }

    pub fn get_position(&self) -> (r: &Position)
        ensures
            *r == snapshot_position(*self),
    {
        match self {
            BuildingSnapshot::House(b) => &b.position,
            BuildingSnapshot::Office(b) => &b.position,
            BuildingSnapshot::Street(b) => &b.position,
            BuildingSnapshot::Garden(b) => &b.position,
            BuildingSnapshot::BiomassPowerPlant(b) => &b.position,
        }
    }

    pub fn get_id(&self) -> (r: &EntityId)
        ensures
            *r == snapshot_id(*self),
    {
        match self {
            BuildingSnapshot::House(b) => &b.id,
            BuildingSnapshot::Office(b) => &b.id,
            BuildingSnapshot::Street(b) => &b.id,
            BuildingSnapshot::Garden(b) => &b.id,
            BuildingSnapshot::BiomassPowerPlant(b) => &b.id,
        }
    }
}

} // verus!
