//! Construction of buildings: a building occupies its cell at once and is
//! completed after a number of steps that depends on its kind.
use vstd::prelude::*;

use crate::buildings::{
    building_id, building_kind, building_position, snapshot_of, BiomassPowerPlant, Building, BuildingSnapshot,
    BuildingType, Garden, House, Office, Street,
};
use crate::configuration::BuildingsConfiguration;
use crate::position::Position;
use crate::EntityId;

verus! {

broadcast use vstd::seq_lib::group_seq_properties;

/// A request to build something somewhere.
#[derive(Clone, Copy, PartialEq, Eq, Structural, Debug)]
pub struct BuildRequest {
    pub position: Position,
    pub building_type: BuildingType,
}

impl BuildRequest {
    pub fn new(position: Position, building_type: BuildingType) -> (r: Self)
        ensures
            r == (BuildRequest { position, building_type }),
    {
        BuildRequest { position, building_type }
    }
}

/// How far a construction has gone.
#[derive(Clone, Copy, PartialEq, Eq, Structural, Debug)]
pub struct ProgressStatus {
    pub current_step: u8,
    pub step_to_reach: u8,
}

impl ProgressStatus {
    /// One step further.
    pub fn progress(self) -> (r: Self)
        requires
            self.current_step < u8::MAX,
        ensures
            r == (ProgressStatus { current_step: (self.current_step + 1) as u8, ..self }),
    {
        ProgressStatus { current_step: self.current_step + 1, ..self }
    }

    /// One step further; only called on an unfinished construction.
    pub fn make_progress(&mut self)
        requires
            old(self).current_step < old(self).step_to_reach,
        ensures
            *final(self) == (ProgressStatus { current_step: (old(self).current_step + 1) as u8, ..*old(self) }),
    {
        self.current_step = self.current_step + 1;
    }

    pub fn is_completed(&self) -> (r: bool)
        ensures
            r == (self.current_step >= self.step_to_reach),
    {
        self.current_step >= self.step_to_reach
    }
}

/// A building being built.
#[derive(Clone, Copy, Debug)]
pub struct BuildingUnderConstruction {
    pub building: Building,
    pub progress_status: ProgressStatus,
}

impl BuildingUnderConstruction {
    pub fn get_building(&self) -> (r: &Building)
        ensures
            *r == self.building,
    {
        &self.building
    }

    pub fn is_completed(&self) -> (r: bool)
        ensures
            r == (self.progress_status.current_step >= self.progress_status.step_to_reach),
    {
        self.progress_status.is_completed()
    }
}

/// How many steps building a kind takes.
pub open spec fn steps_for(configuration: BuildingsConfiguration, kind: BuildingType) -> u8 {
    match kind {
        BuildingType::House => configuration.house.common.time_for_building,
        BuildingType::Office => configuration.office.common.time_for_building,
        BuildingType::Garden => configuration.garden.common.time_for_building,
        BuildingType::Street => configuration.street.common.time_for_building,
        BuildingType::BiomassPowerPlant => configuration.biomass_power_plant.common.time_for_building,
    }
}

/// `s` with building `b` stored under its id, replacing a building with the
/// same id.
pub open spec fn stored(s: Seq<Building>, b: Building) -> Seq<Building> {
    if exists|k: int| 0 <= k < s.len() && building_id(s[k]) == building_id(b) {
        let k = choose|k: int| 0 <= k < s.len() && building_id(s[k]) == building_id(b);
        s.update(k, b)
    } else {
        s.push(b)
    }
}

/// The occupied cells and the completed buildings.
pub struct BuildingManager {
    configuration: BuildingsConfiguration,
    position_already_used: Vec<Position>,
    buildings: Vec<Building>,
}

impl BuildingManager {
    pub closed spec fn used(&self) -> Set<Position> {
        self.position_already_used@.to_set()
    }

    pub closed spec fn completed(&self) -> Seq<Building> {
        self.buildings@
    }

    pub closed spec fn config(&self) -> BuildingsConfiguration {
        self.configuration
    }

    /// Completed buildings have unique ids.
    pub closed spec fn wf(&self) -> bool {
        forall|i: int, j: int|
            0 <= i < j < self.buildings@.len() ==> building_id(self.buildings@[i]) != building_id(self.buildings@[j])
    }

    pub fn new(configuration: BuildingsConfiguration) -> (r: Self)
        ensures
            r.wf(),
            r.config() == configuration,
            r.used() == Set::<Position>::empty(),
            r.completed() == Seq::<Building>::empty(),
    {
        let r = BuildingManager { configuration, position_already_used: Vec::new(), buildings: Vec::new() };
        assert(r.used() =~= Set::<Position>::empty());
        r
    }

    /// How many steps building this takes.
    fn get_step_to_reach(&self, building: &Building) -> (r: u8)
        ensures
            r == steps_for(self.configuration, building_kind(*building)),
    {
        match building {
            Building::House(_) => self.configuration.house.common.time_for_building,
            Building::Office(_) => self.configuration.office.common.time_for_building,
            Building::Garden(_) => self.configuration.garden.common.time_for_building,
            Building::Street(_) => self.configuration.street.common.time_for_building,
            Building::BiomassPowerPlant(_) => self.configuration.biomass_power_plant.common.time_for_building,
        }
    }

    /// Occupy the cell of `building` and start building it; refused when the
    /// cell is already occupied.
    pub fn start_building_creation(&mut self, building: Building) -> (r: Result<BuildingUnderConstruction, &'static str>)
        requires
            old(self).wf(),
        ensures
            final(self).wf(),
            final(self).completed() == old(self).completed(),
            final(self).config() == old(self).config(),
            old(self).used().contains(building_position(building)) ==> r is Err && final(self).used() == old(self).used(),
            !old(self).used().contains(building_position(building)) ==> r == Ok::<BuildingUnderConstruction, &'static str>(
                BuildingUnderConstruction {
                    building,
                    progress_status: ProgressStatus {
                        current_step: 0,
                        step_to_reach: steps_for(old(self).config(), building_kind(building)),
                    },
                },
            ) && final(self).used() == old(self).used().insert(building_position(building)),
    {
        let position = *building.get_position();
        let mut k: usize = 0;
        while k < self.position_already_used.len()
            invariant
                *self == *old(self),
                old(self).wf(),
                position == building_position(building),
                k <= self.position_already_used.len(),
                forall|m: int| 0 <= m < k ==> self.position_already_used@[m] != position,
            decreases self.position_already_used.len() - k,
        {
            if self.position_already_used[k] == position {
                assert(self.position_already_used@[k as int] == position);
                assert(self.position_already_used@.contains(position));
                assert(self.used().contains(position));
                return Err("Position already used");
            }
            k = k + 1;
        }
        self.position_already_used.push(position);
        assert(self.used() =~= old(self).used().insert(position));
        let step_to_reach = self.get_step_to_reach(&building);
        Ok(BuildingUnderConstruction { building, progress_status: ProgressStatus { current_step: 0, step_to_reach } })
    }

    /// One step of construction; returns whether the building is now complete.
    pub fn make_progress(&mut self, building_under_construction: &mut BuildingUnderConstruction) -> (r: bool)
        requires
            old(building_under_construction).progress_status.current_step < old(
                building_under_construction,
            ).progress_status.step_to_reach,
        ensures
            *final(self) == *old(self),
            *final(building_under_construction) == (BuildingUnderConstruction {
                progress_status: ProgressStatus {
                    current_step: (old(building_under_construction).progress_status.current_step + 1) as u8,
                    ..old(building_under_construction).progress_status
                },
                ..*old(building_under_construction)
            }),
            r == (final(building_under_construction).progress_status.current_step
                >= final(building_under_construction).progress_status.step_to_reach),
    {
        building_under_construction.progress_status.make_progress();
        building_under_construction.is_completed()
    }

    /// Index of the completed building with this id.
    fn building_index(&self, id: EntityId) -> (r: Option<usize>)
        ensures
            r matches Some(k) ==> k < self.buildings@.len() && building_id(self.buildings@[k as int]) == id,
            r is None ==> forall|k: int| 0 <= k < self.buildings@.len() ==> building_id(self.buildings@[k]) != id,
    {
        let mut k: usize = 0;
        while k < self.buildings.len()
            invariant
                k <= self.buildings.len(),
                forall|m: int| 0 <= m < k ==> building_id(self.buildings@[m]) != id,
            decreases self.buildings.len() - k,
        {
            if self.buildings[k].get_id() == id {
                return Some(k);
            }
            k = k + 1;
        }
        None
    }

    /// Record a finished construction among the completed buildings.
    pub fn finalize_building_creation(&mut self, building_under_construction: &BuildingUnderConstruction)
        requires
            old(self).wf(),
        ensures
            final(self).wf(),
            final(self).completed() == stored(old(self).completed(), building_under_construction.building),
            final(self).used() == old(self).used(),
            final(self).config() == old(self).config(),
    {
        let b = building_under_construction.building;
        match self.building_index(b.get_id()) {
            Some(k) => {
                self.buildings[k] = b;
                proof {
                    let c = choose|c: int| 0 <= c < old(self).buildings@.len() && building_id(old(self).buildings@[c]) == building_id(b);
                    assert(c == k);
                }
            },
            None => {
                self.buildings.push(b);
                proof {
                    assert forall|i: int, j: int| 0 <= i < j < self.buildings@.len() implies building_id(self.buildings@[i])
                        != building_id(self.buildings@[j]) by {
                        if j == self.buildings@.len() - 1 {
                            assert(building_id(old(self).buildings@[i]) != building_id(b));
                        }
                    }
                }
            },
        }
    }

    /// `count` inhabitants moved into the completed house `house_id`.
    pub fn inhabitants_arrived_at_home(&mut self, house_id: EntityId, count: u32)
        requires
            old(self).wf(),
            exists|k: int|
                0 <= k < old(self).completed().len() && (#[trigger] old(self).completed()[k] matches Building::House(h)
                    && h.id == house_id && h.current_residents + count <= h.max_residents),
        ensures
            final(self).wf(),
            final(self).used() == old(self).used(),
            final(self).config() == old(self).config(),
            final(self).completed().len() == old(self).completed().len(),
            forall|k: int|
                0 <= k < old(self).completed().len() ==> #[trigger] final(self).completed()[k] == match old(
                    self,
                ).completed()[k] {
                    Building::House(h) => if h.id == house_id {
                        Building::House(House { current_residents: (h.current_residents + count) as u32, ..h })
                    } else {
                        Building::House(h)
                    },
                    other => other,
                },
    {
        let ghost k0 = choose|k: int|
            0 <= k < old(self).completed().len() && (#[trigger] old(self).completed()[k] matches Building::House(h)
                && h.id == house_id && h.current_residents + count <= h.max_residents);
        match self.building_index(house_id) {
            Some(k) => {
                assert(k == k0);
                let mut b = self.buildings[k];
                match b.as_mut_house() {
                    Some(house) => house.inhabitants_arrived(count),
                    None => {},
                }
                self.buildings[k] = b;
                proof {
                    assert forall|m: int| 0 <= m < old(self).completed().len() && m != k implies building_id(
                        old(self).completed()[m],
                    ) != house_id by {}
                }
            },
            None => {},
        }
    }

    /// `count` workers were hired at the completed office `office_id`.
    pub fn workers_found_job(&mut self, office_id: EntityId, count: u32)
        requires
            old(self).wf(),
            exists|k: int|
                0 <= k < old(self).completed().len() && (#[trigger] old(self).completed()[k] matches Building::Office(o)
                    && o.id == office_id && o.current_workers + count <= o.max_workers),
        ensures
            final(self).wf(),
            final(self).used() == old(self).used(),
            final(self).config() == old(self).config(),
            final(self).completed().len() == old(self).completed().len(),
            forall|k: int|
                0 <= k < old(self).completed().len() ==> #[trigger] final(self).completed()[k] == match old(
                    self,
                ).completed()[k] {
                    Building::Office(o) => if o.id == office_id {
                        Building::Office(Office { current_workers: (o.current_workers + count) as u32, ..o })
                    } else {
                        Building::Office(o)
                    },
                    other => other,
                },
    {
        let ghost k0 = choose|k: int|
            0 <= k < old(self).completed().len() && (#[trigger] old(self).completed()[k] matches Building::Office(o)
                && o.id == office_id && o.current_workers + count <= o.max_workers);
        match self.building_index(office_id) {
            Some(k) => {
                assert(k == k0);
                let mut b = self.buildings[k];
                match b.as_mut_office() {
                    Some(office) => office.workers_arrived(count),
                    None => {},
                }
                self.buildings[k] = b;
                proof {
                    assert forall|m: int| 0 <= m < old(self).completed().len() && m != k implies building_id(
                        old(self).completed()[m],
                    ) != office_id by {}
                }
            },
            None => {},
        }
    }

    /// A new, empty house of the configured size.
    pub fn house(&self, id: EntityId, position: Position) -> (r: House)
        ensures
            r == (House { id, position, current_residents: 0, max_residents: self.config().house.max_residents }),
    {
        House::new(id, position, self.configuration.house.max_residents)
    }

    /// A new office of the configured size, with nobody working yet.
    pub fn office(&self, id: EntityId, position: Position) -> (r: Office)
        ensures
            r == (Office { id, position, current_workers: 0, max_workers: self.config().office.max_worker }),
    {
        Office::new(id, position, self.configuration.office.max_worker)
    }

    pub fn garden(&self, id: EntityId, position: Position) -> (r: Garden)
        ensures
            r == (Garden { id, position }),
    {
        Garden::new(id, position)
    }

    pub fn street(&self, id: EntityId, position: Position) -> (r: Street)
        ensures
            r == (Street { id, position }),
    {
        Street::new(id, position)
    }

    pub fn biomass_power_plant(&self, id: EntityId, position: Position) -> (r: BiomassPowerPlant)
        ensures
            r == (BiomassPowerPlant { id, position }),
    {
        BiomassPowerPlant::new(id, position)
    }

    /// A new building of the given kind.
    pub fn building_for(&self, kind: BuildingType, id: EntityId, position: Position) -> (r: Building)
        ensures
            building_kind(r) == kind,
            building_id(r) == id,
            building_position(r) == position,
            kind == BuildingType::House ==> r == Building::House(
                House { id, position, current_residents: 0, max_residents: self.config().house.max_residents },
            ),
            kind == BuildingType::Office ==> r == Building::Office(
                Office { id, position, current_workers: 0, max_workers: self.config().office.max_worker },
            ),
    {
        match kind {
            BuildingType::House => Building::House(self.house(id, position)),
            BuildingType::Garden => Building::Garden(self.garden(id, position)),
            BuildingType::Street => Building::Street(self.street(id, position)),
            BuildingType::Office => Building::Office(self.office(id, position)),
            BuildingType::BiomassPowerPlant => Building::BiomassPowerPlant(self.biomass_power_plant(id, position)),
        }
    }

    /// One tick of a construction. Nothing happens where the desirability is
    /// negative; otherwise the construction makes one step and, once complete,
    /// is recorded and its snapshot returned for the other components.
    pub fn tick_construction(&mut self, building_under_construction: &mut BuildingUnderConstruction, desirable: bool) -> (r:
        Option<BuildingSnapshot>)
        requires
            old(self).wf(),
        ensures
            final(self).wf(),
            final(self).used() == old(self).used(),
            final(self).config() == old(self).config(),
            !desirable || old(building_under_construction).progress_status.current_step
                >= old(building_under_construction).progress_status.step_to_reach ==> r is None
                && *final(building_under_construction) == *old(building_under_construction)
                && final(self).completed() == old(self).completed(),
            desirable && old(building_under_construction).progress_status.current_step
                < old(building_under_construction).progress_status.step_to_reach ==> {
                let stepped = (old(building_under_construction).progress_status.current_step + 1) as u8;
                &&& final(building_under_construction).progress_status.current_step == stepped
                &&& final(building_under_construction).progress_status.step_to_reach
                    == old(building_under_construction).progress_status.step_to_reach
                &&& final(building_under_construction).building == old(building_under_construction).building
                &&& if stepped >= old(building_under_construction).progress_status.step_to_reach {
                    r == Some(snapshot_of(old(building_under_construction).building)) && final(self).completed()
                        == stored(old(self).completed(), old(building_under_construction).building)
                } else {
                    r is None && final(self).completed() == old(self).completed()
                }
            },
    {
        if !desirable || building_under_construction.is_completed() {
            return None;
        }
        let done = self.make_progress(building_under_construction);
        if !done {
            return None;
        }
        self.finalize_building_creation(building_under_construction);
        Some(building_under_construction.building.snapshot())
    }

    /// The completed building with this id, if any.
    pub fn get_building(&self, id: &EntityId) -> (r: Option<Building>)
        ensures
            r matches Some(b) ==> building_id(b) == *id && self.completed().contains(b),
            r is None ==> forall|k: int| 0 <= k < self.completed().len() ==> building_id(self.completed()[k]) != *id,
    {
        match self.building_index(*id) {
            Some(k) => {
                assert(self.completed()[k as int] == self.buildings@[k as int]);
                Some(self.buildings[k])
            },
            None => None,
        }
    }
}

} // verus!
