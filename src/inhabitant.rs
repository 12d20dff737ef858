//! Inhabitants, where they live and where they work.
use vstd::prelude::*;

use crate::position::Position;
use crate::EntityId;

verus! {

/// Education of an inhabitant, from the lowest level up.
#[derive(Clone, Copy, PartialEq, Eq, Structural, Debug)]
pub enum EducationLevel {
    Unschooled,
    Low,
}

/// The rank of a level: higher is more educated.
pub open spec fn education_rank(level: EducationLevel) -> int {
    match level {
        EducationLevel::Unschooled => 0,
        EducationLevel::Low => 1,
    }
}

/// Levels compare by rank.
pub open spec fn level_order(a: EducationLevel, b: EducationLevel) -> std::cmp::Ordering {
    if education_rank(a) < education_rank(b) {
        std::cmp::Ordering::Less
    } else if education_rank(a) > education_rank(b) {
        std::cmp::Ordering::Greater
    } else {
        std::cmp::Ordering::Equal
    }
}

impl PartialOrd for EducationLevel {
    fn partial_cmp(&self, other: &Self) -> (r: Option<std::cmp::Ordering>) {
        match (self, other) {
            (EducationLevel::Unschooled, EducationLevel::Unschooled) | (EducationLevel::Low, EducationLevel::Low) => Some(
                std::cmp::Ordering::Equal,
            ),
            (_, EducationLevel::Low) => Some(std::cmp::Ordering::Less),
            (EducationLevel::Low, _) => Some(std::cmp::Ordering::Greater),
        }
    }
}

impl vstd::std_specs::cmp::PartialOrdSpecImpl for EducationLevel {
    open spec fn obeys_partial_cmp_spec() -> bool {
        true
    }

    open spec fn partial_cmp_spec(&self, other: &Self) -> Option<std::cmp::Ordering> {
        Some(level_order(*self, *other))
    }
}

impl EducationLevel {
    /// Whether this level is at least `other`.
    pub fn is_at_least(&self, other: &EducationLevel) -> (r: bool)
        ensures
            r == (education_rank(*self) >= education_rank(*other)),
    {
        *self >= *other
    }
}

/// Where an inhabitant lives.
#[derive(Clone, Copy, PartialEq, Eq, Structural, Debug)]
pub struct Home {
    pub house_id: EntityId,
    pub house_position: Position,
}

impl Home {
    pub fn new(house_id: EntityId, house_position: Position) -> (r: Self)
        ensures
            r.house_id == house_id,
            r.house_position == house_position,
    {
        Home { house_id, house_position }
    }

    pub fn get_house_id(&self) -> (r: &EntityId)
        ensures
            *r == self.house_id,
    {
        &self.house_id
    }

    pub fn get_house_position(&self) -> (r: &Position)
        ensures
            *r == self.house_position,
    {
        &self.house_position
    }
}

/// Where an inhabitant works.
#[derive(Clone, Copy, PartialEq, Eq, Structural, Debug)]
pub struct WorkPlace {
    pub work_place_id: EntityId,
    pub work_place_position: Position,
}

impl WorkPlace {
    pub fn new(work_place_id: EntityId, work_place_position: Position) -> (r: Self)
        ensures
            r.work_place_id == work_place_id,
            r.work_place_position == work_place_position,
    {
        WorkPlace { work_place_id, work_place_position }
    }

    pub fn get_work_place_id(&self) -> (r: &EntityId)
        ensures
            *r == self.work_place_id,
    {
        &self.work_place_id
    }

    pub fn get_work_place_position(&self) -> (r: &Position)
        ensures
            *r == self.work_place_position,
    {
        &self.work_place_position
    }
}

/// An inhabitant of the city.
#[derive(Clone, Copy, PartialEq, Eq, Structural, Debug)]
pub struct Inhabitant {
    pub id: EntityId,
    pub home: Option<Home>,
    pub work_place_id: Option<WorkPlace>,
    pub education_level: EducationLevel,
}

impl Inhabitant {
    /// A newcomer, without home or work.
    pub fn new(id: EntityId, education_level: EducationLevel) -> (r: Self)
        ensures
            r == (Inhabitant { id, home: None, work_place_id: None, education_level }),
    {
        Inhabitant { id, home: None, work_place_id: None, education_level }
    }

    /// Move into a house; an inhabitant moves in once.
    pub fn home_found(&mut self, house_id: EntityId, house_position: Position)
        requires
            old(self).home is None,
        ensures
            *final(self) == (Inhabitant { home: Some(Home { house_id, house_position }), ..*old(self) }),
    {
        self.home = Some(Home { house_id, house_position });
    }

    /// Start working somewhere; an inhabitant is hired once.
    pub fn work_place_found(&mut self, work_place_id: EntityId, work_place_position: Position)
        requires
            old(self).work_place_id is None,
        ensures
            *final(self) == (Inhabitant {
                work_place_id: Some(WorkPlace { work_place_id, work_place_position }),
                ..*old(self)
            }),
    {
        self.work_place_id = Some(WorkPlace { work_place_id, work_place_position });
    }

    pub fn get_id(&self) -> (r: &EntityId)
        ensures
            *r == self.id,
    {
        &self.id
    }

    pub fn get_home(&self) -> (r: &Option<Home>)
        ensures
            *r == self.home,
    {
        &self.home
    }

    pub fn get_work_place_id(&self) -> (r: &Option<WorkPlace>)
        ensures
            *r == self.work_place_id,
    {
        &self.work_place_id
    }

    pub fn get_education_level(&self) -> (r: &EducationLevel)
        ensures
            *r == self.education_level,
    {
        &self.education_level
    }
}

} // verus!
