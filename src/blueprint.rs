//! Building prototypes and the concrete buildings made from them.
use vstd::prelude::*;

verus! {

/// The kinds of building that can be placed on the map.
#[derive(Clone, Copy, PartialEq, Eq, Structural, Debug)]
pub enum BuildingPrototypeType {
    Street,
    House1x1,
}

/// The footprint of a prototype, in cells.
#[derive(Clone, Copy, PartialEq, Eq, Structural, Debug)]
pub struct SizeP(pub u32, pub u32);

/// What a kind of building looks like before it is placed.
#[derive(Clone, Copy, PartialEq, Eq, Structural, Debug)]
pub struct BuildingPrototype {
    pub code: BuildingPrototypeType,
    pub size: SizeP,
}

impl BuildingPrototype {
    /// The prototype of a piece of street.
    pub fn street() -> (r: Self)
        ensures
            r == (BuildingPrototype { code: BuildingPrototypeType::Street, size: SizeP(1, 1) }),
    {
        BuildingPrototype { code: BuildingPrototypeType::Street, size: SizeP(1, 1) }
    }

    /// The prototype of a one-cell house.
    pub fn house_1x1() -> (r: Self)
        ensures
            r == (BuildingPrototype { code: BuildingPrototypeType::House1x1, size: SizeP(1, 1) }),
    {
        BuildingPrototype { code: BuildingPrototypeType::House1x1, size: SizeP(1, 1) }
    }
}

/// A placed piece of street.
#[derive(Clone, Copy, PartialEq, Eq, Structural, Debug)]
pub struct Street {}

/// A placed one-cell house.
#[derive(Clone, Copy, PartialEq, Eq, Structural, Debug)]
pub struct House1x1 {
    pub max_citizens: u8,
    pub current_citizens: u8,
}

impl House1x1 {
    pub fn new(max_citizens: u8, current_citizens: u8) -> (r: Self)
        ensures
            r == (House1x1 { max_citizens, current_citizens }),
    {
        House1x1 { max_citizens, current_citizens }
    }
}

/// A placed building of any kind.
#[derive(Clone, Copy, PartialEq, Eq, Structural, Debug)]
pub enum ConcreteBuilding {
    Street(Street),
    House1x1(House1x1),
}

impl ConcreteBuilding {
    /// The building a prototype becomes when placed: a street, or a house
    /// for one citizen with nobody in it yet.
    pub fn from_prototype(prototype: &BuildingPrototype) -> (r: Self)
        ensures
            r == concrete_of(prototype.code),
    {
        match prototype.code {
            BuildingPrototypeType::Street => ConcreteBuilding::Street(Street {  }),
            BuildingPrototypeType::House1x1 => ConcreteBuilding::House1x1(House1x1::new(1, 0)),
        }
    }
}

/// The building a prototype of this kind becomes.
pub open spec fn concrete_of(code: BuildingPrototypeType) -> ConcreteBuilding {
    match code {
        BuildingPrototypeType::Street => ConcreteBuilding::Street(Street {  }),
        BuildingPrototypeType::House1x1 => ConcreteBuilding::House1x1(House1x1 { max_citizens: 1, current_citizens: 0 }),
    }
}

pub type BuildingId = usize;

/// The id given to every building placed on the map.
pub const PLACED_BUILDING_ID: BuildingId = 44;

/// A building placed on the map.
#[derive(Clone, Copy, PartialEq, Eq, Structural, Debug)]
pub struct Building {
    pub id: BuildingId,
    pub prototype: BuildingPrototype,
    pub building: ConcreteBuilding,
}

/// The prototype of a kind.
pub open spec fn prototype_of(code: BuildingPrototypeType) -> BuildingPrototype {
    BuildingPrototype { code, size: SizeP(1, 1) }
}

/// The building placed for a kind.
pub open spec fn concretized(code: BuildingPrototypeType) -> Building {
    Building { id: PLACED_BUILDING_ID, prototype: prototype_of(code), building: concrete_of(code) }
}

/// Make the building that a prototype kind stands for.
pub fn concretize_building(prototype_type: &BuildingPrototypeType) -> (r: Building)
    ensures
        r == concretized(*prototype_type),
{
    let prototype = match prototype_type {
        BuildingPrototypeType::Street => BuildingPrototype::street(),
        BuildingPrototypeType::House1x1 => BuildingPrototype::house_1x1(),
    };
    Building { id: PLACED_BUILDING_ID, prototype, building: ConcreteBuilding::from_prototype(&prototype) }
}

} // verus!
