//! The matching queue: inhabitants waiting for a home or a job are paired
//! with houses and offices that have room left, one pairing at a time, and a
//! pairing that cannot be carried out is handed back.
use vstd::prelude::*;

use crate::buildings::BuildingSnapshot;
use crate::inhabitant::{education_rank, EducationLevel, Inhabitant};
use crate::navigator::{is_route, Navigator};
use crate::position::Position;
use crate::sums::lemma_push_unique;
use crate::EntityId;

verus! {

broadcast use vstd::seq_lib::group_seq_properties;

/// A building with room for `remain` more people.
#[derive(Clone, Copy, PartialEq, Eq, Structural, Debug)]
pub struct BuildingNeedToBeFulfilled {
    pub building_entity_id: EntityId,
    pub building_position: Position,
    pub remain: u32,
}

impl BuildingNeedToBeFulfilled {
    pub fn new(building_entity_id: EntityId, building_position: Position, remain: u32) -> (r: Self)
        ensures
            r == (BuildingNeedToBeFulfilled { building_entity_id, building_position, remain }),
    {
        BuildingNeedToBeFulfilled { building_entity_id, building_position, remain }
    }
}

/// Which of the two queues a pairing comes from.
#[derive(Clone, Copy, PartialEq, Eq, Structural, Debug)]
pub enum AssignmentType {
    InhabitantHouse,
    InhabitantOffice,
}

/// A proposed pairing of an inhabitant with a building.
#[derive(Clone, Copy, PartialEq, Eq, Structural, Debug)]
pub struct AssignmentResult {
    pub assignment_type: AssignmentType,
    pub from: EntityId,
    pub from_position: Position,
    pub to: EntityId,
    pub to_position: Position,
    pub count: u32,
}

/// The education an office asks of its workers.
pub open spec fn required_education() -> EducationLevel {
    EducationLevel::Unschooled
}

/// The ids of a list of buildings are unique.
pub open spec fn unique_buildings(s: Seq<BuildingNeedToBeFulfilled>) -> bool {
    forall|i: int, j: int| 0 <= i < j < s.len() ==> s[i].building_entity_id != s[j].building_entity_id
}

/// The ids of a list of inhabitants are unique.
pub open spec fn unique_inhabitants(s: Seq<Inhabitant>) -> bool {
    forall|i: int, j: int| 0 <= i < j < s.len() ==> s[i].id != s[j].id
}

/// The inhabitant with this id, if it is known.
pub open spec fn known(s: Seq<Inhabitant>, id: EntityId) -> bool {
    exists|i: int| 0 <= i < s.len() && s[i].id == id
}

/// The first building of `s` with room left is at `j`, and a match takes
/// it: the full buildings before it are dropped and it loses one place.
pub open spec fn takes_building(s: Seq<BuildingNeedToBeFulfilled>, j: int, after: Seq<BuildingNeedToBeFulfilled>) -> bool {
    &&& 0 <= j < s.len()
    &&& forall|k: int| 0 <= k < j ==> s[k].remain == 0
    &&& s[j].remain > 0
    &&& after == s.subrange(j, s.len() as int).update(
        0,
        BuildingNeedToBeFulfilled { remain: (s[j].remain - 1) as u32, ..s[j] },
    )
}

/// `after` is `s` without its first `j` buildings, all of them full.
pub open spec fn drops_full_front(s: Seq<BuildingNeedToBeFulfilled>, j: int, after: Seq<BuildingNeedToBeFulfilled>) -> bool {
    &&& 0 <= j <= s.len()
    &&& forall|k: int| 0 <= k < j ==> s[k].remain == 0
    &&& after == s.subrange(j, s.len() as int)
}

/// Whether some building of `s` has room left.
pub open spec fn has_room(s: Seq<BuildingNeedToBeFulfilled>) -> bool {
    exists|j: int| 0 <= j < s.len() && s[j].remain > 0
}

/// `s` after `count` places of building `id` were handed back: the entry
/// grows, or comes back at `position` if it is gone.
pub open spec fn given_back(s: Seq<BuildingNeedToBeFulfilled>, id: EntityId, position: Position, count: u32) -> Seq<
    BuildingNeedToBeFulfilled,
> {
    if exists|k: int| 0 <= k < s.len() && s[k].building_entity_id == id {
        let k = choose|k: int| 0 <= k < s.len() && s[k].building_entity_id == id;
        s.update(k, BuildingNeedToBeFulfilled { remain: (s[k].remain + count) as u32, ..s[k] })
    } else {
        s.push(BuildingNeedToBeFulfilled { building_entity_id: id, building_position: position, remain: count })
    }
}

/// `s` after building `id` at `position` offered `count` more places: a
/// building already recorded gains them and takes the given position.
pub open spec fn registered(s: Seq<BuildingNeedToBeFulfilled>, id: EntityId, position: Position, count: u32) -> Seq<
    BuildingNeedToBeFulfilled,
> {
    if exists|k: int| 0 <= k < s.len() && s[k].building_entity_id == id {
        let k = choose|k: int| 0 <= k < s.len() && s[k].building_entity_id == id;
        s.update(k, BuildingNeedToBeFulfilled { building_entity_id: id, building_position: position, remain: (s[k].remain + count) as u32 })
    } else {
        s.push(BuildingNeedToBeFulfilled { building_entity_id: id, building_position: position, remain: count })
    }
}

/// `s` with `id` added unless it is already there.
pub open spec fn with_id(s: Seq<EntityId>, id: EntityId) -> Seq<EntityId> {
    if s.contains(id) {
        s
    } else {
        s.push(id)
    }
}

/// Where newcomers come from when they look for a home.
pub open spec fn newcomers_origin() -> Position {
    Position { x: 0, y: 0 }
}

/// The first building of `s` with room left is at `j`.
pub open spec fn first_open(s: Seq<BuildingNeedToBeFulfilled>, j: int) -> bool {
    &&& 0 <= j < s.len()
    &&& forall|k: int| 0 <= k < j ==> s[k].remain == 0
    &&& s[j].remain > 0
}

/// The first inhabitant of `w` educated enough for an office is at `e`.
pub open spec fn first_eligible(res: Seq<Inhabitant>, w: Seq<EntityId>, e: int) -> bool {
    &&& 0 <= e < w.len()
    &&& eligible(res, w[e])
    &&& forall|m: int| 0 <= m < e ==> !eligible(res, #[trigger] w[m])
}

/// The inhabitants once `id`, if still homeless, moved into the house.
pub open spec fn housed(s: Seq<Inhabitant>, id: EntityId, house_id: EntityId, house_position: Position) -> Seq<Inhabitant> {
    Seq::new(
        s.len(),
        |i: int|
            if s[i].id == id && s[i].home is None {
                Inhabitant { home: Some(crate::inhabitant::Home { house_id, house_position }), ..s[i] }
            } else {
                s[i]
            },
    )
}

/// The inhabitants once `id`, if still without a job, was hired at the office.
pub open spec fn hired(s: Seq<Inhabitant>, id: EntityId, office_id: EntityId, office_position: Position) -> Seq<Inhabitant> {
    Seq::new(
        s.len(),
        |i: int|
            if s[i].id == id && s[i].work_place_id is None {
                Inhabitant {
                    work_place_id: Some(
                        crate::inhabitant::WorkPlace { work_place_id: office_id, work_place_position: office_position },
                    ),
                    ..s[i]
                }
            } else {
                s[i]
            },
    )
}

/// There is one first building with room.
proof fn lemma_first_open_unique(s: Seq<BuildingNeedToBeFulfilled>, a: int, b: int)
    requires
        first_open(s, a),
        first_open(s, b),
    ensures
        a == b,
{
    if a < b {
        assert(s[a].remain == 0);
    } else if b < a {
        assert(s[b].remain == 0);
    }
}

/// Handing back the place a match took leaves only the dropped full
/// buildings missing.
proof fn lemma_give_back_taken(s: Seq<BuildingNeedToBeFulfilled>, j: int, after: Seq<BuildingNeedToBeFulfilled>)
    requires
        takes_building(s, j, after),
        unique_buildings(after),
    ensures
        given_back(after, s[j].building_entity_id, s[j].building_position, 1) == s.subrange(j, s.len() as int),
{
    assert(after[0].building_entity_id == s[j].building_entity_id);
    let k = choose|k: int| 0 <= k < after.len() && after[k].building_entity_id == s[j].building_entity_id;
    if k != 0 {
        assert(after[0].building_entity_id != after[k].building_entity_id);
    }
    assert(given_back(after, s[j].building_entity_id, s[j].building_position, 1) =~= s.subrange(j, s.len() as int));
}

/// Whether `id` is a known inhabitant with a home.
pub open spec fn has_home(s: Seq<Inhabitant>, id: EntityId) -> bool {
    exists|i: int| 0 <= i < s.len() && s[i].id == id && s[i].home is Some
}

/// Whether `id` is a known inhabitant educated enough for an office.
pub open spec fn eligible(s: Seq<Inhabitant>, id: EntityId) -> bool {
    exists|i: int|
        0 <= i < s.len() && s[i].id == id && education_rank(s[i].education_level) >= education_rank(
            required_education(),
        )
}

/// Where the known inhabitant `id` lives.
pub open spec fn home_position(s: Seq<Inhabitant>, id: EntityId) -> Position {
    let i = choose|i: int| 0 <= i < s.len() && s[i].id == id;
    s[i].home.unwrap().house_position
}

/// Pools of inhabitants waiting for a home or a job, and the houses and
/// offices with room left.
pub struct EntityStorage {
    inhabitants: Vec<Inhabitant>,
    /// Inhabitants waiting for a home.
    inhabitants_need_to_be_introduced: Vec<EntityId>,
    /// Houses with room for more inhabitants.
    houses_needs_to_be_fulfilled: Vec<BuildingNeedToBeFulfilled>,
    /// Offices with room for more workers.
    offices_needs_to_be_fulfilled: Vec<BuildingNeedToBeFulfilled>,
    /// Inhabitants waiting for a job.
    inhabitants_need_to_work: Vec<EntityId>,
}


/// Index of the building with this id.
fn building_index(v: &Vec<BuildingNeedToBeFulfilled>, id: EntityId) -> (r: Option<usize>)
    ensures
        r matches Some(k) ==> k < v@.len() && v@[k as int].building_entity_id == id,
        r is None ==> forall|k: int| 0 <= k < v@.len() ==> v@[k].building_entity_id != id,
{
    let mut k: usize = 0;
    while k < v.len()
        invariant
            k <= v.len(),
            forall|m: int| 0 <= m < k ==> v@[m].building_entity_id != id,
        decreases v.len() - k,
    {
        if v[k].building_entity_id == id {
            return Some(k);
        }
        k = k + 1;
    }
    None
}

/// Add `count` places to building `id`, or bring it back at `position`.
fn give_back(v: &mut Vec<BuildingNeedToBeFulfilled>, id: EntityId, position: Position, count: u32)
    requires
        unique_buildings(old(v)@),
        forall|k: int|
            0 <= k < old(v)@.len() && old(v)@[k].building_entity_id == id ==> old(v)@[k].remain + count <= u32::MAX,
    ensures
        unique_buildings(final(v)@),
        final(v)@ == given_back(old(v)@, id, position, count),
{
    match building_index(v, id) {
        Some(k) => {
            let mut b = v[k];
            b.remain = b.remain + count;
            v[k] = b;
            proof {
                let c = choose|c: int| 0 <= c < old(v)@.len() && old(v)@[c].building_entity_id == id;
                assert(c == k);
            }
        },
        None => {
            v.push(BuildingNeedToBeFulfilled { building_entity_id: id, building_position: position, remain: count });
        },
    }
}

/// Record that building `id` at `position` offers `count` more places.
fn register_building(v: &mut Vec<BuildingNeedToBeFulfilled>, id: EntityId, position: Position, count: u32)
    requires
        unique_buildings(old(v)@),
        forall|k: int|
            0 <= k < old(v)@.len() && old(v)@[k].building_entity_id == id ==> old(v)@[k].remain + count <= u32::MAX,
    ensures
        unique_buildings(final(v)@),
        final(v)@ == registered(old(v)@, id, position, count),
{
    match building_index(v, id) {
        Some(k) => {
            let remain = v[k].remain + count;
            v[k] = BuildingNeedToBeFulfilled { building_entity_id: id, building_position: position, remain };
            proof {
                let c = choose|c: int| 0 <= c < old(v)@.len() && old(v)@[c].building_entity_id == id;
                assert(c == k);
            }
        },
        None => {
            v.push(BuildingNeedToBeFulfilled { building_entity_id: id, building_position: position, remain: count });
        },
    }
}

/// Add `id` to a pool unless it is there already.
fn add_to_pool(v: &mut Vec<EntityId>, id: EntityId)
    requires
        old(v)@.no_duplicates(),
    ensures
        final(v)@.no_duplicates(),
        final(v)@ == with_id(old(v)@, id),
{
    let mut k: usize = 0;
    while k < v.len()
        invariant
            k <= v.len(),
            v@ == old(v)@,
            old(v)@.no_duplicates(),
            forall|m: int| 0 <= m < k ==> v@[m] != id,
        decreases v.len() - k,
    {
        if v[k] == id {
            return;
        }
        k = k + 1;
    }
    proof {
        lemma_push_unique(v@, id);
    }
    v.push(id);
}

/// Drop the full buildings at the front of `v`, up to the first one with
/// room left.
fn drop_full_front(v: &mut Vec<BuildingNeedToBeFulfilled>) -> (j: Ghost<int>)
    requires
        unique_buildings(old(v)@),
    ensures
        0 <= j@ <= old(v)@.len(),
        forall|k: int| 0 <= k < j@ ==> old(v)@[k].remain == 0,
        final(v)@ == old(v)@.subrange(j@, old(v)@.len() as int),
        final(v)@.len() > 0 ==> final(v)@[0].remain > 0,
        unique_buildings(final(v)@),
{
    let ghost j: int = 0;
    while v.len() > 0 && v[0].remain == 0
        invariant
            0 <= j <= old(v)@.len(),
            forall|k: int| 0 <= k < j ==> old(v)@[k].remain == 0,
            v@ == old(v)@.subrange(j, old(v)@.len() as int),
        decreases v.len(),
    {
        v.remove(0);
        proof {
            j = j + 1;
            assert(v@ =~= old(v)@.subrange(j, old(v)@.len() as int));
        }
    }
    Ghost(j)
}

impl EntityStorage {
    pub closed spec fn residents(&self) -> Seq<Inhabitant> {
        self.inhabitants@
    }

    pub closed spec fn housing_demand(&self) -> Seq<EntityId> {
        self.inhabitants_need_to_be_introduced@
    }

    pub closed spec fn work_demand(&self) -> Seq<EntityId> {
        self.inhabitants_need_to_work@
    }

    pub closed spec fn housing_supply(&self) -> Seq<BuildingNeedToBeFulfilled> {
        self.houses_needs_to_be_fulfilled@
    }

    pub closed spec fn office_supply(&self) -> Seq<BuildingNeedToBeFulfilled> {
        self.offices_needs_to_be_fulfilled@
    }

    /// Ids are unique in every list, and whoever waits for a job is a known
    /// inhabitant with a home.
    pub open spec fn wf(&self) -> bool {
        &&& unique_inhabitants(self.residents())
        &&& self.housing_demand().no_duplicates()
        &&& self.work_demand().no_duplicates()
        &&& unique_buildings(self.housing_supply())
        &&& unique_buildings(self.office_supply())
        &&& forall|k: int| 0 <= k < self.work_demand().len() ==> has_home(self.residents(), #[trigger] self.work_demand()[k])
    }

    pub fn new() -> (r: Self)
        ensures
            r.wf(),
            r.residents().len() == 0,
            r.housing_demand().len() == 0,
            r.work_demand().len() == 0,
            r.housing_supply().len() == 0,
            r.office_supply().len() == 0,
    {
        EntityStorage {
            inhabitants: Vec::new(),
            inhabitants_need_to_be_introduced: Vec::new(),
            houses_needs_to_be_fulfilled: Vec::new(),
            offices_needs_to_be_fulfilled: Vec::new(),
            inhabitants_need_to_work: Vec::new(),
        }
    }

    /// Index of the inhabitant with this id.
    fn inhabitant_index(&self, id: EntityId) -> (r: Option<usize>)
        ensures
            r matches Some(i) ==> i < self.inhabitants@.len() && self.inhabitants@[i as int].id == id,
            r is None ==> !known(self.inhabitants@, id),
    {
        let mut i: usize = 0;
        while i < self.inhabitants.len()
            invariant
                i <= self.inhabitants.len(),
                forall|m: int| 0 <= m < i ==> self.inhabitants@[m].id != id,
            decreases self.inhabitants.len() - i,
        {
            if self.inhabitants[i].id == id {
                return Some(i);
            }
            i = i + 1;
        }
        None
    }

    /// A newcomer waits for a home; an inhabitant already known keeps its record.
    pub fn introduce_inhabitant(&mut self, inhabitant: Inhabitant)
        requires
            old(self).wf(),
        ensures
            final(self).wf(),
            final(self).housing_demand() == with_id(old(self).housing_demand(), inhabitant.id),
            final(self).residents() == if known(old(self).residents(), inhabitant.id) {
                old(self).residents()
            } else {
                old(self).residents().push(inhabitant)
            },
            final(self).work_demand() == old(self).work_demand(),
            final(self).housing_supply() == old(self).housing_supply(),
            final(self).office_supply() == old(self).office_supply(),
    {
        let id = inhabitant.id;
        add_to_pool(&mut self.inhabitants_need_to_be_introduced, id);
        if self.inhabitant_index(id).is_none() {
            self.inhabitants.push(inhabitant);
            proof {
                assert forall|i: int, j: int| 0 <= i < j < self.inhabitants@.len() implies self.inhabitants@[i].id
                    != self.inhabitants@[j].id by {
                    if j == self.inhabitants@.len() - 1 {
                        assert(old(self).inhabitants@[i].id != id);
                    }
                }
                assert forall|k: int| 0 <= k < self.inhabitants_need_to_work@.len() implies has_home(
                    self.inhabitants@,
                    #[trigger] self.inhabitants_need_to_work@[k],
                ) by {
                    let w = self.inhabitants_need_to_work@[k];
                    assert(has_home(old(self).inhabitants@, w));
                    let i = choose|i: int| 0 <= i < old(self).inhabitants@.len() && old(self).inhabitants@[i].id == w
                        && old(self).inhabitants@[i].home is Some;
                    assert(self.inhabitants@[i] == old(self).inhabitants@[i]);
                }
            }
        }
    }

    /// A house with room for more inhabitants; a house already known gains
    /// the places and takes the given position.
    pub fn register_house(&mut self, house_to_be_fulfilled: BuildingNeedToBeFulfilled)
        requires
            old(self).wf(),
            forall|k: int|
                0 <= k < old(self).housing_supply().len() && old(self).housing_supply()[k].building_entity_id
                    == house_to_be_fulfilled.building_entity_id ==> old(self).housing_supply()[k].remain
                    + house_to_be_fulfilled.remain <= u32::MAX,
        ensures
            final(self).wf(),
            final(self).housing_supply() == registered(
                old(self).housing_supply(),
                house_to_be_fulfilled.building_entity_id,
                house_to_be_fulfilled.building_position,
                house_to_be_fulfilled.remain,
            ),
            final(self).residents() == old(self).residents(),
            final(self).housing_demand() == old(self).housing_demand(),
            final(self).work_demand() == old(self).work_demand(),
            final(self).office_supply() == old(self).office_supply(),
    {
        assert forall|k: int|
            0 <= k < self.houses_needs_to_be_fulfilled@.len() && self.houses_needs_to_be_fulfilled@[k].building_entity_id == house_to_be_fulfilled.building_entity_id
                implies self.houses_needs_to_be_fulfilled@[k].remain + house_to_be_fulfilled.remain <= u32::MAX by {
            assert(self.housing_supply()[k] == self.houses_needs_to_be_fulfilled@[k]);
        }
        register_building(
            &mut self.houses_needs_to_be_fulfilled,
            house_to_be_fulfilled.building_entity_id,
            house_to_be_fulfilled.building_position,
            house_to_be_fulfilled.remain,
        );
    }

    /// An office with room for more workers; an office already known gains
    /// the places and takes the given position.
    pub fn register_office(&mut self, office_to_be_fulfilled: BuildingNeedToBeFulfilled)
        requires
            old(self).wf(),
            forall|k: int|
                0 <= k < old(self).office_supply().len() && old(self).office_supply()[k].building_entity_id
                    == office_to_be_fulfilled.building_entity_id ==> old(self).office_supply()[k].remain
                    + office_to_be_fulfilled.remain <= u32::MAX,
        ensures
            final(self).wf(),
            final(self).office_supply() == registered(
                old(self).office_supply(),
                office_to_be_fulfilled.building_entity_id,
                office_to_be_fulfilled.building_position,
                office_to_be_fulfilled.remain,
            ),
            final(self).residents() == old(self).residents(),
            final(self).housing_demand() == old(self).housing_demand(),
            final(self).work_demand() == old(self).work_demand(),
            final(self).housing_supply() == old(self).housing_supply(),
    {
        assert forall|k: int|
            0 <= k < self.offices_needs_to_be_fulfilled@.len() && self.offices_needs_to_be_fulfilled@[k].building_entity_id == office_to_be_fulfilled.building_entity_id
                implies self.offices_needs_to_be_fulfilled@[k].remain + office_to_be_fulfilled.remain <= u32::MAX by {
            assert(self.office_supply()[k] == self.offices_needs_to_be_fulfilled@[k]);
        }
        register_building(
            &mut self.offices_needs_to_be_fulfilled,
            office_to_be_fulfilled.building_entity_id,
            office_to_be_fulfilled.building_position,
            office_to_be_fulfilled.remain,
        );
    }

    /// An inhabitant with a home and no job starts looking for one.
    pub fn register_unemployee(&mut self, id: EntityId)
        requires
            old(self).wf(),
            exists|i: int|
                0 <= i < old(self).residents().len() && old(self).residents()[i].id == id
                    && old(self).residents()[i].home is Some && old(self).residents()[i].work_place_id is None,
        ensures
            final(self).wf(),
            final(self).work_demand() == with_id(old(self).work_demand(), id),
            final(self).residents() == old(self).residents(),
            final(self).housing_demand() == old(self).housing_demand(),
            final(self).housing_supply() == old(self).housing_supply(),
            final(self).office_supply() == old(self).office_supply(),
    {
        add_to_pool(&mut self.inhabitants_need_to_work, id);
        proof {
            assert forall|k: int| 0 <= k < self.inhabitants_need_to_work@.len() implies has_home(
                self.inhabitants@,
                #[trigger] self.inhabitants_need_to_work@[k],
            ) by {
                if k < old(self).inhabitants_need_to_work@.len() {
                    assert(self.inhabitants_need_to_work@[k] == old(self).inhabitants_need_to_work@[k]);
                }
            }
        }
    }

    /// Propose one home: the first inhabitant waiting for a home goes to the
    /// first house with room left; full houses met on the way are dropped.
    /// Empty when nobody waits or no house has room.
    pub fn get_inhabitant_house_assignment(&mut self) -> (r: Vec<AssignmentResult>)
        requires
            old(self).wf(),
        ensures
            final(self).wf(),
            r@.len() <= 1,
            old(self).housing_demand().len() == final(self).housing_demand().len() + r@.len(),
            (r@.len() == 1) == (old(self).housing_demand().len() > 0 && has_room(old(self).housing_supply())),
            r@.len() == 1 ==> exists|j: int|
                takes_building(old(self).housing_supply(), j, final(self).housing_supply()) && r@[0] == (
                AssignmentResult {
                    assignment_type: AssignmentType::InhabitantHouse,
                    from: old(self).housing_demand()[0],
                    from_position: Position { x: 0, y: 0 },
                    to: old(self).housing_supply()[j].building_entity_id,
                    to_position: old(self).housing_supply()[j].building_position,
                    count: 1,
                }),
            r@.len() == 1 ==> final(self).housing_demand() == old(self).housing_demand().subrange(
                1,
                old(self).housing_demand().len() as int,
            ),
            r@.len() == 0 ==> final(self).housing_demand() == old(self).housing_demand(),
            r@.len() == 0 ==> final(self).housing_supply() == if old(self).housing_demand().len() == 0 {
                old(self).housing_supply()
            } else {
                Seq::empty()
            },
            final(self).residents() == old(self).residents(),
            final(self).work_demand() == old(self).work_demand(),
            final(self).office_supply() == old(self).office_supply(),
    {
        if self.houses_needs_to_be_fulfilled.len() == 0 || self.inhabitants_need_to_be_introduced.len() == 0 {
            return Vec::new();
        }
        let ghost s0 = self.houses_needs_to_be_fulfilled@;
        let j = drop_full_front(&mut self.houses_needs_to_be_fulfilled);
        if self.houses_needs_to_be_fulfilled.len() == 0 {
            proof {
                assert(self.houses_needs_to_be_fulfilled@ =~= Seq::<BuildingNeedToBeFulfilled>::empty());
                assert(!has_room(s0)) by {
                    if has_room(s0) {
                        let k = choose|k: int| 0 <= k < s0.len() && s0[k].remain > 0;
                    }
                }
            }
            return Vec::new();
        }
        let from = self.inhabitants_need_to_be_introduced.remove(0);
        let mut house = self.houses_needs_to_be_fulfilled[0];
        house.remain = house.remain - 1;
        self.houses_needs_to_be_fulfilled[0] = house;
        proof {
            assert(s0[j@] == old(self).houses_needs_to_be_fulfilled@[j@]);
            assert(takes_building(s0, j@, self.houses_needs_to_be_fulfilled@));
            assert(self.inhabitants_need_to_be_introduced@ =~= old(self).housing_demand().subrange(
                1,
                old(self).housing_demand().len() as int,
            ));
            assert forall|a: int, b: int| 0 <= a < b < self.houses_needs_to_be_fulfilled@.len() implies
                self.houses_needs_to_be_fulfilled@[a].building_entity_id
                != self.houses_needs_to_be_fulfilled@[b].building_entity_id by {
                assert(s0[j@ + a].building_entity_id != s0[j@ + b].building_entity_id);
            }
        }
        let r = vec![
            AssignmentResult {
                assignment_type: AssignmentType::InhabitantHouse,
                from,
                from_position: Position { x: 0, y: 0 },
                to: house.building_entity_id,
                to_position: house.building_position,
                count: 1,
            },
        ];
        assert(takes_building(old(self).housing_supply(), j@, self.housing_supply()));
        assert(r@[0] == (AssignmentResult {
            assignment_type: AssignmentType::InhabitantHouse,
            from: old(self).housing_demand()[0],
            from_position: Position { x: 0, y: 0 },
            to: old(self).housing_supply()[j@].building_entity_id,
            to_position: old(self).housing_supply()[j@].building_position,
            count: 1,
        }));
        r
    }

    /// Propose one job: the first inhabitant waiting for work who is educated
    /// enough goes to the first office with room left; full offices met on the
    /// way are dropped. Empty when nobody suitable waits or no office has room.
    pub fn get_inhabitant_job_assignment(&mut self) -> (r: Vec<AssignmentResult>)
        requires
            old(self).wf(),
        ensures
            final(self).wf(),
            r@.len() <= 1,
            old(self).work_demand().len() == final(self).work_demand().len() + r@.len(),
            (r@.len() == 1) == (has_room(old(self).office_supply()) && exists|e: int|
                0 <= e < old(self).work_demand().len() && eligible(old(self).residents(), #[trigger] old(self).work_demand()[e])),
            r@.len() == 1 ==> exists|j: int, e: int|
                takes_building(old(self).office_supply(), j, final(self).office_supply())
                    && 0 <= e < old(self).work_demand().len()
                    && eligible(old(self).residents(), old(self).work_demand()[e])
                    && (forall|m: int| 0 <= m < e ==> !eligible(old(self).residents(), #[trigger] old(self).work_demand()[m]))
                    && final(self).work_demand() == old(self).work_demand().remove(e)
                    && r@[0] == (AssignmentResult {
                    assignment_type: AssignmentType::InhabitantOffice,
                    from: old(self).work_demand()[e],
                    from_position: home_position(old(self).residents(), old(self).work_demand()[e]),
                    to: old(self).office_supply()[j].building_entity_id,
                    to_position: old(self).office_supply()[j].building_position,
                    count: 1,
                }),
            r@.len() == 0 ==> final(self).work_demand() == old(self).work_demand(),
            r@.len() == 0 ==> exists|j: int| drops_full_front(old(self).office_supply(), j, final(self).office_supply()),
            final(self).residents() == old(self).residents(),
            final(self).housing_demand() == old(self).housing_demand(),
            final(self).housing_supply() == old(self).housing_supply(),
    {
        let ghost s0 = self.offices_needs_to_be_fulfilled@;
        let ghost w0 = self.inhabitants_need_to_work@;
        proof {
            assert(s0.subrange(0, s0.len() as int) =~= s0);
            assert(drops_full_front(s0, 0, s0));
        }
        if self.offices_needs_to_be_fulfilled.len() == 0 || self.inhabitants_need_to_work.len() == 0 {
            assert(drops_full_front(old(self).office_supply(), 0, self.office_supply()));
            return Vec::new();
        }
        let j = drop_full_front(&mut self.offices_needs_to_be_fulfilled);
        assert(drops_full_front(s0, j@, self.offices_needs_to_be_fulfilled@));
        if self.offices_needs_to_be_fulfilled.len() == 0 {
            proof {
                assert(!has_room(s0)) by {
                    if has_room(s0) {
                        let k = choose|k: int| 0 <= k < s0.len() && s0[k].remain > 0;
                    }
                }
                assert(drops_full_front(old(self).office_supply(), j@, self.office_supply()));
            }
            return Vec::new();
        }
        let required = EducationLevel::Unschooled;
        let mut e: usize = 0;
        let mut chosen: Option<usize> = None;
        while e < self.inhabitants_need_to_work.len()
            invariant_except_break
                chosen is None,
            invariant
                self.inhabitants_need_to_work@ == w0,
                self.inhabitants@ == old(self).inhabitants@,
                unique_inhabitants(self.inhabitants@),
                e <= w0.len(),
                drops_full_front(s0, j@, self.offices_needs_to_be_fulfilled@),
                required == EducationLevel::Unschooled,
                forall|m: int| 0 <= m < e ==> !eligible(self.inhabitants@, #[trigger] w0[m]),
            ensures
                chosen matches Some(c) ==> c < w0.len() && eligible(self.inhabitants@, w0[c as int])
                    && forall|m: int| 0 <= m < c ==> !eligible(self.inhabitants@, #[trigger] w0[m]),
                chosen is None ==> forall|m: int| 0 <= m < w0.len() ==> !eligible(self.inhabitants@, #[trigger] w0[m]),
            decreases w0.len() - e,
        {
            let id = self.inhabitants_need_to_work[e];
            match self.inhabitant_index(id) {
                Some(i) => {
                    if self.inhabitants[i].education_level.is_at_least(&required) {
                        chosen = Some(e);
                        break;
                    }
                    proof {
                        assert(!eligible(self.inhabitants@, id)) by {
                            if eligible(self.inhabitants@, id) {
                                let k = choose|k: int| 0 <= k < self.inhabitants@.len() && self.inhabitants@[k].id == id
                                    && education_rank(self.inhabitants@[k].education_level) >= education_rank(required_education());
                                if k != i {
                                    assert(unique_inhabitants(self.inhabitants@));
                                }
                            }
                        }
                    }
                },
                None => {
                    proof {
                        assert(!eligible(self.inhabitants@, id)) by {
                            if eligible(self.inhabitants@, id) {
                                let k = choose|k: int| 0 <= k < self.inhabitants@.len() && self.inhabitants@[k].id == id
                                    && education_rank(self.inhabitants@[k].education_level) >= education_rank(required_education());
                                assert(known(self.inhabitants@, id));
                            }
                        }
                    }
                },
            }
            e = e + 1;
        }
        let e = match chosen {
            None => {
                assert(drops_full_front(old(self).office_supply(), j@, self.office_supply()));
                return Vec::new();
            },
            Some(e) => e,
        };
        let from = self.inhabitants_need_to_work.remove(e);
        let mut office = self.offices_needs_to_be_fulfilled[0];
        office.remain = office.remain - 1;
        self.offices_needs_to_be_fulfilled[0] = office;
        proof {
            assert(has_home(self.inhabitants@, w0[e as int]));
        }
        let i = match self.inhabitant_index(from) {
            Some(i) => i,
            None => {
                return Vec::new();
            },
        };
        let inhabitant = self.inhabitants[i];
        let from_position = match inhabitant.home {
            Some(home) => home.house_position,
            None => Position { x: 0, y: 0 },
        };
        proof {
            let h = choose|k: int| 0 <= k < self.inhabitants@.len() && self.inhabitants@[k].id == from && self.inhabitants@[k].home is Some;
            assert(h == i as int);
            let c = choose|k: int| 0 <= k < self.inhabitants@.len() && self.inhabitants@[k].id == from;
            assert(c == i as int);
            assert(s0[j@] == old(self).offices_needs_to_be_fulfilled@[j@]);
            assert(takes_building(s0, j@, self.offices_needs_to_be_fulfilled@));
            assert forall|a: int, b: int| 0 <= a < b < self.offices_needs_to_be_fulfilled@.len() implies
                self.offices_needs_to_be_fulfilled@[a].building_entity_id
                != self.offices_needs_to_be_fulfilled@[b].building_entity_id by {
                assert(s0[j@ + a].building_entity_id != s0[j@ + b].building_entity_id);
            }
            assert forall|k: int| 0 <= k < self.inhabitants_need_to_work@.len() implies has_home(
                self.inhabitants@,
                #[trigger] self.inhabitants_need_to_work@[k],
            ) by {
                if k < e {
                    assert(self.inhabitants_need_to_work@[k] == w0[k]);
                } else {
                    assert(self.inhabitants_need_to_work@[k] == w0[k + 1]);
                }
            }
            assert forall|a: int, b: int| 0 <= a < b < self.inhabitants_need_to_work@.len() implies
                self.inhabitants_need_to_work@[a] != self.inhabitants_need_to_work@[b] by {
                let a0 = if a < e { a } else { a + 1 };
                let b0 = if b < e { b } else { b + 1 };
                assert(self.inhabitants_need_to_work@[a] == w0[a0]);
                assert(self.inhabitants_need_to_work@[b] == w0[b0]);
            }
        }
        let r = vec![
            AssignmentResult {
                assignment_type: AssignmentType::InhabitantOffice,
                from,
                from_position,
                to: office.building_entity_id,
                to_position: office.building_position,
                count: 1,
            },
        ];
        proof {
            assert(takes_building(old(self).office_supply(), j@, self.office_supply()));
            assert(self.work_demand() =~= old(self).work_demand().remove(e as int));
            assert(r@[0] == (AssignmentResult {
                assignment_type: AssignmentType::InhabitantOffice,
                from: old(self).work_demand()[e as int],
                from_position: home_position(old(self).residents(), old(self).work_demand()[e as int]),
                to: old(self).office_supply()[j@].building_entity_id,
                to_position: old(self).office_supply()[j@].building_position,
                count: 1,
            }));
        }
        r
    }

    /// The inhabitant `inhabitant_id` moves into the house; returns its
    /// updated record.
    pub fn found_home_for_inhabitant(&mut self, inhabitant_id: &EntityId, house_id: EntityId, house_position: Position) -> (r:
        Inhabitant)
        requires
            old(self).wf(),
            exists|i: int|
                0 <= i < old(self).residents().len() && old(self).residents()[i].id == *inhabitant_id
                    && old(self).residents()[i].home is None,
        ensures
            final(self).wf(),
            final(self).residents().len() == old(self).residents().len(),
            forall|i: int|
                0 <= i < old(self).residents().len() ==> #[trigger] final(self).residents()[i] == if old(
                    self,
                ).residents()[i].id == *inhabitant_id {
                    Inhabitant { home: Some(crate::inhabitant::Home { house_id, house_position }), ..old(self).residents()[i] }
                } else {
                    old(self).residents()[i]
                },
            r.id == *inhabitant_id && r.home == Some(crate::inhabitant::Home { house_id, house_position }),
            final(self).housing_demand() == old(self).housing_demand(),
            final(self).work_demand() == old(self).work_demand(),
            final(self).housing_supply() == old(self).housing_supply(),
            final(self).office_supply() == old(self).office_supply(),
    {
        let i = match self.inhabitant_index(*inhabitant_id) {
            Some(i) => i,
            None => {
                proof {
                    let k = choose|k: int| 0 <= k < old(self).residents().len() && old(self).residents()[k].id == *inhabitant_id
                        && old(self).residents()[k].home is None;
                    assert(known(self.inhabitants@, *inhabitant_id));
                }
                return Inhabitant::new(*inhabitant_id, EducationLevel::Unschooled);
            },
        };
        let mut inhabitant = self.inhabitants[i];
        proof {
            let k = choose|k: int| 0 <= k < old(self).residents().len() && old(self).residents()[k].id == *inhabitant_id
                && old(self).residents()[k].home is None;
            assert(k == i);
        }
        inhabitant.home_found(house_id, house_position);
        self.inhabitants[i] = inhabitant;
        proof {
            assert forall|k: int| 0 <= k < self.inhabitants_need_to_work@.len() implies has_home(
                self.inhabitants@,
                #[trigger] self.inhabitants_need_to_work@[k],
            ) by {
                let w = self.inhabitants_need_to_work@[k];
                assert(has_home(old(self).inhabitants@, w));
                let m = choose|m: int| 0 <= m < old(self).inhabitants@.len() && old(self).inhabitants@[m].id == w
                    && old(self).inhabitants@[m].home is Some;
                assert(self.inhabitants@[m].home is Some);
            }
        }
        inhabitant
    }

    /// The inhabitant `inhabitant_id` starts working at the office.
    pub fn found_job_for_unemployee(&mut self, inhabitant_id: &EntityId, office_id: EntityId, office_position: Position)
        requires
            old(self).wf(),
            exists|i: int|
                0 <= i < old(self).residents().len() && old(self).residents()[i].id == *inhabitant_id
                    && old(self).residents()[i].work_place_id is None,
        ensures
            final(self).wf(),
            final(self).residents().len() == old(self).residents().len(),
            forall|i: int|
                0 <= i < old(self).residents().len() ==> #[trigger] final(self).residents()[i] == if old(
                    self,
                ).residents()[i].id == *inhabitant_id {
                    Inhabitant {
                        work_place_id: Some(
                            crate::inhabitant::WorkPlace { work_place_id: office_id, work_place_position: office_position },
                        ),
                        ..old(self).residents()[i]
                    }
                } else {
                    old(self).residents()[i]
                },
            final(self).housing_demand() == old(self).housing_demand(),
            final(self).work_demand() == old(self).work_demand(),
            final(self).housing_supply() == old(self).housing_supply(),
            final(self).office_supply() == old(self).office_supply(),
    {
        let i = match self.inhabitant_index(*inhabitant_id) {
            Some(i) => i,
            None => {
                proof {
                    let k = choose|k: int| 0 <= k < old(self).residents().len() && old(self).residents()[k].id == *inhabitant_id
                        && old(self).residents()[k].work_place_id is None;
                    assert(known(self.inhabitants@, *inhabitant_id));
                }
                return ;
            },
        };
        let mut inhabitant = self.inhabitants[i];
        proof {
            let k = choose|k: int| 0 <= k < old(self).residents().len() && old(self).residents()[k].id == *inhabitant_id
                && old(self).residents()[k].work_place_id is None;
            assert(k == i);
        }
        inhabitant.work_place_found(office_id, office_position);
        self.inhabitants[i] = inhabitant;
        proof {
            assert forall|k: int| 0 <= k < self.inhabitants_need_to_work@.len() implies has_home(
                self.inhabitants@,
                #[trigger] self.inhabitants_need_to_work@[k],
            ) by {
                let w = self.inhabitants_need_to_work@[k];
                assert(has_home(old(self).inhabitants@, w));
                let m = choose|m: int| 0 <= m < old(self).inhabitants@.len() && old(self).inhabitants@[m].id == w
                    && old(self).inhabitants@[m].home is Some;
                assert(self.inhabitants@[m].home is Some);
            }
        }
    }

    /// Undo a proposed pairing that could not be carried out: the inhabitant
    /// waits again (never twice) and the building gets its places back, at the
    /// position the pairing names if the building was dropped meanwhile.
    pub fn resign_assign_result(&mut self, assign_result: AssignmentResult)
        requires
            old(self).wf(),
            assign_result.assignment_type == AssignmentType::InhabitantHouse ==> forall|k: int|
                0 <= k < old(self).housing_supply().len() && old(self).housing_supply()[k].building_entity_id
                    == assign_result.to ==> old(self).housing_supply()[k].remain + assign_result.count <= u32::MAX,
            assign_result.assignment_type == AssignmentType::InhabitantOffice ==> (forall|k: int|
                0 <= k < old(self).office_supply().len() && old(self).office_supply()[k].building_entity_id
                    == assign_result.to ==> old(self).office_supply()[k].remain + assign_result.count <= u32::MAX)
                && has_home(old(self).residents(), assign_result.from),
        ensures
            final(self).wf(),
            final(self).residents() == old(self).residents(),
            assign_result.assignment_type == AssignmentType::InhabitantHouse ==> final(self).housing_demand() == with_id(
                old(self).housing_demand(),
                assign_result.from,
            ) && final(self).housing_supply() == given_back(
                old(self).housing_supply(),
                assign_result.to,
                assign_result.to_position,
                assign_result.count,
            ) && final(self).work_demand() == old(self).work_demand() && final(self).office_supply() == old(
                self,
            ).office_supply(),
            assign_result.assignment_type == AssignmentType::InhabitantOffice ==> final(self).work_demand() == with_id(
                old(self).work_demand(),
                assign_result.from,
            ) && final(self).office_supply() == given_back(
                old(self).office_supply(),
                assign_result.to,
                assign_result.to_position,
                assign_result.count,
            ) && final(self).housing_demand() == old(self).housing_demand() && final(self).housing_supply() == old(
                self,
            ).housing_supply(),
    {
        match assign_result.assignment_type {
            AssignmentType::InhabitantHouse => {
                add_to_pool(&mut self.inhabitants_need_to_be_introduced, assign_result.from);
                assert forall|k: int|
                    0 <= k < self.houses_needs_to_be_fulfilled@.len() && self.houses_needs_to_be_fulfilled@[k].building_entity_id
                        == assign_result.to implies self.houses_needs_to_be_fulfilled@[k].remain + assign_result.count
                        <= u32::MAX by {
                    assert(old(self).housing_supply()[k] == self.houses_needs_to_be_fulfilled@[k]);
                }
                give_back(
                    &mut self.houses_needs_to_be_fulfilled,
                    assign_result.to,
                    assign_result.to_position,
                    assign_result.count,
                );
            },
            AssignmentType::InhabitantOffice => {
                add_to_pool(&mut self.inhabitants_need_to_work, assign_result.from);
                assert forall|k: int|
                    0 <= k < self.offices_needs_to_be_fulfilled@.len() && self.offices_needs_to_be_fulfilled@[k].building_entity_id
                        == assign_result.to implies self.offices_needs_to_be_fulfilled@[k].remain + assign_result.count
                        <= u32::MAX by {
                    assert(old(self).office_supply()[k] == self.offices_needs_to_be_fulfilled@[k]);
                }
                give_back(
                    &mut self.offices_needs_to_be_fulfilled,
                    assign_result.to,
                    assign_result.to_position,
                    assign_result.count,
                );
                proof {
                    assert forall|k: int| 0 <= k < self.inhabitants_need_to_work@.len() implies has_home(
                        self.inhabitants@,
                        #[trigger] self.inhabitants_need_to_work@[k],
                    ) by {
                        if k < old(self).inhabitants_need_to_work@.len() {
                            assert(self.inhabitants_need_to_work@[k] == old(self).inhabitants_need_to_work@[k]);
                        }
                    }
                }
            },
        }
    }

    /// Whether `id` is a known inhabitant without a home.
    pub fn is_homeless(&self, id: EntityId) -> (r: bool)
        requires
            self.wf(),
        ensures
            r == exists|i: int| 0 <= i < self.residents().len() && self.residents()[i].id == id && self.residents()[i].home is None,
    {
        match self.inhabitant_index(id) {
            Some(i) => {
                let homeless = self.inhabitants[i].home.is_none();
                proof {
                    if !homeless {
                        assert forall|k: int| 0 <= k < self.residents().len() && self.residents()[k].id == id implies !(
                        self.residents()[k].home is None) by {
                            if k != i {
                                assert(self.inhabitants@[k].id != self.inhabitants@[i as int].id || k == i);
                            }
                        }
                    }
                }
                homeless
            },
            None => false,
        }
    }

    /// Whether `id` is a known inhabitant without a job.
    pub fn is_unemployed(&self, id: EntityId) -> (r: bool)
        requires
            self.wf(),
        ensures
            r == exists|i: int|
                0 <= i < self.residents().len() && self.residents()[i].id == id && self.residents()[i].work_place_id is None,
    {
        match self.inhabitant_index(id) {
            Some(i) => {
                let free = self.inhabitants[i].work_place_id.is_none();
                proof {
                    if !free {
                        assert forall|k: int| 0 <= k < self.residents().len() && self.residents()[k].id == id implies !(
                        self.residents()[k].work_place_id is None) by {
                            if k != i {
                                assert(self.inhabitants@[k].id != self.inhabitants@[i as int].id || k == i);
                            }
                        }
                    }
                }
                free
            },
            None => false,
        }
    }

    /// A completed building offers places: a house for its residents, an
    /// office for its workers; other buildings offer none.
    pub fn register_target(&mut self, building: &BuildingSnapshot)
        requires
            old(self).wf(),
            building matches BuildingSnapshot::House(h) ==> forall|k: int|
                0 <= k < old(self).housing_supply().len() && old(self).housing_supply()[k].building_entity_id == h.id
                    ==> old(self).housing_supply()[k].remain + h.max_residents <= u32::MAX,
            building matches BuildingSnapshot::Office(o) ==> forall|k: int|
                0 <= k < old(self).office_supply().len() && old(self).office_supply()[k].building_entity_id == o.id
                    ==> old(self).office_supply()[k].remain + o.max_workers <= u32::MAX,
        ensures
            final(self).wf(),
            final(self).residents() == old(self).residents(),
            final(self).housing_demand() == old(self).housing_demand(),
            final(self).work_demand() == old(self).work_demand(),
            final(self).housing_supply() == match *building {
                BuildingSnapshot::House(h) => registered(old(self).housing_supply(), h.id, h.position, h.max_residents),
                _ => old(self).housing_supply(),
            },
            final(self).office_supply() == match *building {
                BuildingSnapshot::Office(o) => registered(old(self).office_supply(), o.id, o.position, o.max_workers),
                _ => old(self).office_supply(),
            },
    {
        match building {
            BuildingSnapshot::House(h) => {
                self.register_house(BuildingNeedToBeFulfilled::new(h.id, h.position, h.max_residents));
            },
            BuildingSnapshot::Office(o) => {
                self.register_office(BuildingNeedToBeFulfilled::new(o.id, o.position, o.max_workers));
            },
            _ => {},
        }
    }

    /// One round of house finding: the proposed pairing is carried out when
    /// the street network leads from the origin of newcomers to the house, and
    /// handed back intact otherwise. Returns the pairing carried out, if any.
    pub fn find_houses_for_inhabitants(&mut self, navigator: &Navigator) -> (r: Vec<AssignmentResult>)
        requires
            old(self).wf(),
            navigator.wf(),
        ensures
            final(self).wf(),
            r@.len() <= 1,
            final(self).work_demand() == old(self).work_demand(),
            final(self).office_supply() == old(self).office_supply(),
            (r@.len() == 1) == (old(self).housing_demand().len() > 0 && exists|j: int|
                first_open(old(self).housing_supply(), j) && exists|w: Seq<Position>|
                    is_route(navigator.edge_set(), newcomers_origin(), old(self).housing_supply()[j].building_position, w)),
            r@.len() == 1 ==> exists|j: int|
                first_open(old(self).housing_supply(), j) && takes_building(old(self).housing_supply(), j, final(self).housing_supply())
                    && r@[0] == (AssignmentResult {
                    assignment_type: AssignmentType::InhabitantHouse,
                    from: old(self).housing_demand()[0],
                    from_position: newcomers_origin(),
                    to: old(self).housing_supply()[j].building_entity_id,
                    to_position: old(self).housing_supply()[j].building_position,
                    count: 1,
                }) && final(self).housing_demand() == old(self).housing_demand().subrange(1, old(self).housing_demand().len() as int)
                    && final(self).residents() == housed(
                    old(self).residents(),
                    old(self).housing_demand()[0],
                    old(self).housing_supply()[j].building_entity_id,
                    old(self).housing_supply()[j].building_position,
                ),
            r@.len() == 0 ==> final(self).residents() == old(self).residents(),
            r@.len() == 0 && old(self).housing_demand().len() == 0 ==> final(self).housing_demand() == old(self).housing_demand()
                && final(self).housing_supply() == old(self).housing_supply(),
            r@.len() == 0 && old(self).housing_demand().len() > 0 && !has_room(old(self).housing_supply())
                ==> final(self).housing_demand() == old(self).housing_demand() && final(self).housing_supply() == Seq::<
                BuildingNeedToBeFulfilled,
            >::empty(),
            r@.len() == 0 && old(self).housing_demand().len() > 0 && has_room(old(self).housing_supply()) ==> exists|j: int|
                first_open(old(self).housing_supply(), j) && final(self).housing_supply() == old(self).housing_supply().subrange(
                    j,
                    old(self).housing_supply().len() as int,
                ) && final(self).housing_demand() == old(self).housing_demand().subrange(
                    1,
                    old(self).housing_demand().len() as int,
                ).push(old(self).housing_demand()[0]) && forall|w: Seq<Position>|
                    !is_route(navigator.edge_set(), newcomers_origin(), old(self).housing_supply()[j].building_position, w),
    {
        let ghost d0 = old(self).housing_demand();
        let ghost s0 = old(self).housing_supply();
        let ghost r0 = old(self).residents();
        let mut proposals = self.get_inhabitant_house_assignment();
        let proposal = match proposals.pop() {
            None => {
                proof {
                    if d0.len() > 0 && has_room(s0) {
                        assert(false);
                    }
                    assert forall|j: int| !first_open(s0, j) || d0.len() == 0 by {
                        if first_open(s0, j) {
                            assert(has_room(s0));
                        }
                    }
                }
                return Vec::new();
            },
            Some(p) => p,
        };
        let ghost j = choose|j: int|
            takes_building(s0, j, self.housing_supply()) && proposal == (AssignmentResult {
                assignment_type: AssignmentType::InhabitantHouse,
                from: d0[0],
                from_position: Position { x: 0, y: 0 },
                to: s0[j].building_entity_id,
                to_position: s0[j].building_position,
                count: 1,
            });
        proof {
            assert(first_open(s0, j));
            assert forall|k: int| first_open(s0, k) implies k == j by {
                lemma_first_open_unique(s0, j, k);
            }
        }
        match navigator.get_navigation_descriptor(&proposal.from_position, proposal.to_position) {
            None => {
                let ghost after = self.housing_supply();
                proof {
                    assert(self.houses_needs_to_be_fulfilled@[0].building_entity_id == proposal.to);
                    assert forall|k: int|
                        0 <= k < self.housing_supply().len() && self.housing_supply()[k].building_entity_id == proposal.to
                            implies self.housing_supply()[k].remain + proposal.count <= u32::MAX by {
                        if k != 0 {
                            assert(self.houses_needs_to_be_fulfilled@[0].building_entity_id
                                != self.houses_needs_to_be_fulfilled@[k].building_entity_id);
                        }
                    }
                    lemma_resign_restores_pool(d0);
                    let rest = d0.subrange(1, d0.len() as int);
                    assert(!rest.contains(d0[0])) by {
                        if rest.contains(d0[0]) {
                            let k = choose|k: int| 0 <= k < rest.len() && rest[k] == d0[0];
                            assert(d0[k + 1] == d0[0]);
                        }
                    }
                }
                self.resign_assign_result(proposal);
                proof {
                    lemma_give_back_taken(s0, j, after);
                    assert forall|k: int| !(first_open(s0, k) && exists|w: Seq<Position>|
                        is_route(navigator.edge_set(), newcomers_origin(), s0[k].building_position, w)) by {
                        if first_open(s0, k) {
                            assert(k == j);
                        }
                    }
                }
                Vec::new()
            },
            Some(route) => {
                let ghost before = self.residents();
                if self.is_homeless(proposal.from) {
                    self.found_home_for_inhabitant(&proposal.from, proposal.to, proposal.to_position);
                }
                proof {
                    assert(self.residents() =~= housed(r0, d0[0], s0[j].building_entity_id, s0[j].building_position));
                    let w = choose|w: Seq<Position>|
                        is_route(navigator.edge_set(), proposal.from_position, proposal.to_position, w) && route.steps()
                            == w.push(proposal.to_position).reverse() && forall|v: Seq<Position>|
                            is_route(navigator.edge_set(), proposal.from_position, proposal.to_position, v) ==> w.len()
                                <= v.len();
                    assert(is_route(navigator.edge_set(), newcomers_origin(), s0[j].building_position, w));
                }
                let r = vec![proposal];
                assert(r@[0] == proposal);
                r
            },
        }
    }

    /// One round of job finding: the proposed pairing is carried out when the
    /// street network leads from the worker's home to the office, and handed
    /// back intact otherwise. Returns the pairing carried out, if any.
    pub fn find_job_for_inhabitants(&mut self, navigator: &Navigator) -> (r: Vec<AssignmentResult>)
        requires
            old(self).wf(),
            navigator.wf(),
        ensures
            final(self).wf(),
            r@.len() <= 1,
            final(self).housing_demand() == old(self).housing_demand(),
            final(self).housing_supply() == old(self).housing_supply(),
            (r@.len() == 1) == (exists|j: int, e: int|
                first_open(old(self).office_supply(), j) && first_eligible(old(self).residents(), old(self).work_demand(), e)
                    && exists|w: Seq<Position>|
                    is_route(
                        navigator.edge_set(),
                        home_position(old(self).residents(), old(self).work_demand()[e]),
                        old(self).office_supply()[j].building_position,
                        w,
                    )),
            r@.len() == 1 ==> exists|j: int, e: int|
                first_open(old(self).office_supply(), j) && first_eligible(old(self).residents(), old(self).work_demand(), e)
                    && takes_building(old(self).office_supply(), j, final(self).office_supply()) && final(self).work_demand()
                    == old(self).work_demand().remove(e) && r@[0] == (AssignmentResult {
                    assignment_type: AssignmentType::InhabitantOffice,
                    from: old(self).work_demand()[e],
                    from_position: home_position(old(self).residents(), old(self).work_demand()[e]),
                    to: old(self).office_supply()[j].building_entity_id,
                    to_position: old(self).office_supply()[j].building_position,
                    count: 1,
                }) && final(self).residents() == hired(
                    old(self).residents(),
                    old(self).work_demand()[e],
                    old(self).office_supply()[j].building_entity_id,
                    old(self).office_supply()[j].building_position,
                ),
            r@.len() == 0 ==> final(self).residents() == old(self).residents(),
            r@.len() == 0 && !(has_room(old(self).office_supply()) && exists|e: int|
                0 <= e < old(self).work_demand().len() && eligible(old(self).residents(), #[trigger] old(self).work_demand()[e]))
                ==> final(self).work_demand() == old(self).work_demand() && exists|j: int|
                drops_full_front(old(self).office_supply(), j, final(self).office_supply()),
            r@.len() == 0 && (has_room(old(self).office_supply()) && exists|e: int|
                0 <= e < old(self).work_demand().len() && eligible(old(self).residents(), #[trigger] old(self).work_demand()[e]))
                ==> exists|j: int, e: int|
                first_open(old(self).office_supply(), j) && first_eligible(old(self).residents(), old(self).work_demand(), e)
                    && final(self).office_supply() == old(self).office_supply().subrange(j, old(self).office_supply().len() as int)
                    && final(self).work_demand() == old(self).work_demand().remove(e).push(old(self).work_demand()[e])
                    && forall|w: Seq<Position>|
                    !is_route(
                        navigator.edge_set(),
                        home_position(old(self).residents(), old(self).work_demand()[e]),
                        old(self).office_supply()[j].building_position,
                        w,
                    ),
    {
        let ghost w0 = old(self).work_demand();
        let ghost s0 = old(self).office_supply();
        let ghost r0 = old(self).residents();
        let mut proposals = self.get_inhabitant_job_assignment();
        let proposal = match proposals.pop() {
            None => {
                proof {
                    assert forall|j: int, e: int| !(first_open(s0, j) && first_eligible(r0, w0, e)) by {
                        if first_open(s0, j) && first_eligible(r0, w0, e) {
                            assert(has_room(s0));
                            assert(eligible(r0, w0[e]));
                        }
                    }
                }
                return Vec::new();
            },
            Some(p) => p,
        };
        let ghost (j, e) = choose|j: int, e: int|
            takes_building(s0, j, self.office_supply()) && 0 <= e < w0.len() && eligible(r0, w0[e]) && (forall|m: int|
                0 <= m < e ==> !eligible(r0, #[trigger] w0[m])) && self.work_demand() == w0.remove(e) && proposal == (
            AssignmentResult {
                assignment_type: AssignmentType::InhabitantOffice,
                from: w0[e],
                from_position: home_position(r0, w0[e]),
                to: s0[j].building_entity_id,
                to_position: s0[j].building_position,
                count: 1,
            });
        proof {
            assert(first_open(s0, j));
            assert(first_eligible(r0, w0, e));
            assert forall|k: int| first_open(s0, k) implies k == j by {
                lemma_first_open_unique(s0, j, k);
            }
            assert forall|k: int| first_eligible(r0, w0, k) implies k == e by {
                if k < e {
                    assert(!eligible(r0, w0[k]));
                } else if k > e {
                    assert(!eligible(r0, w0[e]));
                }
            }
        }
        match navigator.get_navigation_descriptor(&proposal.from_position, proposal.to_position) {
            None => {
                let ghost after = self.office_supply();
                proof {
                    assert(self.offices_needs_to_be_fulfilled@[0].building_entity_id == proposal.to);
                    assert forall|k: int|
                        0 <= k < self.office_supply().len() && self.office_supply()[k].building_entity_id == proposal.to
                            implies self.office_supply()[k].remain + proposal.count <= u32::MAX by {
                        if k != 0 {
                            assert(self.offices_needs_to_be_fulfilled@[0].building_entity_id
                                != self.offices_needs_to_be_fulfilled@[k].building_entity_id);
                        }
                    }
                    assert(has_home(self.inhabitants@, proposal.from)) by {
                        assert(has_home(old(self).inhabitants@, w0[e]));
                    }
                    let rest = self.work_demand();
                    assert(!rest.contains(proposal.from)) by {
                        if rest.contains(proposal.from) {
                            let k = choose|k: int| 0 <= k < rest.len() && rest[k] == proposal.from;
                            let k0 = if k < e { k } else { k + 1 };
                            assert(w0[k0] == rest[k]);
                        }
                    }
                }
                self.resign_assign_result(proposal);
                proof {
                    lemma_give_back_taken(s0, j, after);
                }
                Vec::new()
            },
            Some(_route) => {
                if self.is_unemployed(proposal.from) {
                    self.found_job_for_unemployee(&proposal.from, proposal.to, proposal.to_position);
                }
                proof {
                    assert(self.residents() =~= hired(r0, w0[e], s0[j].building_entity_id, s0[j].building_position));
                }
                let r = vec![proposal];
                assert(r@[0] == proposal);
                r
            },
        }
    }
}

impl Default for EntityStorage {
    fn default() -> (r: Self)
        ensures
            r.wf(),
            r.residents().len() == 0,
            r.housing_demand().len() == 0,
            r.work_demand().len() == 0,
            r.housing_supply().len() == 0,
            r.office_supply().len() == 0,
    {
        EntityStorage::new()
    }
}

/// A proposed pairing handed back restores the pool it came from: an id
/// taken from the front of a pool without duplicates and given back leaves the
/// pool with the same ids and the same size, so that what was introduced is
/// always what waits plus what is matched.
pub proof fn lemma_resign_restores_pool(pool: Seq<EntityId>)
    requires
        pool.len() > 0,
        pool.no_duplicates(),
    ensures
        with_id(pool.subrange(1, pool.len() as int), pool[0]).len() == pool.len(),
        with_id(pool.subrange(1, pool.len() as int), pool[0]).to_set() == pool.to_set(),
{
    let rest = pool.subrange(1, pool.len() as int);
    assert(!rest.contains(pool[0])) by {
        if rest.contains(pool[0]) {
            let k = choose|k: int| 0 <= k < rest.len() && rest[k] == pool[0];
            assert(pool[k + 1] == pool[0]);
        }
    }
    assert(rest.push(pool[0]).to_set() =~= pool.to_set()) by {
        assert forall|x: EntityId| pool.contains(x) implies rest.push(pool[0]).contains(x) by {
            let k = choose|k: int| 0 <= k < pool.len() && pool[k] == x;
            if k > 0 {
                assert(rest[k - 1] == x);
            }
        }
    }
}

} // verus!
