//! Power allocation: consumers ask for energy, producers have a fixed
//! capacity, and each call hands out what it can, keeping earlier pairings.
use vstd::prelude::*;

use crate::buildings::{snapshot_id, BuildingSnapshot};
use crate::configuration::BuildingsConfiguration;
use crate::position::Position;
use crate::sums::{lemma_push_unique, lemma_sum_update, seq_sum};
use crate::EntityId;

verus! {

/// A building that needs power.
#[derive(Clone, Copy, Debug)]
pub struct EnergyPowerConsumer {
    pub id: EntityId,
    pub position: Position,
    pub base_expenditure: u32,
    pub single_expenditure: u32,
    pub multiplier: u32,
    pub covered: u32,
}

impl EnergyPowerConsumer {
    /// Energy asked for: the base plus the share of each occupant.
    pub open spec fn requested_wh(self) -> int {
        self.base_expenditure + self.single_expenditure * self.multiplier
    }

    /// Energy still missing.
    pub open spec fn missing_wh(self) -> int {
        self.requested_wh() - self.covered
    }

    pub fn requested(&self) -> (r: u32)
        requires
            self.requested_wh() <= u32::MAX,
        ensures
            r == self.requested_wh(),
    {
        assert(self.single_expenditure * self.multiplier >= 0) by (nonlinear_arith);
        self.base_expenditure + self.single_expenditure * self.multiplier
    }
}

/// A power plant.
#[derive(Clone, Copy, Debug)]
pub struct EnergyPowerProducer {
    pub id: EntityId,
    pub position: Position,
    pub total_capacity_wh: u32,
    pub remain_capacity_wh: u32,
}

/// Energy already handed out by a producer.
pub open spec fn drawn(p: EnergyPowerProducer) -> int {
    p.total_capacity_wh - p.remain_capacity_wh
}

/// Energy covered over a list of consumers.
pub open spec fn covered_total(s: Seq<EnergyPowerConsumer>) -> int {
    seq_sum(s, |c: EnergyPowerConsumer| c.covered as int)
}

/// Energy still available over a list of producers.
pub open spec fn remaining_total(s: Seq<EnergyPowerProducer>) -> int {
    seq_sum(s, |p: EnergyPowerProducer| p.remain_capacity_wh as int)
}

/// Energy missing over a list of consumers.
pub open spec fn missing_total(s: Seq<EnergyPowerConsumer>) -> int {
    seq_sum(s, |c: EnergyPowerConsumer| c.missing_wh())
}

/// A consumer left short can get nothing more: each producer linked to it is
/// empty and no other producer alone can cover what it misses.
pub open spec fn settled(
    c: EnergyPowerConsumer,
    producers: Seq<EnergyPowerProducer>,
    links: Seq<(EntityId, EntityId)>,
) -> bool {
    c.covered < c.requested_wh() ==> forall|j: int|
        0 <= j < producers.len() ==> (if links.contains((c.id, #[trigger] producers[j].id)) {
            producers[j].remain_capacity_wh == 0
        } else {
            producers[j].remain_capacity_wh < c.missing_wh()
        })
}

/// The entries of a change set for consumers: for each consumer whose
/// coverage changed, its id, the energy it received and what it still misses.
pub open spec fn consumer_changes(before: Seq<EnergyPowerConsumer>, after: Seq<EnergyPowerConsumer>) -> Seq<
    (EntityId, (u32, u32)),
>
    decreases after.len(),
{
    if after.len() == 0 || before.len() != after.len() {
        Seq::empty()
    } else {
        let rest = consumer_changes(before.drop_last(), after.drop_last());
        let (b, a) = (before.last(), after.last());
        if a.covered != b.covered {
            rest.push((a.id, ((a.covered - b.covered) as u32, a.missing_wh() as u32)))
        } else {
            rest
        }
    }
}

/// The entries of a change set for producers: for each producer that handed
/// out energy, its id and how much.
pub open spec fn producer_changes(before: Seq<EnergyPowerProducer>, after: Seq<EnergyPowerProducer>) -> Seq<
    (EntityId, u32),
>
    decreases after.len(),
{
    if after.len() == 0 || before.len() != after.len() {
        Seq::empty()
    } else {
        let rest = producer_changes(before.drop_last(), after.drop_last());
        let (b, a) = (before.last(), after.last());
        if a.remain_capacity_wh != b.remain_capacity_wh {
            rest.push((a.id, (b.remain_capacity_wh - a.remain_capacity_wh) as u32))
        } else {
            rest
        }
    }
}

/// Producers keep their ids, places and capacities, and only lose energy.
pub open spec fn producers_drain(before: Seq<EnergyPowerProducer>, after: Seq<EnergyPowerProducer>) -> bool {
    &&& after.len() == before.len()
    &&& forall|j: int|
        0 <= j < before.len() ==> (#[trigger] after[j]).id == before[j].id && after[j].position == before[j].position
            && after[j].total_capacity_wh == before[j].total_capacity_wh
            && after[j].remain_capacity_wh <= before[j].remain_capacity_wh
}

/// Consumers keep everything but their coverage, which only grows.
pub open spec fn consumers_fill(before: Seq<EnergyPowerConsumer>, after: Seq<EnergyPowerConsumer>) -> bool {
    &&& after.len() == before.len()
    &&& forall|i: int|
        0 <= i < before.len() ==> (#[trigger] after[i]).id == before[i].id && after[i].position == before[i].position
            && after[i].base_expenditure == before[i].base_expenditure
            && after[i].single_expenditure == before[i].single_expenditure
            && after[i].multiplier == before[i].multiplier && after[i].covered >= before[i].covered
}

/// New pairings are appended after the old ones, and all of them concern
/// consumers in `owners`.
pub open spec fn links_grow(before: Seq<(EntityId, EntityId)>, after: Seq<(EntityId, EntityId)>, owners: Set<EntityId>) -> bool {
    &&& before.len() <= after.len()
    &&& after.subrange(0, before.len() as int) == before
    &&& forall|k: int| before.len() <= k < after.len() ==> owners.contains(#[trigger] after[k].0)
}

/// Every pairing from index `from` on belongs to a consumer of `s` that is
/// fully covered.
pub open spec fn links_complete(s: Seq<EnergyPowerConsumer>, links: Seq<(EntityId, EntityId)>, from: int) -> bool {
    forall|k: int|
        from <= k < links.len() ==> exists|j: int|
            0 <= j < s.len() && s[j].id == #[trigger] links[k].0 && s[j].covered == s[j].requested_wh()
}

/// From index `from` on, no two pairings concern the same consumer.
pub open spec fn one_new_link_each(links: Seq<(EntityId, EntityId)>, from: int) -> bool {
    forall|a: int, b: int| from <= a < b < links.len() ==> #[trigger] links[a].0 != #[trigger] links[b].0
}

/// The energy received, summed over consumer change entries.
pub open spec fn received_total(entries: Seq<(EntityId, (u32, u32))>) -> int {
    seq_sum(entries, |e: (EntityId, (u32, u32))| e.1.0 as int)
}

/// The energy handed out, summed over producer change entries.
pub open spec fn handed_out_total(entries: Seq<(EntityId, u32)>) -> int {
    seq_sum(entries, |e: (EntityId, u32)| e.1 as int)
}

/// The energy received in the change entries is what coverage grew by.
proof fn lemma_consumer_changes_total(b: Seq<EnergyPowerConsumer>, a: Seq<EnergyPowerConsumer>)
    requires
        a.len() == b.len(),
        forall|i: int| 0 <= i < a.len() ==> (#[trigger] a[i]).covered >= b[i].covered,
    ensures
        received_total(consumer_changes(b, a)) == covered_total(a) - covered_total(b),
    decreases a.len(),
{
    if a.len() > 0 {
        lemma_consumer_changes_total(b.drop_last(), a.drop_last());
        let rest = consumer_changes(b.drop_last(), a.drop_last());
        let (x, y) = (b.last(), a.last());
        if y.covered != x.covered {
            let e = (y.id, ((y.covered - x.covered) as u32, y.missing_wh() as u32));
            assert(rest.push(e).drop_last() =~= rest);
        }
    }
}

/// The energy handed out in the change entries is what the producers lost.
proof fn lemma_producer_changes_total(b: Seq<EnergyPowerProducer>, a: Seq<EnergyPowerProducer>)
    requires
        a.len() == b.len(),
        forall|i: int| 0 <= i < a.len() ==> (#[trigger] a[i]).remain_capacity_wh <= b[i].remain_capacity_wh,
    ensures
        handed_out_total(producer_changes(b, a)) == remaining_total(b) - remaining_total(a),
    decreases a.len(),
{
    if a.len() > 0 {
        lemma_producer_changes_total(b.drop_last(), a.drop_last());
        let rest = producer_changes(b.drop_last(), a.drop_last());
        let (x, y) = (b.last(), a.last());
        if y.remain_capacity_wh != x.remain_capacity_wh {
            let e = (y.id, (x.remain_capacity_wh - y.remain_capacity_wh) as u32);
            assert(rest.push(e).drop_last() =~= rest);
        }
    }
}

/// The ids of a list of consumers.
pub open spec fn ids_of(s: Seq<EnergyPowerConsumer>) -> Set<EntityId> {
    Set::new(|id: EntityId| exists|i: int| 0 <= i < s.len() && s[i].id == id)
}

/// A settled consumer stays settled while producers only lose energy and new
/// pairings concern other consumers.
proof fn lemma_settled_stable(
    c: EnergyPowerConsumer,
    p: Seq<EnergyPowerProducer>,
    q: Seq<EnergyPowerProducer>,
    l: Seq<(EntityId, EntityId)>,
    m: Seq<(EntityId, EntityId)>,
    owner: EntityId,
)
    requires
        settled(c, p, l),
        producers_drain(p, q),
        links_grow(l, m, set![owner]),
        c.id != owner,
    ensures
        settled(c, q, m),
{
    if c.covered < c.requested_wh() {
        assert forall|j: int| 0 <= j < q.len() implies (if m.contains((c.id, #[trigger] q[j].id)) {
            q[j].remain_capacity_wh == 0
        } else {
            q[j].remain_capacity_wh < c.missing_wh()
        }) by {
            assert(q[j].id == p[j].id);
            if m.contains((c.id, q[j].id)) {
                let k = choose|k: int| 0 <= k < m.len() && m[k] == (c.id, q[j].id);
                if k >= l.len() {
                    assert(set![owner].contains(m[k].0));
                } else {
                    assert(l[k] == m.subrange(0, l.len() as int)[k]);
                    assert(l.contains((c.id, p[j].id)));
                }
            } else {
                if l.contains((c.id, p[j].id)) {
                    let k = choose|k: int| 0 <= k < l.len() && l[k] == (c.id, p[j].id);
                    assert(m[k] == m.subrange(0, l.len() as int)[k]);
                }
            }
        }
    }
}

/// A sum of values that are all at least zero is at least the sum of any prefix.
proof fn lemma_sum_prefix_le<A>(s: Seq<A>, f: spec_fn(A) -> int, k: int)
    requires
        0 <= k <= s.len(),
        forall|i: int| 0 <= i < s.len() ==> f(s[i]) >= 0,
    ensures
        seq_sum(s.subrange(0, k), f) <= seq_sum(s, f),
    decreases s.len(),
{
    if k < s.len() {
        lemma_sum_prefix_le(s.drop_last(), f, k);
        assert(s.drop_last().subrange(0, k) =~= s.subrange(0, k));
    } else {
        assert(s.subrange(0, k) =~= s);
    }
}

/// What one allocation round changed.
#[derive(Debug)]
pub struct ChangePowerAssignment {
    consumers: Vec<(EntityId, (u32, u32))>,
    producers: Vec<(EntityId, u32)>,
}

impl ChangePowerAssignment {
    pub closed spec fn consumer_entries(&self) -> Seq<(EntityId, (u32, u32))> {
        self.consumers@
    }

    pub closed spec fn producer_entries(&self) -> Seq<(EntityId, u32)> {
        self.producers@
    }

    /// For each consumer that received energy: its id, the energy received
    /// and what it still misses.
    pub fn consumers(&self) -> (r: &Vec<(EntityId, (u32, u32))>)
        ensures
            r@ == self.consumer_entries(),
    {
        &self.consumers
    }

    /// For each producer that handed out energy: its id and how much.
    pub fn producers(&self) -> (r: &Vec<(EntityId, u32)>)
        ensures
            r@ == self.producer_entries(),
    {
        &self.producers
    }
}

/// Consumers, producers and which producers supply which consumer.
pub struct PowerManager {
    configuration: BuildingsConfiguration,
    consumers: Vec<EnergyPowerConsumer>,
    producers: Vec<EnergyPowerProducer>,
    assignments: Vec<(EntityId, EntityId)>,
}

impl PowerManager {
    pub closed spec fn consumer_list(&self) -> Seq<EnergyPowerConsumer> {
        self.consumers@
    }

    pub closed spec fn producer_list(&self) -> Seq<EnergyPowerProducer> {
        self.producers@
    }

    /// Pairs (consumer, producer), in the order they were made.
    pub closed spec fn links(&self) -> Seq<(EntityId, EntityId)> {
        self.assignments@
    }

    /// Ids are unique, no consumer is covered beyond its request, no producer
    /// hands out more than its capacity, and no pairing is stored twice.
    pub closed spec fn wf(&self) -> bool {
        &&& forall|i: int, j: int|
            0 <= i < j < self.consumers@.len() ==> self.consumers@[i].id != self.consumers@[j].id
        &&& forall|i: int, j: int|
            0 <= i < j < self.producers@.len() ==> self.producers@[i].id != self.producers@[j].id
        &&& forall|i: int|
            0 <= i < self.consumers@.len() ==> #[trigger] self.consumers@[i].requested_wh() <= u32::MAX
                && self.consumers@[i].covered <= self.consumers@[i].requested_wh()
        &&& forall|j: int|
            0 <= j < self.producers@.len() ==> #[trigger] self.producers@[j].remain_capacity_wh
                <= self.producers@[j].total_capacity_wh
        &&& self.assignments@.no_duplicates()
    }

    pub closed spec fn config(&self) -> BuildingsConfiguration {
        self.configuration
    }

    pub fn new(configuration: BuildingsConfiguration) -> (r: Self)
        ensures
            r.wf(),
            r.config() == configuration,
            r.consumer_list() == Seq::<EnergyPowerConsumer>::empty(),
            r.producer_list() == Seq::<EnergyPowerProducer>::empty(),
            r.links() == Seq::<(EntityId, EntityId)>::empty(),
    {
        PowerManager { configuration, consumers: Vec::new(), producers: Vec::new(), assignments: Vec::new() }
    }

    /// Index of the producer with this id.
    fn producer_index(&self, id: EntityId) -> (r: Option<usize>)
        ensures
            r matches Some(j) ==> j < self.producers@.len() && self.producers@[j as int].id == id,
            r is None ==> forall|j: int| 0 <= j < self.producers@.len() ==> self.producers@[j].id != id,
    {
        let mut j: usize = 0;
        while j < self.producers.len()
            invariant
                j <= self.producers.len(),
                forall|k: int| 0 <= k < j ==> self.producers@[k].id != id,
            decreases self.producers.len() - j,
        {
            if self.producers[j].id == id {
                return Some(j);
            }
            j = j + 1;
        }
        None
    }

    /// Index of the consumer with this id.
    fn consumer_index(&self, id: EntityId) -> (r: Option<usize>)
        ensures
            r matches Some(i) ==> i < self.consumers@.len() && self.consumers@[i as int].id == id,
            r is None ==> forall|i: int| 0 <= i < self.consumers@.len() ==> self.consumers@[i].id != id,
    {
        let mut i: usize = 0;
        while i < self.consumers.len()
            invariant
                i <= self.consumers.len(),
                forall|k: int| 0 <= k < i ==> self.consumers@[k].id != id,
            decreases self.consumers.len() - i,
        {
            if self.consumers[i].id == id {
                return Some(i);
            }
            i = i + 1;
        }
        None
    }

    /// Whether the producer already supplies the consumer.
    fn is_linked(&self, consumer: EntityId, producer: EntityId) -> (r: bool)
        ensures
            r == self.assignments@.contains((consumer, producer)),
    {
        let mut k: usize = 0;
        while k < self.assignments.len()
            invariant
                k <= self.assignments.len(),
                forall|m: int| 0 <= m < k ==> self.assignments@[m] != (consumer, producer),
            decreases self.assignments.len() - k,
        {
            if self.assignments[k].0 == consumer && self.assignments[k].1 == producer {
                assert(self.assignments@[k as int] == (consumer, producer));
                return true;
            }
            k = k + 1;
        }
        false
    }

    /// The first producer not yet linked to the consumer that can cover
    /// `need` on its own.
    fn find_new_producer(&self, consumer: EntityId, need: u32) -> (r: Option<usize>)
        ensures
            r matches Some(j) ==> j < self.producers@.len() && self.producers@[j as int].remain_capacity_wh >= need
                && !self.assignments@.contains((consumer, self.producers@[j as int].id)),
            r is None ==> forall|j: int|
                0 <= j < self.producers@.len() && !self.assignments@.contains((consumer, #[trigger] self.producers@[j].id))
                    ==> self.producers@[j].remain_capacity_wh < need,
    {
        let mut j: usize = 0;
        while j < self.producers.len()
            invariant
                j <= self.producers.len(),
                forall|k: int|
                    0 <= k < j && !self.assignments@.contains((consumer, #[trigger] self.producers@[k].id))
                        ==> self.producers@[k].remain_capacity_wh < need,
            decreases self.producers.len() - j,
        {
            if self.producers[j].remain_capacity_wh >= need && !self.is_linked(consumer, self.producers[j].id) {
                return Some(j);
            }
            j = j + 1;
        }
        None
    }

    /// Give the consumer at `i` what it misses: first from the producers
    /// already linked to it, in the order they were linked, then, if that is
    /// not enough, from the first other producer that can cover the rest alone.
    fn supply_consumer(&mut self, i: usize)
        requires
            old(self).wf(),
            i < old(self).consumers@.len(),
        ensures
            final(self).configuration == old(self).configuration,
            final(self).wf(),
            consumers_fill(old(self).consumers@, final(self).consumers@),
            forall|k: int|
                0 <= k < old(self).consumers@.len() && k != i ==> final(self).consumers@[k] == old(self).consumers@[k],
            producers_drain(old(self).producers@, final(self).producers@),
            links_grow(old(self).assignments@, final(self).assignments@, set![old(self).consumers@[i as int].id]),
            final(self).assignments@.len() <= old(self).assignments@.len() + 1,
            final(self).consumers@[i as int].covered - old(self).consumers@[i as int].covered
                == remaining_total(old(self).producers@) - remaining_total(final(self).producers@),
            settled(final(self).consumers@[i as int], final(self).producers@, final(self).assignments@),
            final(self).assignments@.len() > old(self).assignments@.len() ==> final(self).consumers@[i as int].covered
                == final(self).consumers@[i as int].requested_wh(),
    {
        let c = self.consumers[i];
        let requested = c.requested();
        proof {
            assert(self.assignments@.subrange(0, self.assignments@.len() as int) =~= self.assignments@);
        }
        if c.covered >= requested {
            return;
        }
        let need: u32 = requested - c.covered;
        let mut remain: u32 = need;
        let ghost prod0 = self.producers@;
        let mut k: usize = 0;
        while k < self.assignments.len()
            invariant
                old(self).wf(),
                self.configuration == old(self).configuration,
                self.consumers == old(self).consumers,
                self.assignments == old(self).assignments,
                c == old(self).consumers@[i as int],
                prod0 == old(self).producers@,
                k <= self.assignments.len(),
                producers_drain(prod0, self.producers@),
                remain <= need,
                need - remain == remaining_total(prod0) - remaining_total(self.producers@),
                remain > 0 ==> forall|m: int, j: int|
                    #![trigger self.assignments@[m], self.producers@[j]]
                    0 <= m < k && 0 <= j < self.producers@.len() && self.assignments@[m] == (c.id, self.producers@[j].id)
                        ==> self.producers@[j].remain_capacity_wh == 0,
            ensures
                remain > 0 ==> k == self.assignments.len(),
            decreases self.assignments.len() - k,
        {
            if remain == 0 {
                break;
            }
            let pair = self.assignments[k];
            if pair.0 == c.id {
                match self.producer_index(pair.1) {
                    Some(j) => {
                        let mut p = self.producers[j];
                        let draw = if p.remain_capacity_wh < remain {
                            p.remain_capacity_wh
                        } else {
                            remain
                        };
                        p.remain_capacity_wh = p.remain_capacity_wh - draw;
                        remain = remain - draw;
                        proof {
                            lemma_sum_update(self.producers@, |p: EnergyPowerProducer| p.remain_capacity_wh as int, j as int, p);
                        }
                        self.producers[j] = p;
                    },
                    None => {},
                }
            }
            k = k + 1;
        }
        if remain > 0 {
            match self.find_new_producer(c.id, remain) {
                Some(j) => {
                    let mut p = self.producers[j];
                    p.remain_capacity_wh = p.remain_capacity_wh - remain;
                    proof {
                        lemma_sum_update(self.producers@, |p: EnergyPowerProducer| p.remain_capacity_wh as int, j as int, p);
                        lemma_push_unique(self.assignments@, (c.id, p.id));
                    }
                    self.producers[j] = p;
                    self.assignments.push((c.id, p.id));
                    remain = 0;
                    proof {
                        assert(self.assignments@.subrange(0, old(self).assignments@.len() as int) =~= old(self).assignments@);
                    }
                },
                None => {},
            }
        }
        let mut filled = c;
        filled.covered = requested - remain;
        self.consumers[i] = filled;
        proof {
            if remain > 0 {
                assert forall|j: int| 0 <= j < self.producers@.len() && self.assignments@.contains((c.id, #[trigger] self.producers@[j].id))
                    implies self.producers@[j].remain_capacity_wh == 0 by {
                    let m = choose|m: int| 0 <= m < self.assignments@.len() && self.assignments@[m] == (c.id, self.producers@[j].id);
                }
            }
        }
    }

    /// One allocation round. Each consumer that misses energy, in the order
    /// they were registered, draws first from the producers already linked to
    /// it, then from the first other producer that can cover the rest alone;
    /// a consumer that no producer can cover stays partially covered until a
    /// later round. Returns the consumers and producers whose amounts changed.
    pub fn dedicate_power_to_consumers(&mut self) -> (r: ChangePowerAssignment)
        requires
            old(self).wf(),
        ensures
            final(self).config() == old(self).config(),
            final(self).wf(),
            consumers_fill(old(self).consumer_list(), final(self).consumer_list()),
            producers_drain(old(self).producer_list(), final(self).producer_list()),
            links_grow(old(self).links(), final(self).links(), ids_of(old(self).consumer_list())),
            links_complete(final(self).consumer_list(), final(self).links(), old(self).links().len() as int),
            one_new_link_each(final(self).links(), old(self).links().len() as int),
            received_total(r.consumer_entries()) == handed_out_total(r.producer_entries()),
            covered_total(final(self).consumer_list()) - covered_total(old(self).consumer_list())
                == remaining_total(old(self).producer_list()) - remaining_total(final(self).producer_list()),
            forall|i: int|
                0 <= i < final(self).consumer_list().len() ==> settled(
                    #[trigger] final(self).consumer_list()[i],
                    final(self).producer_list(),
                    final(self).links(),
                ),
            r.consumer_entries() == consumer_changes(old(self).consumer_list(), final(self).consumer_list()),
            r.producer_entries() == producer_changes(old(self).producer_list(), final(self).producer_list()),
    {
        let before_consumers = self.consumers.clone();
        let before_producers = self.producers.clone();
        let ghost c0 = self.consumers@;
        let ghost prod0 = self.producers@;
        let ghost l0 = self.assignments@;
        proof {
            assert(before_consumers@ =~= c0);
            assert(before_producers@ =~= prod0);
            assert(l0.subrange(0, l0.len() as int) =~= l0);
        }
        let mut i: usize = 0;
        while i < self.consumers.len()
            invariant
                self.wf(),
                self.configuration == old(self).configuration,
                i <= self.consumers@.len(),
                consumers_fill(c0, self.consumers@),
                producers_drain(prod0, self.producers@),
                links_grow(l0, self.assignments@, ids_of(c0)),
                forall|k: int| i <= k < self.consumers@.len() ==> self.consumers@[k] == c0[k],
                covered_total(self.consumers@) - covered_total(c0) == remaining_total(prod0) - remaining_total(self.producers@),
                forall|k: int| 0 <= k < i ==> settled(#[trigger] self.consumers@[k], self.producers@, self.assignments@),
                links_complete(self.consumers@, self.assignments@, l0.len() as int),
                one_new_link_each(self.assignments@, l0.len() as int),
                forall|k: int|
                    l0.len() <= k < self.assignments@.len() ==> exists|j: int|
                        0 <= j < i && c0[j].id == #[trigger] self.assignments@[k].0,
            decreases self.consumers@.len() - i,
        {
            let ghost cs = self.consumers@;
            let ghost ps = self.producers@;
            let ghost ls = self.assignments@;
            self.supply_consumer(i);
            proof {
                let owner = cs[i as int].id;
                assert forall|k: int| 0 <= k < i implies settled(#[trigger] self.consumers@[k], self.producers@, self.assignments@) by {
                    assert(cs[k].id != owner);
                    lemma_settled_stable(cs[k], ps, self.producers@, ls, self.assignments@, owner);
                }
                assert(self.consumers@ =~= cs.update(i as int, self.consumers@[i as int]));
                lemma_sum_update(cs, |c: EnergyPowerConsumer| c.covered as int, i as int, self.consumers@[i as int]);
                assert(self.assignments@.subrange(0, ls.len() as int) =~= ls);
                assert(self.assignments@.subrange(0, l0.len() as int) =~= ls.subrange(0, l0.len() as int));
                assert forall|k: int| l0.len() <= k < self.assignments@.len() implies exists|j: int|
                    0 <= j < self.consumers@.len() && self.consumers@[j].id == #[trigger] self.assignments@[k].0
                        && self.consumers@[j].covered == self.consumers@[j].requested_wh() by {
                    if k >= ls.len() {
                        assert(self.assignments@[k].0 == owner);
                        assert(self.consumers@[i as int].id == owner);
                    } else {
                        assert(self.assignments@[k] == ls[k]);
                        let j = choose|j: int|
                            0 <= j < cs.len() && cs[j].id == ls[k].0 && cs[j].covered == cs[j].requested_wh();
                        if j == i {
                            assert(self.consumers@[j].covered >= cs[j].covered);
                        } else {
                            assert(self.consumers@[j] == cs[j]);
                        }
                    }
                }
                assert forall|k: int| l0.len() <= k < self.assignments@.len() implies ids_of(c0).contains(#[trigger] self.assignments@[k].0) by {
                    if k >= ls.len() {
                        assert(self.assignments@[k].0 == owner);
                        assert(c0[i as int].id == owner);
                    } else {
                        assert(self.assignments@[k] == self.assignments@.subrange(0, ls.len() as int)[k]);
                    }
                }
            }
            proof {
                let owner = cs[i as int].id;
                assert(c0[i as int].id == owner);
                assert forall|k: int| l0.len() <= k < self.assignments@.len() implies exists|j: int|
                    0 <= j < i + 1 && c0[j].id == #[trigger] self.assignments@[k].0 by {
                    if k >= ls.len() {
                        assert(self.assignments@[k].0 == owner);
                    } else {
                        assert(self.assignments@[k] == ls[k]);
                    }
                }
                assert forall|a: int, b: int| l0.len() <= a < b < self.assignments@.len() implies #[trigger] self.assignments@[a].0
                    != #[trigger] self.assignments@[b].0 by {
                    if b >= ls.len() {
                        assert(b == ls.len());
                        assert(self.assignments@[a] == ls[a]);
                        let j = choose|j: int| 0 <= j < i && c0[j].id == ls[a].0;
                        assert(self.consumers@[j].id == c0[j].id);
                        assert(self.consumers@[i as int].id == c0[i as int].id);
                        assert(self.consumers@[j].id != self.consumers@[i as int].id);
                    } else {
                        assert(self.assignments@[a] == ls[a]);
                        assert(self.assignments@[b] == ls[b]);
                    }
                }
            }
            i = i + 1;
        }
        let mut consumers: Vec<(EntityId, (u32, u32))> = Vec::new();
        let mut k: usize = 0;
        while k < self.consumers.len()
            invariant
                self.wf(),
                self.configuration == old(self).configuration,
                before_consumers@ == c0,
                consumers_fill(c0, self.consumers@),
                k <= self.consumers@.len(),
                consumers@ == consumer_changes(c0.subrange(0, k as int), self.consumers@.subrange(0, k as int)),
            decreases self.consumers@.len() - k,
        {
            let a = self.consumers[k];
            let b = before_consumers[k];
            proof {
                assert(c0.subrange(0, k + 1).drop_last() =~= c0.subrange(0, k as int));
                assert(self.consumers@.subrange(0, k + 1).drop_last() =~= self.consumers@.subrange(0, k as int));
            }
            if a.covered != b.covered {
                let requested = a.requested();
                consumers.push((a.id, (a.covered - b.covered, requested - a.covered)));
            }
            k = k + 1;
        }
        let mut producers: Vec<(EntityId, u32)> = Vec::new();
        let mut k: usize = 0;
        while k < self.producers.len()
            invariant
                self.configuration == old(self).configuration,
                before_producers@ == prod0,
                producers_drain(prod0, self.producers@),
                k <= self.producers@.len(),
                producers@ == producer_changes(prod0.subrange(0, k as int), self.producers@.subrange(0, k as int)),
            decreases self.producers@.len() - k,
        {
            let a = self.producers[k];
            let b = before_producers[k];
            proof {
                assert(prod0.subrange(0, k + 1).drop_last() =~= prod0.subrange(0, k as int));
                assert(self.producers@.subrange(0, k + 1).drop_last() =~= self.producers@.subrange(0, k as int));
            }
            if a.remain_capacity_wh != b.remain_capacity_wh {
                producers.push((a.id, b.remain_capacity_wh - a.remain_capacity_wh));
            }
            k = k + 1;
        }
        proof {
            assert(c0.subrange(0, c0.len() as int) =~= c0);
            assert(self.consumers@.subrange(0, c0.len() as int) =~= self.consumers@);
            assert(prod0.subrange(0, prod0.len() as int) =~= prod0);
            assert(self.producers@.subrange(0, prod0.len() as int) =~= self.producers@);
        }
        proof {
            lemma_consumer_changes_total(c0, self.consumers@);
            lemma_producer_changes_total(prod0, self.producers@);
        }
        ChangePowerAssignment { consumers, producers }
    }

    /// Energy missing over all consumers.
    pub fn calculate_missing_power_energy(&self) -> (r: u32)
        requires
            self.wf(),
            missing_total(self.consumer_list()) <= u32::MAX,
        ensures
            r == missing_total(self.consumer_list()),
    {
        let mut total: u32 = 0;
        let mut i: usize = 0;
        while i < self.consumers.len()
            invariant
                self.wf(),
                missing_total(self.consumer_list()) <= u32::MAX,
                i <= self.consumers@.len(),
                total == seq_sum(self.consumers@.subrange(0, i as int), |c: EnergyPowerConsumer| c.missing_wh()),
            decreases self.consumers@.len() - i,
        {
            let c = self.consumers[i];
            proof {
                assert forall|k: int| 0 <= k < self.consumers@.len() implies self.consumers@[k].missing_wh() >= 0 by {
                    assert(self.consumers@[k].covered <= self.consumers@[k].requested_wh());
                }
                crate::sums::lemma_sum_prefix(self.consumers@, |c: EnergyPowerConsumer| c.missing_wh(), i as int);
                lemma_sum_prefix_le(self.consumers@, |c: EnergyPowerConsumer| c.missing_wh(), i + 1);
            }
            total = total + (c.requested() - c.covered);
            i = i + 1;
        }
        assert(self.consumers@.subrange(0, i as int) =~= self.consumers@);
        total
    }

    /// The consumer registered under `id`, if any.
    pub fn get_consumer(&self, id: &EntityId) -> (r: Option<EnergyPowerConsumer>)
        ensures
            r matches Some(c) ==> c.id == *id && self.consumer_list().contains(c),
            r is None ==> !ids_of(self.consumer_list()).contains(*id),
    {
        match self.consumer_index(*id) {
            Some(i) => {
                assert(self.consumer_list()[i as int] == self.consumers@[i as int]);
                Some(self.consumers[i])
            },
            None => None,
        }
    }

    /// For a producer, `(0, true)`; for a consumer, what it misses and
    /// whether it is fully covered; for an unknown id, `(0, false)`.
    pub fn is_completely_covered(&self, building_id: &EntityId) -> (r: (u32, bool))
        requires
            self.wf(),
        ensures
            (exists|j: int| 0 <= j < self.producer_list().len() && self.producer_list()[j].id == *building_id)
                ==> r == (0u32, true),
            (forall|j: int| 0 <= j < self.producer_list().len() ==> self.producer_list()[j].id != *building_id)
                ==> (forall|i: int|
                0 <= i < self.consumer_list().len() && self.consumer_list()[i].id == *building_id
                    ==> r == (#[trigger] self.consumer_list()[i].missing_wh() as u32, self.consumer_list()[i].missing_wh() == 0)),
            (forall|j: int| 0 <= j < self.producer_list().len() ==> self.producer_list()[j].id != *building_id)
                && (forall|i: int| 0 <= i < self.consumer_list().len() ==> self.consumer_list()[i].id != *building_id)
                ==> r == (0u32, false),
    {
        if let Some(j) = self.producer_index(*building_id) {
            assert(self.producer_list()[j as int].id == *building_id);
            return (0, true);
        }
        match self.consumer_index(*building_id) {
            None => (0, false),
            Some(i) => {
                let c = self.consumers[i];
                assert(self.consumer_list()[i as int] == c);
                let requested = c.requested();
                (requested - c.covered, requested <= c.covered)
            },
        }
    }

    /// Register a consumer that asks for `base_wh` plus `per_unit_wh` for each
    /// of its `occupancy` units, with nothing covered yet.
    pub fn register_consumer(&mut self, id: EntityId, position: Position, base_wh: u32, per_unit_wh: u32, occupancy: u32)
        requires
            old(self).wf(),
            !ids_of(old(self).consumer_list()).contains(id),
            base_wh + per_unit_wh * occupancy <= u32::MAX,
        ensures
            final(self).config() == old(self).config(),
            final(self).wf(),
            final(self).consumer_list() == old(self).consumer_list().push(
                EnergyPowerConsumer {
                    id,
                    position,
                    base_expenditure: base_wh,
                    single_expenditure: per_unit_wh,
                    multiplier: occupancy,
                    covered: 0,
                },
            ),
            final(self).producer_list() == old(self).producer_list(),
            final(self).links() == old(self).links(),
    {
        assert(per_unit_wh * occupancy >= 0) by (nonlinear_arith);
        let c = EnergyPowerConsumer {
            id,
            position,
            base_expenditure: base_wh,
            single_expenditure: per_unit_wh,
            multiplier: occupancy,
            covered: 0,
        };
        self.consumers.push(c);
        proof {
            assert forall|i: int, j: int| 0 <= i < j < self.consumers@.len() implies self.consumers@[i].id != self.consumers@[j].id by {
                if j == self.consumers@.len() - 1 {
                    assert(old(self).consumers@[i].id != id);
                }
            }
        }
    }

    /// Register a producer with its full capacity available.
    pub fn register_producer(&mut self, id: EntityId, position: Position, capacity_wh: u32)
        requires
            old(self).wf(),
            forall|j: int| 0 <= j < old(self).producer_list().len() ==> old(self).producer_list()[j].id != id,
        ensures
            final(self).config() == old(self).config(),
            final(self).wf(),
            final(self).producer_list() == old(self).producer_list().push(
                EnergyPowerProducer { id, position, total_capacity_wh: capacity_wh, remain_capacity_wh: capacity_wh },
            ),
            final(self).consumer_list() == old(self).consumer_list(),
            final(self).links() == old(self).links(),
    {
        self.producers.push(
            EnergyPowerProducer { id, position, total_capacity_wh: capacity_wh, remain_capacity_wh: capacity_wh },
        );
        proof {
            assert forall|i: int, j: int| 0 <= i < j < self.producers@.len() implies self.producers@[i].id != self.producers@[j].id by {
                if j == self.producers@.len() - 1 {
                    assert(old(self).producer_list()[i].id != id);
                }
            }
        }
    }

    /// More occupants arrived at a consumer: its request grows, what it has
    /// covered stays. Unknown ids are ignored.
    pub fn register_new_inhabitants_at_home(&mut self, building_id: EntityId, delta_count: u32)
        requires
            old(self).wf(),
            forall|i: int|
                0 <= i < old(self).consumer_list().len() && old(self).consumer_list()[i].id == building_id
                    ==> #[trigger] old(self).consumer_list()[i].requested_wh()
                    + old(self).consumer_list()[i].single_expenditure * delta_count <= u32::MAX
                    && old(self).consumer_list()[i].multiplier + delta_count <= u32::MAX,
        ensures
            final(self).config() == old(self).config(),
            final(self).wf(),
            final(self).consumer_list().len() == old(self).consumer_list().len(),
            forall|i: int|
                0 <= i < old(self).consumer_list().len() ==> #[trigger] final(self).consumer_list()[i] == if old(
                    self,
                ).consumer_list()[i].id == building_id {
                    EnergyPowerConsumer {
                        multiplier: (old(self).consumer_list()[i].multiplier + delta_count) as u32,
                        ..old(self).consumer_list()[i]
                    }
                } else {
                    old(self).consumer_list()[i]
                },
            final(self).producer_list() == old(self).producer_list(),
            final(self).links() == old(self).links(),
    {
        match self.consumer_index(building_id) {
            None => {},
            Some(i) => {
                let mut c = self.consumers[i];
                assert(old(self).consumer_list()[i as int] == c);
                assert(c.requested_wh() + c.single_expenditure * delta_count <= u32::MAX);
                assert(c.single_expenditure * (c.multiplier + delta_count) == c.single_expenditure * c.multiplier
                    + c.single_expenditure * delta_count) by (nonlinear_arith);
                assert(c.single_expenditure * c.multiplier >= 0 && c.single_expenditure * delta_count >= 0)
                    by (nonlinear_arith);
                c.multiplier = c.multiplier + delta_count;
                self.consumers[i] = c;
            },
        }
    }

    /// Register a completed house or office as a consumer: each resident or
    /// worker needs the configured energy. Other buildings consume nothing.
    pub fn register_power_consumer(&mut self, building: &BuildingSnapshot)
        requires
            old(self).wf(),
            !ids_of(old(self).consumer_list()).contains(snapshot_id(*building)),
            building matches BuildingSnapshot::House(h) ==> old(self).config().house.power_consumer_configuration.consume_wh
                * h.current_residents <= u32::MAX,
            building matches BuildingSnapshot::Office(o) ==> old(self).config().office.power_consumer_configuration.consume_wh
                * o.current_workers <= u32::MAX,
        ensures
            final(self).wf(),
            final(self).config() == old(self).config(),
            final(self).producer_list() == old(self).producer_list(),
            final(self).links() == old(self).links(),
            final(self).consumer_list() == match *building {
                BuildingSnapshot::House(h) => old(self).consumer_list().push(
                    EnergyPowerConsumer {
                        id: h.id,
                        position: h.position,
                        base_expenditure: 0,
                        single_expenditure: old(self).config().house.power_consumer_configuration.consume_wh,
                        multiplier: h.current_residents,
                        covered: 0,
                    },
                ),
                BuildingSnapshot::Office(o) => old(self).consumer_list().push(
                    EnergyPowerConsumer {
                        id: o.id,
                        position: o.position,
                        base_expenditure: 0,
                        single_expenditure: old(self).config().office.power_consumer_configuration.consume_wh,
                        multiplier: o.current_workers,
                        covered: 0,
                    },
                ),
                _ => old(self).consumer_list(),
            },
    {
        match building {
            BuildingSnapshot::House(h) => {
                let per_unit = self.configuration.house.power_consumer_configuration.consume_wh;
                self.register_consumer(h.id, h.position, 0, per_unit, h.current_residents);
            },
            BuildingSnapshot::Office(o) => {
                let per_unit = self.configuration.office.power_consumer_configuration.consume_wh;
                self.register_consumer(o.id, o.position, 0, per_unit, o.current_workers);
            },
            _ => {},
        }
    }

    /// Register a completed power plant as a producer with the configured
    /// capacity. Other buildings produce nothing.
    pub fn register_power_source(&mut self, building: &BuildingSnapshot)
        requires
            old(self).wf(),
            forall|j: int| 0 <= j < old(self).producer_list().len() ==> old(self).producer_list()[j].id != snapshot_id(*building),
        ensures
            final(self).wf(),
            final(self).config() == old(self).config(),
            final(self).consumer_list() == old(self).consumer_list(),
            final(self).links() == old(self).links(),
            final(self).producer_list() == match *building {
                BuildingSnapshot::BiomassPowerPlant(p) => old(self).producer_list().push(
                    EnergyPowerProducer {
                        id: p.id,
                        position: p.position,
                        total_capacity_wh: old(self).config().biomass_power_plant.power_source.capacity_wh,
                        remain_capacity_wh: old(self).config().biomass_power_plant.power_source.capacity_wh,
                    },
                ),
                _ => old(self).producer_list(),
            },
    {
        match building {
            BuildingSnapshot::BiomassPowerPlant(p) => {
                let capacity = self.configuration.biomass_power_plant.power_source.capacity_wh;
                self.register_producer(p.id, p.position, capacity);
            },
            _ => {},
        }
    }
}

/// Whatever the calls so far, what a producer has handed out stays within its
/// capacity, and a consumer is never covered beyond its request: what it has
/// plus what it misses is exactly what it asks for. Consumer and producer ids
/// stay unique, and no pairing is stored twice.
pub proof fn lemma_power_bounds(m: &PowerManager)
    requires
        m.wf(),
    ensures
        forall|i: int, j: int|
            0 <= i < j < m.consumer_list().len() ==> m.consumer_list()[i].id != m.consumer_list()[j].id,
        forall|i: int, j: int|
            0 <= i < j < m.producer_list().len() ==> m.producer_list()[i].id != m.producer_list()[j].id,
        m.links().no_duplicates(),
        forall|j: int|
            0 <= j < m.producer_list().len() ==> 0 <= #[trigger] drawn(m.producer_list()[j])
                <= m.producer_list()[j].total_capacity_wh,
        forall|i: int|
            0 <= i < m.consumer_list().len() ==> #[trigger] m.consumer_list()[i].covered
                <= m.consumer_list()[i].requested_wh() && m.consumer_list()[i].covered + m.consumer_list()[i].missing_wh()
                == m.consumer_list()[i].requested_wh(),
{
}

} // verus!
