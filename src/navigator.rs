//! The street graph: positions are added in batches, linked to their
//! neighbours by `rebuild`, and searched with A* for a way to a building.
use vstd::prelude::*;

use crate::buildings::{snapshot_position, BuildingSnapshot};
use crate::position::{adjacent, manhattan, Position};
use crate::sums::lemma_push_unique;

verus! {

broadcast use vstd::seq_lib::group_seq_properties;

/// A directed edge of the street graph.
pub type Edge = (Position, Position);

/// A position is a node of the graph when an edge leaves it.
pub open spec fn is_node(edges: Set<Edge>, p: Position) -> bool {
    exists|q: Position| #[trigger] edges.contains((p, q))
}

/// What a pending position may be linked to during a rebuild: another pending
/// position or a node already in the graph.
pub open spec fn in_scope(pending: Set<Position>, edges: Set<Edge>, p: Position) -> bool {
    pending.contains(p) || is_node(edges, p)
}

/// A pending position gets linked when one of its neighbours is in scope.
pub open spec fn links(pending: Set<Position>, edges: Set<Edge>, p: Position) -> bool {
    exists|q: Position| adjacent(p, q) && #[trigger] in_scope(pending, edges, q)
}

/// The edges that a rebuild adds for the pending positions in `batch`.
pub open spec fn new_edges(pending: Set<Position>, edges: Set<Edge>, batch: Set<Position>) -> Set<Edge> {
    Set::new(
        |e: Edge|
            adjacent(e.0, e.1) && in_scope(pending, edges, e.0) && in_scope(pending, edges, e.1)
                && (batch.contains(e.0) || batch.contains(e.1)),
    )
}

/// The pending positions that stay pending after a rebuild.
pub open spec fn rebuilt_pending(pending: Set<Position>, edges: Set<Edge>) -> Set<Position> {
    pending.filter(|p: Position| !links(pending, edges, p))
}

/// The edges of the graph after a rebuild.
pub open spec fn rebuilt_edges(pending: Set<Position>, edges: Set<Edge>) -> Set<Edge> {
    edges.union(new_edges(pending, edges, pending))
}

/// A walk through the graph: it may start anywhere, and every further step
/// follows an edge.
pub open spec fn is_walk(edges: Set<Edge>, w: Seq<Position>) -> bool {
    &&& w.len() >= 1
    &&& forall|i: int| 0 <= i < w.len() - 1 ==> #[trigger] edges.contains((w[i], w[i + 1]))
}

/// A walk from `start` that ends on a cell next to `target`.
pub open spec fn is_route(edges: Set<Edge>, start: Position, target: Position, w: Seq<Position>) -> bool {
    &&& is_walk(edges, w)
    &&& w[0] == start
    &&& adjacent(w.last(), target)
}

/// Lower bound used to guide the search: a third of the Manhattan distance.
pub open spec fn heuristic(p: Position, target: Position) -> nat {
    manhattan(p, target) / 3
}

/// The estimate handed to the search: a third of the Manhattan distance.
fn guide(p: &Position, target: &Position) -> (r: u128)
    ensures
        r as int == heuristic(*p, *target),
{
    p.manhattan_to(target) / 3
}

/// The estimate never exceeds the number of moves of a walk that ends next
/// to `target`.
pub open spec fn admissible(edges: Set<Edge>, target: Position) -> bool {
    forall|w: Seq<Position>|
        #[trigger] is_walk(edges, w) && adjacent(w.last(), target) ==> heuristic(w[0], target) <= w.len() - 1
}

/// A walk along edges between adjacent cells covers at least the Manhattan
/// distance between its ends.
proof fn lemma_walk_span(edges: Set<Edge>, w: Seq<Position>)
    requires
        is_walk(edges, w),
        forall|e: Edge| #[trigger] edges.contains(e) ==> adjacent(e.0, e.1),
    ensures
        manhattan(w[0], w.last()) <= w.len() - 1,
    decreases w.len(),
{
    if w.len() > 1 {
        let v = w.drop_last();
        assert(is_walk(edges, v)) by {
            assert forall|i: int| 0 <= i < v.len() - 1 implies #[trigger] edges.contains((v[i], v[i + 1])) by {
                assert(edges.contains((w[i], w[i + 1])));
            }
        }
        lemma_walk_span(edges, v);
        let i = w.len() - 2;
        assert(edges.contains((w[i], w[i + 1])));
    }
}

/// On a graph whose edges join adjacent cells, a third of the Manhattan
/// distance never overestimates the moves left.
proof fn lemma_guide_admissible(edges: Set<Edge>, target: Position)
    requires
        forall|e: Edge| #[trigger] edges.contains(e) ==> adjacent(e.0, e.1),
    ensures
        admissible(edges, target),
{
    assert forall|w: Seq<Position>| #[trigger] is_walk(edges, w) && adjacent(w.last(), target) implies heuristic(w[0], target)
        <= w.len() - 1 by {
        lemma_walk_span(edges, w);
        let m = manhattan(w[0], target) as int;
        let n = w.len() as int;
        assert(m <= n);
        assert(m / 3 <= n - 1) by (nonlinear_arith)
            requires
                m <= n,
                n >= 1,
                m >= 0,
        ;
    }
}

/// Relies on `pathfinding::prelude::astar`: the path it returns starts at
/// `start`, moves only from a node to one of its successors, and ends on the
/// first node for which the success test holds; as the estimate never exceeds
/// the real cost, it is a shortest such path. Its cost is the sum of the move
/// costs, all 1 here. It returns `None` only when no such node is reachable.
#[verifier::external_body]
fn astar_route(nav: &Navigator, start: &Position, target: &Position) -> (r: Option<(Vec<Position>, u128)>)
    requires
        admissible(nav.edge_set(), *target),
    ensures
        match r {
            Some(found) => is_route(nav.edge_set(), *start, *target, found.0@) && found.1 == found.0@.len() - 1
                && forall|w: Seq<Position>| is_route(nav.edge_set(), *start, *target, w) ==> found.0@.len() <= w.len(),
            None => forall|w: Seq<Position>| !is_route(nav.edge_set(), *start, *target, w),
        },
{
    pathfinding::prelude::astar(start, |p| nav.successors(p), |p| guide(p, target), |p| p.is_adjacent(target))
}

/// The reverse of `v`.
fn reversed(v: &Vec<Position>) -> (r: Vec<Position>)
    ensures
        r@ == v@.reverse(),
{
    let mut r: Vec<Position> = Vec::new();
    let mut k: usize = v.len();
    while k > 0
        invariant
            k <= v.len(),
            r@.len() == v@.len() - k,
            forall|m: int| 0 <= m < r@.len() ==> r@[m] == v@[v@.len() - 1 - m],
        decreases k,
    {
        k = k - 1;
        r.push(v[k]);
    }
    assert(r@ =~= v@.reverse());
    r
}

/// A way through the street graph, stored backwards so that the next step is
/// taken from the end.
#[derive(Debug, PartialEq, Eq)]
pub struct NavigationDescriptor {
    path: Vec<Position>,
}

impl NavigationDescriptor {
    /// The steps still to take, the last one first.
    pub closed spec fn steps(&self) -> Seq<Position> {
        self.path@
    }

    /// The steps still to take, the last one first.
    pub fn path(&self) -> (r: &Vec<Position>)
        ensures
            r@ == self.steps(),
    {
        &self.path
    }

    /// Take the next step; nothing happens once the path is completed.
    pub fn advance(&mut self) -> (r: Option<Position>)
        ensures
            old(self).steps().len() == 0 ==> r is None && final(self).steps() == old(self).steps(),
            old(self).steps().len() > 0 ==> r == Some(old(self).steps().last())
                && final(self).steps() == old(self).steps().drop_last(),
    {
        self.path.pop()
    }

    /// Whether every step has been taken.
    pub fn is_completed(&self) -> (r: bool)
        ensures
            r == (self.steps().len() == 0),
    {
        self.path.len() == 0
    }
}

/// Something that stands on the grid and can be reached.
pub trait Reachable {
    fn to_position(&self) -> Position;
}

/// The positions of the streets among `created`.
pub open spec fn street_positions(created: Seq<BuildingSnapshot>) -> Set<Position> {
    Set::new(|p: Position| exists|k: int| 0 <= k < created.len() && #[trigger] street_at(created, k, p))
}

/// The building at `k` is a street standing at `p`.
pub open spec fn street_at(created: Seq<BuildingSnapshot>, k: int, p: Position) -> bool {
    created[k] is Street && snapshot_position(created[k]) == p
}

/// The street graph.
pub struct Navigator {
    positions_to_add: Vec<Position>,
    edges: Vec<Edge>,
}

/// Whether `v` holds `p`.
fn contains_position(v: &Vec<Position>, p: Position) -> (r: bool)
    ensures
        r == v@.contains(p),
{
    let mut i: usize = 0;
    while i < v.len()
        invariant
            i <= v.len(),
            forall|k: int| 0 <= k < i ==> v@[k] != p,
        decreases v.len() - i,
    {
        if v[i] == p {
            return true;
        }
        i = i + 1;
    }
    false
}

/// The edges joining `p` to each position of `s`, in both directions.
pub open spec fn star(p: Position, s: Set<Position>) -> Set<Edge> {
    Set::new(|e: Edge| (e.0 == p && s.contains(e.1)) || (e.1 == p && s.contains(e.0)))
}

/// While a rebuild runs, the positions in scope are the same whether they are
/// looked up in the graph before the rebuild or in the graph being built.
proof fn lemma_scope_stable(pending: Set<Position>, edges: Set<Edge>, batch: Set<Position>, q: Position)
    ensures
        (pending.contains(q) || is_node(edges.union(new_edges(pending, edges, batch)), q))
            == in_scope(pending, edges, q),
{
    let all = edges.union(new_edges(pending, edges, batch));
    if is_node(all, q) {
        let r = choose|r: Position| #[trigger] all.contains((q, r));
        if edges.contains((q, r)) {
            assert(is_node(edges, q));
        }
    }
    if is_node(edges, q) {
        let r = choose|r: Position| #[trigger] edges.contains((q, r));
        assert(all.contains((q, r)));
    }
}

/// A pending position without neighbours in scope adds no edge.
proof fn lemma_unlinked_adds_nothing(pending: Set<Position>, edges: Set<Edge>, batch: Set<Position>, p: Position)
    requires
        !links(pending, edges, p),
    ensures
        new_edges(pending, edges, batch.insert(p)) == new_edges(pending, edges, batch),
{
    assert forall|e: Edge| #[trigger] new_edges(pending, edges, batch.insert(p)).contains(e)
        implies new_edges(pending, edges, batch).contains(e) by {
        if e.0 == p && !batch.contains(e.1) {
            assert(adjacent(p, e.1) && in_scope(pending, edges, e.1));
        }
        if e.1 == p && !batch.contains(e.0) {
            assert(adjacent(p, e.0) && in_scope(pending, edges, e.0));
        }
    }
    assert(new_edges(pending, edges, batch.insert(p)) =~= new_edges(pending, edges, batch));
}

/// A pending position linked to its neighbours in scope adds exactly the
/// edges between them.
proof fn lemma_linked_adds_star(
    pending: Set<Position>,
    edges: Set<Edge>,
    batch: Set<Position>,
    p: Position,
    near: Set<Position>,
)
    requires
        pending.contains(p),
        forall|q: Position| near.contains(q) <==> (adjacent(p, q) && in_scope(pending, edges, q)),
    ensures
        edges.union(new_edges(pending, edges, batch)).union(star(p, near))
            == edges.union(new_edges(pending, edges, batch.insert(p))),
{
    assert(in_scope(pending, edges, p));
    assert forall|e: Edge| #[trigger] star(p, near).contains(e)
        implies new_edges(pending, edges, batch.insert(p)).contains(e) by {
        if e.0 == p && near.contains(e.1) {
            assert(adjacent(e.0, e.1));
        } else {
            assert(adjacent(p, e.0));
        }
    }
    assert forall|e: Edge| #[trigger] new_edges(pending, edges, batch.insert(p)).contains(e)
        && !new_edges(pending, edges, batch).contains(e) implies star(p, near).contains(e) by {
        if e.0 == p {
            assert(near.contains(e.1));
        } else {
            assert(e.1 == p);
            assert(adjacent(p, e.0));
            assert(near.contains(e.0));
        }
    }
    assert(edges.union(new_edges(pending, edges, batch)).union(star(p, near))
        =~= edges.union(new_edges(pending, edges, batch.insert(p))));
}

/// Rebuilding settles at once: it never adds pending positions, and a second
/// rebuild with no position added in between changes neither the pending
/// positions nor the edges.
pub proof fn lemma_rebuild_settles(pending: Set<Position>, edges: Set<Edge>)
    requires
        pending.finite(),
    ensures
        rebuilt_pending(pending, edges).subset_of(pending),
        rebuilt_pending(pending, edges).len() <= pending.len(),
        rebuilt_pending(rebuilt_pending(pending, edges), rebuilt_edges(pending, edges))
            == rebuilt_pending(pending, edges),
        rebuilt_edges(rebuilt_pending(pending, edges), rebuilt_edges(pending, edges))
            == rebuilt_edges(pending, edges),
{
    let p1 = rebuilt_pending(pending, edges);
    let e1 = rebuilt_edges(pending, edges);
    vstd::set_lib::lemma_len_subset(p1, pending);
    assert forall|q: Position| #[trigger] in_scope(p1, e1, q) implies in_scope(pending, edges, q) by {
        if !p1.contains(q) {
            let r = choose|r: Position| #[trigger] e1.contains((q, r));
            if edges.contains((q, r)) {
                assert(is_node(edges, q));
            }
        }
    }
    assert forall|q: Position| p1.contains(q) implies !links(p1, e1, q) by {
        if links(p1, e1, q) {
            let r = choose|r: Position| adjacent(q, r) && #[trigger] in_scope(p1, e1, r);
            assert(in_scope(pending, edges, r));
        }
    }
    assert(rebuilt_pending(p1, e1) =~= p1);
    assert forall|e: Edge| !(#[trigger] new_edges(p1, e1, p1).contains(e)) by {
        if new_edges(p1, e1, p1).contains(e) {
            assert(in_scope(pending, edges, e.0) && in_scope(pending, edges, e.1));
            if p1.contains(e.0) {
                assert(links(pending, edges, e.0));
            } else {
                assert(adjacent(e.1, e.0));
                assert(links(pending, edges, e.1));
            }
        }
    }
    assert(rebuilt_edges(p1, e1) =~= e1);
}

impl Navigator {
    /// The positions added but not yet linked.
    pub closed spec fn pending(&self) -> Set<Position> {
        self.positions_to_add@.to_set()
    }

    /// The edges of the graph, each stored in both directions.
    pub closed spec fn edge_set(&self) -> Set<Edge> {
        self.edges@.to_set()
    }

    /// Every edge is stored in both directions and joins adjacent cells; no
    /// position is pending twice.
    pub closed spec fn wf(&self) -> bool {
        &&& self.positions_to_add@.no_duplicates()
        &&& forall|e: Edge| #[trigger] self.edge_set().contains(e) ==> self.edge_set().contains((e.1, e.0))
        &&& forall|e: Edge| #[trigger] self.edge_set().contains(e) ==> adjacent(e.0, e.1)
    }

    /// The adjacency of the graph: `q` is linked to `p`.
    pub open spec fn linked(&self, p: Position, q: Position) -> bool {
        self.edge_set().contains((p, q))
    }

    pub fn new() -> (r: Self)
        ensures
            r.wf(),
            r.pending() == Set::<Position>::empty(),
            r.edge_set() == Set::<Edge>::empty(),
    {
        let r = Navigator { positions_to_add: Vec::new(), edges: Vec::new() };
        assert(r.pending() =~= Set::<Position>::empty());
        assert(r.edge_set() =~= Set::<Edge>::empty());
        r
    }

    /// Queue a position for the next rebuild.
    pub fn add_node(&mut self, position: Position)
        requires
            old(self).wf(),
        ensures
            final(self).wf(),
            final(self).pending() == old(self).pending().insert(position),
            final(self).edge_set() == old(self).edge_set(),
    {
        if !contains_position(&self.positions_to_add, position) {
            self.positions_to_add.push(position);
            proof { lemma_push_unique(old(self).positions_to_add@, position); }
        }
        assert(self.pending() =~= old(self).pending().insert(position));
        assert(self.positions_to_add@.no_duplicates());
        assert(self.edge_set() == old(self).edge_set());
    }

    /// Whether an edge leaves `p`.
    fn has_node(&self, p: Position) -> (r: bool)
        ensures
            r == is_node(self.edge_set(), p),
    {
        let mut i: usize = 0;
        while i < self.edges.len()
            invariant
                i <= self.edges.len(),
                forall|k: int| 0 <= k < i ==> self.edges@[k].0 != p,
            decreases self.edges.len() - i,
        {
            if self.edges[i].0 == p {
                assert(self.edges@[i as int] == (p, self.edges@[i as int].1));
                assert(self.edge_set().contains((p, self.edges@[i as int].1)));
                return true;
            }
            i = i + 1;
        }
        assert forall|q: Position| !self.edge_set().contains((p, q)) by {
            if self.edges@.contains((p, q)) {
                let k = choose|k: int| 0 <= k < self.edges@.len() && self.edges@[k] == (p, q);
                assert(self.edges@[k].0 == p);
            }
        }
        false
    }

    /// Whether the directed edge `(a, b)` is stored.
    fn has_edge(&self, a: Position, b: Position) -> (r: bool)
        ensures
            r == self.edge_set().contains((a, b)),
    {
        let mut i: usize = 0;
        while i < self.edges.len()
            invariant
                i <= self.edges.len(),
                forall|k: int| 0 <= k < i ==> self.edges@[k] != (a, b),
            decreases self.edges.len() - i,
        {
            if self.edges[i].0 == a && self.edges[i].1 == b {
                assert(self.edges@[i as int] == (a, b));
                return true;
            }
            i = i + 1;
        }
        false
    }

    /// Store the directed edge `(a, b)` unless it is already there.
    fn add_edge(&mut self, a: Position, b: Position)
        ensures
            final(self).edge_set() == old(self).edge_set().insert((a, b)),
            final(self).positions_to_add == old(self).positions_to_add,
    {
        if !self.has_edge(a, b) {
            self.edges.push((a, b));
        }
        assert(self.edge_set() =~= old(self).edge_set().insert((a, b)));
    }
    /// The neighbours linked to `p`, each with a move cost of 1.
    pub fn successors(&self, p: &Position) -> (r: Vec<(Position, u128)>)
        ensures
            forall|i: int| 0 <= i < r@.len() ==> r@[i].1 == 1,
            forall|q: Position| r@.contains((q, 1u128)) <==> self.linked(*p, q),
    {
        let mut r: Vec<(Position, u128)> = Vec::new();
        let mut i: usize = 0;
        while i < self.edges.len()
            invariant
                i <= self.edges.len(),
                forall|k: int| 0 <= k < r@.len() ==> r@[k].1 == 1,
                forall|q: Position| #[trigger] r@.contains((q, 1u128))
                    <==> self.edges@.subrange(0, i as int).contains((*p, q)),
            decreases self.edges.len() - i,
        {
            let e = self.edges[i];
            proof {
                assert(self.edges@.subrange(0, i + 1) =~= self.edges@.subrange(0, i as int).push(e));
            }
            if e.0 == *p {
                r.push((e.1, 1));
            }
            i = i + 1;
        }
        assert(self.edges@.subrange(0, self.edges@.len() as int) =~= self.edges@);
        r
    }

    /// A way from `start_point` to a cell next to `end`, with `end` itself
    /// appended, stored backwards. `None` when the street network does not
    /// reach any cell next to `end`.
    pub fn get_navigation_descriptor(&self, start_point: &Position, end: Position) -> (r: Option<
        NavigationDescriptor,
    >)
        requires
            self.wf(),
        ensures
            r is None <==> forall|w: Seq<Position>| !is_route(self.edge_set(), *start_point, end, w),
            r matches Some(d) ==> exists|w: Seq<Position>|
                is_route(self.edge_set(), *start_point, end, w) && d.steps() == w.push(end).reverse() && forall|
                    v: Seq<Position>,
                | is_route(self.edge_set(), *start_point, end, v) ==> w.len() <= v.len(),
    {
        proof {
            lemma_guide_admissible(self.edge_set(), end);
        }
        match astar_route(self, start_point, &end) {
            None => None,
            Some(found) => {
                let mut way = found.0;
                let ghost w = way@;
                way.push(end);
                let path = reversed(&way);
                let d = NavigationDescriptor { path };
                assert(is_route(self.edge_set(), *start_point, end, w) && d.steps() == w.push(end).reverse() && forall|
                    v: Seq<Position>,
                | is_route(self.edge_set(), *start_point, end, v) ==> w.len() <= v.len());
                Some(d)
            },
        }
    }

    /// Queue the streets among newly completed buildings and, if there was
    /// any, rebuild. Returns how many positions were linked.
    pub fn expand_navigator_graph(&mut self, created: &Vec<BuildingSnapshot>) -> (r: usize)
        requires
            old(self).wf(),
        ensures
            final(self).wf(),
            street_positions(created@).len() == 0 ==> r == 0 && final(self).pending() == old(self).pending()
                && final(self).edge_set() == old(self).edge_set(),
            street_positions(created@).len() > 0 ==> final(self).pending() == rebuilt_pending(
                old(self).pending().union(street_positions(created@)),
                old(self).edge_set(),
            ) && final(self).edge_set() == rebuilt_edges(
                old(self).pending().union(street_positions(created@)),
                old(self).edge_set(),
            ),
    {
        let mut any = false;
        let mut i: usize = 0;
        proof {
            assert(street_positions(created@.subrange(0, 0)) =~= Set::<Position>::empty());
            assert(self.pending() =~= old(self).pending().union(street_positions(created@.subrange(0, 0))));
        }
        while i < created.len()
            invariant
                self.wf(),
                i <= created@.len(),
                self.pending() == old(self).pending().union(street_positions(created@.subrange(0, i as int))),
                self.edge_set() == old(self).edge_set(),
                any == (street_positions(created@.subrange(0, i as int)).len() > 0),
                street_positions(created@.subrange(0, i as int)).finite(),
            decreases created@.len() - i,
        {
            let ghost s_before = created@.subrange(0, i as int);
            let ghost s_after = created@.subrange(0, i + 1);
            let ghost before = street_positions(s_before);
            let ghost after = street_positions(s_after);
            match &created[i] {
                BuildingSnapshot::Street(street) => {
                    self.add_node(street.position);
                    any = true;
                    proof {
                        assert(after =~= before.insert(street.position)) by {
                            assert forall|p: Position| after.contains(p) implies before.insert(street.position).contains(p) by {
                                let k = choose|k: int| 0 <= k < i + 1 && street_at(s_after, k, p);
                                if k < i {
                                    assert(s_before[k] == s_after[k]);
                                    assert(street_at(s_before, k, p));
                                } else {
                                    assert(s_after[k] == created@[i as int]);
                                }
                            }
                            assert forall|p: Position| before.insert(street.position).contains(p) implies after.contains(p) by {
                                if p == street.position {
                                    assert(s_after[i as int] == created@[i as int]);
                                    assert(street_at(s_after, i as int, p));
                                } else {
                                    let k = choose|k: int| 0 <= k < i && street_at(s_before, k, p);
                                    assert(s_before[k] == s_after[k]);
                                    assert(street_at(s_after, k, p));
                                }
                            }
                        }
                        assert(after.contains(street.position));
                        vstd::set_lib::lemma_len_subset(set![street.position], after);
                        assert(self.pending() =~= old(self).pending().union(after));
                    }
                },
                _ => {
                    proof {
                        assert(after =~= before) by {
                            assert forall|p: Position| after.contains(p) implies before.contains(p) by {
                                let k = choose|k: int| 0 <= k < i + 1 && street_at(s_after, k, p);
                                if k < i {
                                    assert(s_before[k] == s_after[k]);
                                    assert(street_at(s_before, k, p));
                                } else {
                                    assert(s_after[k] == created@[i as int]);
                                }
                            }
                            assert forall|p: Position| before.contains(p) implies after.contains(p) by {
                                let k = choose|k: int| 0 <= k < i && street_at(s_before, k, p);
                                assert(s_before[k] == s_after[k]);
                                assert(street_at(s_after, k, p));
                            }
                        }
                    }
                },
            }
            i = i + 1;
        }
        proof {
            assert(created@.subrange(0, created@.len() as int) =~= created@);
        }
        if any {
            self.rebuild()
        } else {
            0
        }
    }

    /// Link every pending position that has a neighbour among the pending
    /// positions or the nodes of the graph, in both directions; the others
    /// stay pending. Returns how many positions were linked.
    pub fn rebuild(&mut self) -> (r: usize)
        requires
            old(self).wf(),
        ensures
            final(self).wf(),
            final(self).pending() == rebuilt_pending(old(self).pending(), old(self).edge_set()),
            final(self).edge_set() == rebuilt_edges(old(self).pending(), old(self).edge_set()),
            r as int == old(self).pending().len() - final(self).pending().len(),
    {
        let ghost pend0 = self.pending();
        let ghost e0 = self.edge_set();
        let mut batch: Vec<Position> = Vec::new();
        std::mem::swap(&mut batch, &mut self.positions_to_add);
        proof {
            batch@.unique_seq_to_set();
            assert(self.edge_set() =~= e0.union(new_edges(pend0, e0, batch@.subrange(0, 0).to_set())));
        }
        let tot = batch.len();
        let mut i: usize = 0;
        while i < batch.len()
            invariant
                i <= batch.len(),
                tot == batch.len(),
                batch@.to_set() == pend0,
                batch@.no_duplicates(),
                pend0.len() == batch@.len(),
                self.positions_to_add@.no_duplicates(),
                self.positions_to_add@.len() <= i,
                forall|q: Position| #[trigger] self.positions_to_add@.contains(q)
                    <==> (batch@.subrange(0, i as int).contains(q) && !links(pend0, e0, q)),
                self.edge_set() == e0.union(new_edges(pend0, e0, batch@.subrange(0, i as int).to_set())),
                forall|e: Edge| #[trigger] e0.contains(e) ==> e0.contains((e.1, e.0)),
                forall|e: Edge| #[trigger] e0.contains(e) ==> adjacent(e.0, e.1),
            decreases batch.len() - i,
        {
            let p = batch[i];
            let ghost done = batch@.subrange(0, i as int).to_set();
            let ghost base = self.edge_set();
            let ns = p.neighbors();
            let mut near: Vec<Position> = Vec::new();
            let mut j: usize = 0;
            while j < ns.len()
                invariant
                    j <= ns.len(),
                    batch@.to_set() == pend0,
                    self.edge_set() == base,
                    base == e0.union(new_edges(pend0, e0, done)),
                    forall|q: Position| ns@.contains(q) <==> adjacent(p, q),
                    forall|q: Position| #[trigger] near@.contains(q)
                        <==> (ns@.subrange(0, j as int).contains(q) && in_scope(pend0, e0, q)),
                decreases ns.len() - j,
            {
                let q = ns[j];
                proof {
                    lemma_scope_stable(pend0, e0, done, q);
                    assert(ns@.subrange(0, j + 1) =~= ns@.subrange(0, j as int).push(q));
                }
                if contains_position(&batch, q) || self.has_node(q) {
                    near.push(q);
                }
                j = j + 1;
            }
            proof {
                assert(ns@.subrange(0, ns@.len() as int) =~= ns@);
                assert(batch@.subrange(0, i + 1) =~= batch@.subrange(0, i as int).push(p));
                assert(batch@.subrange(0, i + 1).to_set() =~= done.insert(p));
                assert(pend0.contains(p));
            }
            if near.len() == 0 {
                proof {
                    assert(!links(pend0, e0, p)) by {
                        if links(pend0, e0, p) {
                            let q = choose|q: Position| adjacent(p, q) && #[trigger] in_scope(pend0, e0, q);
                            assert(near@.contains(q));
                        }
                    }
                    assert(!self.positions_to_add@.contains(p)) by {
                        if batch@.subrange(0, i as int).contains(p) {
                            let k = choose|k: int| 0 <= k < i && batch@.subrange(0, i as int)[k] == p;
                            assert(batch@[k] == batch@[i as int]);
                        }
                    }
                    lemma_push_unique(self.positions_to_add@, p);
                    lemma_unlinked_adds_nothing(pend0, e0, done, p);
                }
                self.positions_to_add.push(p);
            } else {
                let ghost to_add = self.positions_to_add;
                let mut k: usize = 0;
                while k < near.len()
                    invariant
                        k <= near.len(),
                        self.positions_to_add == to_add,
                        self.edge_set() == base.union(star(p, near@.subrange(0, k as int).to_set())),
                    decreases near.len() - k,
                {
                    let q = near[k];
                    self.add_edge(p, q);
                    self.add_edge(q, p);
                    proof {
                        assert(near@.subrange(0, k + 1) =~= near@.subrange(0, k as int).push(q));
                        assert(self.edge_set() =~= base.union(star(p, near@.subrange(0, k + 1).to_set())));
                    }
                    k = k + 1;
                }
                proof {
                    assert(near@.subrange(0, near@.len() as int) =~= near@);
                    lemma_linked_adds_star(pend0, e0, done, p, near@.to_set());
                    assert(links(pend0, e0, p)) by {
                        assert(near@.contains(near@[0]));
                    }
                }
            }
            i = i + 1;
        }
        proof {
            assert(batch@.subrange(0, batch@.len() as int) =~= batch@);
            assert(self.pending() =~= rebuilt_pending(pend0, e0));
            self.positions_to_add@.unique_seq_to_set();
            let all = self.edge_set();
            assert forall|e: Edge| #[trigger] all.contains(e) implies all.contains((e.1, e.0)) && adjacent(e.0, e.1) by {
                if !e0.contains(e) {
                    assert(new_edges(pend0, e0, pend0).contains((e.1, e.0)));
                }
            }
        }
        tot - self.positions_to_add.len()
    }
}

} // verus!
