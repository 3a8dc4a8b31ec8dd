//! In-memory game state: the single source of truth for unit locations
//! and order lifecycle that the order-resolution engine mutates. Every
//! mutation is atomic: it either applies completely or leaves the state
//! untouched, so a failed resolution can always be retried.

use vstd::prelude::*;
use crate::location::{Location, Unit, MoveOrder, loc_valid, unit_valid, order_valid, order_due};

verus! {

/// Units of all units in `units` that stand exactly at `loc`, in store
/// order.
pub open spec fn at_location(units: Seq<Unit>, loc: Location) -> Seq<Unit>
    decreases units.len(),
{
    if units.len() == 0 {
        Seq::empty()
    } else {
        let rest = at_location(units.drop_last(), loc);
        if units.last().location == loc {
            rest.push(units.last())
        } else {
            rest
        }
    }
}

/// Orders in `orders` that are still pending and whose arrival time has
/// passed at `now`, in store order.
pub open spec fn due_list(orders: Seq<MoveOrder>, now: i64) -> Seq<MoveOrder>
    decreases orders.len(),
{
    if orders.len() == 0 {
        Seq::empty()
    } else {
        let rest = due_list(orders.drop_last(), now);
        if order_due(orders.last(), now) {
            rest.push(orders.last())
        } else {
            rest
        }
    }
}

/// Every entry of the due list is a due order drawn from `orders`.
pub proof fn lemma_due_list_elements(orders: Seq<MoveOrder>, now: i64)
    ensures
        forall|t: int|
            0 <= t < due_list(orders, now).len() ==> order_due(
                #[trigger] due_list(orders, now)[t],
                now,
            ),
        forall|t: int|
            #![trigger due_list(orders, now)[t]]
            0 <= t < due_list(orders, now).len() ==> exists|j: int|
                0 <= j < orders.len() && orders[j] == due_list(orders, now)[t],
    decreases orders.len(),
{
    if orders.len() > 0 {
        let rest = orders.drop_last();
        let dl = due_list(orders, now);
        let dr = due_list(rest, now);
        lemma_due_list_elements(rest, now);
        assert forall|t: int| 0 <= t < dl.len() implies order_due(dl[t], now) && exists|j: int|
            0 <= j < orders.len() && orders[j] == dl[t] by {
            if order_due(orders.last(), now) && t == dr.len() {
                assert(dl == dr.push(orders.last()));
                assert(dl[t] == orders.last());
                assert(orders[orders.len() - 1] == dl[t]);
            } else {
                assert(dl[t] == dr[t]);
                let j0 = choose|j: int| 0 <= j < rest.len() && rest[j] == dr[t];
                assert(orders[j0] == rest[j0]);
                assert(orders[j0] == dl[t]);
            }
        }
    }
}

/// Every due order of `orders` appears in the due list.
pub proof fn lemma_due_list_complete(orders: Seq<MoveOrder>, now: i64, j: int)
    requires
        0 <= j < orders.len(),
        order_due(orders[j], now),
    ensures
        exists|t: int|
            0 <= t < due_list(orders, now).len() && due_list(orders, now)[t] == orders[j],
    decreases orders.len(),
{
    let dl = due_list(orders, now);
    let rest = orders.drop_last();
    let dr = due_list(rest, now);
    if j == orders.len() - 1 {
        assert(order_due(orders.last(), now));
        assert(dl == dr.push(orders.last()));
        assert(dl[dr.len() as int] == orders[j]);
    } else {
        assert(rest[j] == orders[j]);
        lemma_due_list_complete(rest, now, j);
        let t0 = choose|t: int|
            0 <= t < due_list(rest, now).len() && due_list(rest, now)[t] == rest[j];
        if order_due(orders.last(), now) {
            assert(dl == dr.push(orders.last()));
            assert(dl[t0] == dr[t0]);
        } else {
            assert(dl == dr);
        }
        assert(dl[t0] == orders[j]);
    }
}

/// The position of the unit with identifier `id`, where one exists.
pub open spec fn unit_index_in(units: Seq<Unit>, id: i64) -> int {
    choose|i: int| 0 <= i < units.len() && (#[trigger] units[i]).id == id
}

/// The position of the order with identifier `id`, where one exists.
pub open spec fn order_index_in(orders: Seq<MoveOrder>, id: i64) -> int {
    choose|j: int| 0 <= j < orders.len() && (#[trigger] orders[j]).id == id
}

/// When unit identifiers are unique, two positions holding the same
/// identifier are the same position.
pub proof fn lemma_unit_ids_unique(units: Seq<Unit>, a: int, b: int)
    requires
        forall|i: int, j: int| 0 <= i < j < units.len() ==> units[i].id != units[j].id,
        0 <= a < units.len(),
        0 <= b < units.len(),
        units[a].id == units[b].id,
    ensures
        a == b,
{
    if a < b {
        assert(units[a].id != units[b].id);
    } else if b < a {
        assert(units[b].id != units[a].id);
    }
}

/// When order identifiers are unique, two positions holding the same
/// identifier are the same position.
pub proof fn lemma_order_ids_unique(orders: Seq<MoveOrder>, a: int, b: int)
    requires
        forall|i: int, j: int| 0 <= i < j < orders.len() ==> orders[i].id != orders[j].id,
        0 <= a < orders.len(),
        0 <= b < orders.len(),
        orders[a].id == orders[b].id,
    ensures
        a == b,
{
    if a < b {
        assert(orders[a].id != orders[b].id);
    } else if b < a {
        assert(orders[b].id != orders[a].id);
    }
}

/// The game state: all units and all movement orders.
pub struct GameStore {
    pub units: Vec<Unit>,
    pub orders: Vec<MoveOrder>,
    /// Identifier handed to the next inserted order.
    pub next_order_id: i64,
}

/// Field-wise equality of two stores.
pub open spec fn store_eq(a: GameStore, b: GameStore) -> bool {
    a.units@ == b.units@ && a.orders@ == b.orders@ && a.next_order_id == b.next_order_id
}

impl GameStore {
    /// Well-formedness: identifiers are unique and non-negative, every
    /// record is valid, and order identifiers stay below the allocator.
    pub open spec fn wf(self) -> bool {
        &&& forall|i: int, j: int|
            0 <= i < j < self.units@.len() ==> self.units@[i].id != self.units@[j].id
        &&& forall|i: int| 0 <= i < self.units@.len() ==> unit_valid(#[trigger] self.units@[i])
        &&& forall|i: int, j: int|
            0 <= i < j < self.orders@.len() ==> self.orders@[i].id != self.orders@[j].id
        &&& forall|i: int|
            0 <= i < self.orders@.len() ==> order_valid(#[trigger] self.orders@[i])
                && self.orders@[i].id < self.next_order_id
        &&& self.next_order_id >= 0
    }

    pub open spec fn has_unit(self, id: i64) -> bool {
        exists|i: int| 0 <= i < self.units@.len() && (#[trigger] self.units@[i]).id == id
    }

    pub open spec fn has_order(self, id: i64) -> bool {
        exists|i: int| 0 <= i < self.orders@.len() && (#[trigger] self.orders@[i]).id == id
    }

    /// There is an order with this identifier and it is still pending.
    pub open spec fn has_pending_order(self, id: i64) -> bool {
        exists|i: int|
            0 <= i < self.orders@.len() && (#[trigger] self.orders@[i]).id == id
                && !self.orders@[i].resolved
    }

    /// An empty store.
    pub fn new() -> (r: GameStore)
        ensures
            r.wf(),
            r.units@.len() == 0,
            r.orders@.len() == 0,
            r.next_order_id == 0,
    {
        GameStore { units: Vec::new(), orders: Vec::new(), next_order_id: 0 }
    }

    /// Adds a unit; rejected if the unit is invalid or its identifier is
    /// already taken, in which case the store is unchanged.
    pub fn add_unit(&mut self, u: Unit) -> (r: bool)
        requires
            old(self).wf(),
        ensures
            final(self).wf(),
            r <==> (unit_valid(u) && !old(self).has_unit(u.id)),
            r ==> final(self).units@ == old(self).units@.push(u),
            r ==> final(self).orders@ == old(self).orders@ && final(self).next_order_id == old(
                self,
            ).next_order_id,
            !r ==> store_eq(*final(self), *old(self)),
    {
        if !u.is_valid_unit() {
            return false;
        }
        if find_unit_index(&self.units, u.id).is_some() {
            return false;
        }
        self.units.push(u);
        true
    }

    /// Looks a unit up by identifier.
    pub fn find_unit(&self, id: i64) -> (r: Option<Unit>)
        requires
            self.wf(),
        ensures
            (match r {
                Some(u) => self.has_unit(id) && u == self.units@[unit_index_in(self.units@, id)]
                    && u.id == id,
                None => !self.has_unit(id),
            }),
    {
        match find_unit_index(&self.units, id) {
            Some(i) => {
                let u = self.units[i];
                proof {
                    assert(self.has_unit(id));
                    let c = unit_index_in(self.units@, id);
                    assert(0 <= c < self.units@.len() && self.units@[c].id == id);
                    lemma_unit_ids_unique(self.units@, c, i as int);
                }
                Some(u)
            },
            None => None,
        }
    }

    /// Re-fetches an order by identifier, defending against a stale
    /// snapshot taken during due-order discovery.
    pub fn find_order(&self, id: i64) -> (r: Option<MoveOrder>)
        requires
            self.wf(),
        ensures
            (match r {
                Some(o) => self.has_order(id) && o == self.orders@[order_index_in(self.orders@, id)]
                    && o.id == id,
                None => !self.has_order(id),
            }),
    {
        match find_order_index(&self.orders, id) {
            Some(i) => {
                let o = self.orders[i];
                proof {
                    assert(self.has_order(id));
                    let c = order_index_in(self.orders@, id);
                    assert(0 <= c < self.orders@.len() && self.orders@[c].id == id);
                    lemma_order_ids_unique(self.orders@, c, i as int);
                }
                Some(o)
            },
            None => None,
        }
    }

    /// All units standing exactly at `loc`.
    pub fn units_at(&self, loc: Location) -> (r: Vec<Unit>)
        ensures
            r@ == at_location(self.units@, loc),
    {
        let mut out: Vec<Unit> = Vec::new();
        let mut i: usize = 0;
        while i < self.units.len()
            invariant
                i <= self.units@.len(),
                out@ == at_location(self.units@.take(i as int), loc),
            decreases self.units@.len() - i,
        {
            let u = self.units[i];
            proof {
                assert(self.units@.take(i + 1 as int).drop_last() =~= self.units@.take(i as int));
                assert(self.units@.take(i + 1 as int).last() == self.units@[i as int]);
            }
            if u.location == loc {
                out.push(u);
            }
            i = i + 1;
        }
        proof {
            assert(self.units@.take(self.units@.len() as int) =~= self.units@);
        }
        out
    }

    /// All orders due at `now`: still pending, arrival time passed.
    pub fn due_orders(&self, now: i64) -> (r: Vec<MoveOrder>)
        ensures
            r@ == due_list(self.orders@, now),
    {
        let mut out: Vec<MoveOrder> = Vec::new();
        let mut i: usize = 0;
        while i < self.orders.len()
            invariant
                i <= self.orders@.len(),
                out@ == due_list(self.orders@.take(i as int), now),
            decreases self.orders@.len() - i,
        {
            let o = self.orders[i];
            proof {
                assert(self.orders@.take(i + 1 as int).drop_last() =~= self.orders@.take(i as int));
                assert(self.orders@.take(i + 1 as int).last() == self.orders@[i as int]);
            }
            if !o.resolved && o.arrival_time <= now {
                out.push(o);
            }
            i = i + 1;
        }
        proof {
            assert(self.orders@.take(self.orders@.len() as int) =~= self.orders@);
        }
        out
    }

    /// Persists a new pending move order and returns its identifier.
    pub fn insert_move_order(
        &mut self,
        unit_id: i64,
        origin: Location,
        dest: Location,
        arrival_time: i64,
    ) -> (r: i64)
        requires
            old(self).wf(),
            unit_id >= 0,
            loc_valid(origin),
            loc_valid(dest),
            old(self).next_order_id < i64::MAX,
        ensures
            final(self).wf(),
            r == old(self).next_order_id,
            final(self).orders@ == old(self).orders@.push(
                (MoveOrder {
                    id: r,
                    unit_id,
                    origin,
                    dest,
                    arrival_time,
                    resolved: false,
                }),
            ),
            final(self).units@ == old(self).units@,
            final(self).next_order_id == old(self).next_order_id + 1,
    {
        let id = self.next_order_id;
        let order = MoveOrder { id, unit_id, origin, dest, arrival_time, resolved: false };
        self.orders.push(order);
        self.next_order_id = id + 1;
        id
    }

    /// The transactional heart of resolution: moves the unit to `dest`
    /// and marks the order resolved, together or not at all. Returns
    /// `false` — leaving the store exactly as it was — when the order is
    /// missing or already resolved, when the unit is missing, or when a
    /// fault is injected between the two writes (standing in for a crash
    /// of the underlying transaction).
    pub fn resolve_order_txn(
        &mut self,
        order_id: i64,
        unit_id: i64,
        dest: Location,
        inject_fault: bool,
    ) -> (r: bool)
        requires
            old(self).wf(),
            loc_valid(dest),
        ensures
            final(self).wf(),
            !r ==> store_eq(*final(self), *old(self)),
            r <==> (!inject_fault && old(self).has_pending_order(order_id) && old(self).has_unit(
                unit_id,
            )),
            r ==> ({
                let i = unit_index_in(old(self).units@, unit_id);
                let j = order_index_in(old(self).orders@, order_id);
                &&& 0 <= i < old(self).units@.len()
                &&& old(self).units@[i].id == unit_id
                &&& 0 <= j < old(self).orders@.len()
                &&& old(self).orders@[j].id == order_id
                &&& !old(self).orders@[j].resolved
                &&& final(self).units@ == old(self).units@.update(
                    i,
                    (Unit { location: dest, ..old(self).units@[i] }),
                )
                &&& final(self).orders@ == old(self).orders@.update(
                    j,
                    (MoveOrder { resolved: true, ..old(self).orders@[j] }),
                )
                &&& final(self).next_order_id == old(self).next_order_id
            }),
    {
        let oj = match find_order_index(&self.orders, order_id) {
            Some(j) => j,
            None => {
                return false;
            },
        };
        if self.orders[oj].resolved {
            return false;
        }
        let ui = match find_unit_index(&self.units, unit_id) {
            Some(i) => i,
            None => {
                return false;
            },
        };
        proof {
            assert(self.has_pending_order(order_id));
            assert(self.has_unit(unit_id));
            let c = order_index_in(self.orders@, order_id);
            assert(0 <= c < self.orders@.len() && self.orders@[c].id == order_id);
            lemma_order_ids_unique(self.orders@, c, oj as int);
            let cu = unit_index_in(self.units@, unit_id);
            assert(0 <= cu < self.units@.len() && self.units@[cu].id == unit_id);
            lemma_unit_ids_unique(self.units@, cu, ui as int);
        }
        // First write: the unit's location becomes the destination.
        let old_loc = self.units[ui].location;
        let mut moved = self.units[ui];
        moved.location = dest;
        self.units[ui] = moved;
        if inject_fault {
            // The transaction did not commit: roll the first write back.
            let mut back = self.units[ui];
            back.location = old_loc;
            self.units[ui] = back;
            proof {
                assert(self.units@ =~= old(self).units@);
            }
            return false;
        }
        // Second write: the order is consumed, terminally.
        let mut done = self.orders[oj];
        done.resolved = true;
        self.orders[oj] = done;
        proof {
            assert forall|a: int, b: int|
                0 <= a < b < self.units@.len() implies self.units@[a].id != self.units@[b].id by {
                assert(old(self).units@[a].id == self.units@[a].id);
                assert(old(self).units@[b].id == self.units@[b].id);
            }
            assert forall|a: int, b: int|
                0 <= a < b < self.orders@.len() implies self.orders@[a].id != self.orders@[b].id by {
                assert(old(self).orders@[a].id == self.orders@[a].id);
                assert(old(self).orders@[b].id == self.orders@[b].id);
            }
        }
        true
    }
}

/// Index of the unit with identifier `id`, if any.
fn find_unit_index(units: &Vec<Unit>, id: i64) -> (r: Option<usize>)
    ensures
        (match r {
            Some(i) => i < units@.len() && units@[i as int].id == id,
            None => forall|i: int| 0 <= i < units@.len() ==> (#[trigger] units@[i]).id != id,
        }),
{
    let mut i: usize = 0;
    while i < units.len()
        invariant
            i <= units@.len(),
            forall|k: int| 0 <= k < i ==> (#[trigger] units@[k]).id != id,
        decreases units@.len() - i,
    {
        if units[i].id == id {
            return Some(i);
        }
        i = i + 1;
    }
    None
}

/// Index of the order with identifier `id`, if any.
fn find_order_index(orders: &Vec<MoveOrder>, id: i64) -> (r: Option<usize>)
    ensures
        (match r {
            Some(i) => i < orders@.len() && orders@[i as int].id == id,
            None => forall|i: int| 0 <= i < orders@.len() ==> (#[trigger] orders@[i]).id != id,
        }),
{
    let mut i: usize = 0;
    while i < orders.len()
        invariant
            i <= orders@.len(),
            forall|k: int| 0 <= k < i ==> (#[trigger] orders@[k]).id != id,
        decreases orders@.len() - i,
    {
        if orders[i].id == id {
            return Some(i);
        }
        i = i + 1;
    }
    None
}

} // verus!
