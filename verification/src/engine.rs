//! The order-resolution engine: claims a due move order, commits the
//! unit's position change atomically, checks the destination for units
//! of other players, and reports one encounter event per such unit.
//! Resolution is idempotent — an order is consumed exactly once, and a
//! second attempt on the same order is a no-op.

use vstd::prelude::*;
use crate::error::ApiError;
use crate::location::{
    Location,
    Unit,
    MoveOrder,
    EncounterEvent,
    loc_valid,
    unit_valid,
    order_valid,
    order_due,
    event_valid,
};
use crate::store::{
    GameStore,
    store_eq,
    due_list,
    unit_index_in,
    order_index_in,
    lemma_unit_ids_unique,
    lemma_order_ids_unique,
    lemma_due_list_elements,
    lemma_due_list_complete,
};

verus! {

/// Logical travel delay granted to every accepted move request.
pub const TRAVEL_SECONDS: i64 = 10;

/// Why a single order's resolution was abandoned. The order is left
/// untouched in either case; a missing order means the snapshot was
/// stale, a missing unit is an invariant violation confined to this
/// record.
#[derive(Clone, Copy, Debug, PartialEq, Eq, Structural)]
pub enum ResolveError {
    OrderNotFound,
    UnitNotFound,
}

/// One encounter event for every unit in `units` that stands at `dest`
/// and belongs to a player other than `mover_player` (the arriving unit
/// itself, identified by `mover_id`, is skipped).
pub open spec fn spec_encounters(
    units: Seq<Unit>,
    mover_id: i64,
    mover_player: i64,
    dest: Location,
) -> Seq<EncounterEvent>
    decreases units.len(),
{
    if units.len() == 0 {
        Seq::empty()
    } else {
        let rest = spec_encounters(units.drop_last(), mover_id, mover_player, dest);
        let u = units.last();
        if u.location == dest && u.id != mover_id && u.player_id != mover_player {
            rest.push(
                (EncounterEvent { player_a: mover_player, player_b: u.player_id, location: dest }),
            )
        } else {
            rest
        }
    }
}

/// Computes the encounter events for a unit of `mover_player` that just
/// arrived at `dest`.
pub fn encounter_events(
    units: &Vec<Unit>,
    mover_id: i64,
    mover_player: i64,
    dest: Location,
) -> (r: Vec<EncounterEvent>)
    ensures
        r@ == spec_encounters(units@, mover_id, mover_player, dest),
{
    let mut out: Vec<EncounterEvent> = Vec::new();
    let mut i: usize = 0;
    while i < units.len()
        invariant
            i <= units@.len(),
            out@ == spec_encounters(units@.take(i as int), mover_id, mover_player, dest),
        decreases units@.len() - i,
    {
        let u = units[i];
        proof {
            assert(units@.take(i + 1 as int).drop_last() =~= units@.take(i as int));
            assert(units@.take(i + 1 as int).last() == units@[i as int]);
        }
        if u.location == dest && u.id != mover_id && u.player_id != mover_player {
            out.push(
                EncounterEvent { player_a: mover_player, player_b: u.player_id, location: dest },
            );
        }
        i = i + 1;
    }
    proof {
        assert(units@.take(units@.len() as int) =~= units@);
    }
    out
}

/// Every event reported over well-formed units is itself well formed:
/// both players non-negative, the contact location valid.
pub proof fn lemma_encounters_valid(
    units: Seq<Unit>,
    mover_id: i64,
    mover_player: i64,
    dest: Location,
)
    requires
        forall|i: int| 0 <= i < units.len() ==> unit_valid(#[trigger] units[i]),
        mover_player >= 0,
        loc_valid(dest),
    ensures
        forall|k: int|
            0 <= k < spec_encounters(units, mover_id, mover_player, dest).len() ==> event_valid(
                #[trigger] spec_encounters(units, mover_id, mover_player, dest)[k],
            ),
    decreases units.len(),
{
    if units.len() > 0 {
        let rest = spec_encounters(units.drop_last(), mover_id, mover_player, dest);
        assert(forall|i: int|
            0 <= i < units.drop_last().len() ==> unit_valid(#[trigger] units.drop_last()[i]));
        lemma_encounters_valid(units.drop_last(), mover_id, mover_player, dest);
        let u = units.last();
        assert(unit_valid(u));
        if u.location == dest && u.id != mover_id && u.player_id != mover_player {
            let ev = EncounterEvent { player_a: mover_player, player_b: u.player_id, location: dest };
            assert(event_valid(ev));
            assert(spec_encounters(units, mover_id, mover_player, dest) == rest.push(ev));
            assert forall|k: int| 0 <= k < rest.push(ev).len() implies event_valid(
                #[trigger] rest.push(ev)[k],
            ) by {
                if k < rest.len() {
                    assert(rest.push(ev)[k] == rest[k]);
                } else {
                    assert(rest.push(ev)[k] == ev);
                }
            }
        } else {
            assert(spec_encounters(units, mover_id, mover_player, dest) == rest);
        }
    }
}

/// Co-location of one player's own units is not an encounter: when every
/// unit standing at `dest` belongs to `mover_player`, nothing is
/// reported.
pub proof fn lemma_no_self_encounter(
    units: Seq<Unit>,
    mover_id: i64,
    mover_player: i64,
    dest: Location,
)
    requires
        forall|i: int|
            0 <= i < units.len() && (#[trigger] units[i]).location == dest ==> units[i].player_id
                == mover_player,
    ensures
        spec_encounters(units, mover_id, mover_player, dest) == Seq::<EncounterEvent>::empty(),
    decreases units.len(),
{
    if units.len() > 0 {
        lemma_no_self_encounter(units.drop_last(), mover_id, mover_player, dest);
    }
}

/// Ghost snapshot of the store, for stating resolution as a function of
/// states.
pub ghost struct StoreView {
    pub units: Seq<Unit>,
    pub orders: Seq<MoveOrder>,
    pub next_order_id: int,
}

/// The snapshot a concrete store denotes.
pub open spec fn store_view(s: GameStore) -> StoreView {
    StoreView { units: s.units@, orders: s.orders@, next_order_id: s.next_order_id as int }
}

pub open spec fn sv_wf(v: StoreView) -> bool {
    &&& forall|i: int, j: int| 0 <= i < j < v.units.len() ==> v.units[i].id != v.units[j].id
    &&& forall|i: int| 0 <= i < v.units.len() ==> unit_valid(#[trigger] v.units[i])
    &&& forall|i: int, j: int| 0 <= i < j < v.orders.len() ==> v.orders[i].id != v.orders[j].id
    &&& forall|i: int|
        0 <= i < v.orders.len() ==> order_valid(#[trigger] v.orders[i]) && v.orders[i].id
            < v.next_order_id
    &&& v.next_order_id >= 0
}

pub open spec fn sv_has_order(v: StoreView, id: i64) -> bool {
    exists|j: int| 0 <= j < v.orders.len() && (#[trigger] v.orders[j]).id == id
}

pub open spec fn sv_has_unit(v: StoreView, id: i64) -> bool {
    exists|i: int| 0 <= i < v.units.len() && (#[trigger] v.units[i]).id == id
}

/// Resolution of one order, as a function of the store snapshot: the
/// state after the attempt and the events it reports. An unknown order,
/// an already-resolved order, and an order whose unit is missing all
/// leave the state unchanged and report nothing; a pending order with a
/// live unit moves that unit to the order's destination, marks the order
/// resolved, and reports one encounter per co-located foreign unit.
pub open spec fn process_spec(v: StoreView, order_id: i64) -> (StoreView, Seq<EncounterEvent>) {
    if !sv_has_order(v, order_id) {
        (v, Seq::empty())
    } else {
        let j = order_index_in(v.orders, order_id);
        let o = v.orders[j];
        if o.resolved {
            (v, Seq::empty())
        } else if !sv_has_unit(v, o.unit_id) {
            (v, Seq::empty())
        } else {
            let i = unit_index_in(v.units, o.unit_id);
            let u = v.units[i];
            (
                StoreView {
                    units: v.units.update(i, (Unit { location: o.dest, ..u })),
                    orders: v.orders.update(j, (MoveOrder { resolved: true, ..o })),
                    next_order_id: v.next_order_id,
                },
                spec_encounters(v.units, o.unit_id, u.player_id, o.dest),
            )
        }
    }
}

/// Resolves one due order: re-fetches it by identifier, commits the
/// location change and the resolved marker in one transaction, and
/// reports the encounters found at the destination. A second call on an
/// already-resolved order is a no-op that reports nothing.
pub fn process_arrival(store: &mut GameStore, order_id: i64) -> (r: Result<
    Vec<EncounterEvent>,
    ResolveError,
>)
    requires
        old(store).wf(),
    ensures
        final(store).wf(),
        store_view(*final(store)) == process_spec(store_view(*old(store)), order_id).0,
        (match r {
            Ok(evs) => evs@ == process_spec(store_view(*old(store)), order_id).1,
            Err(_) => store_eq(*final(store), *old(store)),
        }),
        (r matches Err(ResolveError::OrderNotFound)) <==> !old(store).has_order(order_id),
        (r matches Err(ResolveError::UnitNotFound)) <==> (exists|j: int|
            {
                &&& 0 <= j < old(store).orders@.len()
                &&& (#[trigger] old(store).orders@[j]).id == order_id
                &&& !old(store).orders@[j].resolved
                &&& !old(store).has_unit(old(store).orders@[j].unit_id)
            }),
        (forall|j: int|
            0 <= j < old(store).orders@.len() && (#[trigger] old(store).orders@[j]).id == order_id
                && old(store).orders@[j].resolved ==> (r matches Ok(evs) && evs@ == Seq::<
                EncounterEvent,
            >::empty() && store_eq(*final(store), *old(store)))),
{
    let ghost v0 = store_view(*old(store));
    let order = match store.find_order(order_id) {
        None => {
            return Err(ResolveError::OrderNotFound);
        },
        Some(o) => o,
    };
    proof {
        assert(order == v0.orders[order_index_in(v0.orders, order_id)]);
        assert forall|j: int|
            0 <= j < v0.orders.len() && (#[trigger] v0.orders[j]).id == order_id implies v0.orders[j]
            == order by {
            lemma_order_ids_unique(v0.orders, j, order_index_in(v0.orders, order_id));
        }
    }
    if order.resolved {
        return Ok(Vec::new());
    }
    let unit = match store.find_unit(order.unit_id) {
        None => {
            return Err(ResolveError::UnitNotFound);
        },
        Some(u) => u,
    };
    proof {
        assert(unit == v0.units[unit_index_in(v0.units, order.unit_id)]);
    }
    let events = encounter_events(&store.units, order.unit_id, unit.player_id, order.dest);
    let committed = store.resolve_order_txn(order_id, order.unit_id, order.dest, false);
    proof {
        assert(committed);
        assert(store.units@ == v0.units.update(
            unit_index_in(v0.units, order.unit_id),
            (Unit { location: order.dest, ..unit }),
        ));
        assert(store.orders@ == v0.orders.update(
            order_index_in(v0.orders, order_id),
            (MoveOrder { resolved: true, ..order }),
        ));
        assert(store_view(*store) == process_spec(v0, order_id).0);
    }
    Ok(events)
}

/// Validates and persists a move request: the unit must exist, the
/// requesting player must own it, and the destination must be a valid
/// location. A rejected request leaves the store untouched — no order is
/// ever persisted for it. An accepted request enqueues a pending order
/// that arrives `TRAVEL_SECONDS` after `now`.
pub fn request_move(
    store: &mut GameStore,
    player_id: i64,
    unit_id: i64,
    dest: Location,
    now: i64,
) -> (r: Result<MoveOrder, ApiError>)
    requires
        old(store).wf(),
        old(store).next_order_id < i64::MAX,
        now <= i64::MAX - TRAVEL_SECONDS,
    ensures
        final(store).wf(),
        (r matches Err(_) ==> store_eq(*final(store), *old(store))),
        (!old(store).has_unit(unit_id) ==> (r matches Err(e) && e is BadRequest)),
        (old(store).has_unit(unit_id) && old(store).units@[unit_index_in(
            old(store).units@,
            unit_id,
        )].player_id != player_id ==> (r matches Err(e) && e is Forbidden)),
        (old(store).has_unit(unit_id) && old(store).units@[unit_index_in(
            old(store).units@,
            unit_id,
        )].player_id == player_id && !loc_valid(dest) ==> (r matches Err(e) && e is BadRequest)),
        (r is Ok <==> (old(store).has_unit(unit_id) && old(store).units@[unit_index_in(
            old(store).units@,
            unit_id,
        )].player_id == player_id && loc_valid(dest))),
        (r matches Ok(o) ==> ({
            let origin = old(store).units@[unit_index_in(old(store).units@, unit_id)].location;
            &&& o == (MoveOrder {
                id: old(store).next_order_id,
                unit_id,
                origin,
                dest,
                arrival_time: (now + TRAVEL_SECONDS) as i64,
                resolved: false,
            })
            &&& final(store).orders@ == old(store).orders@.push(o)
            &&& final(store).units@ == old(store).units@
            &&& final(store).next_order_id == old(store).next_order_id + 1
        })),
{
    let unit = match store.find_unit(unit_id) {
        None => {
            return Err(ApiError::BadRequest("unit not found"));
        },
        Some(u) => u,
    };
    if unit.player_id != player_id {
        return Err(ApiError::Forbidden("not your unit"));
    }
    if !dest.is_valid() {
        return Err(ApiError::BadRequest("invalid destination"));
    }
    let arrival = now + TRAVEL_SECONDS;
    let id = store.insert_move_order(unit_id, unit.location, dest, arrival);
    Ok(
        MoveOrder {
            id,
            unit_id,
            origin: unit.location,
            dest,
            arrival_time: arrival,
            resolved: false,
        },
    )
}

/// A whole scan pass, as a function of the store snapshot: the orders
/// of `due` are resolved in turn, each against the state the previous
/// ones left, and the events they report are concatenated in order.
pub open spec fn scan_spec(v: StoreView, due: Seq<MoveOrder>) -> (StoreView, Seq<EncounterEvent>)
    decreases due.len(),
{
    if due.len() == 0 {
        (v, Seq::empty())
    } else {
        let (v1, e1) = process_spec(v, due.first().id);
        let (v2, e2) = scan_spec(v1, due.drop_first());
        (v2, e1 + e2)
    }
}

/// Unrolls a scan from its tail: scanning `due.push(x)` is scanning
/// `due` and then resolving `x` against the state that left.
pub proof fn lemma_scan_snoc(v: StoreView, due: Seq<MoveOrder>, x: MoveOrder)
    ensures
        scan_spec(v, due.push(x)).0 == process_spec(scan_spec(v, due).0, x.id).0,
        scan_spec(v, due.push(x)).1 == scan_spec(v, due).1 + process_spec(
            scan_spec(v, due).0,
            x.id,
        ).1,
    decreases due.len(),
{
    if due.len() == 0 {
        reveal_with_fuel(scan_spec, 3);
        assert(due.push(x).first() == x);
        assert(due.push(x).drop_first() =~= Seq::<MoveOrder>::empty());
        let (v1, e1) = process_spec(v, x.id);
        assert(scan_spec(v1, due.push(x).drop_first()) == scan_spec(v1, Seq::<MoveOrder>::empty()));
        assert(scan_spec(v, due.push(x)).1 =~= e1);
        assert(scan_spec(v, due).1 + e1 =~= e1);
    } else {
        assert(due.push(x).first() == due.first());
        assert(due.push(x).drop_first() =~= due.drop_first().push(x));
        let (v1, e1) = process_spec(v, due.first().id);
        lemma_scan_snoc(v1, due.drop_first(), x);
        assert(scan_spec(v, due.push(x)).1 =~= scan_spec(v, due).1 + process_spec(
            scan_spec(v, due).0,
            x.id,
        ).1);
    }
}

/// Everything about an order except its resolved marker.
pub open spec fn order_core_same(a: MoveOrder, b: MoveOrder) -> bool {
    &&& a.id == b.id
    &&& a.unit_id == b.unit_id
    &&& a.origin == b.origin
    &&& a.dest == b.dest
    &&& a.arrival_time == b.arrival_time
}

/// One pass of the recurring worker: discovers every order due at
/// `now` and resolves each in turn, isolating per-order failures, and
/// returns the encounter events the resolutions produced. Afterwards
/// every order that was due and whose unit exists is resolved; orders
/// not yet due stay pending; no order loses its identity or its
/// destination, and no unit changes owner.
pub fn scan_due_orders(store: &mut GameStore, now: i64) -> (events: Vec<EncounterEvent>)
    requires
        old(store).wf(),
    ensures
        final(store).wf(),
        final(store).units@.len() == old(store).units@.len(),
        forall|i: int|
            0 <= i < old(store).units@.len() ==> (#[trigger] final(store).units@[i]).id == old(
                store,
            ).units@[i].id && final(store).units@[i].player_id == old(store).units@[i].player_id,
        final(store).orders@.len() == old(store).orders@.len(),
        forall|j: int|
            0 <= j < old(store).orders@.len() ==> order_core_same(
                #[trigger] final(store).orders@[j],
                old(store).orders@[j],
            ),
        forall|j: int|
            0 <= j < old(store).orders@.len() && (#[trigger] old(store).orders@[j]).resolved
                ==> final(store).orders@[j].resolved,
        forall|j: int|
            0 <= j < old(store).orders@.len() && order_due(
                #[trigger] old(store).orders@[j],
                now,
            ) && old(store).has_unit(old(store).orders@[j].unit_id)
                ==> final(store).orders@[j].resolved,
        forall|j: int|
            0 <= j < old(store).orders@.len() && !(#[trigger] old(store).orders@[j]).resolved
                && !order_due(old(store).orders@[j], now) ==> !final(store).orders@[j].resolved,
        final(store).next_order_id == old(store).next_order_id,
        forall|k: int| 0 <= k < events@.len() ==> event_valid(#[trigger] events@[k]),
        store_view(*final(store)) == scan_spec(
            store_view(*old(store)),
            due_list(old(store).orders@, now),
        ).0,
        events@ == scan_spec(store_view(*old(store)), due_list(old(store).orders@, now)).1,
{
    let ghost s0 = store_view(*old(store));
    let due = store.due_orders(now);
    let mut events: Vec<EncounterEvent> = Vec::new();
    let mut k: usize = 0;
    proof {
        lemma_due_list_elements(s0.orders, now);
    }
    while k < due.len()
        invariant
            store.wf(),
            sv_wf(s0),
            due@ == due_list(s0.orders, now),
            k <= due@.len(),
            store.orders@.len() == s0.orders.len(),
            store.units@.len() == s0.units.len(),
            forall|i: int|
                0 <= i < s0.units.len() ==> (#[trigger] store.units@[i]).id == s0.units[i].id
                    && store.units@[i].player_id == s0.units[i].player_id,
            forall|j: int|
                0 <= j < s0.orders.len() ==> order_core_same(
                    #[trigger] store.orders@[j],
                    s0.orders[j],
                ),
            forall|j: int|
                0 <= j < s0.orders.len() && (#[trigger] s0.orders[j]).resolved
                    ==> store.orders@[j].resolved,
            forall|j: int|
                0 <= j < s0.orders.len() && (#[trigger] store.orders@[j]).resolved ==> (
                s0.orders[j].resolved || exists|t: int|
                    0 <= t < k && due@[t].id == s0.orders[j].id),
            forall|j: int, t: int|
                #![trigger s0.orders[j], due@[t]]
                (0 <= t < k && 0 <= j < s0.orders.len() && due@[t].id == s0.orders[j].id
                    && sv_has_unit(s0, s0.orders[j].unit_id)) ==> store.orders@[j].resolved,
            store.next_order_id == s0.next_order_id,
            forall|e: int| 0 <= e < events@.len() ==> event_valid(#[trigger] events@[e]),
            store_view(*store) == scan_spec(s0, due@.take(k as int)).0,
            events@ == scan_spec(s0, due@.take(k as int)).1,
        decreases due@.len() - k,
    {
        let oid = due[k].id;
        let ghost cur = store_view(*store);
        proof {
            lemma_due_list_elements(s0.orders, now);
            assert(due@[k as int] == due_list(s0.orders, now)[k as int]);
            assert(exists|j: int|
                0 <= j < s0.orders.len() && s0.orders[j] == due_list(s0.orders, now)[k as int]);
            let jw = choose|j: int|
                0 <= j < s0.orders.len() && s0.orders[j] == due_list(s0.orders, now)[k as int];
            assert(s0.orders[jw] == due@[k as int]);
            assert(cur.orders[jw].id == oid);
            assert(sv_has_order(cur, oid));
        }
        let res = process_arrival(store, oid);
        proof {
            let ps = process_spec(cur, oid);
            assert(store_view(*store) == ps.0);
            let jc = order_index_in(cur.orders, oid);
            assert(0 <= jc < cur.orders.len() && cur.orders[jc].id == oid);
            let o = cur.orders[jc];
            if o.resolved {
                assert(ps.0 == cur);
                assert(forall|x: int|
                    0 <= x < ps.1.len() ==> event_valid(#[trigger] ps.1[x]));
            } else if !sv_has_unit(cur, o.unit_id) {
                assert(ps.0 == cur);
                assert(forall|x: int|
                    0 <= x < ps.1.len() ==> event_valid(#[trigger] ps.1[x]));
            } else {
                let iu = unit_index_in(cur.units, o.unit_id);
                let u = cur.units[iu];
                assert(store.orders@ == cur.orders.update(jc, (MoveOrder { resolved: true, ..o })));
                assert(store.units@ == cur.units.update(iu, (Unit { location: o.dest, ..u })));
                assert(unit_valid(u));
                assert(order_valid(o));
                lemma_encounters_valid(cur.units, o.unit_id, u.player_id, o.dest);
                assert(forall|x: int|
                    0 <= x < ps.1.len() ==> event_valid(#[trigger] ps.1[x]));
            }
            // Re-establish the resolution bookkeeping for the next round.
            assert forall|j: int|
                0 <= j < s0.orders.len() && (#[trigger] store.orders@[j]).resolved implies (
            s0.orders[j].resolved || exists|t: int|
                0 <= t < k + 1 && due@[t].id == s0.orders[j].id) by {
                if !s0.orders[j].resolved && !cur.orders[j].resolved {
                    // Only the processed order can newly be resolved.
                    assert(j == jc);
                    assert(due@[k as int].id == s0.orders[j].id);
                } else if cur.orders[j].resolved && !s0.orders[j].resolved {
                    let t0 = choose|t: int| 0 <= t < k && due@[t].id == s0.orders[j].id;
                    assert(0 <= t0 < k + 1 && due@[t0].id == s0.orders[j].id);
                }
            }
            assert forall|j: int, t: int|
                #![trigger s0.orders[j], due@[t]]
                (0 <= t < k + 1 && 0 <= j < s0.orders.len() && due@[t].id == s0.orders[j].id
                    && sv_has_unit(s0, s0.orders[j].unit_id)) implies store.orders@[j].resolved by {
                if t < k {
                    assert(cur.orders[j].resolved);
                    assert(store.orders@[j].resolved);
                } else {
                    // This round's order: j names the order with identifier `oid`.
                    assert(due@[t].id == oid);
                    assert(cur.orders[j].id == s0.orders[j].id);
                    lemma_order_ids_unique(cur.orders, j, jc);
                    if !cur.orders[jc].resolved {
                        // The unit exists now because unit identifiers never change.
                        let o2 = cur.orders[jc];
                        assert(o2.unit_id == s0.orders[j].unit_id);
                        let wi = choose|i: int|
                            0 <= i < s0.units.len() && (#[trigger] s0.units[i]).id == o2.unit_id;
                        assert(cur.units[wi].id == o2.unit_id);
                        assert(sv_has_unit(cur, o2.unit_id));
                        assert(store.orders@[jc].resolved);
                    } else {
                        assert(ps.0 == cur);
                        assert(store.orders@[j].resolved);
                    }
                }
            }
        }
        let ghost ev0 = events@;
        match res {
            Ok(mut evs) => {
                proof {
                    assert(evs@ == process_spec(cur, oid).1);
                }
                events.append(&mut evs);
            },
            Err(_) => {},
        }
        proof {
            assert forall|e: int| 0 <= e < events@.len() implies event_valid(
                #[trigger] events@[e],
            ) by {
                if e < ev0.len() {
                    assert(events@[e] == ev0[e]);
                } else {
                    assert(events@[e] == process_spec(cur, oid).1[e - ev0.len()]);
                }
            }
            // One more order folded into the scan's functional account.
            lemma_scan_snoc(s0, due@.take(k as int), due@[k as int]);
            assert(due@.take(k + 1 as int) =~= due@.take(k as int).push(due@[k as int]));
            assert(store_view(*store) == scan_spec(s0, due@.take(k + 1 as int)).0);
            assert(events@ =~= ev0 + process_spec(cur, oid).1);
            assert(events@ =~= scan_spec(s0, due@.take(k + 1 as int)).1);
        }
        k = k + 1;
    }
    proof {
        lemma_due_list_elements(s0.orders, now);
        assert(due@.take(due@.len() as int) =~= due@);
        assert(store_view(*store) == scan_spec(s0, due@).0);
        assert(events@ == scan_spec(s0, due@).1);
        // Every order that was due and has a live unit got resolved.
        assert forall|j: int|
            0 <= j < s0.orders.len() && order_due(#[trigger] s0.orders[j], now) && sv_has_unit(
            s0,
            s0.orders[j].unit_id,
        ) implies store.orders@[j].resolved by {
            lemma_due_list_complete(s0.orders, now, j);
            let t = choose|t: int|
                0 <= t < due_list(s0.orders, now).len() && due_list(s0.orders, now)[t]
                    == s0.orders[j];
            assert(due@[t] == s0.orders[j]);
            assert(due@[t].id == s0.orders[j].id);
        }
        // No order that was not yet due got resolved.
        assert forall|j: int|
            0 <= j < s0.orders.len() && !(#[trigger] s0.orders[j]).resolved && !order_due(
            s0.orders[j],
            now,
        ) implies !store.orders@[j].resolved by {
            if store.orders@[j].resolved {
                let t = choose|t: int| 0 <= t < k && due@[t].id == s0.orders[j].id;
                assert(due@[t] == due_list(s0.orders, now)[t]);
                assert(order_due(due@[t], now));
                let j2 = choose|j2: int|
                    0 <= j2 < s0.orders.len() && s0.orders[j2] == due_list(s0.orders, now)[t];
                assert(s0.orders[j2] == due@[t]);
                lemma_order_ids_unique(s0.orders, j2, j);
                assert(false);
            }
        }
    }
    events
}

/// Resolution is idempotent: after an order has been resolved once, a
/// second resolution of the same order identifier is a no-op — the state
/// is unchanged and no events are reported, whatever the first attempt
/// did.
pub proof fn lemma_idempotent_resolution(v: StoreView, order_id: i64)
    requires
        sv_wf(v),
    ensures
        process_spec(process_spec(v, order_id).0, order_id).0 == process_spec(v, order_id).0,
        process_spec(process_spec(v, order_id).0, order_id).1 == Seq::<EncounterEvent>::empty(),
{
    let v1 = process_spec(v, order_id).0;
    if !sv_has_order(v, order_id) {
        assert(v1 == v);
    } else {
        let j = order_index_in(v.orders, order_id);
        let o = v.orders[j];
        if o.resolved {
            assert(v1 == v);
        } else if !sv_has_unit(v, o.unit_id) {
            assert(v1 == v);
        } else {
            assert(v1.orders == v.orders.update(j, (MoveOrder { resolved: true, ..o })));
            assert(v1.orders[j].id == order_id);
            assert(sv_has_order(v1, order_id));
            assert(forall|k: int|
                0 <= k < v1.orders.len() ==> (#[trigger] v1.orders[k]).id == v.orders[k].id);
            let j1 = order_index_in(v1.orders, order_id);
            assert(0 <= j1 < v1.orders.len() && v1.orders[j1].id == order_id);
            lemma_order_ids_unique(v.orders, j1, j);
            assert(v1.orders[j].resolved);
        }
    }
}

} // verus!
