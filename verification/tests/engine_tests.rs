use sci4x::engine::{process_arrival, request_move, scan_due_orders, ResolveError};
use sci4x::error::ApiError;
use sci4x::location::{Location, Unit, EncounterEvent};
use sci4x::store::GameStore;

fn surface(planet_id: i64, face: i32, u: i32, v: i32) -> Location {
    Location::PlanetSurface { planet_id, face, u, v }
}

fn store_with(units: &[(i64, i64, Location)]) -> GameStore {
    let mut s = GameStore::new();
    for &(id, player_id, location) in units {
        assert!(s.add_unit(Unit { id, player_id, location }));
    }
    s
}

#[test]
fn encounter_emitted_for_foreign_unit() {
    // U1 of player 1 arrives at (face 0, u 3, v 3) where U2 of player 2
    // stands: exactly one encounter naming both players and the tile.
    let dest = surface(1, 0, 3, 3);
    let mut s = store_with(&[(1, 1, surface(1, 0, 0, 0)), (2, 2, dest)]);
    let order = request_move(&mut s, 1, 1, dest, 100).unwrap();
    let events = process_arrival(&mut s, order.id).unwrap();
    assert_eq!(events.len(), 1);
    assert_eq!(events[0], EncounterEvent { player_a: 1, player_b: 2, location: dest });
    assert_eq!(s.find_unit(1).unwrap().location, dest);
}

#[test]
fn no_encounter_for_own_unit() {
    // The co-located unit belongs to the same player: no event.
    let dest = surface(1, 0, 3, 3);
    let mut s = store_with(&[(1, 1, surface(1, 0, 0, 0)), (2, 1, dest)]);
    let order = request_move(&mut s, 1, 1, dest, 100).unwrap();
    let events = process_arrival(&mut s, order.id).unwrap();
    assert!(events.is_empty());
}

#[test]
fn resolution_is_idempotent() {
    // Resolving the same order twice (a retry after a crash) must not
    // move the unit twice nor emit duplicate events.
    let dest = surface(1, 0, 3, 3);
    let mut s = store_with(&[(1, 1, surface(1, 0, 0, 0)), (2, 2, dest)]);
    let order = request_move(&mut s, 1, 1, dest, 100).unwrap();
    let first = process_arrival(&mut s, order.id).unwrap();
    assert_eq!(first.len(), 1);
    let second = process_arrival(&mut s, order.id).unwrap();
    assert!(second.is_empty());
    assert_eq!(s.find_unit(1).unwrap().location, dest);
    assert!(s.find_order(order.id).unwrap().resolved);
}

#[test]
fn injected_fault_leaves_no_mixed_state() {
    // A failure between the location update and the resolved marker
    // leaves the order pending and the unit at its origin.
    let origin = surface(1, 0, 0, 0);
    let dest = surface(1, 0, 3, 3);
    let mut s = store_with(&[(1, 1, origin)]);
    let order = request_move(&mut s, 1, 1, dest, 100).unwrap();
    let committed = s.resolve_order_txn(order.id, 1, dest, true);
    assert!(!committed);
    assert_eq!(s.find_unit(1).unwrap().location, origin);
    assert!(!s.find_order(order.id).unwrap().resolved);
    // Without the fault the same transaction commits both writes.
    assert!(s.resolve_order_txn(order.id, 1, dest, false));
    assert_eq!(s.find_unit(1).unwrap().location, dest);
    assert!(s.find_order(order.id).unwrap().resolved);
}

#[test]
fn foreign_unit_move_is_forbidden() {
    // Player 7 commands player 5's unit: rejected, nothing persisted.
    let mut s = store_with(&[(1, 5, surface(1, 0, 0, 0))]);
    let r = request_move(&mut s, 7, 1, surface(1, 0, 3, 3), 100);
    assert!(matches!(r, Err(ApiError::Forbidden(_))));
    assert!(s.due_orders(i64::MAX).is_empty());
    assert!(s.find_order(0).is_none());
}

#[test]
fn unknown_unit_move_is_bad_request() {
    let mut s = store_with(&[]);
    let r = request_move(&mut s, 1, 99, surface(1, 0, 3, 3), 100);
    assert!(matches!(r, Err(ApiError::BadRequest(_))));
}

#[test]
fn invalid_destination_is_bad_request() {
    let mut s = store_with(&[(1, 1, surface(1, 0, 0, 0))]);
    // Tile coordinate beyond the grid.
    let r = request_move(&mut s, 1, 1, surface(1, 0, 64, 0), 100);
    assert!(matches!(r, Err(ApiError::BadRequest(_))));
    assert!(s.due_orders(i64::MAX).is_empty());
}

#[test]
fn accepted_move_arrives_after_travel_delay() {
    let mut s = store_with(&[(1, 1, surface(1, 0, 0, 0))]);
    let order = request_move(&mut s, 1, 1, surface(1, 0, 3, 3), 100).unwrap();
    assert_eq!(order.arrival_time, 110);
    assert_eq!(order.origin, surface(1, 0, 0, 0));
    assert!(!order.resolved);
}

#[test]
fn scan_resolves_only_due_orders() {
    let dest_a = surface(1, 0, 1, 1);
    let dest_b = surface(1, 0, 2, 2);
    let mut s = store_with(&[(1, 1, surface(1, 0, 0, 0)), (2, 2, surface(1, 1, 0, 0))]);
    let early = request_move(&mut s, 1, 1, dest_a, 0).unwrap();
    let late = request_move(&mut s, 2, 2, dest_b, 1000).unwrap();
    // At time 50 only the first order is due.
    let events = scan_due_orders(&mut s, 50);
    assert!(events.is_empty());
    assert!(s.find_order(early.id).unwrap().resolved);
    assert!(!s.find_order(late.id).unwrap().resolved);
    assert_eq!(s.find_unit(1).unwrap().location, dest_a);
    assert_eq!(s.find_unit(2).unwrap().location, surface(1, 1, 0, 0));
    // Later the second order resolves too.
    scan_due_orders(&mut s, 2000);
    assert!(s.find_order(late.id).unwrap().resolved);
    assert_eq!(s.find_unit(2).unwrap().location, dest_b);
}

#[test]
fn scan_emits_encounters_of_resolved_arrivals() {
    let dest = surface(3, 2, 7, 7);
    let mut s = store_with(&[(1, 1, surface(3, 0, 0, 0)), (2, 2, dest)]);
    let order = request_move(&mut s, 1, 1, dest, 0).unwrap();
    let events = scan_due_orders(&mut s, order.arrival_time);
    assert_eq!(events.len(), 1);
    assert_eq!(events[0], EncounterEvent { player_a: 1, player_b: 2, location: dest });
}

#[test]
fn missing_order_and_missing_unit_are_reported() {
    let mut s = store_with(&[(1, 1, surface(1, 0, 0, 0))]);
    assert_eq!(process_arrival(&mut s, 42).unwrap_err(), ResolveError::OrderNotFound);
    // An order whose unit vanished is an invariant violation for that
    // record alone.
    let id = s.insert_move_order(9, surface(1, 0, 0, 0), surface(1, 0, 1, 1), 0);
    assert_eq!(process_arrival(&mut s, id).unwrap_err(), ResolveError::UnitNotFound);
    // The healthy unit is untouched.
    assert_eq!(s.find_unit(1).unwrap().location, surface(1, 0, 0, 0));
}

#[test]
fn add_unit_rejects_duplicates_and_invalid() {
    let mut s = GameStore::new();
    assert!(s.add_unit(Unit { id: 1, player_id: 1, location: surface(1, 0, 0, 0) }));
    assert!(!s.add_unit(Unit { id: 1, player_id: 2, location: surface(1, 0, 1, 1) }));
    assert!(!s.add_unit(Unit { id: 2, player_id: 1, location: surface(1, 9, 0, 0) }));
    assert!(!s.add_unit(Unit { id: -3, player_id: 1, location: Location::Orbit { planet_id: 1 } }));
}

#[test]
fn units_at_finds_exact_colocation() {
    let spot = Location::Orbit { planet_id: 4 };
    let s = store_with(&[(1, 1, spot), (2, 2, spot), (3, 1, Location::Space { system_id: 4 })]);
    let here = s.units_at(spot);
    assert_eq!(here.len(), 2);
    assert!(here.iter().all(|u| u.location == spot));
}

#[test]
fn location_factories_validate() {
    assert!(Location::planet_surface(1, 0, 3, 3).is_ok());
    assert!(Location::planet_surface(1, 6, 0, 0).is_err());
    assert!(Location::planet_surface(1, 0, 64, 0).is_err());
    assert!(Location::planet_surface(-1, 0, 0, 0).is_err());
    assert!(Location::orbit(2).is_ok());
    assert!(Location::orbit(-2).is_err());
    assert!(Location::space(3).is_ok());
    assert!(Location::space(-3).is_err());
}

#[test]
fn scan_on_empty_store_is_quiet() {
    let mut s = GameStore::new();
    assert!(scan_due_orders(&mut s, 0).is_empty());
    assert!(s.due_orders(i64::MAX).is_empty());
}

#[test]
fn order_ids_are_allocated_in_sequence() {
    let mut s = store_with(&[(1, 1, surface(1, 0, 0, 0)), (2, 1, surface(1, 0, 1, 1))]);
    let a = request_move(&mut s, 1, 1, surface(1, 0, 2, 2), 0).unwrap();
    let b = request_move(&mut s, 1, 2, surface(1, 0, 3, 3), 0).unwrap();
    assert_eq!(a.id, 0);
    assert_eq!(b.id, 1);
}

#[test]
fn api_error_reason_is_kept() {
    let e = ApiError::Forbidden("not your unit");
    assert_eq!(e.reason(), "not your unit");
}
