//! Row shapes of the persistence collaborator: units keyed by a
//! location-type discriminant, with the planet-surface coordinates in a
//! separate, possibly absent, joined row.

use vstd::prelude::*;

verus! {

/// A unit row as the store keeps it.
#[derive(Debug)]
pub struct Unit {
    pub id: i64,
    pub player_id: i64,
    pub unit_type: String,
    pub location_type: String,
}

/// The planet-surface coordinates of a unit, joined by unit identifier.
#[derive(Debug)]
pub struct UnitPlanetLocation {
    pub unit_id: i64,
    pub planet_id: i64,
    pub face: i32,
    pub u: i32,
    pub v: i32,
}

/// A unit row left-joined with its planet-surface coordinates: the
/// coordinate columns are present exactly when the unit stands on a
/// surface.
#[derive(Debug)]
pub struct UnitWithPlanetLocationRow {
    pub id: i64,
    pub player_id: i64,
    pub unit_type: String,
    pub location_type: String,
    pub planet_id: Option<i64>,
    pub face: Option<i32>,
    pub u: Option<i32>,
    pub v: Option<i32>,
}

} // verus!
