//! The spatial data model of the simulation: a unit's location is a
//! tagged variant (planet surface tile, orbit, or open space), built only
//! through validated factories so that no location with missing or
//! out-of-range fields can exist.

use vstd::prelude::*;
use crate::error::ApiError;

verus! {

/// Number of faces of a planet's surface grid.
pub const FACE_COUNT: i32 = 6;

/// Tiles per axis on one face of a planet's surface grid.
pub const TILE_GRID: i32 = 64;

/// Where a unit stands. Exactly one variant holds at any instant.
#[derive(Clone, Copy, Debug, PartialEq, Eq, Structural)]
pub enum Location {
    /// A tile of a planet's surface; `face`, `u`, `v` address the tile.
    PlanetSurface { planet_id: i64, face: i32, u: i32, v: i32 },
    /// In orbit around a planet.
    Orbit { planet_id: i64 },
    /// In open space within a star system.
    Space { system_id: i64 },
}

/// A location is valid when its identifiers are non-negative and its
/// tile coordinates lie inside the surface grid.
pub open spec fn loc_valid(l: Location) -> bool {
    match l {
        Location::PlanetSurface { planet_id, face, u, v } => {
            &&& planet_id >= 0
            &&& 0 <= face < FACE_COUNT
            &&& 0 <= u < TILE_GRID
            &&& 0 <= v < TILE_GRID
        },
        Location::Orbit { planet_id } => planet_id >= 0,
        Location::Space { system_id } => system_id >= 0,
    }
}

impl Location {
    /// Runtime check for `loc_valid`.
    pub fn is_valid(&self) -> (r: bool)
        ensures
            r == loc_valid(*self),
    {
        match *self {
            Location::PlanetSurface { planet_id, face, u, v } => {
                planet_id >= 0 && 0 <= face && face < FACE_COUNT && 0 <= u && u < TILE_GRID
                    && 0 <= v && v < TILE_GRID
            },
            Location::Orbit { planet_id } => planet_id >= 0,
            Location::Space { system_id } => system_id >= 0,
        }
    }

    /// Validated factory for a planet-surface location: rejects any
    /// out-of-range face or tile coordinate.
    pub fn planet_surface(planet_id: i64, face: i32, u: i32, v: i32) -> (r: Result<
        Location,
        ApiError,
    >)
        ensures
            (r matches Ok(l) ==> l == (Location::PlanetSurface { planet_id, face, u, v })),
            (r is Ok <==> loc_valid(Location::PlanetSurface { planet_id, face, u, v })),
            (r matches Err(e) ==> e is BadRequest),
    {
        let l = Location::PlanetSurface { planet_id, face, u, v };
        if l.is_valid() {
            Ok(l)
        } else {
            Err(ApiError::BadRequest("invalid planet surface coordinates"))
        }
    }

    /// Validated factory for an orbit location.
    pub fn orbit(planet_id: i64) -> (r: Result<Location, ApiError>)
        ensures
            (r matches Ok(l) ==> l == (Location::Orbit { planet_id })),
            (r is Ok <==> planet_id >= 0),
            (r matches Err(e) ==> e is BadRequest),
    {
        if planet_id >= 0 {
            Ok(Location::Orbit { planet_id })
        } else {
            Err(ApiError::BadRequest("invalid planet reference"))
        }
    }

    /// Validated factory for an open-space location.
    pub fn space(system_id: i64) -> (r: Result<Location, ApiError>)
        ensures
            (r matches Ok(l) ==> l == (Location::Space { system_id })),
            (r is Ok <==> system_id >= 0),
            (r matches Err(e) ==> e is BadRequest),
    {
        if system_id >= 0 {
            Ok(Location::Space { system_id })
        } else {
            Err(ApiError::BadRequest("invalid system reference"))
        }
    }
}

/// A unit as the order-resolution engine sees it: identity, owner, and
/// its single current location.
#[derive(Clone, Copy, Debug, PartialEq, Eq, Structural)]
pub struct Unit {
    pub id: i64,
    pub player_id: i64,
    pub location: Location,
}

/// A unit is well formed when its identifiers are non-negative and its
/// location is valid.
pub open spec fn unit_valid(u: Unit) -> bool {
    u.id >= 0 && u.player_id >= 0 && loc_valid(u.location)
}

impl Unit {
    /// Runtime check for `unit_valid`.
    pub fn is_valid_unit(&self) -> (r: bool)
        ensures
            r == unit_valid(*self),
    {
        self.id >= 0 && self.player_id >= 0 && self.location.is_valid()
    }
}

/// A time-delayed movement order. `resolved` is the terminal marker:
/// an order is consumed exactly once.
#[derive(Clone, Copy, Debug, PartialEq, Eq, Structural)]
pub struct MoveOrder {
    pub id: i64,
    pub unit_id: i64,
    pub origin: Location,
    pub dest: Location,
    /// Logical timestamp at which the order becomes due.
    pub arrival_time: i64,
    pub resolved: bool,
}

/// An order is well formed when its identifiers are non-negative and
/// both endpoints are valid locations.
pub open spec fn order_valid(o: MoveOrder) -> bool {
    o.id >= 0 && o.unit_id >= 0 && loc_valid(o.origin) && loc_valid(o.dest)
}

/// An order is due at `now` when it is still pending and its arrival
/// time has passed.
pub open spec fn order_due(o: MoveOrder, now: i64) -> bool {
    !o.resolved && o.arrival_time <= now
}

/// Ephemeral notification that two players' units stand at the same
/// location at the moment an order resolved. Never persisted.
#[derive(Clone, Copy, Debug, PartialEq, Eq, Structural)]
pub struct EncounterEvent {
    /// Owner of the unit whose arrival triggered the check.
    pub player_a: i64,
    /// Owner of the other unit found at the destination.
    pub player_b: i64,
    /// The location of contact.
    pub location: Location,
}

/// An event is well formed when both players are non-negative and the
/// contact location is valid.
pub open spec fn event_valid(e: EncounterEvent) -> bool {
    e.player_a >= 0 && e.player_b >= 0 && loc_valid(e.location)
}

} // verus!
