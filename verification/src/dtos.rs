//! API-facing unit shapes, built from store rows through validated
//! conversion: the "nullable columns behind a discriminant" pattern of
//! the rows becomes a proper sum type, and a row whose columns do not
//! match its discriminant is rejected as an internal error confined to
//! that record.

use vstd::prelude::*;
use crate::error::ApiError;
use crate::models::UnitWithPlanetLocationRow;

verus! {

/// A unit's location as the API reports it. Orbit and space carry no
/// coordinates in the row schema.
#[derive(Debug)]
pub enum UnitLocation {
    PlanetSurface { planet_id: i64, face: i32, u: i32, v: i32 },
    Orbit,
    Space,
}

/// A unit as the API reports it.
#[derive(Debug)]
pub struct Unit {
    pub id: i64,
    pub player_id: i64,
    pub unit_type: String,
    pub location: UnitLocation,
}

/// A row is consistent when its discriminant is known and the columns
/// that discriminant requires are present.
pub open spec fn row_valid(r: UnitWithPlanetLocationRow) -> bool {
    ||| (r.location_type@ == "PLANET_SURFACE"@ && r.planet_id is Some && r.face is Some
        && r.u is Some && r.v is Some)
    ||| r.location_type@ == "ORBIT"@
    ||| r.location_type@ == "SPACE"@
}

/// The unit a consistent row denotes.
pub open spec fn row_to_unit(r: UnitWithPlanetLocationRow) -> Unit
    recommends
        row_valid(r),
{
    let location = if r.location_type@ == "PLANET_SURFACE"@ {
        UnitLocation::PlanetSurface {
            planet_id: (match r.planet_id {
                Some(p) => p,
                None => 0,
            }),
            face: (match r.face {
                Some(f) => f,
                None => 0,
            }),
            u: (match r.u {
                Some(u) => u,
                None => 0,
            }),
            v: (match r.v {
                Some(v) => v,
                None => 0,
            }),
        }
    } else if r.location_type@ == "ORBIT"@ {
        UnitLocation::Orbit
    } else {
        UnitLocation::Space
    };
    Unit { id: r.id, player_id: r.player_id, unit_type: r.unit_type, location }
}

/// Whether a stored tag equals a literal.
fn tag_is(s: &String, tag: &str) -> (r: bool)
    ensures
        r == (s@ == tag@),
{
    *s == tag.to_owned()
}

impl Unit {
    /// Validated conversion from a store row. Succeeds exactly on
    /// consistent rows; a missing column or an unknown discriminant is
    /// an internal error for this one record.
    pub fn from_row(row: UnitWithPlanetLocationRow) -> (r: Result<Unit, ApiError>)
        ensures
            r is Ok <==> row_valid(row),
            (r matches Ok(u) ==> u == row_to_unit(row)),
            (r matches Err(e) ==> e is Internal),
    {
        proof {
            reveal_strlit("PLANET_SURFACE");
            reveal_strlit("ORBIT");
            reveal_strlit("SPACE");
            assert("PLANET_SURFACE"@.len() == 14);
            assert("ORBIT"@.len() == 5);
            assert("SPACE"@.len() == 5);
            assert("ORBIT"@[0] == 'O' && "SPACE"@[0] == 'S');
            assert("PLANET_SURFACE"@ != "ORBIT"@ && "PLANET_SURFACE"@ != "SPACE"@);
            assert("ORBIT"@ != "SPACE"@);
        }
        if tag_is(&row.location_type, "PLANET_SURFACE") {
            match (row.planet_id, row.face, row.u, row.v) {
                (Some(planet_id), Some(face), Some(u), Some(v)) => Ok(
                    Unit {
                        id: row.id,
                        player_id: row.player_id,
                        unit_type: row.unit_type,
                        location: UnitLocation::PlanetSurface { planet_id, face, u, v },
                    },
                ),
                _ => Err(ApiError::Internal("planet surface row misses a coordinate column")),
            }
        } else if tag_is(&row.location_type, "ORBIT") {
            Ok(
                Unit {
                    id: row.id,
                    player_id: row.player_id,
                    unit_type: row.unit_type,
                    location: UnitLocation::Orbit,
                },
            )
        } else if tag_is(&row.location_type, "SPACE") {
            Ok(
                Unit {
                    id: row.id,
                    player_id: row.player_id,
                    unit_type: row.unit_type,
                    location: UnitLocation::Space,
                },
            )
        } else {
            Err(ApiError::Internal("unknown location_type"))
        }
    }
}

/// Converts every row of a state query, stopping at the first
/// inconsistent record. Succeeds exactly when every row is consistent,
/// and then reports the rows' units in order.
pub fn state_units(rows: Vec<UnitWithPlanetLocationRow>) -> (r: Result<Vec<Unit>, ApiError>)
    ensures
        r is Ok <==> (forall|i: int| 0 <= i < rows@.len() ==> row_valid(#[trigger] rows@[i])),
        (r matches Ok(us) ==> us@.len() == rows@.len() && forall|i: int|
            0 <= i < rows@.len() ==> us@[i] == row_to_unit(#[trigger] rows@[i])),
        (r matches Err(e) ==> e is Internal),
{
    let ghost rows0 = rows@;
    let mut remaining = rows;
    let mut out: Vec<Unit> = Vec::new();
    while remaining.len() > 0
        invariant
            rows0 == rows@,
            out@.len() + remaining@.len() == rows0.len(),
            remaining@ =~= rows0.skip(out@.len() as int),
            forall|k: int|
                0 <= k < out@.len() ==> row_valid(#[trigger] rows0[k]) && out@[k] == row_to_unit(
                    rows0[k],
                ),
        decreases remaining@.len(),
    {
        let ghost done: int = out@.len() as int;
        let row = remaining.remove(0);
        proof {
            assert(row == rows0[done]);
            assert(remaining@ =~= rows0.skip(done + 1));
        }
        match Unit::from_row(row) {
            Ok(u) => {
                out.push(u);
            },
            Err(e) => {
                proof {
                    assert(!row_valid(rows@[done]));
                }
                return Err(e);
            },
        }
    }
    proof {
        assert(forall|k: int| 0 <= k < rows0.len() ==> rows@[k] == #[trigger] rows0[k]);
    }
    Ok(out)
}

} // verus!
