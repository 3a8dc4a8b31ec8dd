use sci4x::dtos::{Unit, UnitLocation, state_units};
use sci4x::error::ApiError;
use sci4x::models::UnitWithPlanetLocationRow;

fn surface_row(id: i64) -> UnitWithPlanetLocationRow {
    UnitWithPlanetLocationRow {
        id,
        player_id: 1,
        unit_type: "scout".to_string(),
        location_type: "PLANET_SURFACE".to_string(),
        planet_id: Some(4),
        face: Some(0),
        u: Some(3),
        v: Some(3),
    }
}

fn bare_row(id: i64, location_type: &str) -> UnitWithPlanetLocationRow {
    UnitWithPlanetLocationRow {
        id,
        player_id: 2,
        unit_type: "freighter".to_string(),
        location_type: location_type.to_string(),
        planet_id: None,
        face: None,
        u: None,
        v: None,
    }
}

#[test]
fn surface_row_converts() {
    let u = Unit::from_row(surface_row(1)).unwrap();
    assert_eq!(u.id, 1);
    assert_eq!(u.player_id, 1);
    assert_eq!(u.unit_type, "scout");
    assert!(matches!(
        u.location,
        UnitLocation::PlanetSurface { planet_id: 4, face: 0, u: 3, v: 3 }
    ));
}

#[test]
fn orbit_and_space_rows_convert() {
    let o = Unit::from_row(bare_row(2, "ORBIT")).unwrap();
    assert!(matches!(o.location, UnitLocation::Orbit));
    let s = Unit::from_row(bare_row(3, "SPACE")).unwrap();
    assert!(matches!(s.location, UnitLocation::Space));
}

#[test]
fn missing_surface_column_is_internal_error() {
    let mut row = surface_row(1);
    row.u = None;
    assert!(matches!(Unit::from_row(row), Err(ApiError::Internal(_))));
}

#[test]
fn unknown_location_type_is_internal_error() {
    let row = bare_row(1, "WARP");
    assert!(matches!(Unit::from_row(row), Err(ApiError::Internal(_))));
}

#[test]
fn state_units_converts_all_or_fails() {
    let rows = vec![surface_row(1), bare_row(2, "ORBIT"), bare_row(3, "SPACE")];
    let units = state_units(rows).unwrap();
    assert_eq!(units.len(), 3);
    assert_eq!(units[0].id, 1);
    assert_eq!(units[2].id, 3);

    let rows = vec![surface_row(1), bare_row(2, "WARP")];
    assert!(matches!(state_units(rows), Err(ApiError::Internal(_))));
}
