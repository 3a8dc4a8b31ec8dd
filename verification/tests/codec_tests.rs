use sci4x::codec::{u64_to_dec, i64_to_dec, location_json, event_json};
use sci4x::location::{Location, EncounterEvent};

#[test]
fn decimal_rendering_is_exact() {
    assert_eq!(u64_to_dec(0), "0");
    assert_eq!(u64_to_dec(7), "7");
    assert_eq!(u64_to_dec(10), "10");
    assert_eq!(u64_to_dec(12345), "12345");
    assert_eq!(u64_to_dec(u64::MAX), "18446744073709551615");
    assert_eq!(i64_to_dec(0), "0");
    assert_eq!(i64_to_dec(i64::MAX), "9223372036854775807");
}

#[test]
fn surface_location_json_shape() {
    let l = Location::PlanetSurface { planet_id: 1, face: 0, u: 3, v: 3 };
    assert_eq!(
        location_json(&l),
        "{\"location_type\":\"PLANET_SURFACE\",\"planet_id\":1,\"face\":0,\"u\":3,\"v\":3}"
    );
}

#[test]
fn orbit_and_space_location_json_shape() {
    assert_eq!(
        location_json(&Location::Orbit { planet_id: 12 }),
        "{\"location_type\":\"ORBIT\",\"planet_id\":12}"
    );
    assert_eq!(
        location_json(&Location::Space { system_id: 7 }),
        "{\"location_type\":\"SPACE\",\"system_id\":7}"
    );
}

#[test]
fn event_json_shape() {
    let e = EncounterEvent {
        player_a: 1,
        player_b: 2,
        location: Location::PlanetSurface { planet_id: 1, face: 0, u: 3, v: 3 },
    };
    assert_eq!(
        event_json(&e),
        "{\"type\":\"encounter\",\"player_a\":1,\"player_b\":2,\"location\":{\"location_type\":\"PLANET_SURFACE\",\"planet_id\":1,\"face\":0,\"u\":3,\"v\":3}}"
    );
}

#[test]
fn event_json_parses_back() {
    let e = EncounterEvent { player_a: 5, player_b: 9, location: Location::Orbit { planet_id: 3 } };
    let parsed: serde_json::Value = serde_json::from_str(&event_json(&e)).unwrap();
    assert_eq!(parsed["type"], "encounter");
    assert_eq!(parsed["player_a"], 5);
    assert_eq!(parsed["player_b"], 9);
    assert_eq!(parsed["location"]["location_type"], "ORBIT");
    assert_eq!(parsed["location"]["planet_id"], 3);
}
