use sci4x::location::{Location, EncounterEvent};
use sci4x::publish::{broadcast_channel, publish_encounters};

#[test]
fn published_events_reach_a_subscriber() {
    let tx = broadcast_channel(16);
    let mut rx = tx.subscribe();
    let events = vec![
        EncounterEvent { player_a: 1, player_b: 2, location: Location::Orbit { planet_id: 3 } },
        EncounterEvent { player_a: 4, player_b: 5, location: Location::Space { system_id: 6 } },
    ];
    publish_encounters(&tx, &events);
    assert_eq!(
        rx.try_recv().unwrap(),
        "{\"type\":\"encounter\",\"player_a\":1,\"player_b\":2,\"location\":{\"location_type\":\"ORBIT\",\"planet_id\":3}}"
    );
    assert_eq!(
        rx.try_recv().unwrap(),
        "{\"type\":\"encounter\",\"player_a\":4,\"player_b\":5,\"location\":{\"location_type\":\"SPACE\",\"system_id\":6}}"
    );
    assert!(rx.try_recv().is_err());
}

#[test]
fn publishing_without_subscribers_does_not_fail() {
    let tx = broadcast_channel(4);
    let events = vec![EncounterEvent {
        player_a: 1,
        player_b: 2,
        location: Location::Orbit { planet_id: 3 },
    }];
    publish_encounters(&tx, &events);
}
