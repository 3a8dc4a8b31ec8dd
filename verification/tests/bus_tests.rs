use sci4x::bus::{EventBus, PollResult};
use sci4x::location::{Location, EncounterEvent};

fn ev(a: i64, b: i64) -> EncounterEvent {
    EncounterEvent { player_a: a, player_b: b, location: Location::Orbit { planet_id: 1 } }
}

#[test]
fn subscriber_before_publish_receives() {
    let mut bus = EventBus::new(8);
    let sub = bus.subscribe();
    bus.publish(ev(1, 2));
    assert_eq!(bus.poll(sub), PollResult::Event(ev(1, 2)));
    assert_eq!(bus.poll(sub), PollResult::Empty);
}

#[test]
fn subscriber_after_publish_sees_no_replay() {
    let mut bus = EventBus::new(8);
    bus.publish(ev(1, 2));
    let sub = bus.subscribe();
    assert_eq!(bus.poll(sub), PollResult::Empty);
}

#[test]
fn each_subscriber_has_its_own_view() {
    let mut bus = EventBus::new(8);
    let s1 = bus.subscribe();
    bus.publish(ev(1, 2));
    let s2 = bus.subscribe();
    bus.publish(ev(3, 4));
    assert_eq!(bus.poll(s1), PollResult::Event(ev(1, 2)));
    assert_eq!(bus.poll(s1), PollResult::Event(ev(3, 4)));
    assert_eq!(bus.poll(s2), PollResult::Event(ev(3, 4)));
    assert_eq!(bus.poll(s2), PollResult::Empty);
}

#[test]
fn slow_subscriber_is_told_it_lagged() {
    let mut bus = EventBus::new(1);
    let sub = bus.subscribe();
    bus.publish(ev(1, 2));
    bus.publish(ev(3, 4));
    bus.publish(ev(5, 6));
    // Two events fell out of the single-slot buffer.
    assert_eq!(bus.poll(sub), PollResult::Lagged(2));
    // The newest event survived; the notice reset the counter.
    assert_eq!(bus.poll(sub), PollResult::Event(ev(5, 6)));
    assert_eq!(bus.poll(sub), PollResult::Empty);
}

#[test]
fn unknown_subscriber_is_reported() {
    let mut bus = EventBus::new(4);
    assert_eq!(bus.poll(99), PollResult::UnknownSubscriber);
    let sub = bus.subscribe();
    assert_eq!(bus.poll(sub + 1), PollResult::UnknownSubscriber);
}
