//! Hand-off of encounter events to the process-wide broadcast channel
//! that transports (server-sent events and the like) subscribe to. The
//! serialisation is the library's verified encoder; only the channel
//! itself is an outside collaborator, taken on trust.

use vstd::prelude::*;
use crate::codec::event_json;
use crate::location::{EncounterEvent, event_valid};

verus! {

#[verifier::external_type_specification]
#[verifier::external_body]
#[verifier::reject_recursive_types(T)]
pub struct ExSender<T>(tokio::sync::broadcast::Sender<T>);

/// Relies on tokio::sync::broadcast::channel: it panics only on a
/// capacity of zero or above `usize::MAX / 2`, and otherwise returns a
/// fresh channel, whose sending half this returns.
#[verifier::external_body]
fn raw_broadcast_channel(capacity: usize) -> tokio::sync::broadcast::Sender<String>
    requires
        1 <= capacity <= usize::MAX / 2,
{
    let (tx, _rx) = tokio::sync::broadcast::channel(capacity);
    tx
}

/// Opens the broadcast channel the engine publishes on, clamping the
/// requested per-subscriber capacity into the channel's legal range so
/// that no capacity can fault.
pub fn broadcast_channel(capacity: usize) -> tokio::sync::broadcast::Sender<String> {
    let cap: usize = if capacity < 1 {
        1
    } else if capacity > (usize::MAX / 2) {
        usize::MAX / 2
    } else {
        capacity
    };
    raw_broadcast_channel(cap)
}

/// Relies on tokio::sync::broadcast::Sender::send: it never blocks, and
/// fails only when no receiver is attached — a failure this bus ignores,
/// delivery being best-effort.
#[verifier::external_body]
fn send_json(tx: &tokio::sync::broadcast::Sender<String>, msg: String) {
    let _ = tx.send(msg);
}

/// Serialises every event and offers it to the broadcast channel.
/// Publishing never blocks and never fails: an event nobody listens for
/// is simply lost, as the bus is not a source of truth.
pub fn publish_encounters(tx: &tokio::sync::broadcast::Sender<String>, events: &Vec<EncounterEvent>)
    requires
        forall|i: int| 0 <= i < events@.len() ==> event_valid(#[trigger] events@[i]),
{
    let mut i: usize = 0;
    while i < events.len()
        invariant
            i <= events@.len(),
            forall|k: int| 0 <= k < events@.len() ==> event_valid(#[trigger] events@[k]),
        decreases events@.len() - i,
    {
        let msg = event_json(&events[i]);
        send_json(tx, msg);
        i = i + 1;
    }
}

} // verus!
