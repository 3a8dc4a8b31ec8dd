//! The broadcast bus, modelled exactly: one producer, many ephemeral
//! subscribers, each with its own bounded buffer starting at the point
//! of subscription. Publishing never blocks: a full buffer drops its
//! oldest entry and the subscriber is told how many events it missed,
//! rather than ever stalling the producer. Delivery is at most once and
//! best effort; the store stays authoritative.

use vstd::prelude::*;
use crate::location::EncounterEvent;

verus! {

/// One subscriber's state: its handle, its pending events (oldest
/// first), and how many events fell out of its buffer unseen.
pub struct Subscriber {
    pub id: u64,
    pub buffer: Vec<EncounterEvent>,
    pub missed: u64,
}

/// The fan-out bus: every published event is offered to every
/// subscriber that is attached at that moment.
pub struct EventBus {
    /// Bound on each subscriber's buffer; at least one.
    pub capacity: usize,
    pub next_sub_id: u64,
    pub subs: Vec<Subscriber>,
}

/// Ghost snapshot of one subscriber.
pub ghost struct SubView {
    pub id: u64,
    pub buffer: Seq<EncounterEvent>,
    pub missed: u64,
}

/// Ghost snapshot of the bus.
pub ghost struct BusView {
    pub capacity: int,
    pub next_sub_id: u64,
    pub subs: Seq<SubView>,
}

pub open spec fn sub_view(s: Subscriber) -> SubView {
    SubView { id: s.id, buffer: s.buffer@, missed: s.missed }
}

pub open spec fn sub_views(ss: Seq<Subscriber>) -> Seq<SubView>
    decreases ss.len(),
{
    if ss.len() == 0 {
        Seq::empty()
    } else {
        sub_views(ss.drop_last()).push(sub_view(ss.last()))
    }
}

pub open spec fn bus_view(b: EventBus) -> BusView {
    BusView { capacity: b.capacity as int, next_sub_id: b.next_sub_id, subs: sub_views(b.subs@) }
}

pub proof fn lemma_sub_views_index(ss: Seq<Subscriber>)
    ensures
        sub_views(ss).len() == ss.len(),
        forall|i: int| 0 <= i < ss.len() ==> sub_views(ss)[i] == sub_view(#[trigger] ss[i]),
    decreases ss.len(),
{
    if ss.len() > 0 {
        lemma_sub_views_index(ss.drop_last());
        assert forall|i: int| 0 <= i < ss.len() implies sub_views(ss)[i] == sub_view(
            #[trigger] ss[i],
        ) by {
            if i < ss.len() - 1 {
                assert(sub_views(ss)[i] == sub_views(ss.drop_last())[i]);
                assert(ss.drop_last()[i] == ss[i]);
            } else {
                assert(sub_views(ss)[i] == sub_view(ss.last()));
            }
        }
    }
}

/// Saturating increment, for the missed-event counter.
pub open spec fn sat_inc(m: u64) -> u64 {
    if m < u64::MAX {
        (m + 1) as u64
    } else {
        m
    }
}

/// What publishing `e` does to one subscriber: the event is appended;
/// a full buffer first drops its oldest entry and counts it missed.
pub open spec fn spec_publish_sub(s: SubView, e: EncounterEvent, cap: int) -> SubView {
    if s.buffer.len() < cap {
        SubView { id: s.id, buffer: s.buffer.push(e), missed: s.missed }
    } else {
        SubView { id: s.id, buffer: s.buffer.drop_first().push(e), missed: sat_inc(s.missed) }
    }
}

pub open spec fn spec_publish_subs(ss: Seq<SubView>, e: EncounterEvent, cap: int) -> Seq<SubView>
    decreases ss.len(),
{
    if ss.len() == 0 {
        Seq::empty()
    } else {
        spec_publish_subs(ss.drop_last(), e, cap).push(spec_publish_sub(ss.last(), e, cap))
    }
}

pub proof fn lemma_publish_subs_index(ss: Seq<SubView>, e: EncounterEvent, cap: int)
    ensures
        spec_publish_subs(ss, e, cap).len() == ss.len(),
        forall|i: int|
            0 <= i < ss.len() ==> spec_publish_subs(ss, e, cap)[i] == spec_publish_sub(
                #[trigger] ss[i],
                e,
                cap,
            ),
    decreases ss.len(),
{
    if ss.len() > 0 {
        lemma_publish_subs_index(ss.drop_last(), e, cap);
        assert forall|i: int| 0 <= i < ss.len() implies spec_publish_subs(ss, e, cap)[i]
            == spec_publish_sub(#[trigger] ss[i], e, cap) by {
            if i < ss.len() - 1 {
                assert(spec_publish_subs(ss, e, cap)[i] == spec_publish_subs(
                    ss.drop_last(),
                    e,
                    cap,
                )[i]);
                assert(ss.drop_last()[i] == ss[i]);
            } else {
                assert(spec_publish_subs(ss, e, cap)[i] == spec_publish_sub(ss.last(), e, cap));
            }
        }
    }
}

/// Publishing, as a function of the bus snapshot.
pub open spec fn spec_publish(v: BusView, e: EncounterEvent) -> BusView {
    BusView {
        capacity: v.capacity,
        next_sub_id: v.next_sub_id,
        subs: spec_publish_subs(v.subs, e, v.capacity),
    }
}

/// Subscribing, as a function of the bus snapshot: the new subscriber
/// starts with an empty buffer — it sees only what is published after
/// it attached, never a replay.
pub open spec fn spec_subscribe(v: BusView) -> (BusView, u64) {
    (
        BusView {
            capacity: v.capacity,
            next_sub_id: sat_inc(v.next_sub_id),
            subs: v.subs.push(
                (SubView { id: v.next_sub_id, buffer: Seq::empty(), missed: 0 }),
            ),
        },
        v.next_sub_id,
    )
}

pub open spec fn bus_wf(v: BusView) -> bool {
    &&& v.capacity >= 1
    &&& forall|i: int, j: int| 0 <= i < j < v.subs.len() ==> v.subs[i].id != v.subs[j].id
    &&& forall|i: int| 0 <= i < v.subs.len() ==> (#[trigger] v.subs[i]).id < v.next_sub_id
    &&& forall|i: int| 0 <= i < v.subs.len() ==> (#[trigger] v.subs[i]).buffer.len() <= v.capacity
}

/// What one poll returns to a subscriber.
#[derive(Clone, Copy, Debug, PartialEq, Eq, Structural)]
pub enum PollResult {
    /// The oldest pending event.
    Event(EncounterEvent),
    /// The subscriber fell behind: this many events were dropped
    /// unseen. The counter is reset by this notice.
    Lagged(u64),
    /// Nothing pending.
    Empty,
    /// No subscriber with the given handle is attached.
    UnknownSubscriber,
}

impl EventBus {
    /// A bus whose subscribers each buffer up to `capacity` events.
    pub fn new(capacity: usize) -> (r: EventBus)
        requires
            capacity >= 1,
        ensures
            bus_wf(bus_view(r)),
            bus_view(r).capacity == capacity,
            bus_view(r).subs.len() == 0,
    {
        EventBus { capacity, next_sub_id: 0, subs: Vec::new() }
    }

    /// Attaches a new subscriber and returns its handle. Its buffer
    /// starts empty: events published earlier are never replayed.
    pub fn subscribe(&mut self) -> (r: u64)
        requires
            bus_wf(bus_view(*old(self))),
            old(self).next_sub_id < u64::MAX,
        ensures
            bus_wf(bus_view(*final(self))),
            bus_view(*final(self)) == spec_subscribe(bus_view(*old(self))).0,
            r == spec_subscribe(bus_view(*old(self))).1,
            bus_view(*final(self)).subs.len() == bus_view(*old(self)).subs.len() + 1,
            bus_view(*final(self)).subs.last() == (SubView {
                id: r,
                buffer: Seq::empty(),
                missed: 0,
            }),
    {
        let id = self.next_sub_id;
        let sub = Subscriber { id, buffer: Vec::new(), missed: 0 };
        self.subs.push(sub);
        self.next_sub_id = id + 1;
        proof {
            let ss0 = old(self).subs@;
            let v0 = bus_view(*old(self));
            assert(self.subs@.drop_last() =~= ss0);
            assert(sub_views(self.subs@) == sub_views(ss0).push(sub_view(self.subs@.last())));
            lemma_sub_views_index(ss0);
            lemma_sub_views_index(self.subs@);
            let vf = bus_view(*self);
            assert(vf.subs =~= v0.subs.push((SubView { id, buffer: Seq::empty(), missed: 0 })));
            assert(vf.subs == spec_subscribe(v0).0.subs);
            assert(vf == spec_subscribe(v0).0);
            assert forall|a: int, b: int| 0 <= a < b < vf.subs.len() implies vf.subs[a].id
                != vf.subs[b].id by {
                if b < v0.subs.len() {
                    assert(vf.subs[a] == v0.subs[a]);
                    assert(vf.subs[b] == v0.subs[b]);
                } else {
                    assert(vf.subs[a] == v0.subs[a]);
                    assert(v0.subs[a].id < v0.next_sub_id);
                    assert(vf.subs[b].id == v0.next_sub_id);
                }
            }
        }
        id
    }

    /// Publishes an event to every attached subscriber. Never blocks
    /// and never fails: a subscriber whose buffer is full loses its
    /// oldest event instead, and its missed counter grows. Every
    /// subscriber attached at this moment receives `e` as the newest
    /// entry of its buffer.
    pub fn publish(&mut self, e: EncounterEvent)
        requires
            bus_wf(bus_view(*old(self))),
        ensures
            bus_wf(bus_view(*final(self))),
            bus_view(*final(self)) == spec_publish(bus_view(*old(self)), e),
            bus_view(*final(self)).subs.len() == bus_view(*old(self)).subs.len(),
            forall|i: int|
                0 <= i < bus_view(*old(self)).subs.len() ==> {
                    let b = (#[trigger] bus_view(*final(self)).subs[i]).buffer;
                    b.len() > 0 && b.last() == e
                },
    {
        let ghost v0 = bus_view(*old(self));
        proof {
            lemma_sub_views_index(old(self).subs@);
        }
        let cap = self.capacity;
        let mut i: usize = 0;
        while i < self.subs.len()
            invariant
                cap == old(self).capacity,
                cap >= 1,
                self.capacity == old(self).capacity,
                self.next_sub_id == old(self).next_sub_id,
                self.subs@.len() == old(self).subs@.len(),
                i <= self.subs@.len(),
                forall|k: int|
                    0 <= k < i ==> sub_view(#[trigger] self.subs@[k]) == spec_publish_sub(
                        sub_view(old(self).subs@[k]),
                        e,
                        old(self).capacity as int,
                    ),
                forall|k: int|
                    i <= k < self.subs@.len() ==> #[trigger] self.subs@[k] == old(self).subs@[k],
                forall|k: int|
                    0 <= k < old(self).subs@.len() ==> (#[trigger] old(
                        self,
                    ).subs@[k]).buffer@.len() <= old(self).capacity,
            decreases self.subs@.len() - i,
        {
            let ghost so = sub_view(self.subs@[i as int]);
            let blen = self.subs[i].buffer.len();
            if blen >= cap {
                // Full: the oldest entry is dropped and counted missed.
                self.subs[i].buffer.remove(0);
                let m = self.subs[i].missed;
                if m < u64::MAX {
                    self.subs[i].missed = m + 1;
                }
                self.subs[i].buffer.push(e);
                proof {
                    assert(self.subs@[i as int].buffer@ =~= so.buffer.drop_first().push(e));
                    assert(sub_view(self.subs@[i as int]) == spec_publish_sub(
                        so,
                        e,
                        old(self).capacity as int,
                    ));
                }
            } else {
                self.subs[i].buffer.push(e);
                proof {
                    assert(sub_view(self.subs@[i as int]) == spec_publish_sub(
                        so,
                        e,
                        old(self).capacity as int,
                    ));
                }
            }
            i = i + 1;
        }
        proof {
            lemma_sub_views_index(old(self).subs@);
            lemma_sub_views_index(self.subs@);
            lemma_publish_subs_index(v0.subs, e, v0.capacity);
            assert forall|k: int| 0 <= k < self.subs@.len() implies #[trigger] sub_views(
                self.subs@,
            )[k] == spec_publish_subs(v0.subs, e, v0.capacity)[k] by {
                assert(sub_views(self.subs@)[k] == sub_view(self.subs@[k]));
                assert(v0.subs[k] == sub_view(old(self).subs@[k]));
                assert(spec_publish_subs(v0.subs, e, v0.capacity)[k] == spec_publish_sub(
                    v0.subs[k],
                    e,
                    v0.capacity,
                ));
            }
            assert(sub_views(self.subs@) =~= spec_publish_subs(v0.subs, e, v0.capacity));
            assert(bus_view(*self) == spec_publish(v0, e));
            let vf = bus_view(*self);
            assert forall|a: int, b: int| 0 <= a < b < vf.subs.len() implies vf.subs[a].id
                != vf.subs[b].id by {
                assert(vf.subs[a] == spec_publish_sub(v0.subs[a], e, v0.capacity));
                assert(vf.subs[b] == spec_publish_sub(v0.subs[b], e, v0.capacity));
                assert(v0.subs[a].id != v0.subs[b].id);
            }
            assert forall|k: int| 0 <= k < vf.subs.len() implies (#[trigger] vf.subs[k]).id
                < vf.next_sub_id && vf.subs[k].buffer.len() <= vf.capacity && vf.subs[k].buffer.len()
                > 0 && vf.subs[k].buffer.last() == e by {
                assert(vf.subs[k] == spec_publish_sub(v0.subs[k], e, v0.capacity));
                assert(v0.subs[k].id < v0.next_sub_id);
                assert(v0.subs[k].buffer.len() <= v0.capacity);
            }
        }
    }

    /// Hands the subscriber the next thing it should see: first a lag
    /// notice when events were dropped (resetting the counter), then
    /// the oldest pending event, else nothing.
    pub fn poll(&mut self, sub_id: u64) -> (r: PollResult)
        requires
            bus_wf(bus_view(*old(self))),
        ensures
            bus_wf(bus_view(*final(self))),
            bus_view(*final(self)).capacity == bus_view(*old(self)).capacity,
            bus_view(*final(self)).next_sub_id == bus_view(*old(self)).next_sub_id,
            bus_view(*final(self)).subs.len() == bus_view(*old(self)).subs.len(),
            (r == PollResult::UnknownSubscriber) <==> (forall|i: int|
                0 <= i < bus_view(*old(self)).subs.len() ==> (#[trigger] bus_view(
                    *old(self),
                ).subs[i]).id != sub_id),
            (r == PollResult::UnknownSubscriber ==> bus_view(*final(self)) == bus_view(
                *old(self),
            )),
            forall|i: int|
                0 <= i < bus_view(*old(self)).subs.len() && (#[trigger] bus_view(
                    *old(self),
                ).subs[i]).id != sub_id ==> bus_view(*final(self)).subs[i] == bus_view(
                    *old(self),
                ).subs[i],
            forall|i: int|
                0 <= i < bus_view(*old(self)).subs.len() && (#[trigger] bus_view(
                    *old(self),
                ).subs[i]).id == sub_id ==> ({
                    let so = bus_view(*old(self)).subs[i];
                    let sn = bus_view(*final(self)).subs[i];
                    &&& (so.missed > 0 ==> r == PollResult::Lagged(so.missed) && sn == (SubView {
                        missed: 0,
                        ..so
                    }))
                    &&& (so.missed == 0 && so.buffer.len() > 0 ==> r == PollResult::Event(
                        so.buffer.first(),
                    ) && sn == (SubView { buffer: so.buffer.drop_first(), ..so }))
                    &&& (so.missed == 0 && so.buffer.len() == 0 ==> r == PollResult::Empty && sn
                        == so)
                }),
    {
        let ghost v0 = bus_view(*old(self));
        proof {
            lemma_sub_views_index(old(self).subs@);
        }
        let idx = match find_sub_index(&self.subs, sub_id) {
            None => {
                proof {
                    assert forall|i: int| 0 <= i < v0.subs.len() implies (
                    #[trigger] v0.subs[i]).id != sub_id by {
                        assert(v0.subs[i] == sub_view(old(self).subs@[i]));
                    }
                }
                return PollResult::UnknownSubscriber;
            },
            Some(i) => i,
        };
        let ghost so = sub_view(old(self).subs@[idx as int]);
        proof {
            assert(v0.subs[idx as int] == so);
            assert(so.id == sub_id);
        }
        let missed = self.subs[idx].missed;
        let r: PollResult;
        if missed > 0 {
            self.subs[idx].missed = 0;
            r = PollResult::Lagged(missed);
            proof {
                assert(sub_view(self.subs@[idx as int]) == (SubView { missed: 0, ..so }));
            }
        } else if self.subs[idx].buffer.len() > 0 {
            let ev = self.subs[idx].buffer.remove(0);
            proof {
                assert(self.subs@[idx as int].buffer@ =~= so.buffer.drop_first());
                assert(sub_view(self.subs@[idx as int]) == (SubView {
                    buffer: so.buffer.drop_first(),
                    ..so
                }));
                assert(ev == so.buffer.first());
            }
            r = PollResult::Event(ev);
        } else {
            r = PollResult::Empty;
        }
        proof {
            lemma_sub_views_index(self.subs@);
            assert forall|k: int|
                0 <= k < v0.subs.len() && (#[trigger] v0.subs[k]).id == sub_id implies k == idx
                as int by {
                if k < idx as int {
                    assert(v0.subs[k].id != v0.subs[idx as int].id);
                } else if k > idx as int {
                    assert(v0.subs[idx as int].id != v0.subs[k].id);
                }
            }
            let vf = bus_view(*self);
            assert forall|k: int| 0 <= k < v0.subs.len() && k != idx as int implies #[trigger] vf.subs[k]
                == v0.subs[k] by {
                assert(self.subs@[k] == old(self).subs@[k]);
                assert(vf.subs[k] == sub_view(self.subs@[k]));
                assert(v0.subs[k] == sub_view(old(self).subs@[k]));
            }
            assert(vf.subs[idx as int].id == so.id);
            assert(vf.subs[idx as int].buffer.len() <= so.buffer.len());
            assert forall|a: int, b: int| 0 <= a < b < vf.subs.len() implies vf.subs[a].id
                != vf.subs[b].id by {
                assert(vf.subs[a].id == v0.subs[a].id);
                assert(vf.subs[b].id == v0.subs[b].id);
            }
        }
        r
    }
}

/// Index of the subscriber with handle `id`, if any.
fn find_sub_index(subs: &Vec<Subscriber>, id: u64) -> (r: Option<usize>)
    ensures
        (match r {
            Some(i) => i < subs@.len() && subs@[i as int].id == id,
            None => forall|i: int| 0 <= i < subs@.len() ==> (#[trigger] subs@[i]).id != id,
        }),
{
    let mut i: usize = 0;
    while i < subs.len()
        invariant
            i <= subs@.len(),
            forall|k: int| 0 <= k < i ==> (#[trigger] subs@[k]).id != id,
        decreases subs@.len() - i,
    {
        if subs[i].id == id {
            return Some(i);
        }
        i = i + 1;
    }
    None
}

/// Bus liveness: a subscriber attached before a publish receives that
/// event — after the publish it is the newest entry of the subscriber's
/// buffer, and for a fresh subscriber the only one — while a subscriber
/// attached after a publish starts empty and receives nothing of it:
/// there is no replay.
pub proof fn lemma_bus_liveness(v: BusView, e: EncounterEvent)
    requires
        bus_wf(v),
    ensures
        ({
            // Attach, then publish: the new subscriber holds exactly [e].
            let (v1, sid) = spec_subscribe(v);
            let v2 = spec_publish(v1, e);
            &&& v2.subs.len() == v.subs.len() + 1
            &&& v2.subs.last().id == sid
            &&& v2.subs.last().buffer =~= seq![e]
        }),
        ({
            // Publish, then attach: the new subscriber holds nothing.
            let v1 = spec_publish(v, e);
            let (v2, sid) = spec_subscribe(v1);
            &&& v2.subs.last().id == sid
            &&& v2.subs.last().buffer =~= Seq::<EncounterEvent>::empty()
        }),
{
    let (v1, sid) = spec_subscribe(v);
    let v2 = spec_publish(v1, e);
    lemma_publish_subs_index(v1.subs, e, v1.capacity);
    let fresh = SubView { id: sid, buffer: Seq::empty(), missed: 0 };
    assert(v1.subs.last() == fresh);
    assert(v2.subs[v1.subs.len() - 1] == spec_publish_sub(fresh, e, v1.capacity));
    assert(spec_publish_sub(fresh, e, v1.capacity).buffer =~= seq![e]);
}

} // verus!
