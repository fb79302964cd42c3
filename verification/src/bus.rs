//! A bounded fan-out broadcast bus for pipeline events.
//!
//! Every receiver sees the events published after it subscribed, in publish
//! order. The bus is bounded: a receiver that falls more than the capacity
//! behind loses the oldest events it had not yet taken — a recoverable gap
//! reported once — while other receivers are unaffected, and publishing
//! never waits on a slow receiver.

use vstd::prelude::*;
use crate::events::Event;

verus! {

/// Default bus capacity: how far a receiver may fall behind before it
/// starts losing events.
pub const DEFAULT_EVENT_CAPACITY: usize = 512;

/// The broadcast bus: the full publish log and the capacity bound.
pub struct EventBus {
    log: Vec<Event>,
    capacity: usize,
}

/// What one call to `recv` yields: the next event, a gap report naming how
/// many events this receiver lost, or nothing new yet.
pub enum RecvOutcome {
    Received(Event),
    Lagged(usize),
    Empty,
}

/// An independent receive handle on the bus: a cursor into the publish
/// log, the position at which it subscribed, and whether it ever lost
/// events. The ghost history records which log positions it has taken.
pub struct BusReceiver {
    cursor: usize,
    start: usize,
    lagged: bool,
    received: Ghost<Seq<int>>,
}

impl EventBus {
    /// All events published so far, oldest first.
    pub closed spec fn log(&self) -> Seq<Event> {
        self.log@
    }

    /// How far a receiver may trail the newest event before losing events.
    pub closed spec fn capacity(&self) -> int {
        self.capacity as int
    }

    pub closed spec fn wf(&self) -> bool {
        self.capacity >= 1
    }

    /// A fresh bus with the given capacity and nothing published.
    pub fn new(capacity: usize) -> (r: EventBus)
        requires
            capacity >= 1,
        ensures
            r.wf(),
            r.log() == Seq::<Event>::empty(),
            r.capacity() == capacity,
    {
        EventBus { log: Vec::new(), capacity }
    }

    /// Publish an event: it is appended to the log, so every receiver that
    /// keeps up will take it. The publisher never waits on a receiver.
    pub fn publish(&mut self, event: Event)
        requires
            old(self).wf(),
            old(self).log().len() < usize::MAX,
        ensures
            final(self).wf(),
            final(self).log() == old(self).log().push(event),
            final(self).capacity() == old(self).capacity(),
    {
        self.log.push(event);
    }

    /// A new independent receive handle, which will see exactly the events
    /// published from now on (until it falls behind the capacity).
    pub fn subscribe(&self) -> (r: BusReceiver)
        requires
            self.wf(),
        ensures
            r.wf(self),
            r.start() == self.log().len(),
            r.cursor() == self.log().len(),
            !r.has_lagged(),
            r.received_indices() == Seq::<int>::empty(),
    {
        let r = BusReceiver {
            cursor: self.log.len(),
            start: self.log.len(),
            lagged: false,
            received: Ghost(Seq::empty()),
        };
        proof {
            assert(r.received_indices() =~= Seq::<int>::empty());
            assert(r.received_indices() =~= Seq::new(
                (r.cursor() - r.start()) as nat,
                |k: int| r.start() + k,
            ));
        }
        r
    }
}

impl BusReceiver {
    /// The next log position this receiver will take.
    pub closed spec fn cursor(&self) -> int {
        self.cursor as int
    }

    /// The log position at which this receiver subscribed.
    pub closed spec fn start(&self) -> int {
        self.start as int
    }

    /// Whether this receiver ever lost events to the capacity bound.
    pub closed spec fn has_lagged(&self) -> bool {
        self.lagged
    }

    /// The log positions this receiver has taken, in the order it took
    /// them.
    pub closed spec fn received_indices(&self) -> Seq<int> {
        self.received@
    }

    /// The events this receiver has taken, in the order it took them.
    pub open spec fn received_events(&self, bus: &EventBus) -> Seq<Event> {
        self.received_indices().map_values(|i: int| bus.log()[i])
    }

    /// Well-formedness against the bus the receiver was subscribed on: the
    /// cursor is within the log, the taken positions lie between the
    /// subscription point and the cursor and are strictly increasing, and a
    /// receiver that never lost events has taken every position from its
    /// subscription point up to its cursor.
    pub open spec fn wf(&self, bus: &EventBus) -> bool {
        &&& bus.wf()
        &&& self.start() <= self.cursor() <= bus.log().len()
        &&& forall|k: int|
            0 <= k < self.received_indices().len() ==> self.start() <= #[trigger] self.received_indices()[k]
                < self.cursor()
        &&& forall|k: int|
            0 <= k < self.received_indices().len() - 1 ==> #[trigger] self.received_indices()[k]
                < self.received_indices()[k + 1]
        &&& !self.has_lagged() ==> self.received_indices() == Seq::new(
            (self.cursor() - self.start()) as nat,
            |k: int| self.start() + k,
        )
    }

    /// Take the next event. A receiver more than the capacity behind is
    /// moved forward past the lost events and told how many it lost; a
    /// caught-up receiver gets nothing. Taken events come in publish order.
    pub fn recv(&mut self, bus: &EventBus) -> (r: RecvOutcome)
        requires
            old(self).wf(bus),
        ensures
            final(self).wf(bus),
            final(self).start() == old(self).start(),
            match r {
                RecvOutcome::Received(e) => {
                    &&& old(self).cursor() < bus.log().len()
                    &&& bus.log().len() - bus.capacity() <= old(self).cursor()
                    &&& e == bus.log()[old(self).cursor()]
                    &&& final(self).cursor() == old(self).cursor() + 1
                    &&& final(self).received_indices() == old(self).received_indices().push(
                        old(self).cursor(),
                    )
                    &&& final(self).has_lagged() == old(self).has_lagged()
                },
                RecvOutcome::Lagged(n) => {
                    &&& old(self).cursor() + bus.capacity() < bus.log().len()
                    &&& n == bus.log().len() - bus.capacity() - old(self).cursor()
                    &&& final(self).cursor() == bus.log().len() - bus.capacity()
                    &&& final(self).received_indices() == old(self).received_indices()
                    &&& final(self).has_lagged()
                },
                RecvOutcome::Empty => {
                    &&& old(self).cursor() == bus.log().len()
                    &&& *final(self) == *old(self)
                },
            },
    {
        let len = bus.log.len();
        if len > bus.capacity && len - bus.capacity > self.cursor {
            let missed = len - bus.capacity - self.cursor;
            self.cursor = len - bus.capacity;
            self.lagged = true;
            RecvOutcome::Lagged(missed)
        } else if self.cursor < len {
            let e = bus.log[self.cursor];
            let ghost previous = self.received@;
            self.received = Ghost(self.received@.push(self.cursor as int));
            self.cursor = self.cursor + 1;
            proof {
                if !self.lagged {
                    assert(self.received_indices() =~= Seq::new(
                        (self.cursor() - self.start()) as nat,
                        |k: int| self.start() + k,
                    ));
                }
            }
            RecvOutcome::Received(e)
        } else {
            RecvOutcome::Empty
        }
    }
}

/// Every receiver observes a strict subsequence of the publish log: the
/// positions it took are strictly increasing (no reordering, no
/// duplication) and each taken event is the log entry at its position.
pub proof fn lemma_receiver_observes_subsequence(r: &BusReceiver, bus: &EventBus)
    requires
        r.wf(bus),
    ensures
        forall|k: int|
            0 <= k < r.received_indices().len() - 1 ==> #[trigger] r.received_indices()[k]
                < r.received_indices()[k + 1],
        forall|k: int|
            0 <= k < r.received_indices().len() ==> 0 <= #[trigger] r.received_indices()[k]
                < bus.log().len(),
        r.received_events(bus).len() == r.received_indices().len(),
        forall|k: int|
            0 <= k < r.received_indices().len() ==> #[trigger] r.received_events(bus)[k]
                == bus.log()[r.received_indices()[k]],
{
}

/// A receiver that never fell behind the capacity and has caught up with
/// the bus has taken every event published since it subscribed, in publish
/// order.
pub proof fn lemma_no_loss_delivers_all(r: &BusReceiver, bus: &EventBus)
    requires
        r.wf(bus),
        !r.has_lagged(),
        r.cursor() == bus.log().len(),
    ensures
        r.received_events(bus) == bus.log().subrange(r.start(), bus.log().len() as int),
{
    assert(r.received_events(bus) =~= bus.log().subrange(r.start(), bus.log().len() as int));
}

/// Publishing more events does not disturb a receiver: it stays
/// well-formed against the grown bus, and what it already took reads the
/// same against the grown log.
pub proof fn lemma_receiver_unaffected_by_publish(r: &BusReceiver, bus1: &EventBus, bus2: &EventBus)
    requires
        r.wf(bus1),
        bus2.wf(),
        bus2.capacity() == bus1.capacity(),
        bus1.log().is_prefix_of(bus2.log()),
    ensures
        r.wf(bus2),
        r.received_events(bus2) == r.received_events(bus1),
{
    assert(r.received_events(bus2) =~= r.received_events(bus1));
}

} // verus!
