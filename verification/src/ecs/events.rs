//! Double-buffered event queues.
use vstd::prelude::*;

verus! {

/// The events of one type. An event stays readable in the tick it was sent
/// in and in the next one: each tick ages the queue once, which drops what
/// an earlier aging had already set aside.
pub struct Events<V> {
    older: Vec<V>,
    newer: Vec<V>,
    sent: u64,
}

/// What a queue holds: the events that the next aging drops, those that it
/// keeps, and how many were ever sent (modulo 2^64).
#[verifier::ext_equal]
pub struct EventsView<V> {
    pub older: Seq<V>,
    pub newer: Seq<V>,
    pub sent: u64,
}

/// How far a reader has read: the number of events sent when it last read.
#[derive(Clone, Copy, PartialEq, Eq, Structural, Debug)]
pub struct EventCursor {
    pub seen: u64,
}

impl<V> EventsView<V> {
    /// A queue without events.
    pub open spec fn empty() -> Self {
        EventsView { older: Seq::empty(), newer: Seq::empty(), sent: 0 }
    }

    /// The queue after `event` was sent.
    pub open spec fn send(self, event: V) -> Self {
        EventsView {
            older: self.older,
            newer: self.newer.push(event),
            sent: self.sent.wrapping_add(1),
        }
    }

    /// The queue after it was aged.
    pub open spec fn age(self) -> Self {
        EventsView { older: self.newer, newer: Seq::empty(), sent: self.sent }
    }

    /// Every event that can still be read, in the order of sending.
    pub open spec fn readable(self) -> Seq<V> {
        self.older + self.newer
    }

    /// How many of the readable events a reader at `cursor` has not seen.
    pub open spec fn unread_count(self, cursor: EventCursor) -> int {
        let since = self.sent.wrapping_sub(cursor.seen);
        if since < self.readable().len() {
            since as int
        } else {
            self.readable().len() as int
        }
    }

    /// The readable events that a reader at `cursor` has not seen.
    pub open spec fn unread(self, cursor: EventCursor) -> Seq<V> {
        self.readable().skip(self.readable().len() - self.unread_count(cursor))
    }
}

impl<V> View for Events<V> {
    type V = EventsView<V>;

    closed spec fn view(&self) -> EventsView<V> {
        EventsView { older: self.older@, newer: self.newer@, sent: self.sent }
    }
}

impl EventCursor {
    /// A reader that has read nothing yet.
    pub fn new() -> (cursor: Self)
        ensures
            cursor.seen == 0,
    {
        EventCursor { seen: 0 }
    }
}

impl<V> Events<V> {
    /// A queue without events.
    pub fn new() -> (events: Self)
        ensures
            events@ == EventsView::<V>::empty(),
    {
        Events { older: Vec::new(), newer: Vec::new(), sent: 0 }
    }

    /// Appends `event`.
    pub fn send(&mut self, event: V)
        ensures
            final(self)@ == old(self)@.send(event),
    {
        self.newer.push(event);
        self.sent = self.sent.wrapping_add(1);
    }

    /// Ages the queue by one tick.
    pub fn age(&mut self)
        ensures
            final(self)@ == old(self)@.age(),
    {
        let mut fresh: Vec<V> = Vec::new();
        core::mem::swap(&mut self.newer, &mut fresh);
        self.older = fresh;
    }

    /// The readable event at place `i`.
    fn readable_at(&self, i: usize) -> (event: &V)
        requires
            i < self@.readable().len(),
        ensures
            *event == self@.readable()[i as int],
    {
        if i < self.older.len() {
            &self.older[i]
        } else {
            &self.newer[i - self.older.len()]
        }
    }

    /// The events that the reader at `cursor` has not seen, in the order of
    /// sending; the reader has then seen every event sent so far.
    pub fn read(&self, cursor: &mut EventCursor) -> (events: Vec<&V>)
        requires
            self@.readable().len() <= usize::MAX,
        ensures
            events@.len() == self@.unread(*old(cursor)).len(),
            forall|i: int|
                0 <= i < events@.len() ==> *(#[trigger] events@[i]) == self@.unread(
                    *old(cursor),
                )[i],
            final(cursor).seen == self@.sent,
    {
        let total: usize = self.older.len() + self.newer.len();
        let since: u64 = self.sent.wrapping_sub(cursor.seen);
        let unread: usize = if since < total as u64 {
            since as usize
        } else {
            total
        };
        let mut events: Vec<&V> = Vec::new();
        let first: usize = total - unread;
        let mut i: usize = first;
        while i < total
            invariant
                first <= i <= total,
                total == self@.readable().len(),
                events@.len() == i - first,
                forall|k: int|
                    0 <= k < events@.len() ==> *(#[trigger] events@[k]) == self@.readable()[first
                        + k],
            decreases total - i,
        {
            events.push(self.readable_at(i));
            i += 1;
        }
        cursor.seen = self.sent;
        events
    }
}

// ---------------------------------------------------------------------------
// Laws
// ---------------------------------------------------------------------------

/// The queue after `events` were sent, in order.
pub open spec fn send_all<V>(queue: EventsView<V>, events: Seq<V>) -> EventsView<V>
    decreases events.len(),
{
    if events.len() == 0 {
        queue
    } else {
        send_all(queue, events.drop_last()).send(events.last())
    }
}

proof fn lemma_send_all<V>(queue: EventsView<V>, events: Seq<V>)
    requires
        events.len() <= u64::MAX,
    ensures
        send_all(queue, events).older == queue.older,
        send_all(queue, events).newer == queue.newer + events,
        send_all(queue, events).sent == (queue.sent + events.len()) % 0x1_0000_0000_0000_0000,
    decreases events.len(),
{
    if events.len() > 0 {
        lemma_send_all(queue, events.drop_last());
    }
    assert(send_all(queue, events).newer =~= queue.newer + events);
}

/// A reader that has just read finds nothing more to read.
pub proof fn law_a_reader_is_up_to_date_after_reading<V>(queue: EventsView<V>)
    ensures
        queue.unread(EventCursor { seen: queue.sent }) == Seq::<V>::empty(),
{
}

/// A reader that reads in every tick sees each event exactly once, in the
/// order of sending: what was sent since it last read, whether before or
/// after the aging between two ticks, is what it finds.
pub proof fn law_a_reader_sees_each_event_once<V>(
    queue: EventsView<V>,
    earlier: Seq<V>,
    later: Seq<V>,
)
    requires
        earlier.len() + later.len() <= u64::MAX,
    ensures
        send_all(send_all(queue, earlier).age(), later).unread(
            EventCursor { seen: queue.sent },
        ) == earlier + later,
        send_all(queue, earlier).unread(EventCursor { seen: queue.sent }) == earlier,
{
    lemma_send_all(queue, earlier);
    let aged = send_all(queue, earlier).age();
    lemma_send_all(aged, later);
    let cursor = EventCursor { seen: queue.sent };
    let last = send_all(aged, later);
    assert(last.readable() =~= queue.newer + earlier + later);
    assert(last.unread_count(cursor) == earlier.len() + later.len());
    assert(last.unread(cursor) =~= earlier + later);
    let sent = send_all(queue, earlier);
    assert(sent.readable() =~= queue.older + queue.newer + earlier);
    assert(sent.unread_count(cursor) == earlier.len());
    assert(sent.unread(cursor) =~= earlier);
}

/// An event is gone once the queue has aged twice.
pub proof fn law_events_are_gone_after_two_agings<V>(queue: EventsView<V>)
    ensures
        queue.age().age().readable() == Seq::<V>::empty(),
{
    assert(queue.age().age().readable() =~= Seq::<V>::empty());
}

/// A sent event can be read at once, after all the others, and one aging does
/// not drop it.
pub proof fn law_a_sent_event_outlives_one_aging<V>(queue: EventsView<V>, event: V)
    ensures
        queue.send(event).readable() == queue.readable().push(event),
        queue.send(event).age().readable().len() > 0,
        queue.send(event).age().readable().last() == event,
        queue.send(event).sent == (queue.sent + 1) % 0x1_0000_0000_0000_0000,
        EventsView::<V>::empty().readable() == Seq::<V>::empty(),
        EventsView::<V>::empty().sent == 0,
{
    assert(queue.send(event).readable() =~= queue.readable().push(event));
    assert(EventsView::<V>::empty().readable() =~= Seq::<V>::empty());
}

/// A reader that missed ticks finds what is left: of the events sent since it
/// last read, those sent before the last two agings are gone, and the others
/// come in the order of sending.
pub proof fn law_a_late_reader_finds_what_is_left<V>(
    queue: EventsView<V>,
    missed: Seq<V>,
    earlier: Seq<V>,
    later: Seq<V>,
)
    requires
        missed.len() + earlier.len() + later.len() <= u64::MAX,
    ensures
        send_all(send_all(send_all(queue, missed).age(), earlier).age(), later).unread(
            EventCursor { seen: queue.sent },
        ) == earlier + later,
{
    lemma_send_all(queue, missed);
    let one = send_all(queue, missed).age();
    lemma_send_all(one, earlier);
    let two = send_all(one, earlier).age();
    lemma_send_all(two, later);
    let last = send_all(two, later);
    let cursor = EventCursor { seen: queue.sent };
    lemma_counts(queue.sent, one.sent, missed.len(), two.sent, earlier.len());
    lemma_counts(queue.sent, two.sent, missed.len() + earlier.len(), last.sent, later.len());
    assert(last.readable() =~= earlier + later);
    assert(last.unread_count(cursor) == earlier.len() + later.len());
    assert(last.unread(cursor) =~= earlier + later);
}

/// Counts add up, modulo 2^64, and so the difference of two is what was sent
/// between them.
proof fn lemma_counts(start: u64, mid: u64, first: nat, end: u64, second: nat)
    requires
        first + second <= u64::MAX,
        mid == (start + first) % 0x1_0000_0000_0000_0000,
        end == (mid + second) % 0x1_0000_0000_0000_0000,
    ensures
        end == (start + (first + second)) % 0x1_0000_0000_0000_0000,
        end.wrapping_sub(start) == first + second,
{
}

// ---------------------------------------------------------------------------
// Laws of the operations
// ---------------------------------------------------------------------------

/// A sent event can be read after all the others; aging drops what an earlier
/// aging set aside, and what was sent since stays.
pub proof fn law_sending_and_aging<V>(
    fresh: Events<V>,
    queue: &mut Events<V>,
    event: V,
    older: &mut Events<V>,
)
    requires
        call_ensures(Events::<V>::new, (), fresh),
        call_ensures(Events::<V>::send, (queue, event), ()),
        call_ensures(Events::<V>::age, (older,), ()),
    ensures
        fresh@.readable().len() == 0,
        fresh@.sent == 0,
        final(queue)@.readable() == old(queue)@.readable().push(event),
        final(queue)@.older == old(queue)@.older,
        final(queue)@.sent == (old(queue)@.sent + 1) % 0x1_0000_0000_0000_0000,
        final(older)@.readable() == old(older)@.newer,
        final(older)@.newer.len() == 0,
        final(older)@.sent == old(older)@.sent,
{
    assert(final(queue)@.readable() =~= old(queue)@.readable().push(event));
    assert(final(older)@.readable() =~= old(older)@.newer);
}

/// A reader finds the last of the readable events, as many as were sent since
/// it last read, or all if there are fewer, in the order of sending. Then it
/// is up to date: reading again finds nothing.
pub proof fn law_reading<V>(
    queue: &Events<V>,
    cursor: &mut EventCursor,
    events: Vec<&V>,
    again: &mut EventCursor,
    nothing: Vec<&V>,
    since: u64,
    i: int,
)
    requires
        call_ensures(Events::<V>::read, (queue, cursor), events),
        *old(again) == *final(cursor),
        call_ensures(Events::<V>::read, (queue, again), nothing),
        queue@.sent == (old(cursor).seen + since) % 0x1_0000_0000_0000_0000,
    ensures
        events@.len() == if since < queue@.readable().len() {
            since as nat
        } else {
            queue@.readable().len()
        },
        0 <= i < events@.len() ==> *events@[i] == queue@.readable()[queue@.readable().len()
            - events@.len() + i],
        final(cursor).seen == queue@.sent,
        nothing@.len() == 0,
{
    lemma_counts(old(cursor).seen, queue@.sent, since as nat, queue@.sent, 0);
    law_a_reader_is_up_to_date_after_reading(queue@);
}

} // verus!
