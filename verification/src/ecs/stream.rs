//! An open-ended sequence of values sent from elsewhere and polled each tick.
use vstd::prelude::*;

use std::sync::mpsc;

use crate::ecs::receiving::ReceivingEnd;

verus! {

/// Declares `std::sync::mpsc::Sender`, the sending half of a channel.
#[verifier::external_type_specification]
#[verifier::external_body]
#[verifier::reject_recursive_types(T)]
pub struct ExSender<T>(mpsc::Sender<T>);

/// Declares `std::sync::mpsc::Receiver`, the receiving half of a channel.
#[verifier::external_type_specification]
#[verifier::external_body]
#[verifier::reject_recursive_types(T)]
pub struct ExReceiver<T>(mpsc::Receiver<T>);

/// Why a channel had no value to give.
#[derive(Clone, Copy, PartialEq, Eq, Structural, Debug)]
pub enum NothingReceived {
    /// Nothing is waiting, but a sender is left.
    Empty,
    /// Nothing is waiting, and no sender is left.
    Disconnected,
}

/// `std::sync::mpsc::channel`: a fresh channel. That its halves belong
/// together shows only in what is received later, so nothing is said of them
/// here.
#[verifier::external_body]
fn open_channel<T>() -> (halves: (mpsc::Sender<T>, mpsc::Receiver<T>)) {
    mpsc::channel()
}

/// `std::sync::mpsc::Receiver::try_recv`: the next value waiting in the
/// channel, or why there is none. Which of these it is depends on what other
/// threads have sent by now, so nothing is said of it here.
#[verifier::external_body]
fn try_receive<T>(rx: &mpsc::Receiver<T>) -> (received: Result<T, NothingReceived>) {
    match rx.try_recv() {
        Ok(value) => Ok(value),
        Err(mpsc::TryRecvError::Empty) => Err(NothingReceived::Empty),
        Err(mpsc::TryRecvError::Disconnected) => Err(NothingReceived::Disconnected),
    }
}

/// `std::sync::mpsc::Sender::send`: hands `value` to the channel, or gives it
/// back if the receiving half is gone. Which of these it is depends on what
/// other threads have done by now.
#[verifier::external_body]
fn send_value<T>(tx: &mpsc::Sender<T>, value: T) -> (sent: Result<(), T>)
    ensures
        sent matches Err(returned) ==> returned == value,
{
    match tx.send(value) {
        Ok(()) => Ok(()),
        Err(mpsc::SendError(returned)) => Err(returned),
    }
}

/// `std::sync::mpsc::Sender::clone`: another sender of the same channel.
#[verifier::external_body]
fn clone_sender<T>(tx: &mpsc::Sender<T>) -> (clone: mpsc::Sender<T>) {
    tx.clone()
}

/// The result of polling a [`Stream`].
pub enum StreamState<T> {
    /// Nothing waiting right now: poll again next tick.
    Pending,
    /// The next value, in the order it was emitted.
    Ready(T),
    /// Every [`Emitter`] is gone and the backlog is drained: this stream will
    /// never yield again.
    Disconnected,
}

impl<T> StreamState<T> {
    /// What a poll reports for what the channel gave.
    pub open spec fn reports(received: Result<T, NothingReceived>) -> Self {
        match received {
            Ok(value) => StreamState::Ready(value),
            Err(NothingReceived::Empty) => StreamState::Pending,
            Err(NothingReceived::Disconnected) => StreamState::Disconnected,
        }
    }

    /// What a poll reports for what the channel gave.
    pub fn from_received(received: Result<T, NothingReceived>) -> (state: Self)
        ensures
            state == Self::reports(received),
    {
        match received {
            Ok(value) => StreamState::Ready(value),
            Err(NothingReceived::Empty) => StreamState::Pending,
            Err(NothingReceived::Disconnected) => StreamState::Disconnected,
        }
    }
}

/// An open-ended sequence of values polled each tick: chunks arriving over a
/// socket, messages from a background thread, frames from a worker.
#[verifier::reject_recursive_types(T)]
pub struct Stream<T> {
    rx: mpsc::Receiver<T>,
}

/// The producing half of a [`Stream`]. Every clone feeds the same stream.
#[verifier::reject_recursive_types(T)]
pub struct Emitter<T> {
    tx: mpsc::Sender<T>,
}

/// `state` reports what the channel gave when it was asked for the next value.
pub closed spec fn reported_by<T>(channel: mpsc::Receiver<T>, state: StreamState<T>) -> bool {
    exists|received: Result<T, NothingReceived>| #[trigger]
        call_ensures(try_receive::<T>, (&channel,), received) && state == StreamState::reports(
            received,
        )
}

/// `tx` sends into the channel that `rx` receives from: the two were opened
/// together, or `tx` is a clone of such a sender, `clones` times over.
spec fn sends_into<T>(tx: mpsc::Sender<T>, rx: mpsc::Receiver<T>, clones: nat) -> bool
    decreases clones,
{
    if clones == 0 {
        call_ensures(open_channel::<T>, (), (tx, rx))
    } else {
        exists|origin: mpsc::Sender<T>| #[trigger]
            call_ensures(clone_sender::<T>, (&origin,), tx) && sends_into(
                origin,
                rx,
                (clones - 1) as nat,
            )
    }
}

impl<T> Stream<T> {
    /// The channel behind this stream.
    pub closed spec fn channel(&self) -> mpsc::Receiver<T> {
        self.rx
    }

    /// `state` reports what the channel behind this stream gave.
    pub open spec fn yields(&self, state: StreamState<T>) -> bool {
        reported_by(self.channel(), state)
    }

    /// Creates a paired emitter and stream: whoever produces values emits
    /// them, whoever consumes them polls the stream each tick.
    pub fn new() -> (pair: (Emitter<T>, Stream<T>))
        ensures
            pair.0.made_with(&pair.1),
            pair.0.feeds(&pair.1),
    {
        let (tx, rx) = open_channel();
        assert(sends_into(tx, rx, 0));
        (Emitter { tx }, Stream { rx })
    }

    /// Takes the next emitted value, if one is waiting. Does not block.
    ///
    /// Which state comes back depends on what has been emitted by now,
    /// perhaps by another thread: [`StreamState::from_received`] says what
    /// each answer of the channel becomes.
    pub fn poll(&self) -> (state: StreamState<T>)
        ensures
            self.yields(state),
    {
        let received = try_receive(&self.rx);
        assert(call_ensures(try_receive::<T>, (&self.rx,), received));
        StreamState::from_received(received)
    }
}

impl<T> Clone for Emitter<T> {
    fn clone(&self) -> (clone: Self)
        ensures
            clone.is_clone_of(self),
            forall|channel: mpsc::Receiver<T>| #[trigger]
                self.feeds_channel(channel) ==> clone.feeds_channel(channel),
    {
        let clone = Emitter { tx: clone_sender(&self.tx) };
        assert(clone.is_clone_of(self));
        proof {
            assert forall|channel: mpsc::Receiver<T>| #[trigger]
                self.feeds_channel(channel) implies clone.feeds_channel(channel) by {
                lemma_clone_feeds(&clone, self, channel);
            }
        }
        clone
    }
}

proof fn lemma_clone_feeds<T>(
    clone: &Emitter<T>,
    emitter: &Emitter<T>,
    channel: mpsc::Receiver<T>,
)
    requires
        clone.is_clone_of(emitter),
        emitter.feeds_channel(channel),
    ensures
        clone.feeds_channel(channel),
{
    let clones = choose|clones: nat| sends_into(emitter.tx, channel, clones);
    assert(call_ensures(clone_sender::<T>, (&emitter.tx,), clone.tx));
    assert(sends_into(clone.tx, channel, clones + 1));
}

impl<T> Emitter<T> {
    /// This emitter and `stream` are the halves of one channel.
    pub closed spec fn made_with(&self, stream: &Stream<T>) -> bool {
        call_ensures(open_channel::<T>, (), (self.tx, stream.rx))
    }

    /// This emitter was made by cloning `other`.
    pub closed spec fn is_clone_of(&self, other: &Emitter<T>) -> bool {
        call_ensures(clone_sender::<T>, (&other.tx,), self.tx)
    }

    /// What is emitted here goes into this channel.
    pub closed spec fn feeds_channel(&self, channel: mpsc::Receiver<T>) -> bool {
        exists|clones: nat| sends_into(self.tx, channel, clones)
    }

    /// What is emitted here arrives there.
    pub open spec fn feeds(&self, stream: &Stream<T>) -> bool {
        self.feeds_channel(stream.channel())
    }

    /// `value` has been handed to the channel.
    pub closed spec fn sent(&self, value: T) -> bool {
        exists|sent: Result<(), T>| call_ensures(send_value::<T>, (&self.tx, value), sent)
    }

    /// Sends `value` to the matching stream. Values arrive in the order of
    /// emitting. Quietly does nothing if the stream is gone.
    pub fn emit(&self, value: T)
        ensures
            self.sent(value),
    {
        let sent = send_value(&self.tx, value);
        assert(call_ensures(send_value::<T>, (&self.tx, value), sent));
    }
}

// ---------------------------------------------------------------------------
// Inboxes
// ---------------------------------------------------------------------------

/// A stream with a single reader, which knows what each poll gave.
#[verifier::reject_recursive_types(T)]
pub struct Inbox<T> {
    end: ReceivingEnd<T>,
}

/// What an inbox is: the channel that it reads, and what each poll of it
/// reported, in order.
#[verifier::reject_recursive_types(T)]
#[verifier::ext_equal]
pub struct InboxView<T> {
    pub channel: mpsc::Receiver<T>,
    pub polls: Seq<StreamState<T>>,
}

/// The values among what was reported, in order.
pub open spec fn values_of<T>(polls: Seq<StreamState<T>>) -> Seq<T>
    decreases polls.len(),
{
    if polls.len() == 0 {
        Seq::empty()
    } else {
        match polls.last() {
            StreamState::Ready(value) => values_of(polls.drop_last()).push(value),
            _ => values_of(polls.drop_last()),
        }
    }
}

/// What polls report for what the channel gave.
pub open spec fn all_reported<T>(given: Seq<Result<T, NothingReceived>>) -> Seq<StreamState<T>> {
    Seq::new(given.len(), |i: int| StreamState::reports(given[i]))
}

/// Each value reported.
pub open spec fn all_ready<T>(values: Seq<T>) -> Seq<StreamState<T>> {
    Seq::new(values.len(), |i: int| StreamState::Ready(values[i]))
}

impl<T> InboxView<T> {
    /// What has arrived in this inbox so far, in order.
    pub open spec fn arrived(self) -> Seq<T> {
        values_of(self.polls)
    }

    /// The inbox has been polled and gave `values`, in this order, until
    /// nothing was waiting (or there were as many as a `usize` can count).
    pub open spec fn drained(self, values: Seq<T>, after: Self) -> bool {
        &&& after.channel == self.channel
        &&& after.arrived() == self.arrived() + values
        &&& {
            ||| values.len() == usize::MAX && after.polls == self.polls + all_ready(values)
            ||| {
                &&& after.polls.len() == self.polls.len() + values.len() + 1
                &&& after.polls.drop_last() == self.polls + all_ready(values)
                &&& !(after.polls.last() is Ready)
            }
        }
    }
}

impl<T> View for Inbox<T> {
    type V = InboxView<T>;

    closed spec fn view(&self) -> InboxView<T> {
        InboxView { channel: self.end.channel(), polls: all_reported(self.end.given()) }
    }
}

proof fn lemma_values<T>(polls: Seq<StreamState<T>>, values: Seq<T>)
    ensures
        values_of(polls + all_ready(values)) == values_of(polls) + values,
    decreases values.len(),
{
    let all = polls + all_ready(values);
    if values.len() == 0 {
        assert(all =~= polls);
        assert(values_of(polls) + values =~= values_of(polls));
    } else {
        let fewer = values.drop_last();
        lemma_values(polls, fewer);
        assert(all.drop_last() =~= polls + all_ready(fewer));
        assert(all.last() == StreamState::Ready(values.last()));
        assert(values_of(polls) + values =~= (values_of(polls) + fewer).push(values.last()));
    }
}

impl<T> Inbox<T> {
    /// An inbox that has not been polled.
    pub fn new(stream: Stream<T>) -> (inbox: Self)
        ensures
            inbox@ == (InboxView { channel: stream.channel(), polls: Seq::empty() }),
    {
        let inbox = Inbox { end: ReceivingEnd::new(stream.rx) };
        assert(inbox@.polls =~= Seq::empty());
        inbox
    }

    /// Takes the next value that has arrived, if one is waiting.
    pub fn take_next(&mut self) -> (state: StreamState<T>)
        ensures
            final(self)@ == (InboxView { polls: old(self)@.polls.push(state), ..old(self)@ }),
    {
        let received = self.end.receive();
        let ghost state = StreamState::reports(received);
        assert(self@.polls =~= old(self)@.polls.push(state));
        StreamState::from_received(received)
    }

    /// Takes every value that has arrived so far.
    pub fn drain(&mut self) -> (values: Vec<T>)
        ensures
            old(self)@.drained(values@, final(self)@),
    {
        let ghost start = self@;
        let mut values: Vec<T> = Vec::new();
        let mut room: usize = usize::MAX;
        assert(start.polls + all_ready(values@) =~= start.polls);
        while room > 0
            invariant
                values@.len() + room == usize::MAX,
                start == old(self)@,
                self@.channel == start.channel,
                self@.polls == start.polls + all_ready(values@),
            decreases room,
        {
            let ghost before = values@;
            match self.take_next() {
                StreamState::Ready(value) => {
                    values.push(value);
                    assert((start.polls + all_ready(before)).push(StreamState::Ready(value))
                        =~= start.polls + all_ready(values@));
                },
                _ => {
                    proof {
                        lemma_values(start.polls, values@);
                        assert(self@.polls.drop_last() =~= start.polls + all_ready(values@));
                        assert(values_of(self@.polls) == values_of(self@.polls.drop_last()));
                    }
                    return values;
                },
            }
            room -= 1;
        }
        proof {
            lemma_values(start.polls, values@);
        }
        values
    }
}

// ---------------------------------------------------------------------------
// Laws
// ---------------------------------------------------------------------------

/// Every clone of an emitter feeds the stream that the emitter feeds.
pub proof fn law_a_clone_feeds_the_same_stream<T>(
    emitter: &Emitter<T>,
    clone: &Emitter<T>,
    stream: &Stream<T>,
)
    requires
        emitter.feeds(stream),
        clone.is_clone_of(emitter),
    ensures
        clone.feeds(stream),
{
    lemma_clone_feeds(clone, emitter, stream.channel());
}

/// What was drained once is not drained again: two drains in a row give what
/// has arrived since the first of them began, each value once and in order.
pub proof fn law_values_are_drained_once<T>(
    start: InboxView<T>,
    first: Seq<T>,
    between: InboxView<T>,
    second: Seq<T>,
    end: InboxView<T>,
)
    requires
        start.drained(first, between),
        between.drained(second, end),
    ensures
        end.channel == start.channel,
        end.arrived() == start.arrived() + first + second,
{
}

/// A poll reports the value if there is one, that nothing is waiting while an
/// emitter is left, and the end once none is.
pub proof fn law_what_a_poll_reports<T>(received: Result<T, NothingReceived>, value: T)
    ensures
        StreamState::reports(received) == StreamState::Ready(value) <==> received == Ok::<
            T,
            NothingReceived,
        >(value),
        StreamState::reports(received) is Pending <==> received == Err::<T, NothingReceived>(
            NothingReceived::Empty,
        ),
        StreamState::reports(received) is Disconnected <==> received == Err::<T, NothingReceived>(
            NothingReceived::Disconnected,
        ),
{
}

/// What is reported is reported poll by poll, each for what the channel gave
/// to it.
pub proof fn law_each_poll_is_reported<T>(given: Seq<Result<T, NothingReceived>>, i: int)
    requires
        0 <= i < given.len(),
    ensures
        all_reported(given).len() == given.len(),
        given[i] is Ok ==> all_reported(given)[i] == StreamState::Ready(given[i]->Ok_0),
        given[i] is Err ==> !(all_reported(given)[i] is Ready),
{
}

/// The values among what was reported are those of the first polls and then
/// those of the others; a poll that reported no value adds none.
pub proof fn law_values_come_in_the_order_of_the_polls<T>(
    first: Seq<StreamState<T>>,
    second: Seq<StreamState<T>>,
    value: T,
)
    ensures
        values_of(first + second) == values_of(first) + values_of(second),
        values_of(seq![StreamState::Ready(value)]) == seq![value],
        values_of(seq![StreamState::<T>::Pending]) == Seq::<T>::empty(),
        values_of(seq![StreamState::<T>::Disconnected]) == Seq::<T>::empty(),
        values_of(Seq::<StreamState<T>>::empty()) == Seq::<T>::empty(),
    decreases second.len(),
{
    assert(seq![StreamState::Ready(value)].drop_last() =~= Seq::empty());
    assert(seq![StreamState::<T>::Pending].drop_last() =~= Seq::empty());
    assert(seq![StreamState::<T>::Disconnected].drop_last() =~= Seq::empty());
    assert(values_of(Seq::<StreamState<T>>::empty()) == Seq::<T>::empty());
    assert(Seq::<T>::empty().push(value) =~= seq![value]);
    if second.len() == 0 {
        assert(first + second =~= first);
        assert(values_of(first) + values_of(second) =~= values_of(first));
    } else {
        law_values_come_in_the_order_of_the_polls(first, second.drop_last(), value);
        assert((first + second).drop_last() =~= first + second.drop_last());
        assert(values_of(first + second) =~= values_of(first) + values_of(second));
    }
}

/// A drain takes everything that is waiting: each of its polls but the last
/// gave one of the values, in order, and the last found nothing waiting,
/// unless there were as many values as a `usize` can count. What earlier polls
/// reported stays.
pub proof fn law_a_drain_takes_all_that_is_waiting<T>(
    before: InboxView<T>,
    values: Seq<T>,
    after: InboxView<T>,
    i: int,
)
    requires
        before.drained(values, after),
    ensures
        after.channel == before.channel,
        after.polls.len() == before.polls.len() + values.len() + if values.len() == usize::MAX
            && after.polls.last() is Ready {
            0int
        } else {
            1int
        },
        0 <= i < before.polls.len() ==> after.polls[i] == before.polls[i],
        0 <= i < values.len() ==> after.polls[before.polls.len() + i] == StreamState::Ready(
            values[i],
        ),
        values.len() < usize::MAX ==> !(after.polls.last() is Ready),
        after.arrived() == before.arrived() + values,
{
    let ready = before.polls + all_ready(values);
    if values.len() == usize::MAX && after.polls == ready {
        assert(after.polls.last() == StreamState::Ready(values.last()));
    } else {
        assert(after.polls.drop_last() == ready);
        if 0 <= i < before.polls.len() {
            assert(after.polls.drop_last()[i] == after.polls[i]);
        }
        if 0 <= i < values.len() {
            assert(after.polls.drop_last()[before.polls.len() + i] == after.polls[before.polls.len()
                + i]);
        }
    }
}

/// The two halves of a channel belong together.
pub proof fn law_an_emitter_feeds_the_stream_made_with_it<T>(
    emitter: &Emitter<T>,
    stream: &Stream<T>,
)
    requires
        emitter.made_with(stream),
    ensures
        emitter.feeds(stream),
{
    assert(sends_into(emitter.tx, stream.rx, 0));
}

// ---------------------------------------------------------------------------
// Laws of the operations
// ---------------------------------------------------------------------------

/// Draining an inbox takes everything that is waiting, each value once and in
/// the order of arrival: every poll but the last gave one of the values, and
/// the last found nothing. Taking the next is one poll.
pub proof fn law_draining_takes_everything<T>(
    inbox: &mut Inbox<T>,
    values: Vec<T>,
    next: &mut Inbox<T>,
    state: StreamState<T>,
    i: int,
)
    requires
        call_ensures(Inbox::<T>::drain, (inbox,), values),
        call_ensures(Inbox::<T>::take_next, (next,), state),
        values@.len() < usize::MAX,
    ensures
        final(inbox)@.channel == old(inbox)@.channel,
        final(inbox)@.polls.len() == old(inbox)@.polls.len() + values@.len() + 1,
        0 <= i < values@.len() ==> final(inbox)@.polls[old(inbox)@.polls.len() + i]
            == StreamState::Ready(values@[i]),
        !(final(inbox)@.polls.last() is Ready),
        final(inbox)@.arrived() == old(inbox)@.arrived() + values@,
        final(next)@.channel == old(next)@.channel,
        final(next)@.polls == old(next)@.polls.push(state),
{
    law_a_drain_takes_all_that_is_waiting(old(inbox)@, values@, final(inbox)@, i);
}

/// An answer of the channel becomes what a poll says of it.
pub proof fn law_answers_become_states<T>(
    received: Result<T, NothingReceived>,
    state: StreamState<T>,
    value: T,
)
    requires
        call_ensures(StreamState::<T>::from_received, (received,), state),
    ensures
        state == StreamState::Ready(value) <==> received == Ok::<T, NothingReceived>(value),
        state is Pending <==> received == Err::<T, NothingReceived>(NothingReceived::Empty),
        state is Disconnected <==> received == Err::<T, NothingReceived>(
            NothingReceived::Disconnected,
        ),
{
}

/// What is emitted by the emitter of a stream, or by a clone of it, goes to
/// that stream.
pub proof fn law_emitting_feeds_the_stream<T>(
    pair: (Emitter<T>, Stream<T>),
    clone: Emitter<T>,
    value: T,
)
    requires
        call_ensures(Stream::<T>::new, (), pair),
        call_ensures(<Emitter<T> as Clone>::clone, (&pair.0,), clone),
        call_ensures(Emitter::<T>::emit, (&clone, value), ()),
    ensures
        pair.0.feeds(&pair.1),
        clone.feeds(&pair.1),
        clone.sent(value),
{
    lemma_clone_feeds(&clone, &pair.0, pair.1.channel());
}

/// A poll asks the channel behind the stream, once, and says what it answered.
proof fn law_a_poll_asks_the_channel<T>(stream: &Stream<T>, state: StreamState<T>)
    requires
        call_ensures(Stream::<T>::poll, (stream,), state),
    ensures
        exists|received: Result<T, NothingReceived>|
            {
                &&& #[trigger] call_ensures(try_receive::<T>, (&stream.rx,), received)
                &&& received is Ok ==> state == StreamState::Ready(received->Ok_0)
                &&& received is Err ==> !(state is Ready)
                &&& state is Disconnected <==> received == Err::<T, NothingReceived>(
                    NothingReceived::Disconnected,
                )
            },
{
}

/// To emit is to hand the value to the channel, and to clone an emitter is to
/// clone its sender. The halves of a pair come from one channel.
proof fn law_emitters_hold_a_sender<T>(
    emitter: &Emitter<T>,
    value: T,
    clone: Emitter<T>,
    pair: (Emitter<T>, Stream<T>),
)
    requires
        call_ensures(Emitter::<T>::emit, (emitter, value), ()),
        call_ensures(<Emitter<T> as Clone>::clone, (emitter,), clone),
        call_ensures(Stream::<T>::new, (), pair),
    ensures
        exists|sent: Result<(), T>| call_ensures(send_value::<T>, (&emitter.tx, value), sent),
        call_ensures(clone_sender::<T>, (&emitter.tx,), clone.tx),
        call_ensures(open_channel::<T>, (), (pair.0.tx, pair.1.rx)),
{
}

/// An inbox says of each poll what its end of the channel gave.
proof fn law_an_inbox_says_what_was_received<T>(
    inbox: &Inbox<T>,
    stream: Stream<T>,
    fresh: Inbox<T>,
    i: int,
)
    requires
        call_ensures(Inbox::<T>::new, (stream,), fresh),
    ensures
        inbox@.channel == inbox.end.channel(),
        inbox@.polls.len() == inbox.end.given().len(),
        0 <= i < inbox.end.given().len() && inbox.end.given()[i] is Ok ==> inbox@.polls[i]
            == StreamState::Ready(inbox.end.given()[i]->Ok_0),
        0 <= i < inbox.end.given().len() && inbox.end.given()[i] is Err ==> !(
        inbox@.polls[i] is Ready),
        fresh@.channel == stream.channel(),
        fresh@.polls.len() == 0,
{
}

} // verus!
