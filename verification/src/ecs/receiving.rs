//! The receiving end of a channel, with a record of what it gave.
use vstd::prelude::*;

use std::sync::mpsc;

use crate::ecs::stream::NothingReceived;

verus! {

/// The receiving end of a channel. Only a receive extends the record, by what
/// it gave: nothing can be taken out of the channel without being recorded.
#[verifier::reject_recursive_types(T)]
pub struct ReceivingEnd<T> {
    rx: mpsc::Receiver<T>,
    given: Ghost<Seq<Result<T, NothingReceived>>>,
}

impl<T> ReceivingEnd<T> {
    /// The channel.
    pub closed spec fn channel(&self) -> mpsc::Receiver<T> {
        self.rx
    }

    /// What each receive gave, in order.
    pub closed spec fn given(&self) -> Seq<Result<T, NothingReceived>> {
        self.given@
    }

    /// An end that nothing has been received from.
    pub fn new(rx: mpsc::Receiver<T>) -> (end: Self)
        ensures
            end.channel() == rx,
            end.given() == Seq::<Result<T, NothingReceived>>::empty(),
    {
        ReceivingEnd { rx, given: Ghost(Seq::empty()) }
    }

    /// `std::sync::mpsc::Receiver::try_recv`: the next value waiting in the
    /// channel, or why there is none. The record grows by what the one call
    /// gave; which answer it is depends on what other threads have sent by
    /// now, so nothing is said of it here.
    #[verifier::external_body]
    pub(crate) fn receive(&mut self) -> (received: Result<T, NothingReceived>)
        ensures
            final(self).channel() == old(self).channel(),
            final(self).given() == old(self).given().push(received),
    {
        match self.rx.try_recv() {
            Ok(value) => Ok(value),
            Err(mpsc::TryRecvError::Empty) => Err(NothingReceived::Empty),
            Err(mpsc::TryRecvError::Disconnected) => Err(NothingReceived::Disconnected),
        }
    }
}

} // verus!
