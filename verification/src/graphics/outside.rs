//! What a frame does outside of the application, each thing once, with a record
//! of it.
use vstd::prelude::*;

use winit::event::{DeviceEvent, WindowEvent};

use crate::app::{App, AppView};

verus! {

/// What was done outside of the application, and what the application was
/// then: so it is known on which side of a tick it was done.
#[verifier::reject_recursive_types(V)]
pub enum LoopAct<V, O, S, C, R> {
    /// The request for a frame was taken, if there was one.
    Took { wanted: bool, app: AppView<V, O, S, C, R> },
    /// The buffered events were handed to the input, as one step.
    Fed {
        window_events: Seq<WindowEvent>,
        device_events: Seq<DeviceEvent>,
        app: AppView<V, O, S, C, R>,
    },
}

/// The outside of one frame. `begin` takes the request for this frame, `feed`
/// hands buffered events to the input as one step, `end` takes the request for
/// the next frame. Each can be done once, and only here; doing it is what
/// extends the record.
#[verifier::reject_recursive_types(V)]
pub struct FrameOutside<V, O, S, C, R, G, F, H> {
    begin: Option<G>,
    feed: Option<F>,
    end: Option<H>,
    done: Ghost<Seq<LoopAct<V, O, S, C, R>>>,
}

impl<V, O, S, C, R, G, F, H> FrameOutside<V, O, S, C, R, G, F, H> {
    /// What takes the request for this frame, if that is still to be done.
    pub closed spec fn begin(&self) -> Option<G> {
        self.begin
    }

    /// What hands events to the input, if that is still to be done.
    pub closed spec fn feed(&self) -> Option<F> {
        self.feed
    }

    /// What takes the request for the next frame, if that is still to be done.
    pub closed spec fn end(&self) -> Option<H> {
        self.end
    }

    /// What has been done, in order.
    pub closed spec fn done(&self) -> Seq<LoopAct<V, O, S, C, R>> {
        self.done@
    }

    /// Nothing has been done yet.
    pub fn new(begin: G, feed: F, end: H) -> (outside: Self)
        ensures
            outside.begin() == Some(begin),
            outside.feed() == Some(feed),
            outside.end() == Some(end),
            outside.done() == Seq::<LoopAct<V, O, S, C, R>>::empty(),
    {
        FrameOutside {
            begin: Some(begin),
            feed: Some(feed),
            end: Some(end),
            done: Ghost(Seq::empty()),
        }
    }

    /// Takes the request for this frame, if there is one.
    pub fn take_for_this_frame<D>(&mut self, redraw: &D, app: &App<V, O, S, C, R>) -> (asked:
        bool) where G: FnOnce(&D) -> bool
        requires
            old(self).begin() is Some,
            call_requires(old(self).begin()->Some_0, (redraw,)),
        ensures
            call_ensures(old(self).begin()->Some_0, (redraw,), asked),
            final(self).done() == old(self).done().push(
                LoopAct::Took { wanted: asked, app: app@ },
            ),
            final(self).begin() is None,
            final(self).feed() == old(self).feed(),
            final(self).end() == old(self).end(),
    {
        let asked = match self.begin.take() {
            Some(begin) => begin(redraw),
            None => false,
        };
        self.done = Ghost(self.done@.push(LoopAct::Took { wanted: asked, app: app@ }));
        asked
    }

    /// Hands the buffered events to the input as one step.
    pub fn feed_input(
        &mut self,
        window_events: Vec<WindowEvent>,
        device_events: Vec<DeviceEvent>,
        app: &App<V, O, S, C, R>,
    ) where F: FnOnce(Vec<WindowEvent>, Vec<DeviceEvent>)
        requires
            old(self).feed() is Some,
            call_requires(old(self).feed()->Some_0, (window_events, device_events)),
        ensures
            call_ensures(old(self).feed()->Some_0, (window_events, device_events), ()),
            final(self).done() == old(self).done().push(
                LoopAct::Fed {
                    window_events: window_events@,
                    device_events: device_events@,
                    app: app@,
                },
            ),
            final(self).begin() == old(self).begin(),
            final(self).feed() is None,
            final(self).end() == old(self).end(),
    {
        self.done = Ghost(
            self.done@.push(
                LoopAct::Fed {
                    window_events: window_events@,
                    device_events: device_events@,
                    app: app@,
                },
            ),
        );
        match self.feed.take() {
            Some(feed) => feed(window_events, device_events),
            None => {},
        }
    }

    /// Takes the request for the next frame, if there is one.
    pub fn take_for_the_next_frame<D>(&mut self, redraw: &D, app: &App<V, O, S, C, R>) -> (wanted:
        bool) where H: FnOnce(&D) -> bool
        requires
            old(self).end() is Some,
            call_requires(old(self).end()->Some_0, (redraw,)),
        ensures
            call_ensures(old(self).end()->Some_0, (redraw,), wanted),
            final(self).done() == old(self).done().push(LoopAct::Took { wanted, app: app@ }),
            final(self).begin() == old(self).begin(),
            final(self).feed() == old(self).feed(),
            final(self).end() is None,
    {
        let wanted = match self.end.take() {
            Some(end) => end(redraw),
            None => false,
        };
        self.done = Ghost(self.done@.push(LoopAct::Took { wanted, app: app@ }));
        wanted
    }
}

/// Each thing that a frame does outside of the application is done once, by
/// what was given for it, and each is recorded in turn.
pub proof fn law_each_thing_is_done_once<V, O, S, C, R, D, G, F, H>(
    begin: G,
    feed: F,
    end: H,
    fresh: FrameOutside<V, O, S, C, R, G, F, H>,
    first: &mut FrameOutside<V, O, S, C, R, G, F, H>,
    redraw: &D,
    app: &App<V, O, S, C, R>,
    asked: bool,
    second: &mut FrameOutside<V, O, S, C, R, G, F, H>,
    window_events: Vec<WindowEvent>,
    device_events: Vec<DeviceEvent>,
    third: &mut FrameOutside<V, O, S, C, R, G, F, H>,
    then: &App<V, O, S, C, R>,
    wanted: bool,
) where
    G: FnOnce(&D) -> bool,
    F: FnOnce(Vec<WindowEvent>, Vec<DeviceEvent>),
    H: FnOnce(&D) -> bool,

    requires
        call_ensures(
            FrameOutside::<V, O, S, C, R, G, F, H>::new,
            (begin, feed, end),
            fresh,
        ),
        *old(first) == fresh,
        call_ensures(
            FrameOutside::<V, O, S, C, R, G, F, H>::take_for_this_frame::<D>,
            (first, redraw, app),
            asked,
        ),
        *old(second) == *final(first),
        call_ensures(
            FrameOutside::<V, O, S, C, R, G, F, H>::feed_input,
            (second, window_events, device_events, app),
            (),
        ),
        *old(third) == *final(second),
        call_ensures(
            FrameOutside::<V, O, S, C, R, G, F, H>::take_for_the_next_frame::<D>,
            (third, redraw, then),
            wanted,
        ),
    ensures
        call_ensures(begin, (redraw,), asked),
        call_ensures(feed, (window_events, device_events), ()),
        call_ensures(end, (redraw,), wanted),
        fresh.done().len() == 0,
        final(third).done().len() == 3,
        final(third).done()[0] == (LoopAct::<V, O, S, C, R>::Took { wanted: asked, app: app@ }),
        final(third).done()[1] == (LoopAct::<V, O, S, C, R>::Fed {
            window_events: window_events@,
            device_events: device_events@,
            app: app@,
        }),
        final(third).done()[2] == (LoopAct::<V, O, S, C, R>::Took { wanted, app: then@ }),
        final(third).begin() is None,
        final(third).feed() is None,
        final(third).end() is None,
{
}

} // verus!
