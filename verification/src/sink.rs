//! The buffer that collects events between two rounds of the loop.
use crate::event::{DeviceEvent, Event, WindowEvent};
use crate::ids::{DeviceId, WindowId};
use std::collections::VecDeque;
use vstd::prelude::*;

verus! {

/// The event that tells the user's callback of `event` at the window `wid`.
pub open spec fn window_event<T>(event: WindowEvent, wid: WindowId) -> Event<T> {
    Event::WindowEvent { window_id: wid, event }
}

/// The event that tells the user's callback of `event` at the device `dev_id`.
pub open spec fn device_event<T>(event: DeviceEvent, dev_id: DeviceId) -> Event<T> {
    Event::DeviceEvent { device_id: dev_id, event }
}

/// Buffers events in the order in which they were sent.
pub struct WindowEventsSink<T> {
    buffer: VecDeque<Event<T>>,
}

impl<T> View for WindowEventsSink<T> {
    type V = Seq<Event<T>>;

    /// The buffered events, the oldest first.
    closed spec fn view(&self) -> Seq<Event<T>> {
        self.buffer@
    }
}

impl<T> WindowEventsSink<T> {
    /// A sink that holds no events.
    pub fn new() -> (sink: WindowEventsSink<T>)
        ensures
            sink@ == Seq::<Event<T>>::empty(),
    {
        WindowEventsSink { buffer: VecDeque::new() }
    }

    /// Adds `evt` behind everything that the sink holds.
    pub fn send_event(&mut self, evt: Event<T>)
        ensures
            final(self)@ == old(self)@.push(evt),
    {
        self.buffer.push_back(evt);
    }

    /// Adds the event that `evt` happened at the window `wid`.
    pub fn send_window_event(&mut self, evt: WindowEvent, wid: WindowId)
        ensures
            final(self)@ == old(self)@.push(window_event(evt, wid)),
    {
        self.buffer.push_back(Event::WindowEvent { window_id: wid, event: evt });
    }

    /// Adds the event that `evt` happened at the device `dev_id`.
    pub fn send_device_event(&mut self, evt: DeviceEvent, dev_id: DeviceId)
        ensures
            final(self)@ == old(self)@.push(device_event(evt, dev_id)),
    {
        self.buffer.push_back(Event::DeviceEvent { device_id: dev_id, event: evt });
    }

    /// Hands every event to `receiver`, the oldest first, and leaves the sink empty.
    pub fn empty_with(&mut self, receiver: &mut VecDeque<Event<T>>)
        ensures
            final(receiver)@ == old(receiver)@ + old(self)@,
            final(self)@ == Seq::<Event<T>>::empty(),
    {
        receiver.append(&mut self.buffer);
    }
}

/// Events leave the sink in the order in which they were sent: with `sent` added
/// one by one to a sink that holds `held`, the sink holds `held` and then `sent`.
pub proof fn law_sink_keeps_order<T>(held: Seq<Event<T>>, sent: Seq<Event<T>>)
    ensures
        sent.fold_left(held, |buffer: Seq<Event<T>>, evt: Event<T>| buffer.push(evt)) == held
            + sent,
    decreases sent.len(),
{
    let send = |buffer: Seq<Event<T>>, evt: Event<T>| buffer.push(evt);
    if sent.len() == 0 {
        assert(held + sent == held);
    } else {
        law_sink_keeps_order(held, sent.drop_last());
        assert(held + sent == (held + sent.drop_last()).push(sent.last()));
    }
}

/// Whatever is sent to a sink comes last in it, as it was sent, and all that was in it
/// stays before it.
pub proof fn law_what_is_sent_comes_last<T>(
    evt: Event<T>,
    happened: WindowEvent,
    wid: WindowId,
    noticed: DeviceEvent,
    dev_id: DeviceId,
)
    ensures
        forall|sink: &mut WindowEventsSink<T>| #[trigger]
            call_ensures(WindowEventsSink::<T>::send_event, (sink, evt), ()) ==> {
                &&& final(sink)@.drop_last() == sink@
                &&& final(sink)@.last() == evt
            },
        forall|sink: &mut WindowEventsSink<T>| #[trigger]
            call_ensures(WindowEventsSink::<T>::send_window_event, (sink, happened, wid), ())
                ==> {
                &&& final(sink)@.drop_last() == sink@
                &&& final(sink)@.last() == (Event::<T>::WindowEvent {
                    window_id: wid,
                    event: happened,
                })
            },
        forall|sink: &mut WindowEventsSink<T>| #[trigger]
            call_ensures(WindowEventsSink::<T>::send_device_event, (sink, noticed, dev_id), ())
                ==> {
                &&& final(sink)@.drop_last() == sink@
                &&& final(sink)@.last() == (Event::<T>::DeviceEvent {
                    device_id: dev_id,
                    event: noticed,
                })
            },
{
}

/// Emptying a sink moves every event of it behind what the receiver holds, the oldest
/// first, and leaves none in the sink.
pub proof fn law_emptying_moves_everything<T>(i: int)
    ensures
        forall|sink: &mut WindowEventsSink<T>, receiver: &mut VecDeque<Event<T>>| #[trigger]
            call_ensures(WindowEventsSink::<T>::empty_with, (sink, receiver), ()) ==> {
                &&& final(sink)@.len() == 0
                &&& final(receiver)@.len() == receiver@.len() + sink@.len()
                &&& 0 <= i < receiver@.len() ==> final(receiver)@[i] == receiver@[i]
                &&& 0 <= i < sink@.len() ==> final(receiver)@[receiver@.len() + i] == sink@[i]
            },
{
}

} // verus!
