//! The event loop, as a machine: it says what is to be done next, and is told what came
//! of it. Calling the user's callback, waiting for sources and reading the clock are left
//! to whoever runs the machine.
use crate::event::{ControlFlow, Event, StartCause, WindowEvent};
use crate::ids::WindowId;
use crate::monitor::{area_fits, monitors_of};
use crate::monitor::{ConnectorInfo, MonitorHandle};
use crate::proxy::{are_ends, clone_sender, open_channel, EventLoopProxy};
use crate::sink::{window_event, WindowEventsSink};
use crate::store::{law_settled_has_nothing_to_tell, open_windows};
use crate::target::{law_nothing_is_told_twice, remaining};
use crate::target::{trigger_events, triggered, EventLoopWindowTarget, TargetView};
use crate::time::{blocking_duration, span_until, Duration, Instant};
use calloop::channel::{Channel, Sender};
use std::collections::VecDeque;
use vstd::prelude::*;

verus! {

/// What a channel brings: a message, or that no more will come.
#[derive(Debug, PartialEq, Eq)]
pub enum SourceEvent<M> {
    Msg(M),
    Closed,
}

/// What is to be done next.
#[derive(Debug, PartialEq, Eq)]
pub enum Action<T> {
    /// Call the user's callback with `event` and a variable that holds `control_flow`;
    /// answered by what the variable holds afterwards.
    Callback { event: Event<T>, control_flow: ControlFlow },
    /// Let the sources bring what they have. Without a timeout, wait until there is
    /// something; with one, wait no longer than that. Answered by `Dispatched`.
    Dispatch { timeout: Option<Duration> },
    /// Read the clock; answered by `Now`.
    ReadClock,
    /// Nothing: the run is over.
    Finished,
}

/// What came of an `Action`.
#[derive(Debug, Copy, Clone, PartialEq, Eq)]
pub enum Reply {
    Returned(ControlFlow),
    Dispatched,
    Now(Instant),
}

/// What the loop is waiting for.
#[derive(Debug, Copy, Clone, PartialEq, Eq)]
#[allow(inconsistent_fields)]
pub enum Stage {
    /// The loop does not run.
    Idle,
    /// The callback, with the event that the loop begins.
    Init,
    /// The callback, with a buffered event, before the user's own events.
    FirstSink,
    /// The callback, with an event of the user's own.
    Users,
    /// The callback, with a buffered event, after the user's own events.
    SecondSink,
    /// The callback, with the event that the round is over.
    Cleared,
    /// The sources, without waiting.
    Polling,
    /// The sources, for as long as it takes.
    Waiting,
    /// The clock, after that.
    Woken,
    /// The clock, before a wait until the deadline.
    Timing { deadline: Instant },
    /// The sources, until the deadline.
    WaitingUntil { start: Instant, deadline: Instant },
    /// The clock, after that.
    WokenUntil { start: Instant, deadline: Instant },
    /// The callback, with the event that a round begins.
    NewEvents,
    /// The callback, with the event that the loop is about to return.
    Destroyed,
}

/// What a loop holds.
pub struct LoopView<T> {
    /// Events that were sent and not taken up yet.
    pub sink: Seq<Event<T>>,
    /// Events that were taken up and not handed out yet.
    pub round: Seq<Event<T>>,
    /// Events of the user's own that were not handed out yet.
    pub users: Seq<T>,
    pub control_flow: ControlFlow,
    pub stage: Stage,
}

/// What a step of the loop leads to.
pub struct Outcome<T> {
    pub state: LoopView<T>,
    pub target: TargetView,
    pub action: Action<T>,
}

/// The action that hands out `event`.
pub open spec fn hand_out<T>(state: LoopView<T>, event: Event<T>) -> Action<T> {
    Action::Callback { event, control_flow: state.control_flow }
}

/// The loop waits for what `reply` tells.
pub open spec fn expects(stage: Stage, reply: Reply) -> bool {
    match stage {
        Stage::Idle => false,
        Stage::Polling | Stage::Waiting | Stage::WaitingUntil { .. } => reply is Dispatched,
        Stage::Woken | Stage::Timing { .. } | Stage::WokenUntil { .. } => reply is Now,
        _ => reply is Returned,
    }
}

/// In the middle of a round, the wish to leave sticks: a later answer cannot undo it.
pub open spec fn is_sticky(stage: Stage) -> bool {
    stage is FirstSink || stage is Users || stage is SecondSink || stage is Cleared
}

/// The loop once the callback answered `control_flow`.
pub open spec fn answered<T>(state: LoopView<T>, control_flow: ControlFlow) -> LoopView<T> {
    if is_sticky(state.stage) && state.control_flow is Exit {
        state
    } else {
        LoopView { control_flow, ..state }
    }
}

/// The loop once it has taken up all that was sent and all that there is to tell of the
/// windows.
pub open spec fn taken_up<T>(state: LoopView<T>, target: TargetView) -> LoopView<T> {
    LoopView {
        sink: Seq::<Event<T>>::empty(),
        round: state.round + (state.sink + trigger_events(target)),
        ..state
    }
}

/// A round begins: all that there is to hand out is taken up.
pub open spec fn begin_round<T>(state: LoopView<T>, target: TargetView) -> Outcome<T> {
    first_drain(taken_up(state, target), triggered(target))
}

/// What was taken up is handed out, the oldest first; after that come the user's events.
pub open spec fn first_drain<T>(state: LoopView<T>, target: TargetView) -> Outcome<T> {
    if state.round.len() > 0 {
        Outcome {
            state: LoopView {
                round: state.round.drop_first(),
                stage: Stage::FirstSink,
                ..state
            },
            target,
            action: hand_out(state, state.round[0]),
        }
    } else {
        user_drain(state, target)
    }
}

/// The user's events are handed out, the oldest first; after that, what there is to tell
/// of the windows is taken up again, since the callback may have changed them.
pub open spec fn user_drain<T>(state: LoopView<T>, target: TargetView) -> Outcome<T> {
    if state.users.len() > 0 {
        Outcome {
            state: LoopView { users: state.users.drop_first(), stage: Stage::Users, ..state },
            target,
            action: hand_out(state, Event::UserEvent(state.users[0])),
        }
    } else {
        second_drain(taken_up(state, target), triggered(target))
    }
}

/// What was taken up is handed out, the oldest first; after that, the round is over.
pub open spec fn second_drain<T>(state: LoopView<T>, target: TargetView) -> Outcome<T> {
    if state.round.len() > 0 {
        Outcome {
            state: LoopView {
                round: state.round.drop_first(),
                stage: Stage::SecondSink,
                ..state
            },
            target,
            action: hand_out(state, state.round[0]),
        }
    } else {
        Outcome {
            state: LoopView { stage: Stage::Cleared, ..state },
            target,
            action: hand_out(state, Event::EventsCleared),
        }
    }
}

/// The round is over: the loop does what the callback wants.
pub open spec fn after_round<T>(state: LoopView<T>, target: TargetView) -> Outcome<T> {
    let (stage, action) = match state.control_flow {
        ControlFlow::Exit => (Stage::Destroyed, hand_out(state, Event::LoopDestroyed)),
        ControlFlow::Poll => (
            Stage::Polling,
            Action::Dispatch { timeout: Some(Duration { nanos: 0 }) },
        ),
        ControlFlow::Wait => (Stage::Waiting, Action::Dispatch { timeout: None }),
        ControlFlow::WaitUntil(deadline) => (Stage::Timing { deadline }, Action::ReadClock),
    };
    Outcome { state: LoopView { stage, ..state }, target, action }
}

/// A round begins because of `cause`.
pub open spec fn wake_up<T>(
    state: LoopView<T>,
    target: TargetView,
    cause: StartCause,
) -> Outcome<T> {
    Outcome {
        state: LoopView { stage: Stage::NewEvents, ..state },
        target,
        action: hand_out(state, Event::NewEvents(cause)),
    }
}

/// Why a wait that began at `start` and was to last until `deadline` ended at `now`.
pub open spec fn wait_cause(start: Instant, deadline: Instant, now: Instant) -> StartCause {
    if now.nanos < deadline.nanos {
        StartCause::WaitCancelled { start, requested_resume: Some(deadline) }
    } else {
        StartCause::ResumeTimeReached { start, requested_resume: deadline }
    }
}

/// What the loop does when the callback has answered.
pub open spec fn after_callback<T>(
    state: LoopView<T>,
    target: TargetView,
    control_flow: ControlFlow,
) -> Outcome<T> {
    let state = answered(state, control_flow);
    match state.stage {
        Stage::FirstSink => first_drain(state, target),
        Stage::Users => user_drain(state, target),
        Stage::SecondSink => second_drain(state, target),
        Stage::Cleared => after_round(state, target),
        Stage::Destroyed => Outcome {
            state: LoopView { stage: Stage::Idle, ..state },
            target,
            action: Action::Finished,
        },
        _ => begin_round(state, target),
    }
}

/// What the loop does when the sources have brought what they have.
pub open spec fn after_dispatch<T>(state: LoopView<T>, target: TargetView) -> Outcome<T> {
    match state.stage {
        Stage::Waiting => Outcome {
            state: LoopView { stage: Stage::Woken, ..state },
            target,
            action: Action::ReadClock,
        },
        Stage::WaitingUntil { start, deadline } => Outcome {
            state: LoopView { stage: Stage::WokenUntil { start, deadline }, ..state },
            target,
            action: Action::ReadClock,
        },
        _ => wake_up(state, target, StartCause::Poll),
    }
}

/// What the loop does when the clock has been read.
pub open spec fn after_clock<T>(
    state: LoopView<T>,
    target: TargetView,
    now: Instant,
) -> Outcome<T> {
    match state.stage {
        Stage::Timing { deadline } => Outcome {
            state: LoopView { stage: Stage::WaitingUntil { start: now, deadline }, ..state },
            target,
            action: Action::Dispatch { timeout: Some(span_until(now, deadline)) },
        },
        Stage::WokenUntil { start, deadline } => wake_up(
            state,
            target,
            wait_cause(start, deadline, now),
        ),
        _ => wake_up(
            state,
            target,
            StartCause::WaitCancelled { start: now, requested_resume: None },
        ),
    }
}

/// What the loop does when it is told `reply`.
pub open spec fn resumed<T>(state: LoopView<T>, target: TargetView, reply: Reply) -> Outcome<T> {
    match reply {
        Reply::Returned(control_flow) => after_callback(state, target, control_flow),
        Reply::Dispatched => after_dispatch(state, target),
        Reply::Now(now) => after_clock(state, target, now),
    }
}

/// The loop once a run begins.
pub open spec fn begun<T>(state: LoopView<T>) -> LoopView<T> {
    LoopView { control_flow: ControlFlow::Poll, stage: Stage::Init, ..state }
}

/// The loop once a run is given up because the callback did not return. Of the user's own
/// events, those that were to follow the one being handled are lost with it. If it was a
/// buffered event that was being handled, the run cannot be given up.
pub open spec fn abandoned<T>(state: LoopView<T>) -> LoopView<T> {
    match state.stage {
        Stage::FirstSink | Stage::SecondSink => state,
        Stage::Users => LoopView { users: Seq::<T>::empty(), stage: Stage::Idle, ..state },
        _ => LoopView { stage: Stage::Idle, ..state },
    }
}

/// The loop once a window event came in from the keyboard source.
pub open spec fn with_keyboard<T>(
    state: LoopView<T>,
    evt: SourceEvent<(WindowEvent, WindowId)>,
) -> LoopView<T> {
    match evt {
        SourceEvent::Msg((evt, wid)) => LoopView {
            sink: state.sink.push(window_event(evt, wid)),
            ..state
        },
        SourceEvent::Closed => state,
    }
}

/// The loop once an event of the user's own came in.
pub open spec fn with_user<T>(state: LoopView<T>, evt: SourceEvent<T>) -> LoopView<T> {
    match evt {
        SourceEvent::Msg(msg) => LoopView { users: state.users.push(msg), ..state },
        SourceEvent::Closed => state,
    }
}

/// The receiving ends of the channels that bring the loop its events.
#[verifier::reject_recursive_types(T)]
pub struct Sources<T> {
    pub keyboard: Channel<(WindowEvent, WindowId)>,
    pub user: Channel<T>,
}

/// The event loop.
#[verifier::reject_recursive_types(T)]
pub struct EventLoop<T> {
    sink: WindowEventsSink<T>,
    round: VecDeque<Event<T>>,
    pending_user_events: VecDeque<T>,
    user_sender: Sender<T>,
    control_flow: ControlFlow,
    stage: Stage,
}

impl<T> View for EventLoop<T> {
    type V = LoopView<T>;

    closed spec fn view(&self) -> LoopView<T> {
        LoopView {
            sink: self.sink@,
            round: self.round@,
            users: self.pending_user_events@,
            control_flow: self.control_flow,
            stage: self.stage,
        }
    }
}

impl<T> EventLoop<T> {
    /// The sending end of the channel that brings the loop the user's own events.
    pub closed spec fn sender(&self) -> Sender<T> {
        self.user_sender
    }

    /// A loop that does not run yet, a target without windows, and the sources to wait
    /// for: `user` is the receiving end of the channel that the loop's proxies send to.
    /// Nothing sends to the keyboard source, so it is closed from the start.
    pub fn new() -> (made: (EventLoop<T>, EventLoopWindowTarget, Sources<T>))
        ensures
            made.0@ == (LoopView {
                sink: Seq::<Event<T>>::empty(),
                round: Seq::<Event<T>>::empty(),
                users: Seq::<T>::empty(),
                control_flow: ControlFlow::Poll,
                stage: Stage::Idle,
            }),
            made.1@.windows.len() == 0,
            !made.1@.cleanup_needed,
            made.1@.wf(),
            are_ends(made.0.sender(), made.2.user),
            exists|sender: Sender<(WindowEvent, WindowId)>| #[trigger]
                are_ends(sender, made.2.keyboard),
    {
        let (_kbd_sender, keyboard) = open_channel();
        let (user_sender, user) = open_channel();
        let event_loop = EventLoop {
            sink: WindowEventsSink::new(),
            round: VecDeque::new(),
            pending_user_events: VecDeque::new(),
            user_sender,
            control_flow: ControlFlow::default(),
            stage: Stage::Idle,
        };
        let made = (event_loop, EventLoopWindowTarget::new(), Sources { keyboard, user });
        assert(are_ends(_kbd_sender, made.2.keyboard));
        made
    }

    /// Tells whether the loop can be run, which it can unless it is running.
    pub fn is_idle(&self) -> (idle: bool)
        ensures
            idle == (self@.stage is Idle),
    {
        match self.stage {
            Stage::Idle => true,
            _ => false,
        }
    }

    /// Gives up a run that a callback has broken off by a panic, and tells whether the
    /// loop can be run again. Changes nothing if the loop does not run.
    pub fn abandon(&mut self) -> (idle: bool)
        ensures
            final(self)@ == abandoned(old(self)@),
            idle == (final(self)@.stage is Idle),
            final(self).sender() == old(self).sender(),
    {
        match self.stage {
            Stage::FirstSink | Stage::SecondSink => {},
            Stage::Users => {
                self.pending_user_events = VecDeque::new();
                self.stage = Stage::Idle;
            },
            _ => {
                self.stage = Stage::Idle;
            },
        }
        self.is_idle()
    }

    /// A handle by which other threads can send the loop events.
    pub fn create_proxy(&self) -> (proxy: EventLoopProxy<T>)
        ensures
            proxy.sender() == self.sender(),
    {
        EventLoopProxy::new(clone_sender(&self.user_sender))
    }

    /// Takes in what the keyboard source brought.
    pub fn on_keyboard(&mut self, evt: SourceEvent<(WindowEvent, WindowId)>)
        ensures
            final(self)@ == with_keyboard(old(self)@, evt),
            final(self).sender() == old(self).sender(),
    {
        if let SourceEvent::Msg((evt, wid)) = evt {
            self.sink.send_window_event(evt, wid);
        }
    }

    /// Takes in what the channel of the user's own events brought.
    pub fn on_user(&mut self, evt: SourceEvent<T>)
        ensures
            final(self)@ == with_user(old(self)@, evt),
            final(self).sender() == old(self).sender(),
    {
        if let SourceEvent::Msg(msg) = evt {
            self.pending_user_events.push_back(msg);
        }
    }

    /// Begins a run: the callback is to be told that the loop begins. Continue with
    /// `resume` until it says that the run is over; the loop can then be run again.
    pub fn run_return(&mut self) -> (action: Action<T>)
        requires
            old(self)@.stage is Idle,
        ensures
            final(self)@ == begun(old(self)@),
            action == (Action::Callback {
                event: Event::<T>::NewEvents(StartCause::Init),
                control_flow: ControlFlow::Poll,
            }),
            final(self).sender() == old(self).sender(),
    {
        self.control_flow = ControlFlow::default();
        self.stage = Stage::Init;
        self.callback(Event::NewEvents(StartCause::Init))
    }

    /// Carries the run on with what came of the action before.
    pub fn resume(&mut self, target: &mut EventLoopWindowTarget, reply: Reply) -> (action: Action<
        T,
    >)
        requires
            old(target)@.wf(),
            expects(old(self)@.stage, reply),
        ensures
            (Outcome { state: final(self)@, target: final(target)@, action }) == resumed(
                old(self)@,
                old(target)@,
                reply,
            ),
            final(target)@.wf(),
            open_windows(final(target)@.windows) == open_windows(old(target)@.windows),
            final(self).sender() == old(self).sender(),
    {
        match reply {
            Reply::Returned(control_flow) => {
                self.sticky_exit_callback(control_flow);
                match self.stage {
                    Stage::FirstSink => self.first_drain(target),
                    Stage::Users => self.user_drain(target),
                    Stage::SecondSink => self.second_drain(),
                    Stage::Cleared => self.after_round(),
                    Stage::Destroyed => {
                        self.stage = Stage::Idle;
                        Action::Finished
                    },
                    _ => {
                        self.take_up(target);
                        self.first_drain(target)
                    },
                }
            },
            Reply::Dispatched => match self.stage {
                Stage::Waiting => {
                    self.stage = Stage::Woken;
                    Action::ReadClock
                },
                Stage::WaitingUntil { start, deadline } => {
                    self.stage = Stage::WokenUntil { start, deadline };
                    Action::ReadClock
                },
                _ => self.wake_up(StartCause::Poll),
            },
            Reply::Now(now) => match self.stage {
                Stage::Timing { deadline } => {
                    self.stage = Stage::WaitingUntil { start: now, deadline };
                    Action::Dispatch { timeout: Some(blocking_duration(now, deadline)) }
                },
                Stage::WokenUntil { start, deadline } => if now.nanos < deadline.nanos {
                    self.wake_up(
                        StartCause::WaitCancelled { start, requested_resume: Some(deadline) },
                    )
                } else {
                    self.wake_up(
                        StartCause::ResumeTimeReached { start, requested_resume: deadline },
                    )
                },
                _ => self.wake_up(
                    StartCause::WaitCancelled { start: now, requested_resume: None },
                ),
            },
        }
    }

    /// Takes over what the callback answered, unless it is the middle of a round and the
    /// callback wanted to leave before.
    fn sticky_exit_callback(&mut self, control_flow: ControlFlow)
        ensures
            final(self)@ == answered(old(self)@, control_flow),
            final(self).sender() == old(self).sender(),
    {
        let sticky = match self.stage {
            Stage::FirstSink | Stage::Users | Stage::SecondSink | Stage::Cleared => true,
            _ => false,
        };
        if !(sticky && self.control_flow == ControlFlow::Exit) {
            self.control_flow = control_flow;
        }
    }

    /// The action that hands out `event`.
    fn callback(&self, event: Event<T>) -> (action: Action<T>)
        ensures
            action == hand_out(self@, event),
    {
        Action::Callback { event, control_flow: self.control_flow }
    }

    /// Takes up all that was sent and all that there is to tell of the windows.
    fn take_up(&mut self, target: &mut EventLoopWindowTarget)
        requires
            old(target)@.wf(),
        ensures
            final(self)@ == taken_up(old(self)@, old(target)@),
            final(target)@ == triggered(old(target)@),
            final(target)@.wf(),
            open_windows(final(target)@.windows) == open_windows(old(target)@.windows),
            final(self).sender() == old(self).sender(),
    {
        target.post_dispatch_triggers(&mut self.sink);
        self.sink.empty_with(&mut self.round);
    }

    /// Hands out the next of what was taken up; when there is none, goes on with the user's
    /// own events.
    fn first_drain(&mut self, target: &mut EventLoopWindowTarget) -> (action: Action<T>)
        requires
            old(target)@.wf(),
        ensures
            (Outcome { state: final(self)@, target: final(target)@, action }) == first_drain(
                old(self)@,
                old(target)@,
            ),
            final(target)@.wf(),
            open_windows(final(target)@.windows) == open_windows(old(target)@.windows),
            final(self).sender() == old(self).sender(),
    {
        match self.round.pop_front() {
            Some(event) => {
                self.stage = Stage::FirstSink;
                self.callback(event)
            },
            None => self.user_drain(target),
        }
    }

    /// Hands out the next of the user's own events; when there is none, takes up once more
    /// what there is to hand out.
    fn user_drain(&mut self, target: &mut EventLoopWindowTarget) -> (action: Action<T>)
        requires
            old(target)@.wf(),
        ensures
            (Outcome { state: final(self)@, target: final(target)@, action }) == user_drain(
                old(self)@,
                old(target)@,
            ),
            final(target)@.wf(),
            open_windows(final(target)@.windows) == open_windows(old(target)@.windows),
            final(self).sender() == old(self).sender(),
    {
        match self.pending_user_events.pop_front() {
            Some(event) => {
                self.stage = Stage::Users;
                self.callback(Event::UserEvent(event))
            },
            None => {
                // do a second run of post-dispatch-triggers, to handle user-generated
                // "request-redraw" in response of resize & friends
                self.take_up(target);
                self.second_drain()
            },
        }
    }

    /// Hands out the next of what was taken up; when there is none, the round is over.
    fn second_drain(&mut self) -> (action: Action<T>)
        ensures
            forall|target: TargetView|
                (Outcome { state: final(self)@, target, action }) == #[trigger] second_drain(
                    old(self)@,
                    target,
                ),
            final(self).sender() == old(self).sender(),
    {
        match self.round.pop_front() {
            Some(event) => {
                self.stage = Stage::SecondSink;
                self.callback(event)
            },
            None => {
                self.stage = Stage::Cleared;
                self.callback(Event::EventsCleared)
            },
        }
    }

    /// Does what the callback wants once a round is over.
    fn after_round(&mut self) -> (action: Action<T>)
        ensures
            forall|target: TargetView|
                (Outcome { state: final(self)@, target, action }) == #[trigger] after_round(
                    old(self)@,
                    target,
                ),
            final(self).sender() == old(self).sender(),
    {
        match self.control_flow {
            ControlFlow::Exit => {
                self.stage = Stage::Destroyed;
                self.callback(Event::LoopDestroyed)
            },
            ControlFlow::Poll => {
                self.stage = Stage::Polling;
                Action::Dispatch { timeout: Some(Duration { nanos: 0 }) }
            },
            ControlFlow::Wait => {
                self.stage = Stage::Waiting;
                Action::Dispatch { timeout: None }
            },
            ControlFlow::WaitUntil(deadline) => {
                self.stage = Stage::Timing { deadline };
                Action::ReadClock
            },
        }
    }

    /// Begins a round because of `cause`.
    fn wake_up(&mut self, cause: StartCause) -> (action: Action<T>)
        ensures
            forall|target: TargetView|
                (Outcome { state: final(self)@, target, action }) == #[trigger] wake_up(
                    old(self)@,
                    target,
                    cause,
                ),
            final(self).sender() == old(self).sender(),
    {
        self.stage = Stage::NewEvents;
        self.callback(Event::NewEvents(cause))
    }

    /// The first monitor, if there is one.
    pub fn primary_monitor(&self, connectors: &Vec<Option<ConnectorInfo>>) -> (monitor: Option<
        MonitorHandle,
    >)
        requires
            forall|i: int| 0 <= i < connectors@.len() ==> area_fits(#[trigger] connectors@[i]),
        ensures
            monitor == (if monitors_of(connectors@).len() > 0 {
                Some(monitors_of(connectors@)[0])
            } else {
                None
            }),
    {
        crate::monitor::primary_monitor(connectors)
    }

    /// Lists the monitors; see `crate::monitor::available_monitors`.
    pub fn available_monitors(&self, connectors: &Vec<Option<ConnectorInfo>>) -> (monitors:
        VecDeque<MonitorHandle>)
        requires
            forall|i: int| 0 <= i < connectors@.len() ==> area_fits(#[trigger] connectors@[i]),
        ensures
            monitors@ == monitors_of(connectors@),
    {
        crate::monitor::available_monitors(connectors)
    }
}

/// A step of the loop is what `resumed` says of what the loop holds, and the loop goes on
/// receiving at the same end.
pub proof fn law_steps_are_as_stated<T>(reply: Reply)
    ensures
        forall|
            event_loop: &mut EventLoop<T>,
            target: &mut EventLoopWindowTarget,
            action: Action<T>,
        | #[trigger]
            call_ensures(EventLoop::<T>::resume, (event_loop, target, reply), action) ==> {
                let outcome = resumed(event_loop@, target@, reply);
                &&& final(event_loop)@ == outcome.state
                &&& final(target)@ == outcome.target
                &&& action == outcome.action
                &&& final(event_loop).sender() == (*event_loop).sender()
            },
{
}

/// What comes in waits behind what waits already, as it came, and nothing else changes;
/// that a source is closed changes nothing.
pub proof fn law_what_comes_in_waits<T>(
    event: WindowEvent,
    window_id: WindowId,
    user: T,
)
    ensures
        forall|event_loop: &mut EventLoop<T>| #[trigger]
            call_ensures(
                EventLoop::<T>::on_keyboard,
                (event_loop, SourceEvent::Msg((event, window_id))),
                (),
            ) ==> {
                &&& final(event_loop)@.sink.drop_last() == event_loop@.sink
                &&& final(event_loop)@.sink.last() == (Event::<T>::WindowEvent { window_id, event })
                &&& final(event_loop)@.round == event_loop@.round
                &&& final(event_loop)@.users == event_loop@.users
                &&& final(event_loop)@.control_flow == event_loop@.control_flow
                &&& final(event_loop)@.stage == event_loop@.stage
            },
        forall|event_loop: &mut EventLoop<T>| #[trigger]
            call_ensures(
                EventLoop::<T>::on_keyboard,
                (event_loop, SourceEvent::<(WindowEvent, WindowId)>::Closed),
                (),
            ) ==> final(event_loop)@ == event_loop@,
        forall|event_loop: &mut EventLoop<T>| #[trigger]
            call_ensures(EventLoop::<T>::on_user, (event_loop, SourceEvent::Msg(user)), ()) ==> {
                &&& final(event_loop)@.users.drop_last() == event_loop@.users
                &&& final(event_loop)@.users.last() == user
                &&& final(event_loop)@.sink == event_loop@.sink
                &&& final(event_loop)@.round == event_loop@.round
                &&& final(event_loop)@.control_flow == event_loop@.control_flow
                &&& final(event_loop)@.stage == event_loop@.stage
            },
        forall|event_loop: &mut EventLoop<T>| #[trigger]
            call_ensures(EventLoop::<T>::on_user, (event_loop, SourceEvent::<T>::Closed), ())
                ==> final(event_loop)@ == event_loop@,
{
}

/// A run begins by telling so, with a control flow that polls whatever it was before, and
/// keeps all that waits.
pub proof fn law_run_begins_by_polling<T>()
    ensures
        forall|event_loop: &mut EventLoop<T>, action: Action<T>| #[trigger]
            call_ensures(EventLoop::<T>::run_return, (event_loop,), action) ==> {
                &&& action == (Action::<T>::Callback {
                    event: Event::NewEvents(StartCause::Init),
                    control_flow: ControlFlow::Poll,
                })
                &&& final(event_loop)@.stage == Stage::Init
                &&& final(event_loop)@.control_flow == ControlFlow::Poll
                &&& final(event_loop)@.sink == event_loop@.sink
                &&& final(event_loop)@.round == event_loop@.round
                &&& final(event_loop)@.users == event_loop@.users
            },
{
}

/// A run that is given up leaves the loop ready to be run, with all that waits, but for
/// the user's own events if one of them was being handled. It cannot be given up while a
/// buffered event is handled.
pub proof fn law_given_up_run_keeps_what_waits<T>()
    ensures
        forall|event_loop: &mut EventLoop<T>, idle: bool| #[trigger]
            call_ensures(EventLoop::<T>::abandon, (event_loop,), idle) ==> {
                let before = event_loop@;
                let after = final(event_loop)@;
                let buffered = before.stage == Stage::FirstSink || before.stage
                    == Stage::SecondSink;
                &&& idle == !buffered
                &&& buffered ==> after == before
                &&& !buffered ==> after.stage == Stage::Idle
                &&& before.stage != Stage::Users ==> after.users == before.users
                &&& before.stage == Stage::Users ==> after.users.len() == 0
                &&& after.sink == before.sink
                &&& after.round == before.round
                &&& after.control_flow == before.control_flow
            },
{
}

/// A loop can be run exactly while it does not run.
pub proof fn law_idle_loop_can_be_run<T>(event_loop: EventLoop<T>, idle: bool)
    requires
        call_ensures(EventLoop::<T>::is_idle, (&event_loop,), idle),
    ensures
        idle <==> event_loop@.stage == Stage::Idle,
{
}

/// What the loop wants done says what it is to be told next: what the callback answered,
/// that the sources were waited for, or what the clock shows; and nothing once it is over.
pub proof fn law_loop_takes_the_answer_it_asked_for<T>(
    state: LoopView<T>,
    target: TargetView,
    reply: Reply,
    next: Reply,
)
    ensures
        expects(begun(state).stage, next) <==> next is Returned,
        ({
            let outcome = resumed(state, target, reply);
            expects(state.stage, reply) ==> match outcome.action {
                Action::Callback { .. } => expects(outcome.state.stage, next) <==> next is Returned,
                Action::Dispatch { .. } => expects(outcome.state.stage, next)
                    <==> next is Dispatched,
                Action::ReadClock => expects(outcome.state.stage, next) <==> next is Now,
                Action::Finished => !expects(outcome.state.stage, next),
            }
        }),
{
}

/// The callback's answer is kept: unless the loop is in the middle of a round and has been
/// asked to leave, it is the control flow from then on. A loop that has been asked to
/// leave in the middle of a round goes on wanting to. Either way the next callback finds
/// the control flow in its variable.
pub proof fn law_answer_is_kept<T>(state: LoopView<T>, target: TargetView, answer: ControlFlow)
    requires
        state.stage == Stage::Init || state.stage == Stage::NewEvents || state.stage
            == Stage::FirstSink || state.stage == Stage::Users || state.stage == Stage::SecondSink
            || state.stage == Stage::Cleared || state.stage == Stage::Destroyed,
    ensures
        ({
            let outcome = resumed(state, target, Reply::Returned(answer));
            let outside = state.stage == Stage::Init || state.stage == Stage::NewEvents
                || state.stage == Stage::Destroyed;
            &&& outside || state.control_flow != ControlFlow::Exit
                ==> outcome.state.control_flow == answer
            &&& !outside && state.control_flow == ControlFlow::Exit
                ==> outcome.state.control_flow == ControlFlow::Exit
            &&& outcome.action matches Action::Callback { control_flow, .. } ==> control_flow
                == outcome.state.control_flow
        }),
{
}

/// Nothing but the callback's answer changes the control flow: to wait for the sources and
/// to read the clock leave it alone, and the next callback finds it in its variable.
pub proof fn law_waiting_keeps_the_control_flow<T>(
    state: LoopView<T>,
    target: TargetView,
    reply: Reply,
)
    requires
        reply is Dispatched || reply is Now,
    ensures
        ({
            let outcome = resumed(state, target, reply);
            &&& outcome.state.control_flow == state.control_flow
            &&& outcome.action matches Action::Callback { control_flow, .. } ==> control_flow
                == state.control_flow
            &&& outcome.state.sink == state.sink
            &&& outcome.state.round == state.round
            &&& outcome.state.users == state.users
            &&& outcome.target == target
        }),
{
}

/// What the loop does once a round is over is what the control flow says, whatever it was
/// that set it: it ends, lets the sources bring what they have, waits for them for as long
/// as it takes, or looks at the clock to wait until the deadline.
pub proof fn law_control_flow_is_obeyed<T>(
    state: LoopView<T>,
    target: TargetView,
    answer: ControlFlow,
)
    requires
        state.stage == Stage::Cleared,
    ensures
        ({
            let outcome = resumed(state, target, Reply::Returned(answer));
            &&& state.control_flow == ControlFlow::Exit || answer == ControlFlow::Exit ==> (
            outcome.action matches Action::Callback { event, .. } && event
                == Event::<T>::LoopDestroyed)
            &&& state.control_flow != ControlFlow::Exit ==> match answer {
                ControlFlow::Exit => true,
                ControlFlow::Poll => outcome.action matches Action::Dispatch { timeout: Some(t) }
                    && t.nanos == 0,
                ControlFlow::Wait => outcome.action matches Action::Dispatch { timeout: None },
                ControlFlow::WaitUntil(deadline) => outcome.action is ReadClock
                    && outcome.state.stage == (Stage::Timing { deadline }),
            }
            &&& outcome.state.sink == state.sink
            &&& outcome.state.round == state.round
            &&& outcome.state.users == state.users
            &&& outcome.target == target
        }),
{
}

/// As long as there is something left of a batch or of the user's own events, a step hands
/// out the oldest of it and leaves the rest, what was sent meanwhile and the windows alone.
pub proof fn law_batches_are_handed_out_one_by_one<T>(
    state: LoopView<T>,
    target: TargetView,
    answer: ControlFlow,
)
    ensures
        ({
            let outcome = resumed(state, target, Reply::Returned(answer));
            let buffered = (state.stage == Stage::FirstSink || state.stage == Stage::SecondSink)
                && state.round.len() > 0;
            let own = state.users.len() > 0 && (state.stage == Stage::Users || (state.stage
                == Stage::FirstSink && state.round.len() == 0));
            let last = state.stage == Stage::SecondSink && state.round.len() == 0;
            &&& buffered || own || last ==> outcome.state.sink == state.sink && outcome.target
                == target
            &&& buffered ==> {
                &&& outcome.action matches Action::Callback { event, .. } && event == state.round[0]
                &&& outcome.state.round == state.round.skip(1)
                &&& outcome.state.users == state.users
                &&& outcome.state.stage == state.stage
            }
            &&& own ==> {
                &&& outcome.action matches Action::Callback { event, .. } && event
                    == Event::<T>::UserEvent(state.users[0])
                &&& outcome.state.users == state.users.skip(1)
                &&& outcome.state.round == state.round
                &&& outcome.state.stage == Stage::Users
            }
            &&& last ==> {
                &&& outcome.action matches Action::Callback { event, .. } && event
                    == Event::<T>::EventsCleared
                &&& outcome.state.users == state.users
                &&& outcome.state.round == state.round
                &&& outcome.state.stage == Stage::Cleared
            }
        }),
{
    assert(state.round.skip(1) == state.round.drop_first() || state.round.len() == 0);
    assert(state.users.skip(1) == state.users.drop_first() || state.users.len() == 0);
}

/// When a round begins and when the user's own events are done, all that was sent and all
/// that there is to tell of the windows is taken up: nothing of it is left, and the
/// windows have been told of.
pub proof fn law_taking_up_leaves_nothing<T>(
    state: LoopView<T>,
    target: TargetView,
    answer: ControlFlow,
)
    requires
        state.round.len() == 0,
        state.stage == Stage::Init || state.stage == Stage::NewEvents || ((state.stage
            == Stage::FirstSink || state.stage == Stage::Users) && state.users.len() == 0),
    ensures
        ({
            let outcome = resumed(state, target, Reply::Returned(answer));
            let batch = state.sink + trigger_events::<T>(target);
            &&& outcome.state.sink.len() == 0
            &&& outcome.target == triggered(target)
            &&& batch.len() > 0 ==> {
                &&& outcome.action matches Action::Callback { event, .. } && event == batch[0]
                &&& outcome.state.round == batch.skip(1)
                &&& outcome.state.users == state.users
                &&& state.stage == Stage::Init || state.stage == Stage::NewEvents
                    ==> outcome.state.stage == Stage::FirstSink
                &&& state.stage == Stage::FirstSink || state.stage == Stage::Users
                    ==> outcome.state.stage == Stage::SecondSink
            }
            &&& batch.len() == 0 && state.users.len() > 0 ==> {
                &&& outcome.state.stage == Stage::Users
                &&& outcome.action matches Action::Callback { event, .. } && event
                    == Event::<T>::UserEvent(state.users[0])
                &&& outcome.state.users == state.users.skip(1)
                &&& outcome.state.round.len() == 0
            }
            &&& batch.len() == 0 && state.users.len() == 0 ==> {
                &&& outcome.state.stage == Stage::Cleared
                &&& outcome.action matches Action::Callback { event, .. } && event
                    == Event::<T>::EventsCleared
                &&& outcome.state.users.len() == 0
                &&& outcome.state.round.len() == 0
            }
        }),
{
    let batch = state.sink + trigger_events::<T>(target);
    assert(state.round + batch == batch);
    assert(batch.len() > 0 ==> batch.skip(1) == batch.drop_first());
    assert(state.users.len() > 0 ==> state.users.skip(1) == state.users.drop_first());
    law_nothing_is_told_twice::<T>(target);
    assert(triggered(triggered(target)) == triggered(target)) by {
        let once = triggered(target).windows;
        let twice = triggered(triggered(target)).windows;
        assert(twice.len() == once.len());
        assert forall|i: int| 0 <= i < once.len() implies twice[i] == once[i] by {
            law_settled_has_nothing_to_tell(remaining(target)[i]);
        }
        assert(twice == once);
    }
}

/// The end of a run changes nothing but that it is over.
pub proof fn law_end_keeps_what_waits<T>(
    state: LoopView<T>,
    target: TargetView,
    answer: ControlFlow,
)
    requires
        state.stage == Stage::Destroyed,
    ensures
        ({
            let outcome = resumed(state, target, Reply::Returned(answer));
            &&& outcome.action is Finished
            &&& outcome.state.stage == Stage::Idle
            &&& outcome.state.sink == state.sink
            &&& outcome.state.round == state.round
            &&& outcome.state.users == state.users
            &&& outcome.target == target
        }),
{
}

/// Waits end as they were asked for. One that is not to wait is followed by a new round at
/// once. One without an end is followed by a look at the clock and a new round that says
/// when. One until a deadline lasts until then and no longer, is not begun where the
/// deadline has passed, and is followed by a new round that says whether the deadline was
/// reached.
pub proof fn law_waits_end_as_asked_for<T>(
    state: LoopView<T>,
    target: TargetView,
    start: Instant,
    deadline: Instant,
    now: Instant,
)
    ensures
        state.stage == Stage::Polling ==> (resumed(state, target, Reply::Dispatched).action matches
            Action::Callback { event, .. } && event == Event::<T>::NewEvents(StartCause::Poll)),
        state.stage == Stage::Waiting ==> ({
            let woken = resumed(state, target, Reply::Dispatched);
            let told = resumed(woken.state, woken.target, Reply::Now(now));
            &&& woken.action is ReadClock
            &&& told.action matches Action::Callback { event, .. } && event == Event::<
                T,
            >::NewEvents(StartCause::WaitCancelled { start: now, requested_resume: None })
        }),
        state.stage == (Stage::Timing { deadline }) ==> ({
            let waiting = resumed(state, target, Reply::Now(start));
            let woken = resumed(waiting.state, waiting.target, Reply::Dispatched);
            let told = resumed(woken.state, woken.target, Reply::Now(now));
            &&& waiting.action matches Action::Dispatch { timeout: Some(timeout) } && {
                &&& start.nanos < deadline.nanos ==> start.nanos + timeout.nanos == deadline.nanos
                &&& start.nanos >= deadline.nanos ==> timeout.nanos == 0
            }
            &&& woken.action is ReadClock
            &&& now.nanos < deadline.nanos ==> (told.action matches Action::Callback { event, .. }
                && event == Event::<T>::NewEvents(
                StartCause::WaitCancelled { start, requested_resume: Some(deadline) },
            ))
            &&& now.nanos >= deadline.nanos ==> (told.action matches Action::Callback { event, .. }
                && event == Event::<T>::NewEvents(
                StartCause::ResumeTimeReached { start, requested_resume: deadline },
            ))
        }),
{
}

/// A new loop does not run, has nothing that waits, no windows and nothing to clean up,
/// and receives at the end that its proxies send to.
pub proof fn law_new_loop_is_empty<T>(made: (EventLoop<T>, EventLoopWindowTarget, Sources<T>))
    requires
        call_ensures(EventLoop::<T>::new, (), made),
    ensures
        made.0@.stage == Stage::Idle,
        made.0@.sink.len() == 0,
        made.0@.round.len() == 0,
        made.0@.users.len() == 0,
        made.1@.windows.len() == 0,
        !made.1@.cleanup_needed,
        are_ends(made.0.sender(), made.2.user),
{
}

/// All proxies of a loop, and their copies, send to the end that the loop receives at.
pub proof fn law_proxies_send_to_their_loop<T>(
    event_loop: EventLoop<T>,
    proxy: EventLoopProxy<T>,
    copy: EventLoopProxy<T>,
)
    requires
        call_ensures(EventLoop::<T>::create_proxy, (&event_loop,), proxy),
        call_ensures(EventLoopProxy::<T>::clone, (&proxy,), copy),
    ensures
        proxy.sender() == event_loop.sender(),
        copy.sender() == event_loop.sender(),
{
}

/// A loop lists the same monitors as the card, and the same one first.
pub proof fn law_loop_lists_the_monitors<T>(
    event_loop: EventLoop<T>,
    connectors: Vec<Option<ConnectorInfo>>,
    monitors: VecDeque<MonitorHandle>,
    primary: Option<MonitorHandle>,
)
    requires
        call_ensures(EventLoop::<T>::available_monitors, (&event_loop, &connectors), monitors),
        call_ensures(EventLoop::<T>::primary_monitor, (&event_loop, &connectors), primary),
    ensures
        monitors@ == monitors_of(connectors@),
        primary is Some <==> monitors@.len() > 0,
        primary matches Some(monitor) ==> monitor.handle == monitors@[0].handle,
{
}

} // verus!
