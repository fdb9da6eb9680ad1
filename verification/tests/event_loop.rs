use gbm_platform::card::Resources;
use gbm_platform::event::{ControlFlow, Event, StartCause, WindowEvent};
use gbm_platform::event_loop::{Action, EventLoop, Reply, SourceEvent, Sources};
use gbm_platform::ids::{make_wid, WindowId};
use gbm_platform::monitor::{ConnectionState, ConnectorInfo, Mode};
use gbm_platform::proxy::{closed_on_failure, EventLoopClosed, SendFailure};
use gbm_platform::target::EventLoopWindowTarget;
use gbm_platform::time::{blocking_duration, Duration, Instant};
use gbm_platform::window::{Window, WindowAttributes};

fn at(nanos: u128) -> Instant {
    Instant { nanos }
}

fn resources() -> Resources {
    Resources {
        connector: 31,
        mode: Mode { size: (1920, 1080), vrefresh: 60 },
        encoder: 41,
        crtc: 51,
    }
}

fn open_window(target: &mut EventLoopWindowTarget, surface: usize) -> Window {
    let attributes = WindowAttributes { inner_size: None, fullscreen: None };
    Window::new(target, &attributes, resources(), surface)
}

fn callback<T>(event: Event<T>, control_flow: ControlFlow) -> Action<T> {
    Action::Callback { event, control_flow }
}

fn window<T>(event: WindowEvent, surface: usize) -> Event<T> {
    Event::WindowEvent { window_id: WindowId(surface), event }
}

/// A loop that has begun and been answered with `control_flow`, without windows.
fn cleared(control_flow: ControlFlow) -> (EventLoop<u8>, EventLoopWindowTarget, Sources<u8>) {
    let (mut event_loop, mut target, sources) = EventLoop::<u8>::new();
    let init = event_loop.run_return();
    assert_eq!(init, callback(Event::NewEvents(StartCause::Init), ControlFlow::Poll));
    let over = event_loop.resume(&mut target, Reply::Returned(control_flow));
    assert_eq!(over, callback(Event::EventsCleared, control_flow));
    (event_loop, target, sources)
}

#[test]
fn a_run_begins_and_ends() {
    let (mut event_loop, mut target, _sources) = cleared(ControlFlow::Poll);
    assert!(!event_loop.is_idle());
    let last = event_loop.resume(&mut target, Reply::Returned(ControlFlow::Exit));
    assert_eq!(last, callback(Event::LoopDestroyed, ControlFlow::Exit));
    let over = event_loop.resume(&mut target, Reply::Returned(ControlFlow::Poll));
    assert_eq!(over, Action::Finished);
    assert!(event_loop.is_idle());
    let again = event_loop.run_return();
    assert_eq!(again, callback(Event::NewEvents(StartCause::Init), ControlFlow::Poll));
}

#[test]
fn exit_is_sticky() {
    let (mut event_loop, mut target, _sources) = EventLoop::<u8>::new();
    event_loop.on_user(SourceEvent::Msg(1));
    event_loop.on_user(SourceEvent::Msg(2));
    event_loop.run_return();
    let mut next = |answer| event_loop.resume(&mut target, Reply::Returned(answer));
    assert_eq!(next(ControlFlow::Wait), callback(Event::UserEvent(1), ControlFlow::Wait));
    assert_eq!(next(ControlFlow::Exit), callback(Event::UserEvent(2), ControlFlow::Exit));
    assert_eq!(next(ControlFlow::Poll), callback(Event::EventsCleared, ControlFlow::Exit));
    assert_eq!(next(ControlFlow::Wait), callback(Event::LoopDestroyed, ControlFlow::Exit));
    assert_eq!(next(ControlFlow::Wait), Action::Finished);
}

#[test]
fn a_round_hands_out_everything_in_order() {
    let (mut event_loop, mut target, _sources) = EventLoop::<u8>::new();
    let first = open_window(&mut target, 100);
    let second = open_window(&mut target, 200);
    event_loop.on_keyboard(SourceEvent::Msg((
        WindowEvent::ReceivedCharacter('a'),
        make_wid(100),
    )));
    event_loop.on_keyboard(SourceEvent::Closed);
    event_loop.on_user(SourceEvent::Msg(7));
    event_loop.on_user(SourceEvent::Closed);
    event_loop.run_return();
    let poll = Reply::Returned(ControlFlow::Poll);
    let mut got = Vec::new();
    for _ in 0..4 {
        got.push(event_loop.resume(&mut target, poll));
    }
    first.drop(&mut target);
    second.request_redraw(&mut target.store);
    for _ in 0..3 {
        got.push(event_loop.resume(&mut target, poll));
    }
    let expected = vec![
        window(WindowEvent::ReceivedCharacter('a'), 100),
        window(WindowEvent::RedrawRequested, 100),
        window(WindowEvent::RedrawRequested, 200),
        Event::UserEvent(7),
        window(WindowEvent::Destroyed, 100),
        window(WindowEvent::RedrawRequested, 200),
        Event::EventsCleared,
    ];
    let expected: Vec<Action<u8>> =
        expected.into_iter().map(|event| callback(event, ControlFlow::Poll)).collect();
    assert_eq!(got, expected);
    assert!(!target.store.contains(100));
    assert!(target.store.contains(200));
}

#[test]
fn a_redraw_asked_for_in_a_round_is_told_in_it() {
    let (mut event_loop, mut target, _sources) = EventLoop::<u8>::new();
    let asking = open_window(&mut target, 100);
    let going = open_window(&mut target, 200);
    event_loop.on_user(SourceEvent::Msg(7));
    event_loop.on_user(SourceEvent::Msg(8));
    event_loop.run_return();
    let poll = Reply::Returned(ControlFlow::Poll);
    let flow = ControlFlow::Poll;
    let redraw = |surface| callback(window(WindowEvent::RedrawRequested, surface), flow);
    assert_eq!(event_loop.resume(&mut target, poll), redraw(100));
    asking.request_redraw(&mut target.store);
    assert_eq!(event_loop.resume(&mut target, poll), redraw(200));
    assert_eq!(event_loop.resume(&mut target, poll), callback(Event::UserEvent(7), flow));
    asking.request_redraw(&mut target.store);
    going.request_redraw(&mut target.store);
    assert_eq!(event_loop.resume(&mut target, poll), callback(Event::UserEvent(8), flow));
    going.drop(&mut target);
    let gone = callback(window(WindowEvent::Destroyed, 200), flow);
    assert_eq!(event_loop.resume(&mut target, poll), gone);
    assert_eq!(event_loop.resume(&mut target, poll), redraw(100));
    assert_eq!(event_loop.resume(&mut target, poll), callback(Event::EventsCleared, flow));
}

#[test]
fn a_window_is_told_to_draw_twice_in_a_round_at_most() {
    let (mut event_loop, mut target, _sources) = EventLoop::<u8>::new();
    let asking = open_window(&mut target, 100);
    event_loop.run_return();
    let flow = ControlFlow::Poll;
    let mut next = |reply| {
        asking.request_redraw(&mut target.store);
        asking.request_redraw(&mut target.store);
        event_loop.resume(&mut target, reply)
    };
    let poll = Reply::Returned(flow);
    let redraw = || callback(window(WindowEvent::RedrawRequested, 100), flow);
    for round in 0..3 {
        assert_eq!(next(poll), redraw(), "{}", round);
        assert_eq!(next(poll), redraw(), "{}", round);
        assert_eq!(next(poll), callback(Event::EventsCleared, flow));
        assert_eq!(next(poll), Action::Dispatch { timeout: Some(Duration { nanos: 0 }) });
        let told = callback(Event::NewEvents(StartCause::Poll), flow);
        assert_eq!(next(Reply::Dispatched), told);
    }
}

#[test]
fn a_run_has_a_shape() {
    let (mut event_loop, mut target, _sources) = EventLoop::<u8>::new();
    let window = open_window(&mut target, 100);
    let mut events = Vec::new();
    let mut dispatches: u8 = 0;
    let mut action = event_loop.run_return();
    loop {
        let reply = match action {
            Action::Callback { event, control_flow } => {
                if event == Event::UserEvent(2) {
                    window.request_redraw(&mut target.store);
                }
                let answer = if event == Event::UserEvent(3) {
                    ControlFlow::Exit
                } else {
                    control_flow
                };
                events.push(event);
                Reply::Returned(answer)
            }
            Action::Dispatch { .. } => {
                dispatches += 1;
                event_loop.on_user(SourceEvent::Msg(dispatches));
                Reply::Dispatched
            }
            Action::ReadClock => Reply::Now(at(1)),
            Action::Finished => break,
        };
        action = event_loop.resume(&mut target, reply);
    }
    let redraw = || Event::WindowEvent {
        window_id: WindowId(100),
        event: WindowEvent::RedrawRequested,
    };
    let expected = vec![
        Event::NewEvents(StartCause::Init),
        redraw(),
        Event::EventsCleared,
        Event::NewEvents(StartCause::Poll),
        Event::UserEvent(1),
        Event::EventsCleared,
        Event::NewEvents(StartCause::Poll),
        Event::UserEvent(2),
        redraw(),
        Event::EventsCleared,
        Event::NewEvents(StartCause::Poll),
        Event::UserEvent(3),
        Event::EventsCleared,
        Event::LoopDestroyed,
    ];
    assert_eq!(events, expected);
}

#[test]
fn a_late_redraw_waits_for_the_next_round() {
    let (mut event_loop, mut target, _sources) = cleared(ControlFlow::Wait);
    let late = open_window(&mut target, 100);
    let answer = Reply::Returned(ControlFlow::Wait);
    late.request_redraw(&mut target.store);
    assert_eq!(event_loop.resume(&mut target, answer), Action::Dispatch { timeout: None });
    event_loop.on_user(SourceEvent::Msg(1));
    assert_eq!(event_loop.resume(&mut target, Reply::Dispatched), Action::ReadClock);
    let cause = StartCause::WaitCancelled { start: at(9), requested_resume: None };
    let flow = ControlFlow::Wait;
    let told = event_loop.resume(&mut target, Reply::Now(at(9)));
    assert_eq!(told, callback(Event::NewEvents(cause), flow));
    let first = event_loop.resume(&mut target, answer);
    assert_eq!(first, callback(window(WindowEvent::RedrawRequested, 100), flow));
    let second = event_loop.resume(&mut target, answer);
    assert_eq!(second, callback(Event::UserEvent(1), flow));
    let third = event_loop.resume(&mut target, answer);
    assert_eq!(third, callback(Event::EventsCleared, flow));
}

#[test]
fn user_events_wait_for_a_later_run() {
    let (mut event_loop, mut target, _sources) = cleared(ControlFlow::Poll);
    let poll = Reply::Returned(ControlFlow::Poll);
    event_loop.resume(&mut target, poll);
    event_loop.on_user(SourceEvent::Msg(1));
    event_loop.resume(&mut target, Reply::Dispatched);
    let user = event_loop.resume(&mut target, Reply::Returned(ControlFlow::Exit));
    assert_eq!(user, callback(Event::UserEvent(1), ControlFlow::Exit));
    let over = event_loop.resume(&mut target, poll);
    assert_eq!(over, callback(Event::EventsCleared, ControlFlow::Exit));
    event_loop.resume(&mut target, poll);
    assert_eq!(event_loop.resume(&mut target, poll), Action::Finished);
    event_loop.on_user(SourceEvent::Msg(2));
    event_loop.on_user(SourceEvent::Msg(3));
    event_loop.run_return();
    let flow = ControlFlow::Poll;
    assert_eq!(event_loop.resume(&mut target, poll), callback(Event::UserEvent(2), flow));
    assert_eq!(event_loop.resume(&mut target, poll), callback(Event::UserEvent(3), flow));
    assert_eq!(event_loop.resume(&mut target, poll), callback(Event::EventsCleared, flow));
}

#[test]
fn a_run_that_is_given_up() {
    let (mut event_loop, mut target, _sources) = EventLoop::<u8>::new();
    let poll = Reply::Returned(ControlFlow::Poll);
    let flow = ControlFlow::Poll;
    assert!(event_loop.abandon());
    for user in 1..4 {
        event_loop.on_user(SourceEvent::Msg(user));
    }
    event_loop.run_return();
    assert!(event_loop.abandon());
    event_loop.run_return();
    assert_eq!(event_loop.resume(&mut target, poll), callback(Event::UserEvent(1), flow));
    assert!(event_loop.abandon());
    let _window = open_window(&mut target, 100);
    event_loop.run_return();
    let redraw = callback(window(WindowEvent::RedrawRequested, 100), flow);
    assert_eq!(event_loop.resume(&mut target, poll), redraw);
    assert!(!event_loop.abandon());
    assert_eq!(event_loop.resume(&mut target, poll), callback(Event::EventsCleared, flow));
    assert!(event_loop.abandon());
}

#[test]
fn polling_does_not_wait() {
    let (mut event_loop, mut target, _sources) = cleared(ControlFlow::Poll);
    let dispatch = event_loop.resume(&mut target, Reply::Returned(ControlFlow::Poll));
    assert_eq!(dispatch, Action::Dispatch { timeout: Some(Duration { nanos: 0 }) });
    event_loop.on_user(SourceEvent::Msg(5));
    let told = event_loop.resume(&mut target, Reply::Dispatched);
    assert_eq!(told, callback(Event::NewEvents(StartCause::Poll), ControlFlow::Poll));
    let user = event_loop.resume(&mut target, Reply::Returned(ControlFlow::Poll));
    assert_eq!(user, callback(Event::UserEvent(5), ControlFlow::Poll));
}

#[test]
fn waiting_has_no_end() {
    let (mut event_loop, mut target, _sources) = cleared(ControlFlow::Poll);
    let dispatch = event_loop.resume(&mut target, Reply::Returned(ControlFlow::Wait));
    assert_eq!(dispatch, Action::Dispatch { timeout: None });
    assert_eq!(event_loop.resume(&mut target, Reply::Dispatched), Action::ReadClock);
    let told = event_loop.resume(&mut target, Reply::Now(at(9)));
    let cause = StartCause::WaitCancelled { start: at(9), requested_resume: None };
    assert_eq!(told, callback(Event::NewEvents(cause), ControlFlow::Wait));
}

fn wait_until(deadline: u128, start: u128, now: u128) -> (Option<Duration>, StartCause) {
    let flow = ControlFlow::WaitUntil(at(deadline));
    let (mut event_loop, mut target, _sources) = cleared(flow);
    assert_eq!(event_loop.resume(&mut target, Reply::Returned(flow)), Action::ReadClock);
    let timeout = match event_loop.resume(&mut target, Reply::Now(at(start))) {
        Action::Dispatch { timeout } => timeout,
        other => panic!("{:?}", other),
    };
    assert_eq!(event_loop.resume(&mut target, Reply::Dispatched), Action::ReadClock);
    match event_loop.resume(&mut target, Reply::Now(at(now))) {
        Action::Callback { event: Event::NewEvents(cause), control_flow } => {
            assert_eq!(control_flow, flow);
            (timeout, cause)
        }
        other => panic!("{:?}", other),
    }
}

#[test]
fn a_deadline_that_is_reached() {
    let (timeout, cause) = wait_until(50, 20, 50);
    assert_eq!(timeout, Some(Duration { nanos: 30 }));
    let reached = StartCause::ResumeTimeReached { start: at(20), requested_resume: at(50) };
    assert_eq!(cause, reached);
}

#[test]
fn a_wait_that_is_cut_short() {
    let (timeout, cause) = wait_until(50, 20, 49);
    assert_eq!(timeout, Some(Duration { nanos: 30 }));
    let cut = StartCause::WaitCancelled { start: at(20), requested_resume: Some(at(50)) };
    assert_eq!(cause, cut);
}

#[test]
fn a_deadline_that_has_passed() {
    let (timeout, cause) = wait_until(50, 60, 61);
    assert_eq!(timeout, Some(Duration { nanos: 0 }));
    let reached = StartCause::ResumeTimeReached { start: at(60), requested_resume: at(50) };
    assert_eq!(cause, reached);
}

#[test]
fn blocking_durations() {
    assert_eq!(blocking_duration(at(3), at(10)), Duration { nanos: 7 });
    assert_eq!(blocking_duration(at(10), at(10)), Duration { nanos: 0 });
    assert_eq!(blocking_duration(at(10), at(3)), Duration { nanos: 0 });
}

#[test]
fn what_a_proxy_sends_reaches_the_loop() {
    let (machine, mut target, sources) = EventLoop::<u8>::new();
    let proxy = machine.create_proxy();
    let other = proxy.clone();
    let mut inner_loop = calloop::EventLoop::<EventLoop<u8>>::new().unwrap();
    let _source = inner_loop
        .handle()
        .insert_source(sources.user, |evt, machine: &mut EventLoop<u8>| match evt {
            calloop::channel::Event::Msg(msg) => machine.on_user(SourceEvent::Msg(msg)),
            calloop::channel::Event::Closed => machine.on_user(SourceEvent::Closed),
        })
        .unwrap();
    let mut machine = machine;
    assert_eq!(proxy.send_event(3), Ok(()));
    assert_eq!(other.send_event(4), Ok(()));
    inner_loop.dispatch(Some(std::time::Duration::from_millis(0)), &mut machine).unwrap();
    machine.run_return();
    let poll = Reply::Returned(ControlFlow::Poll);
    let flow = ControlFlow::Poll;
    assert_eq!(machine.resume(&mut target, poll), callback(Event::UserEvent(3), flow));
    assert_eq!(machine.resume(&mut target, poll), callback(Event::UserEvent(4), flow));
    assert_eq!(machine.resume(&mut target, poll), callback(Event::EventsCleared, flow));
}

#[test]
fn the_keyboard_source_is_closed() {
    let (_machine, _target, sources) = EventLoop::<u8>::new();
    let mut inner_loop = calloop::EventLoop::<u32>::new().unwrap();
    let _source = inner_loop
        .handle()
        .insert_source(sources.keyboard, |evt, closed: &mut u32| {
            if let calloop::channel::Event::Closed = evt {
                *closed += 1;
            }
        })
        .unwrap();
    let mut closed = 0;
    inner_loop.dispatch(Some(std::time::Duration::from_millis(0)), &mut closed).unwrap();
    assert_eq!(closed, 1);
}

#[test]
fn a_proxy_of_a_loop_that_is_gone() {
    let (machine, _target, sources) = EventLoop::<u8>::new();
    let proxy = machine.create_proxy();
    drop(machine);
    drop(sources);
    assert_eq!(proxy.send_event(3), Err(EventLoopClosed));
}

#[test]
fn every_failure_to_send_means_closed() {
    assert_eq!(closed_on_failure::<u8>(Ok(())), Ok(()));
    assert_eq!(closed_on_failure::<u8>(Err(SendFailure::Io)), Err(EventLoopClosed));
    assert_eq!(closed_on_failure(Err(SendFailure::Disconnected(1))), Err(EventLoopClosed));
}

#[test]
fn monitors_of_a_loop() {
    let (machine, _target, _sources) = EventLoop::<u8>::new();
    let connectors = vec![Some(ConnectorInfo {
        handle: 12,
        state: ConnectionState::Connected,
        size: (300, 200),
        modes: vec![],
        current_encoder: None,
    })];
    assert_eq!(machine.primary_monitor(&connectors).unwrap().handle, 12);
    assert_eq!(machine.available_monitors(&connectors).len(), 1);
}

#[test]
fn the_default_is_to_poll() {
    assert_eq!(ControlFlow::default(), ControlFlow::Poll);
}
