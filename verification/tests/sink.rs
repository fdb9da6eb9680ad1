use gbm_platform::event::{DeviceEvent, Event, WindowEvent};
use gbm_platform::ids::{make_wid, DeviceId, WindowId};
use gbm_platform::sink::WindowEventsSink;
use std::collections::VecDeque;

#[test]
fn window_id_is_the_surface_address() {
    assert_eq!(make_wid(7), WindowId(7));
}

#[test]
fn a_sink_keeps_the_order() {
    let mut sink = WindowEventsSink::<u8>::new();
    sink.send_event(Event::UserEvent(1));
    sink.send_window_event(WindowEvent::Focused(true), WindowId(9));
    sink.send_device_event(DeviceEvent::Added, DeviceId);
    let mut received = VecDeque::new();
    received.push_back(Event::EventsCleared);
    sink.empty_with(&mut received);
    let expected = vec![
        Event::EventsCleared,
        Event::UserEvent(1),
        Event::WindowEvent { window_id: WindowId(9), event: WindowEvent::Focused(true) },
        Event::DeviceEvent { device_id: DeviceId, event: DeviceEvent::Added },
    ];
    assert_eq!(received, expected);
    sink.empty_with(&mut received);
    assert_eq!(received.len(), 4);
}
