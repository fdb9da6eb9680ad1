use gbm_platform::card::Resources;
use gbm_platform::dpi::{LogicalPosition, LogicalSize, PhysicalSize};
use gbm_platform::event::{Event, WindowEvent};
use gbm_platform::flip::{page_flip, new_frame, set_crtc, CrtcConfig, CrtcEvent, FlipAction};
use gbm_platform::flip::{FlipReply, FlipStage};
use gbm_platform::ids::WindowId;
use gbm_platform::monitor::{ConnectionState, ConnectorInfo, Mode};
use gbm_platform::sink::WindowEventsSink;
use gbm_platform::store::{InternalWindow, WindowStore};
use gbm_platform::target::EventLoopWindowTarget;
use gbm_platform::window::{surface_request, CursorIcon, ExternalError, Fullscreen};
use gbm_platform::window::{NotSupportedError, PixelFormat, SurfaceRequest, Window};
use gbm_platform::window::WindowAttributes;
use std::collections::VecDeque;

const MODE: Mode = Mode { size: (1920, 1080), vrefresh: 60 };

const RESOURCES: Resources = Resources { connector: 31, mode: MODE, encoder: 41, crtc: 51 };

fn plain() -> WindowAttributes {
    WindowAttributes { inner_size: None, fullscreen: None }
}

fn open(target: &mut EventLoopWindowTarget, surface: usize) -> Window {
    Window::new(target, &plain(), RESOURCES, surface)
}

fn size(width: u32, height: u32) -> LogicalSize {
    LogicalSize { width, height }
}

fn triggers(target: &mut EventLoopWindowTarget) -> VecDeque<Event<u8>> {
    let mut sink = WindowEventsSink::new();
    target.post_dispatch_triggers(&mut sink);
    let mut events = VecDeque::new();
    sink.empty_with(&mut events);
    events
}

fn told(event: WindowEvent, surface: usize) -> Event<u8> {
    Event::WindowEvent { window_id: WindowId(surface), event }
}

fn busy(surface: usize) -> InternalWindow {
    InternalWindow {
        surface,
        newsize: Some((3, 4)),
        size: (1, 2),
        need_refresh: true,
        fullscreen: true,
        need_frame_refresh: true,
        closed: true,
        kill_switch: false,
        frame: Some(new_frame(RESOURCES)),
        current_dpi: 1,
        new_dpi: Some(2),
    }
}

fn dead(surface: usize) -> InternalWindow {
    InternalWindow { kill_switch: true, frame: None, ..busy(surface) }
}

#[test]
fn the_size_of_a_new_window() {
    let request = |width, height| SurfaceRequest {
        width,
        height,
        format: PixelFormat::Argb8888,
        scanout: true,
        rendering: true,
    };
    assert_eq!(surface_request(&plain()), request(800, 600));
    let sized = WindowAttributes { inner_size: Some(size(640, 480)), fullscreen: None };
    assert_eq!(surface_request(&sized), request(640, 480));
    let monitor = PhysicalSize { width: 1920, height: 1080 };
    let full = WindowAttributes {
        inner_size: Some(size(640, 480)),
        fullscreen: Some(Fullscreen::Borderless(monitor)),
    };
    assert_eq!(surface_request(&full), request(1920, 1080));
    let mut target = EventLoopWindowTarget::new();
    let window = Window::new(&mut target, &full, RESOURCES, 5);
    assert_eq!(window.inner_size(&target.store), size(1920, 1080));
}

#[test]
fn the_entry_of_a_new_window() {
    let mut target = EventLoopWindowTarget::new();
    let window = open(&mut target, 5);
    assert_eq!(window.id(), WindowId(5));
    let expected = InternalWindow {
        surface: 5,
        newsize: None,
        size: (800, 600),
        need_refresh: true,
        fullscreen: true,
        need_frame_refresh: true,
        closed: false,
        kill_switch: false,
        frame: Some(new_frame(RESOURCES)),
        current_dpi: 1,
        new_dpi: None,
    };
    assert_eq!(target.store.get(5), expected);
    assert!(!target.cleanup_needed);
}

#[test]
fn a_new_window_is_drawn_once() {
    let mut target = EventLoopWindowTarget::new();
    let window = open(&mut target, 5);
    assert_eq!(triggers(&mut target), vec![told(WindowEvent::RedrawRequested, 5)]);
    assert!(triggers(&mut target).is_empty());
    window.request_redraw(&mut target.store);
    window.request_redraw(&mut target.store);
    assert_eq!(triggers(&mut target), vec![told(WindowEvent::RedrawRequested, 5)]);
}

#[test]
fn sizes_are_read_back() {
    let mut target = EventLoopWindowTarget::new();
    let one = open(&mut target, 5);
    let two = open(&mut target, 6);
    one.set_inner_size(&mut target.store, size(10, 20));
    assert_eq!(one.inner_size(&target.store), size(10, 20));
    assert_eq!(one.outer_size(&target.store), size(10, 20));
    assert_eq!(two.inner_size(&target.store), size(800, 600));
}

#[test]
fn a_window_that_goes_is_destroyed() {
    let mut target = EventLoopWindowTarget::new();
    let one = open(&mut target, 5);
    let _two = open(&mut target, 6);
    triggers(&mut target);
    one.drop(&mut target);
    assert!(target.cleanup_needed);
    assert!(target.store.get(5).kill_switch);
    assert_eq!(target.store.get(5).frame, None);
    assert_eq!(triggers(&mut target), vec![told(WindowEvent::Destroyed, 5)]);
    assert!(!target.cleanup_needed);
    assert!(!target.store.contains(5));
    assert!(target.store.contains(6));
}

#[test]
fn decorations_mark_the_frame() {
    let mut target = EventLoopWindowTarget::new();
    let window = open(&mut target, 5);
    triggers(&mut target);
    assert!(!target.store.get(5).need_frame_refresh);
    window.set_decorations(&mut target.store, false);
    assert!(target.store.get(5).need_frame_refresh);
    assert!(triggers(&mut target).is_empty());
    assert!(!target.store.get(5).need_frame_refresh);
}

#[test]
fn what_the_platform_cannot_do() {
    let mut target = EventLoopWindowTarget::new();
    let window = open(&mut target, 5);
    let before = target.store.get(5);
    let store = &mut target.store;
    let origin = LogicalPosition { x: 0, y: 0 };
    window.set_title(store, "title");
    window.set_visible(store, false);
    window.set_outer_position(store, origin);
    window.set_min_inner_size(store, Some(size(1, 1)));
    window.set_max_inner_size(store, None);
    window.set_resizable(store, false);
    window.set_maximized(store, true);
    window.set_cursor_icon(store, CursorIcon::Hand);
    window.set_cursor_visible(store, false);
    assert_eq!(store.get(5), before);
    assert_eq!(window.outer_position(), Err(NotSupportedError));
    assert_eq!(window.inner_position(), Err(NotSupportedError));
    let unsupported = Err(ExternalError::NotSupported(NotSupportedError));
    assert_eq!(window.set_cursor_grab(true), unsupported);
    assert_eq!(window.set_cursor_position(origin), unsupported);
    assert_eq!(window.scale_factor(), 1);
}

#[test]
fn monitors_of_a_window() {
    let mut target = EventLoopWindowTarget::new();
    let window = open(&mut target, 5);
    assert_eq!(window.current_monitor(&target.store).handle, 31);
    let fills = |target: &EventLoopWindowTarget| match window.fullscreen(&target.store) {
        Some(Fullscreen::Borderless(monitor)) => Some(monitor.handle),
        _ => None,
    };
    assert_eq!(fills(&target), Some(31));
    window.set_inner_size(&mut target.store, size(10, 20));
    window.set_maximized(&mut target.store, false);
    triggers(&mut target);
    assert_eq!(fills(&target), Some(31));
    let connectors = vec![
        None,
        Some(ConnectorInfo {
            handle: 8,
            state: ConnectionState::Connected,
            size: (1, 1),
            modes: vec![],
            current_encoder: None,
        }),
    ];
    assert_eq!(window.primary_monitor(&connectors).unwrap().handle, 8);
    assert_eq!(window.available_monitors(&connectors).len(), 1);
}

#[test]
fn all_notices_of_a_window() {
    let mut target = EventLoopWindowTarget::new();
    target.store.push(busy(5));
    target.store.push(busy(6));
    let mut expected = Vec::new();
    for surface in vec![5, 6] {
        expected.push(told(WindowEvent::HiDpiFactorChanged(2), surface));
        expected.push(told(WindowEvent::RedrawRequested, surface));
        expected.push(told(WindowEvent::CloseRequested, surface));
    }
    assert_eq!(triggers(&mut target), expected);
    assert_eq!(target.store.get(5).current_dpi, 2);
    assert!(triggers(&mut target).is_empty());
}

#[test]
fn cleaning_up_keeps_the_order() {
    let mut store = WindowStore::new();
    store.push(busy(1));
    store.push(dead(2));
    store.push(busy(3));
    store.push(dead(4));
    assert_eq!(store.cleanup(), vec![WindowId(2), WindowId(4)]);
    let left: Vec<usize> = store.for_each().iter().map(|update| update.surface).collect();
    assert_eq!(left, vec![1, 3]);
    assert_eq!(store.cleanup(), vec![]);
}

#[test]
fn updates_are_told_once() {
    let mut store = WindowStore::new();
    store.push(busy(1));
    let update = store.for_each()[0];
    assert_eq!(update.newsize, Some((3, 4)));
    assert_eq!(update.size, (1, 2));
    assert_eq!(update.new_dpi, Some(2));
    assert!(update.refresh && update.frame_refresh && update.closed);
    assert_eq!(update.frame, Some(new_frame(RESOURCES)));
    let again = store.for_each()[0];
    assert_eq!(again.newsize, None);
    assert_eq!(again.new_dpi, None);
    assert!(!again.refresh && !again.frame_refresh && !again.closed);
    assert_eq!(again.size, (1, 2));
}

#[test]
fn a_dead_window_is_only_destroyed() {
    let mut target = EventLoopWindowTarget::new();
    target.cleanup_needed = true;
    target.store.push(dead(5));
    assert_eq!(triggers(&mut target), vec![told(WindowEvent::Destroyed, 5)]);
}

#[test]
fn the_first_buffer_sets_the_controller() {
    let frame = new_frame(RESOURCES);
    let config = CrtcConfig {
        crtc: 51,
        framebuffer: 9,
        connector: 31,
        position: (0, 0),
        mode: MODE,
    };
    assert_eq!(set_crtc(&frame, 9), Some(config));
    let mut frame = frame;
    let (mut flip, action) = page_flip(&frame, 1000, 9);
    assert_eq!(action, FlipAction::SetCrtc(config));
    assert_eq!(flip.resume(&mut frame, FlipReply::CrtcSet), FlipAction::Done);
    assert_eq!(frame.bo, Some(1000));
    assert_eq!(set_crtc(&frame, 9), None);
}

#[test]
fn later_buffers_wait_for_the_flip() {
    let mut target = EventLoopWindowTarget::new();
    let window = open(&mut target, 5);
    let store = &mut target.store;
    let (mut flip, _) = window.page_flip(store, 1000, 9);
    assert_eq!(flip.stage, FlipStage::SettingCrtc);
    assert_eq!(window.resume_flip(store, &mut flip, FlipReply::CrtcSet), FlipAction::Done);
    let (mut flip, action) = window.page_flip(store, 2000, 10);
    assert_eq!(action, FlipAction::QueueFlip { crtc: 51, framebuffer: 10 });
    let mut next = |reply| window.resume_flip(store, &mut flip, reply);
    assert_eq!(next(FlipReply::Queued), FlipAction::ReceiveEvents);
    assert_eq!(next(FlipReply::Events(vec![])), FlipAction::ReceiveEvents);
    let others = vec![CrtcEvent::Vblank, CrtcEvent::Unknown];
    assert_eq!(next(FlipReply::Events(others)), FlipAction::ReceiveEvents);
    assert_eq!(target.store.get(5).frame.unwrap().bo, Some(1000));
    let complete = vec![CrtcEvent::Vblank, CrtcEvent::PageFlip, CrtcEvent::Unknown];
    let done = window.resume_flip(&mut target.store, &mut flip, FlipReply::Events(complete));
    assert_eq!(done, FlipAction::Done);
    assert_eq!(target.store.get(5).frame.unwrap().bo, Some(2000));
    assert_eq!(flip.stage, FlipStage::Finished);
}
