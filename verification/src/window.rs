//! Windows.
use crate::card::Resources;
use crate::dpi::{LogicalPosition, LogicalSize, PhysicalSize};
use crate::event::WindowEvent;
use crate::flip::{completes, first_action, first_stage, flip_expects, next_stage, shown};
use crate::flip::{new_frame, CrtcEvent, FlipAction, FlipReply, FlipStage, Frame, PageFlip};
use crate::ids::{make_wid, WindowId};
use crate::monitor::{area_fits, monitors_of};
use crate::monitor::{ConnectorInfo, MonitorHandle};
use crate::sink::window_event;
use crate::store::{changed, entry, has_window, is_open, law_same_windows_live, lemma_entry_unique};
use crate::store::{lemma_open_iff, living, open_windows};
use crate::store::{update_of, well_formed};
use crate::store::{InternalWindow, WindowStore};
use crate::target::{law_each_window_is_told_of, notices, told_of, trigger_events, triggered};
use crate::target::{EventLoopWindowTarget, TargetView};
use std::collections::VecDeque;
use vstd::prelude::*;

verus! {

/// How a window fills a monitor, with `M` telling which one.
#[derive(Debug)]
pub enum Fullscreen<M> {
    /// The window has the monitor for itself and chooses the video mode.
    Exclusive,
    /// The window fills the monitor as it is.
    Borderless(M),
}

/// What is asked of a new window. A monitor to fill is given by its size.
#[derive(Debug)]
pub struct WindowAttributes {
    pub inner_size: Option<LogicalSize>,
    pub fullscreen: Option<Fullscreen<PhysicalSize>>,
}

/// The pixel formats that surfaces are made with.
#[derive(Debug, Copy, Clone, PartialEq, Eq)]
pub enum PixelFormat {
    Argb8888,
}

/// The surface that a window needs.
#[derive(Debug, Copy, Clone, PartialEq, Eq)]
pub struct SurfaceRequest {
    pub width: u32,
    pub height: u32,
    pub format: PixelFormat,
    /// Buffers of the surface can be put on display.
    pub scanout: bool,
    /// Buffers of the surface can be drawn to by the card.
    pub rendering: bool,
}

/// The platform does not offer what was asked for.
#[derive(Debug, Copy, Clone, PartialEq, Eq)]
pub struct NotSupportedError;

/// Why a request to the platform failed.
#[derive(Debug, Copy, Clone, PartialEq, Eq)]
pub enum ExternalError {
    NotSupported(NotSupportedError),
}

/// The cursors that an application can ask for.
#[derive(Debug, Copy, Clone, PartialEq, Eq)]
pub enum CursorIcon {
    Default,
    Crosshair,
    Hand,
    Arrow,
    Move,
    Text,
    Wait,
    Help,
    Progress,
    NotAllowed,
    ContextMenu,
    Cell,
    VerticalText,
    Alias,
    Copy,
    NoDrop,
    Grab,
    Grabbing,
    AllScroll,
    ZoomIn,
    ZoomOut,
    EResize,
    NResize,
    NeResize,
    NwResize,
    SResize,
    SeResize,
    SwResize,
    WResize,
    EwResize,
    NsResize,
    NeswResize,
    NwseResize,
    ColResize,
    RowResize,
}

/// The size that a window gets: that of the monitor it fills, else what was asked for,
/// else 800 by 600.
pub open spec fn initial_size(attributes: WindowAttributes) -> (u32, u32) {
    match attributes.fullscreen {
        Some(Fullscreen::Borderless(monitor)) => (monitor.width, monitor.height),
        _ => match attributes.inner_size {
            Some(size) => (size.width, size.height),
            None => (800, 600),
        },
    }
}

/// The window does not ask to have a monitor for itself, which the platform cannot give.
pub open spec fn is_possible(attributes: WindowAttributes) -> bool {
    attributes.fullscreen != Some(Fullscreen::<PhysicalSize>::Exclusive)
}

/// The entry of a new window: it is to be drawn, and fills its monitor.
pub open spec fn new_entry(
    attributes: WindowAttributes,
    resources: Resources,
    surface: usize,
) -> InternalWindow {
    InternalWindow {
        surface,
        newsize: None,
        size: initial_size(attributes),
        need_refresh: true,
        fullscreen: true,
        need_frame_refresh: true,
        closed: false,
        kill_switch: false,
        frame: Some(
            Frame {
                bo: None,
                crtc: resources.crtc,
                connector: resources.connector,
                encoder: resources.encoder,
                mode: resources.mode,
            },
        ),
        current_dpi: 1,
        new_dpi: None,
    }
}

/// `w` to be drawn again.
pub open spec fn redrawn(w: InternalWindow) -> InternalWindow {
    InternalWindow { need_refresh: true, ..w }
}

/// `w` with that size.
pub open spec fn resized(w: InternalWindow, size: LogicalSize) -> InternalWindow {
    InternalWindow { size: (size.width, size.height), ..w }
}

/// `w` with its frame to be drawn again.
pub open spec fn reframed(w: InternalWindow) -> InternalWindow {
    InternalWindow { need_frame_refresh: true, ..w }
}

/// `w` when the window is gone.
pub open spec fn killed(w: InternalWindow) -> InternalWindow {
    InternalWindow { kill_switch: true, frame: None, ..w }
}

/// The monitor that `w` is on.
pub open spec fn monitor_of(w: InternalWindow) -> MonitorHandle {
    MonitorHandle { handle: w.frame->0.connector }
}

/// A target with a new window.
pub open spec fn with_window(target: TargetView, window: InternalWindow) -> TargetView {
    TargetView { windows: target.windows.push(window), cleanup_needed: target.cleanup_needed }
}

/// A target once the window with that surface is gone.
pub open spec fn without_window(target: TargetView, surface: usize) -> TargetView {
    TargetView {
        windows: changed(target.windows, surface, |w: InternalWindow| killed(w)),
        cleanup_needed: true,
    }
}

/// Computes the size that a window gets.
fn size_for(attributes: &WindowAttributes) -> (size: (u32, u32))
    requires
        is_possible(*attributes),
    ensures
        size == initial_size(*attributes),
{
    match attributes.fullscreen {
        Some(Fullscreen::Borderless(monitor)) => (monitor.width, monitor.height),
        _ => match attributes.inner_size {
            Some(size) => (size.width, size.height),
            None => (800, 600),
        },
    }
}

/// Tells which surface a window needs.
pub fn surface_request(attributes: &WindowAttributes) -> (request: SurfaceRequest)
    requires
        is_possible(*attributes),
    ensures
        request == (SurfaceRequest {
            width: initial_size(*attributes).0,
            height: initial_size(*attributes).1,
            format: PixelFormat::Argb8888,
            scanout: true,
            rendering: true,
        }),
{
    let (width, height) = size_for(attributes);
    SurfaceRequest {
        width,
        height,
        format: PixelFormat::Argb8888,
        scanout: true,
        rendering: true,
    }
}

/// A window. What it shares with the loop stands in the store of windows.
#[derive(Debug)]
pub struct Window {
    surface: usize,
}

impl Window {
    /// The address of the surface that the window draws to.
    pub closed spec fn address(&self) -> usize {
        self.surface
    }

    /// Makes a window that draws to the surface at address `surface` and is shown with
    /// `resources`, and enters it into the store.
    pub fn new(
        target: &mut EventLoopWindowTarget,
        attributes: &WindowAttributes,
        resources: Resources,
        surface: usize,
    ) -> (window: Window)
        requires
            old(target)@.wf(),
            is_possible(*attributes),
            !has_window(old(target)@.windows, surface),
        ensures
            window.address() == surface,
            final(target)@ == with_window(
                old(target)@,
                new_entry(*attributes, resources, surface),
            ),
            final(target)@.wf(),
            open_windows(final(target)@.windows) == open_windows(old(target)@.windows).insert(
                surface,
            ),
    {
        let size = size_for(attributes);
        let ghost before = target@;
        target.store.push(
            InternalWindow {
                closed: false,
                newsize: None,
                size,
                need_refresh: true,
                fullscreen: true,
                need_frame_refresh: true,
                surface,
                kill_switch: false,
                frame: Some(new_frame(resources)),
                current_dpi: 1,
                new_dpi: None,
            },
        );
        proof {
            let windows = target@.windows;
            let new = new_entry(*attributes, resources, surface);
            assert(windows == before.windows.push(new));
            assert(windows[before.windows.len() as int].surface == surface);
            assert(forall|i: int|
                0 <= i < before.windows.len() ==> windows[i] == #[trigger] before.windows[i]);
            lemma_open_after_push(before.windows, new);
        }
        Window { surface }
    }

    /// The identifier of the window.
    pub fn id(&self) -> (wid: WindowId)
        ensures
            wid == WindowId(self.address()),
    {
        make_wid(self.surface)
    }

    /// The platform shows no titles: nothing changes.
    pub fn set_title(&self, store: &mut WindowStore, _title: &str)
        ensures
            *final(store) == *old(store),
    {
    }

    /// The platform cannot hide windows: nothing changes.
    pub fn set_visible(&self, store: &mut WindowStore, _visible: bool)
        ensures
            *final(store) == *old(store),
    {
    }

    /// Windows have no position.
    pub fn outer_position(&self) -> (position: Result<LogicalPosition, NotSupportedError>)
        ensures
            position == Err::<LogicalPosition, _>(NotSupportedError),
    {
        Err(NotSupportedError)
    }

    /// Windows have no position.
    pub fn inner_position(&self) -> (position: Result<LogicalPosition, NotSupportedError>)
        ensures
            position == Err::<LogicalPosition, _>(NotSupportedError),
    {
        Err(NotSupportedError)
    }

    /// Windows have no position: nothing changes.
    pub fn set_outer_position(&self, store: &mut WindowStore, _pos: LogicalPosition)
        ensures
            *final(store) == *old(store),
    {
    }

    /// The size of the window.
    pub fn inner_size(&self, store: &WindowStore) -> (size: LogicalSize)
        requires
            store.wf(),
            open_windows(store@).contains(self.address()),
        ensures
            (size.width, size.height) == entry(store@, self.address()).size,
    {
        let (width, height) = store.get(self.surface).size;
        LogicalSize { width, height }
    }

    /// Asks that the window be drawn again.
    pub fn request_redraw(&self, store: &mut WindowStore)
        requires
            old(store).wf(),
            open_windows(old(store)@).contains(self.address()),
        ensures
            final(store)@ == changed(
                old(store)@,
                self.address(),
                |w: InternalWindow| redrawn(w),
            ),
            final(store).wf(),
            open_windows(final(store)@) == open_windows(old(store)@),
    {
        let mut w = store.get(self.surface);
        let ghost windows = store@;
        w.need_refresh = true;
        proof {
            lemma_entry_unique(windows, self.surface);
        }
        store.put(w);
        proof {
            assert(store@ == changed(windows, self.surface, |w: InternalWindow| redrawn(w)));
            law_same_windows_live(windows, store@);
        }
    }

    /// The size of the window with what is around it, which is nothing.
    pub fn outer_size(&self, store: &WindowStore) -> (size: LogicalSize)
        requires
            store.wf(),
            open_windows(store@).contains(self.address()),
        ensures
            (size.width, size.height) == entry(store@, self.address()).size,
    {
        let (width, height) = store.get(self.surface).size;
        LogicalSize { width, height }
    }

    /// Sets the size of the window. Its contents are for the user to update.
    pub fn set_inner_size(&self, store: &mut WindowStore, size: LogicalSize)
        requires
            old(store).wf(),
            open_windows(old(store)@).contains(self.address()),
        ensures
            final(store)@ == changed(
                old(store)@,
                self.address(),
                |w: InternalWindow| resized(w, size),
            ),
            final(store).wf(),
            open_windows(final(store)@) == open_windows(old(store)@),
    {
        let mut w = store.get(self.surface);
        let ghost windows = store@;
        w.size = (size.width, size.height);
        proof {
            lemma_entry_unique(windows, self.surface);
        }
        store.put(w);
        proof {
            assert(store@ == changed(windows, self.surface, |w: InternalWindow| resized(w, size)));
            law_same_windows_live(windows, store@);
        }
    }

    /// The platform puts no bounds on sizes: nothing changes.
    pub fn set_min_inner_size(&self, store: &mut WindowStore, _dimensions: Option<LogicalSize>)
        ensures
            *final(store) == *old(store),
    {
    }

    /// The platform puts no bounds on sizes: nothing changes.
    pub fn set_max_inner_size(&self, store: &mut WindowStore, _dimensions: Option<LogicalSize>)
        ensures
            *final(store) == *old(store),
    {
    }

    /// Windows cannot be resized by hand anyway: nothing changes.
    pub fn set_resizable(&self, store: &mut WindowStore, _resizable: bool)
        ensures
            *final(store) == *old(store),
    {
    }

    /// The scale factor of the window: always one.
    pub fn scale_factor(&self) -> (factor: i32)
        ensures
            factor == 1,
    {
        1
    }

    /// The platform draws no decorations; the frame is to be drawn again.
    pub fn set_decorations(&self, store: &mut WindowStore, _decorate: bool)
        requires
            old(store).wf(),
            open_windows(old(store)@).contains(self.address()),
        ensures
            final(store)@ == changed(
                old(store)@,
                self.address(),
                |w: InternalWindow| reframed(w),
            ),
            final(store).wf(),
            open_windows(final(store)@) == open_windows(old(store)@),
    {
        let mut w = store.get(self.surface);
        let ghost windows = store@;
        w.need_frame_refresh = true;
        proof {
            lemma_entry_unique(windows, self.surface);
        }
        store.put(w);
        proof {
            assert(store@ == changed(windows, self.surface, |w: InternalWindow| reframed(w)));
            law_same_windows_live(windows, store@);
        }
    }

    /// The platform cannot maximize windows: nothing changes.
    pub fn set_maximized(&self, store: &mut WindowStore, _maximized: bool)
        ensures
            *final(store) == *old(store),
    {
    }

    /// How the window fills its monitor, which every window does.
    pub fn fullscreen(&self, store: &WindowStore) -> (fullscreen: Option<Fullscreen<MonitorHandle>>)
        requires
            store.wf(),
            open_windows(store@).contains(self.address()),
        ensures
            fullscreen == Some(
                Fullscreen::Borderless(monitor_of(entry(store@, self.address()))),
            ),
    {
        proof {
            lemma_entry_unique(store@, self.surface);
        }
        if store.get(self.surface).fullscreen {
            Some(Fullscreen::Borderless(self.current_monitor(store)))
        } else {
            None
        }
    }

    /// The platform shows no cursor: nothing changes.
    pub fn set_cursor_icon(&self, store: &mut WindowStore, _cursor: CursorIcon)
        ensures
            *final(store) == *old(store),
    {
    }

    /// The platform shows no cursor: nothing changes.
    pub fn set_cursor_visible(&self, store: &mut WindowStore, _visible: bool)
        ensures
            *final(store) == *old(store),
    {
    }

    /// The cursor cannot be grabbed.
    pub fn set_cursor_grab(&self, _grab: bool) -> (grabbed: Result<(), ExternalError>)
        ensures
            grabbed == Err::<(), _>(ExternalError::NotSupported(NotSupportedError)),
    {
        Err(ExternalError::NotSupported(NotSupportedError))
    }

    /// The cursor cannot be moved.
    pub fn set_cursor_position(&self, _pos: LogicalPosition) -> (moved: Result<(), ExternalError>)
        ensures
            moved == Err::<(), _>(ExternalError::NotSupported(NotSupportedError)),
    {
        Err(ExternalError::NotSupported(NotSupportedError))
    }

    /// The monitor that the window is on.
    pub fn current_monitor(&self, store: &WindowStore) -> (monitor: MonitorHandle)
        requires
            store.wf(),
            open_windows(store@).contains(self.address()),
        ensures
            monitor == monitor_of(entry(store@, self.address())),
    {
        MonitorHandle { handle: self.frame(store).connector }
    }

    /// What the window is shown with.
    fn frame(&self, store: &WindowStore) -> (frame: Frame)
        requires
            store.wf(),
            open_windows(store@).contains(self.address()),
        ensures
            entry(store@, self.address()).frame == Some(frame),
    {
        proof {
            lemma_entry_unique(store@, self.surface);
        }
        store.get(self.surface).frame.unwrap()
    }

    /// Lists the monitors; see `crate::monitor::available_monitors`.
    pub fn available_monitors(&self, connectors: &Vec<Option<ConnectorInfo>>) -> (monitors:
        VecDeque<MonitorHandle>)
        requires
            forall|i: int| 0 <= i < connectors@.len() ==> area_fits(#[trigger] connectors@[i]),
        ensures
            monitors@ == monitors_of(connectors@),
    {
        crate::monitor::available_monitors(connectors)
    }

    /// The first monitor, if there is one.
    pub fn primary_monitor(&self, connectors: &Vec<Option<ConnectorInfo>>) -> (monitor: Option<
        MonitorHandle,
    >)
        requires
            forall|i: int| 0 <= i < connectors@.len() ==> area_fits(#[trigger] connectors@[i]),
        ensures
            monitor == (if monitors_of(connectors@).len() > 0 {
                Some(monitors_of(connectors@)[0])
            } else {
                None
            }),
    {
        crate::monitor::primary_monitor(connectors)
    }

    /// Begins to show the buffer `next_bo` of the window's surface, of which
    /// `framebuffer` is the handle.
    pub fn page_flip(&self, store: &WindowStore, next_bo: usize, framebuffer: u32) -> (begun: (
        PageFlip,
        FlipAction,
    ))
        requires
            store.wf(),
            open_windows(store@).contains(self.address()),
        ensures
            begun.0 == (PageFlip {
                next_bo,
                stage: first_stage(entry(store@, self.address()).frame->0),
            }),
            begun.1 == first_action(entry(store@, self.address()).frame->0, framebuffer),
    {
        crate::flip::page_flip(&self.frame(store), next_bo, framebuffer)
    }

    /// Carries a flip of the window on with what came of the action before. When it is
    /// done, the window's frame has the new buffer on display.
    pub fn resume_flip(
        &self,
        store: &mut WindowStore,
        flip: &mut PageFlip,
        reply: FlipReply,
    ) -> (action: FlipAction)
        requires
            old(store).wf(),
            open_windows(old(store)@).contains(self.address()),
            flip_expects(old(flip).stage, reply),
        ensures
            final(flip).next_bo == old(flip).next_bo,
            final(flip).stage == next_stage(reply),
            completes(reply) ==> {
                &&& action == FlipAction::Done
                &&& final(store)@ == changed(
                    old(store)@,
                    self.address(),
                    |w: InternalWindow| flipped(w, old(flip).next_bo),
                )
            },
            !completes(reply) ==> {
                &&& action == FlipAction::ReceiveEvents
                &&& final(store)@ == old(store)@
            },
            final(store).wf(),
            open_windows(final(store)@) == open_windows(old(store)@),
    {
        let ghost windows = store@;
        let ghost bo = flip.next_bo;
        let mut w = store.get(self.surface);
        proof {
            lemma_entry_unique(windows, self.surface);
        }
        let mut frame = self.frame(store);
        let action = flip.resume(&mut frame, reply);
        w.frame = Some(frame);
        store.put(w);
        proof {
            if completes(reply) {
                assert(store@ == changed(
                    windows,
                    self.surface,
                    |w: InternalWindow| flipped(w, bo),
                ));
            } else {
                assert(store@ == windows);
            }
            law_same_windows_live(windows, store@);
        }
        action
    }

    /// Lets the window go: it is marked as gone, and the loop is asked to clean up.
    pub fn drop(self, target: &mut EventLoopWindowTarget)
        requires
            old(target)@.wf(),
            open_windows(old(target)@.windows).contains(self.address()),
        ensures
            final(target)@ == without_window(old(target)@, self.address()),
            final(target)@.wf(),
            open_windows(final(target)@.windows) == open_windows(old(target)@.windows).remove(
                self.address(),
            ),
    {
        let mut w = target.store.get(self.surface);
        let ghost windows = target.store@;
        w.kill_switch = true;
        w.frame = None;
        proof {
            lemma_entry_unique(windows, self.surface);
        }
        target.store.put(w);
        target.cleanup_needed = true;
        proof {
            assert(target.store@ == changed(windows, self.surface, |w: InternalWindow| killed(w)));
            lemma_open_after_kill(windows, self.surface);
        }
    }
}

/// `w` with `bo` on display.
pub open spec fn flipped(w: InternalWindow, bo: usize) -> InternalWindow {
    InternalWindow { frame: Some(shown(w.frame->0, bo)), ..w }
}

/// A window that is entered lives, and so does what lived before.
proof fn lemma_open_after_push(windows: Seq<InternalWindow>, new: InternalWindow)
    requires
        well_formed(windows),
        well_formed(windows.push(new)),
        !new.kill_switch,
    ensures
        open_windows(windows.push(new)) == open_windows(windows).insert(new.surface),
{
    let after = windows.push(new);
    assert forall|surface: usize|
        open_windows(after).contains(surface) == open_windows(windows).insert(
            new.surface,
        ).contains(surface) by {
        lemma_open_iff(windows, surface);
        lemma_open_iff(after, surface);
        assert(after[windows.len() as int] == new);
        if is_open(windows, surface) {
            let i = choose|i: int|
                0 <= i < windows.len() && (#[trigger] windows[i]).surface == surface
                    && !windows[i].kill_switch;
            assert(after[i].surface == surface && !after[i].kill_switch);
        }
    }
    assert(open_windows(after) =~= open_windows(windows).insert(new.surface));
}

/// A window that is marked as gone lives no more, and all others do as before.
proof fn lemma_open_after_kill(windows: Seq<InternalWindow>, surface: usize)
    requires
        well_formed(windows),
        well_formed(changed(windows, surface, |w: InternalWindow| killed(w))),
    ensures
        open_windows(changed(windows, surface, |w: InternalWindow| killed(w))) == open_windows(
            windows,
        ).remove(surface),
{
    let after = changed(windows, surface, |w: InternalWindow| killed(w));
    assert forall|other: usize|
        open_windows(after).contains(other) == open_windows(windows).remove(surface).contains(
            other,
        ) by {
        lemma_open_iff(windows, other);
        lemma_open_iff(after, other);
        if is_open(windows, other) && other != surface {
            let i = choose|i: int|
                0 <= i < windows.len() && (#[trigger] windows[i]).surface == other
                    && !windows[i].kill_switch;
            assert(after[i].surface == other && !after[i].kill_switch);
        }
        if is_open(after, other) {
            let i = choose|i: int|
                0 <= i < after.len() && (#[trigger] after[i]).surface == other
                    && !after[i].kill_switch;
            assert(windows[i].surface == other && !windows[i].kill_switch);
        }
    }
    assert(open_windows(after) =~= open_windows(windows).remove(surface));
}

/// What is set for a window is read back for that window.
pub proof fn law_change_is_read_back(
    windows: Seq<InternalWindow>,
    surface: usize,
    change: spec_fn(InternalWindow) -> InternalWindow,
)
    requires
        well_formed(windows),
        has_window(windows, surface),
        forall|w: InternalWindow| (#[trigger] change(w)).surface == w.surface,
    ensures
        has_window(changed(windows, surface, change), surface),
        entry(changed(windows, surface, change), surface) == change(entry(windows, surface)),
{
    lemma_entry_unique(windows, surface);
    let after = changed(windows, surface, change);
    let i = choose|i: int| 0 <= i < windows.len() && (#[trigger] windows[i]).surface == surface;
    assert(after[i] == change(windows[i]));
    assert forall|j: int|
        0 <= j < after.len() && (#[trigger] after[j]).surface == surface implies after[j]
        == after[i] by {
        assert(windows[j].surface == surface);
    }
}

/// What is set for a window leaves every other window as it was.
pub proof fn law_change_leaves_the_others(
    windows: Seq<InternalWindow>,
    surface: usize,
    change: spec_fn(InternalWindow) -> InternalWindow,
    other: usize,
)
    requires
        well_formed(windows),
        has_window(windows, other),
        other != surface,
        forall|w: InternalWindow| (#[trigger] change(w)).surface == w.surface,
    ensures
        has_window(changed(windows, surface, change), other),
        entry(changed(windows, surface, change), other) == entry(windows, other),
{
    lemma_entry_unique(windows, other);
    let after = changed(windows, surface, change);
    let i = choose|i: int| 0 <= i < windows.len() && (#[trigger] windows[i]).surface == other;
    assert(after[i] == windows[i]);
    assert forall|j: int|
        0 <= j < after.len() && (#[trigger] after[j]).surface == other implies after[j]
        == after[i] by {
        assert(windows[j].surface == other);
    }
}

/// A size that is set is the size that is read, inside and outside.
pub proof fn law_size_is_read_back(windows: Seq<InternalWindow>, surface: usize, size: LogicalSize)
    requires
        well_formed(windows),
        open_windows(windows).contains(surface),
    ensures
        ({
            let after = changed(windows, surface, |w: InternalWindow| resized(w, size));
            &&& open_windows(after).contains(surface)
            &&& entry(after, surface).size == (size.width, size.height)
        }),
{
    law_change_is_read_back(windows, surface, |w: InternalWindow| resized(w, size));
}

/// A new window is entered as it was made, and every other entry stays as it was.
pub proof fn law_new_window_is_entered(
    windows: Seq<InternalWindow>,
    new: InternalWindow,
    other: usize,
)
    requires
        well_formed(windows),
        !has_window(windows, new.surface),
    ensures
        entry(windows.push(new), new.surface) == new,
        has_window(windows, other) ==> entry(windows.push(new), other) == entry(windows, other),
{
    let after = windows.push(new);
    assert(after[windows.len() as int] == new);
    assert forall|j: int|
        0 <= j < after.len() && (#[trigger] after[j]).surface == new.surface implies j
        == windows.len() by {
        if j < windows.len() {
            assert(windows[j].surface == new.surface);
        }
    }
    if has_window(windows, other) {
        lemma_entry_unique(windows, other);
        let i = choose|i: int| 0 <= i < windows.len() && (#[trigger] windows[i]).surface == other;
        assert(after[i] == windows[i]);
        assert forall|j: int|
            0 <= j < after.len() && (#[trigger] after[j]).surface == other implies after[j]
            == windows[i] by {
            if j < windows.len() {
                assert(windows[j].surface == other);
            }
        }
    }
}

/// A new window is told once that it should be drawn, and nothing else.
pub proof fn law_new_window_is_drawn<T>(
    target: TargetView,
    attributes: WindowAttributes,
    resources: Resources,
    surface: usize,
)
    requires
        target.wf(),
        !has_window(target.windows, surface),
    ensures
        told_of(
            trigger_events::<T>(with_window(target, new_entry(attributes, resources, surface))),
            surface,
        ) == seq![window_event::<T>(WindowEvent::RedrawRequested, WindowId(surface))],
{
    let new = new_entry(attributes, resources, surface);
    let after = with_window(target, new);
    let k = target.windows.len() as int;
    assert(after.windows[k] == new);
    assert forall|i: int| 0 <= i < k implies (#[trigger] after.windows[i]) == target.windows[i]
        && after.windows[i].surface != surface by {
        assert(target.windows[i].surface != surface);
    }
    law_each_window_is_told_of::<T>(after, k);
    assert(notices::<T>(update_of(new)) == seq![
        window_event::<T>(WindowEvent::RedrawRequested, WindowId(surface)),
    ]);
}

/// A window that asked to be drawn again is told to draw.
pub proof fn law_redraw_request_is_told<T>(target: TargetView, surface: usize)
    requires
        target.wf(),
        open_windows(target.windows).contains(surface),
    ensures
        told_of(
            trigger_events::<T>(
                TargetView {
                    windows: changed(target.windows, surface, |w: InternalWindow| redrawn(w)),
                    cleanup_needed: target.cleanup_needed,
                },
            ),
            surface,
        ).contains(window_event::<T>(WindowEvent::RedrawRequested, WindowId(surface))),
{
    let windows = target.windows;
    let after = TargetView {
        windows: changed(windows, surface, |w: InternalWindow| redrawn(w)),
        cleanup_needed: target.cleanup_needed,
    };
    lemma_entry_unique(windows, surface);
    let k = choose|i: int| 0 <= i < windows.len() && (#[trigger] windows[i]).surface == surface;
    assert(windows[k] == entry(windows, surface));
    assert(after.windows[k] == redrawn(windows[k]));
    assert forall|i: int| 0 <= i < windows.len() implies {
        &&& (#[trigger] after.windows[i]).surface == windows[i].surface
        &&& after.windows[i].kill_switch == windows[i].kill_switch
        &&& after.windows[i].frame == windows[i].frame
    } by {}
    law_each_window_is_told_of::<T>(after, k);
    let told = notices::<T>(update_of(after.windows[k]));
    let at = if after.windows[k].new_dpi is Some {
        1int
    } else {
        0int
    };
    assert(told[at] == window_event::<T>(WindowEvent::RedrawRequested, WindowId(surface)));
}

/// A window that goes is told once that it is destroyed and nothing else, and the store
/// then knows it no more.
pub proof fn law_dropped_window_is_destroyed<T>(target: TargetView, surface: usize)
    requires
        target.wf(),
        open_windows(target.windows).contains(surface),
    ensures
        told_of(trigger_events::<T>(without_window(target, surface)), surface) == seq![
            window_event::<T>(WindowEvent::Destroyed, WindowId(surface)),
        ],
        !has_window(triggered(without_window(target, surface)).windows, surface),
{
    let windows = target.windows;
    let after = without_window(target, surface);
    lemma_entry_unique(windows, surface);
    let k = choose|i: int| 0 <= i < windows.len() && (#[trigger] windows[i]).surface == surface;
    assert(after.windows[k] == killed(windows[k]));
    assert forall|i: int| 0 <= i < windows.len() implies {
        &&& (#[trigger] after.windows[i]).surface == windows[i].surface
        &&& i != k ==> after.windows[i] == windows[i]
    } by {}
    law_each_window_is_told_of::<T>(after, k);
    let left = triggered(after).windows;
    assert forall|j: int| 0 <= j < left.len() implies (#[trigger] left[j]).surface != surface by {
        let alive = |w: InternalWindow| !w.kill_switch;
        after.windows.lemma_filter_pred(alive, j);
        crate::store::lemma_living_well_formed(after.windows);
        let survivor = living(after.windows)[j];
        let i = choose|i: int| 0 <= i < after.windows.len() && after.windows[i] == survivor;
        assert(after.windows[i].surface == windows[i].surface);
    }
}

/// A window that is to fill a monitor gets the size of that monitor, whatever size was
/// asked for, and so does its surface.
pub proof fn law_fullscreen_window_gets_the_monitors_size(
    attributes: WindowAttributes,
    monitor: PhysicalSize,
)
    requires
        attributes.fullscreen == Some(Fullscreen::Borderless(monitor)),
    ensures
        initial_size(attributes) == (monitor.width, monitor.height),
        forall|resources: Resources, surface: usize| (#[trigger] new_entry(
            attributes,
            resources,
            surface,
        )).size == (monitor.width, monitor.height),
        forall|request: SurfaceRequest| #[trigger]
            call_ensures(surface_request, (&attributes,), request) ==> request.width
                == monitor.width && request.height == monitor.height,
        forall|
            target: &mut EventLoopWindowTarget,
            resources: Resources,
            surface: usize,
            window: Window,
        | #[trigger]
            call_ensures(Window::new, (target, &attributes, resources, surface), window)
                ==> final(target)@.windows.last().size == (monitor.width, monitor.height),
{
}

/// A window that is not to fill a monitor gets the size that was asked for, and so does
/// its surface.
pub proof fn law_window_gets_the_size_asked_for(attributes: WindowAttributes, size: LogicalSize)
    requires
        attributes.fullscreen is None,
        attributes.inner_size == Some(size),
    ensures
        initial_size(attributes) == (size.width, size.height),
        forall|resources: Resources, surface: usize| (#[trigger] new_entry(
            attributes,
            resources,
            surface,
        )).size == (size.width, size.height),
        forall|request: SurfaceRequest| #[trigger]
            call_ensures(surface_request, (&attributes,), request) ==> request.width == size.width
                && request.height == size.height,
        forall|
            target: &mut EventLoopWindowTarget,
            resources: Resources,
            surface: usize,
            window: Window,
        | #[trigger]
            call_ensures(Window::new, (target, &attributes, resources, surface), window)
                ==> final(target)@.windows.last().size == (size.width, size.height),
{
}

/// A window that is not to fill a monitor and for which no size was asked gets 800 by 600,
/// and so does its surface.
pub proof fn law_window_gets_a_size_anyway(attributes: WindowAttributes)
    requires
        attributes.fullscreen is None,
        attributes.inner_size is None,
    ensures
        initial_size(attributes) == (800u32, 600u32),
        forall|resources: Resources, surface: usize| (#[trigger] new_entry(
            attributes,
            resources,
            surface,
        )).size == (800u32, 600u32),
        forall|request: SurfaceRequest| #[trigger]
            call_ensures(surface_request, (&attributes,), request) ==> request.width == 800
                && request.height == 600,
        forall|
            target: &mut EventLoopWindowTarget,
            resources: Resources,
            surface: usize,
            window: Window,
        | #[trigger]
            call_ensures(Window::new, (target, &attributes, resources, surface), window)
                ==> final(target)@.windows.last().size == (800u32, 600u32),
{
}

/// Every window but one that wants a monitor for itself can be made, and its surface is
/// always one that can be drawn to and put on display, in the one pixel format.
pub proof fn law_surfaces_can_be_shown(attributes: WindowAttributes, request: SurfaceRequest)
    requires
        call_ensures(surface_request, (&attributes,), request),
    ensures
        request.format == PixelFormat::Argb8888,
        request.scanout,
        request.rendering,
        is_possible(attributes) <==> !(attributes.fullscreen matches Some(Fullscreen::Exclusive)),
{
}

/// A new window is entered behind all others, which stay as they were. It lives, is to be
/// drawn with its frame, has nothing else to be told, fills its monitor, has nothing on
/// display yet, and is shown with what was given.
pub proof fn law_new_window_is_entered_last(
    attributes: WindowAttributes,
    resources: Resources,
    surface: usize,
)
    ensures
        forall|target: &mut EventLoopWindowTarget, window: Window| #[trigger]
            call_ensures(Window::new, (target, &attributes, resources, surface), window) ==> {
                let w = final(target)@.windows.last();
                &&& window.address() == surface
                &&& final(target)@.windows.drop_last() == target@.windows
                &&& final(target)@.windows.len() == target@.windows.len() + 1
                &&& final(target)@.cleanup_needed == target@.cleanup_needed
                &&& w.surface == surface
                &&& w.need_refresh
                &&& w.need_frame_refresh
                &&& w.fullscreen
                &&& !w.closed
                &&& !w.kill_switch
                &&& w.newsize is None
                &&& w.new_dpi is None
                &&& w.current_dpi == 1
                &&& w.frame matches Some(frame) && frame.bo is None && frame.crtc == resources.crtc
                    && frame.connector == resources.connector && frame.encoder == resources.encoder
                    && frame.mode == resources.mode
            },
{
}

/// To ask for a redraw marks the window as to be drawn and changes nothing else about it
/// or any other.
pub proof fn law_redraw_request_marks_the_window(window: Window, i: int)
    ensures
        forall|store: &mut WindowStore| #[trigger]
            call_ensures(Window::request_redraw, (&window, store), ()) && 0 <= i < store@.len()
                ==> {
                let before = store@[i];
                let after = final(store)@[i];
                &&& final(store)@.len() == store@.len()
                &&& before.surface == window.address() ==> after.need_refresh
                &&& before.surface != window.address() ==> after == before
                &&& (InternalWindow { need_refresh: before.need_refresh, ..after }) == before
            },
{
}

/// To set a size gives the window that size and changes nothing else about it or any
/// other.
pub proof fn law_set_size_changes_the_size(window: Window, size: LogicalSize, i: int)
    ensures
        forall|store: &mut WindowStore| #[trigger]
            call_ensures(Window::set_inner_size, (&window, store, size), ()) && 0 <= i
                < store@.len() ==> {
                let before = store@[i];
                let after = final(store)@[i];
                &&& final(store)@.len() == store@.len()
                &&& before.surface == window.address() ==> after.size.0 == size.width
                    && after.size.1 == size.height
                &&& before.surface != window.address() ==> after == before
                &&& (InternalWindow { size: before.size, ..after }) == before
            },
{
}

/// To set decorations marks the frame as to be drawn, whether they are wanted or not, and
/// changes nothing else about the window or any other.
pub proof fn law_set_decorations_marks_the_frame(window: Window, decorate: bool, i: int)
    ensures
        forall|store: &mut WindowStore| #[trigger]
            call_ensures(Window::set_decorations, (&window, store, decorate), ()) && 0 <= i
                < store@.len() ==> {
                let before = store@[i];
                let after = final(store)@[i];
                &&& final(store)@.len() == store@.len()
                &&& before.surface == window.address() ==> after.need_frame_refresh
                &&& before.surface != window.address() ==> after == before
                &&& (InternalWindow {
                    need_frame_refresh: before.need_frame_refresh,
                    ..after
                }) == before
            },
{
}

/// To let a window go marks it as gone, takes its frame and asks for a clean-up; nothing
/// else about it or any other window changes.
pub proof fn law_dropped_window_is_marked(window: Window, i: int)
    ensures
        forall|target: &mut EventLoopWindowTarget| #[trigger]
            call_ensures(Window::drop, (window, target), ()) ==> {
                &&& final(target)@.cleanup_needed
                &&& final(target)@.windows.len() == target@.windows.len()
                &&& 0 <= i < target@.windows.len() ==> {
                    let before = target@.windows[i];
                    let after = final(target)@.windows[i];
                    &&& before.surface == window.address() ==> after.kill_switch
                        && after.frame is None
                    &&& before.surface != window.address() ==> after == before
                    &&& (InternalWindow {
                        kill_switch: before.kill_switch,
                        frame: before.frame,
                        ..after
                    }) == before
                }
            },
{
}

/// What is read of a window is what its entry says: its size, inside and outside, its
/// identifier, and the monitor at the connector of its frame, which it fills.
pub proof fn law_window_reads_its_entry(
    window: Window,
    store: WindowStore,
    i: int,
    inner: LogicalSize,
    outer: LogicalSize,
    monitor: MonitorHandle,
    fullscreen: Option<Fullscreen<MonitorHandle>>,
    wid: WindowId,
)
    requires
        store.wf(),
        0 <= i < store@.len(),
        store@[i].surface == window.address(),
        call_ensures(Window::inner_size, (&window, &store), inner),
        call_ensures(Window::outer_size, (&window, &store), outer),
        call_ensures(Window::current_monitor, (&window, &store), monitor),
        call_ensures(Window::fullscreen, (&window, &store), fullscreen),
        call_ensures(Window::id, (&window,), wid),
    ensures
        inner.width == store@[i].size.0,
        inner.height == store@[i].size.1,
        outer == inner,
        store@[i].frame matches Some(frame) ==> monitor.handle == frame.connector,
        fullscreen == Some(Fullscreen::Borderless(monitor)),
        wid.0 == store@[i].surface,
{
    lemma_entry_unique(store@, window.address());
}

/// A flip of a window begins by what its frame has on display: nothing, and the controller
/// of the frame is set up; something, and a flip on that controller is queued.
pub proof fn law_window_flips_by_its_frame(
    window: Window,
    store: WindowStore,
    i: int,
    frame: Frame,
    next_bo: usize,
    framebuffer: u32,
    begun: (PageFlip, FlipAction),
)
    requires
        store.wf(),
        0 <= i < store@.len(),
        store@[i].surface == window.address(),
        store@[i].frame == Some(frame),
        call_ensures(Window::page_flip, (&window, &store, next_bo, framebuffer), begun),
    ensures
        begun.0.next_bo == next_bo,
        frame.bo is None ==> begun.0.stage == FlipStage::SettingCrtc && (begun.1 matches
            FlipAction::SetCrtc(config) && config.crtc == frame.crtc && config.framebuffer
            == framebuffer && config.connector == frame.connector && config.position == (0u32, 0u32)
            && config.mode == frame.mode),
        frame.bo is Some ==> begun.0.stage == FlipStage::Queueing && (begun.1 matches
            FlipAction::QueueFlip { crtc, framebuffer: queued } && crtc == frame.crtc && queued
            == framebuffer),
{
    lemma_entry_unique(store@, window.address());
}

/// A flip of a window is complete when the controller has been set up or the card reports
/// it, wherever among its reports, and not before. When it is, the window's frame has the
/// new buffer on display, and nothing else about the window or any other has changed; as
/// long as it is not, nothing has changed at all.
pub proof fn law_window_shows_what_was_flipped(window: Window, reply: FlipReply, i: int)
    ensures
        forall|store: &mut WindowStore, flip: &mut PageFlip, action: FlipAction| #[trigger]
            call_ensures(Window::resume_flip, (&window, store, flip, reply), action)
                && store@.len() > i >= 0 && store@[i].frame is Some ==> {
                let before = store@[i];
                let after = final(store)@[i];
                let complete = match reply {
                    FlipReply::CrtcSet => true,
                    FlipReply::Queued => false,
                    FlipReply::Events(events) => events@.contains(CrtcEvent::PageFlip),
                };
                &&& final(store)@.len() == store@.len()
                &&& final(flip).next_bo == (*flip).next_bo
                &&& complete ==> action == FlipAction::Done && final(flip).stage
                    == FlipStage::Finished
                &&& !complete ==> action == FlipAction::ReceiveEvents && final(flip).stage
                    == FlipStage::Waiting && final(store)@ == store@
                &&& before.surface != window.address() ==> after == before
                &&& before.surface == window.address() && complete ==> (after.frame matches Some(
                    frame,
                ) && frame.bo == Some((*flip).next_bo) && Some(
                    Frame { bo: before.frame->0.bo, ..frame },
                ) == before.frame)
                &&& (InternalWindow { frame: before.frame, ..after }) == before
            },
{
    if let FlipReply::Events(events) = reply {
        let reports = events@;
        if reports.contains(CrtcEvent::PageFlip) {
            let k = choose|k: int| 0 <= k < reports.len() && reports[k] == CrtcEvent::PageFlip;
            assert(reports[k] is PageFlip);
            assert(completes(reply));
        } else {
            assert forall|k: int| 0 <= k < reports.len() implies !(
            #[trigger] reports[k] is PageFlip) by {
                assert(reports[k] != CrtcEvent::PageFlip);
            }
            assert(!completes(reply));
        }
    }
}

/// What the platform does not offer changes nothing about any window.
pub proof fn law_unoffered_calls_change_nothing(
    window: Window,
    title: &str,
    wanted: bool,
    pos: LogicalPosition,
    dimensions: Option<LogicalSize>,
    cursor: CursorIcon,
)
    ensures
        forall|store: &mut WindowStore| #[trigger]
            call_ensures(Window::set_title, (&window, store, title), ()) ==> *final(store)
                == *store,
        forall|store: &mut WindowStore| #[trigger]
            call_ensures(Window::set_visible, (&window, store, wanted), ()) ==> *final(store)
                == *store,
        forall|store: &mut WindowStore| #[trigger]
            call_ensures(Window::set_outer_position, (&window, store, pos), ()) ==> *final(store)
                == *store,
        forall|store: &mut WindowStore| #[trigger]
            call_ensures(Window::set_min_inner_size, (&window, store, dimensions), ())
                ==> *final(store) == *store,
        forall|store: &mut WindowStore| #[trigger]
            call_ensures(Window::set_max_inner_size, (&window, store, dimensions), ())
                ==> *final(store) == *store,
        forall|store: &mut WindowStore| #[trigger]
            call_ensures(Window::set_resizable, (&window, store, wanted), ()) ==> *final(store)
                == *store,
        forall|store: &mut WindowStore| #[trigger]
            call_ensures(Window::set_maximized, (&window, store, wanted), ()) ==> *final(store)
                == *store,
        forall|store: &mut WindowStore| #[trigger]
            call_ensures(Window::set_cursor_icon, (&window, store, cursor), ()) ==> *final(store)
                == *store,
        forall|store: &mut WindowStore| #[trigger]
            call_ensures(Window::set_cursor_visible, (&window, store, wanted), ())
                ==> *final(store) == *store,
{
}

/// Windows have no position and are not scaled, and the cursor can be neither grabbed nor
/// moved, whatever is asked for.
pub proof fn law_unoffered_calls_are_refused(
    window: Window,
    wanted: bool,
    pos: LogicalPosition,
    outer: Result<LogicalPosition, NotSupportedError>,
    inner: Result<LogicalPosition, NotSupportedError>,
    grabbed: Result<(), ExternalError>,
    moved: Result<(), ExternalError>,
    factor: i32,
)
    requires
        call_ensures(Window::outer_position, (&window,), outer),
        call_ensures(Window::inner_position, (&window,), inner),
        call_ensures(Window::set_cursor_grab, (&window, wanted), grabbed),
        call_ensures(Window::set_cursor_position, (&window, pos), moved),
        call_ensures(Window::scale_factor, (&window,), factor),
    ensures
        outer is Err,
        inner is Err,
        grabbed is Err,
        moved is Err,
        factor == 1,
{
}

/// A window lists the same monitors as the card, and the same one first.
pub proof fn law_window_lists_the_monitors(
    window: Window,
    connectors: Vec<Option<ConnectorInfo>>,
    monitors: VecDeque<MonitorHandle>,
    primary: Option<MonitorHandle>,
)
    requires
        call_ensures(Window::available_monitors, (&window, &connectors), monitors),
        call_ensures(Window::primary_monitor, (&window, &connectors), primary),
    ensures
        monitors@ == monitors_of(connectors@),
        primary is Some <==> monitors@.len() > 0,
        primary matches Some(monitor) ==> monitor.handle == monitors@[0].handle,
{
}

} // verus!
