//! What the user's callback can do to windows while it runs, and what outlasts it.
use crate::card::Resources;
use crate::dpi::LogicalSize;
use crate::store::{changed, entry, has_window, lemma_entry_unique, open_windows};
use crate::store::{well_formed, InternalWindow};
use crate::target::TargetView;
use crate::window::{flipped, killed, monitor_of, new_entry, redrawn, reframed, resized};
use crate::window::{is_possible, with_window, without_window, WindowAttributes};
use crate::window::{law_change_is_read_back, law_change_leaves_the_others};
use crate::window::law_new_window_is_entered;
use vstd::prelude::*;

verus! {

/// A call that changes something about windows.
pub enum WindowCall {
    New { attributes: WindowAttributes, resources: Resources, surface: usize },
    RequestRedraw { surface: usize },
    SetInnerSize { surface: usize, size: LogicalSize },
    SetDecorations { surface: usize },
    /// A page flip comes to its end.
    Flipped { surface: usize, bo: usize },
    Drop { surface: usize },
}

/// The call can be made: a new window has a surface of its own, and every other call is
/// one on a window that lives.
pub open spec fn can_call(target: TargetView, call: WindowCall) -> bool {
    match call {
        WindowCall::New { attributes, surface, .. } => is_possible(attributes) && !has_window(
            target.windows,
            surface,
        ),
        WindowCall::RequestRedraw { surface } => open_windows(target.windows).contains(surface),
        WindowCall::SetInnerSize { surface, .. } => open_windows(target.windows).contains(surface),
        WindowCall::SetDecorations { surface } => open_windows(target.windows).contains(surface),
        WindowCall::Flipped { surface, .. } => open_windows(target.windows).contains(surface),
        WindowCall::Drop { surface } => open_windows(target.windows).contains(surface),
    }
}

/// `target` with `change` made to the window with that surface.
pub open spec fn with_change(
    target: TargetView,
    surface: usize,
    change: spec_fn(InternalWindow) -> InternalWindow,
) -> TargetView {
    TargetView {
        windows: changed(target.windows, surface, change),
        cleanup_needed: target.cleanup_needed,
    }
}

/// The target after the call.
pub open spec fn called(target: TargetView, call: WindowCall) -> TargetView {
    match call {
        WindowCall::New { attributes, resources, surface } => with_window(
            target,
            new_entry(attributes, resources, surface),
        ),
        WindowCall::RequestRedraw { surface } => with_change(
            target,
            surface,
            |w: InternalWindow| redrawn(w),
        ),
        WindowCall::SetInnerSize { surface, size } => with_change(
            target,
            surface,
            |w: InternalWindow| resized(w, size),
        ),
        WindowCall::SetDecorations { surface } => with_change(
            target,
            surface,
            |w: InternalWindow| reframed(w),
        ),
        WindowCall::Flipped { surface, bo } => with_change(
            target,
            surface,
            |w: InternalWindow| flipped(w, bo),
        ),
        WindowCall::Drop { surface } => without_window(target, surface),
    }
}

/// What the call makes of the entry `w` that was there before.
pub open spec fn entry_after(w: InternalWindow, call: WindowCall) -> InternalWindow {
    match call {
        WindowCall::New { .. } => w,
        WindowCall::RequestRedraw { surface } => if w.surface == surface {
            redrawn(w)
        } else {
            w
        },
        WindowCall::SetInnerSize { surface, size } => if w.surface == surface {
            resized(w, size)
        } else {
            w
        },
        WindowCall::SetDecorations { surface } => if w.surface == surface {
            reframed(w)
        } else {
            w
        },
        WindowCall::Flipped { surface, bo } => if w.surface == surface {
            flipped(w, bo)
        } else {
            w
        },
        WindowCall::Drop { surface } => if w.surface == surface {
            killed(w)
        } else {
            w
        },
    }
}

/// A change that keeps what makes an entry valid keeps the store valid.
proof fn lemma_change_keeps_wf(
    windows: Seq<InternalWindow>,
    surface: usize,
    change: spec_fn(InternalWindow) -> InternalWindow,
)
    requires
        well_formed(windows),
        has_window(windows, surface),
        forall|w: InternalWindow| (#[trigger] change(w)).surface == w.surface,
        ({
            let w = change(entry(windows, surface));
            w.fullscreen && (w.frame is Some <==> !w.kill_switch)
        }),
    ensures
        well_formed(changed(windows, surface, change)),
{
    lemma_entry_unique(windows, surface);
    let after = changed(windows, surface, change);
    assert forall|i: int| 0 <= i < windows.len() implies {
        &&& (#[trigger] after[i]).surface == windows[i].surface
        &&& after[i].fullscreen
        &&& after[i].frame is Some <==> !after[i].kill_switch
    } by {
        if windows[i].surface == surface {
            assert(after[i] == change(windows[i]));
        } else {
            assert(after[i] == windows[i]);
        }
    }
    assert forall|i: int, j: int| 0 <= i < j < after.len() implies (#[trigger] after[i]).surface
        != (#[trigger] after[j]).surface by {
        assert(windows[i].surface != windows[j].surface);
    }
}

/// Every call keeps the target valid, knows all windows that were known, and does to
/// each what it says.
pub proof fn law_call_does_what_it_says(target: TargetView, call: WindowCall, surface: usize)
    requires
        target.wf(),
        can_call(target, call),
    ensures
        called(target, call).wf(),
        has_window(target.windows, surface) ==> has_window(called(target, call).windows, surface)
            && entry(called(target, call).windows, surface) == entry_after(
            entry(target.windows, surface),
            call,
        ),
{
    let windows = target.windows;
    if let WindowCall::New { attributes, resources, surface: new_surface } = call {
        let new = new_entry(attributes, resources, new_surface);
        let after = windows.push(new);
        assert forall|i: int| 0 <= i < windows.len() implies (#[trigger] after[i]) == windows[i]
            && windows[i].surface != new_surface by {}
        assert(after[windows.len() as int] == new);
        law_new_window_is_entered(windows, new, surface);
        if has_window(windows, surface) {
            let i = choose|i: int|
                0 <= i < windows.len() && (#[trigger] windows[i]).surface == surface;
            assert(after[i].surface == surface);
        }
    } else {
        let (at, change) = match call {
            WindowCall::RequestRedraw { surface } => (surface, |w: InternalWindow| redrawn(w)),
            WindowCall::SetInnerSize { surface, size } => (
                surface,
                |w: InternalWindow| resized(w, size),
            ),
            WindowCall::SetDecorations { surface } => (surface, |w: InternalWindow| reframed(w)),
            WindowCall::Flipped { surface, bo } => (surface, |w: InternalWindow| flipped(w, bo)),
            WindowCall::Drop { surface } => (surface, |w: InternalWindow| killed(w)),
            WindowCall::New { surface, .. } => (surface, |w: InternalWindow| w),
        };
        lemma_entry_unique(windows, at);
        lemma_change_keeps_wf(windows, at, change);
        let after = changed(windows, at, change);
        assert(called(target, call).windows == after);
        if !(call is Drop) {
            assert forall|i: int| 0 <= i < after.len() implies (
            #[trigger] after[i]).kill_switch == windows[i].kill_switch by {}
        }
        if has_window(windows, surface) {
            lemma_entry_unique(windows, surface);
            if surface == at {
                law_change_is_read_back(windows, at, change);
            } else {
                law_change_leaves_the_others(windows, at, change, surface);
            }
        }
    }
}

/// The window has asked to be drawn and not been told yet, or it is gone.
pub open spec fn waits_or_gone(target: TargetView, surface: usize) -> bool {
    has_window(target.windows, surface) && (entry(target.windows, surface).need_refresh || entry(
        target.windows,
        surface,
    ).kill_switch)
}

/// A window that has asked to be drawn goes on waiting to be told so, whatever is called,
/// unless it goes; and it waits once it has asked.
pub proof fn law_request_outlasts_a_call(target: TargetView, call: WindowCall, surface: usize)
    requires
        target.wf(),
        can_call(target, call),
        waits_or_gone(target, surface) || call == (WindowCall::RequestRedraw { surface }),
    ensures
        waits_or_gone(called(target, call), surface),
{
    law_call_does_what_it_says(target, call, surface);
    lemma_entry_unique(target.windows, surface);
}

/// The window fills the monitor at that connector.
pub open spec fn fills(target: TargetView, surface: usize, connector: u32) -> bool {
    &&& open_windows(target.windows).contains(surface)
    &&& entry(target.windows, surface).fullscreen
    &&& monitor_of(entry(target.windows, surface)).handle == connector
}

/// A window that is made fills the monitor that it is made on.
pub proof fn law_new_window_fills_its_monitor(
    target: TargetView,
    attributes: WindowAttributes,
    resources: Resources,
    surface: usize,
)
    requires
        target.wf(),
        can_call(target, WindowCall::New { attributes, resources, surface }),
    ensures
        fills(
            called(target, WindowCall::New { attributes, resources, surface }),
            surface,
            resources.connector,
        ),
{
    let new = WindowCall::New { attributes, resources, surface };
    let made = called(target, new);
    law_call_does_what_it_says(target, new, surface);
    let entered = new_entry(attributes, resources, surface);
    assert(made.windows[target.windows.len() as int] == entered);
    lemma_entry_unique(made.windows, surface);
}

/// A window fills the same monitor for as long as it lives, whatever is called.
pub proof fn law_monitor_outlasts_a_call(
    target: TargetView,
    call: WindowCall,
    surface: usize,
    connector: u32,
)
    requires
        target.wf(),
        can_call(target, call),
        fills(target, surface, connector),
        open_windows(called(target, call).windows).contains(surface),
    ensures
        fills(called(target, call), surface, connector),
{
    law_call_does_what_it_says(target, call, surface);
    lemma_entry_unique(target.windows, surface);
    lemma_entry_unique(called(target, call).windows, surface);
}

} // verus!
