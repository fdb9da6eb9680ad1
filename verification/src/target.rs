//! What windows are made on: the store of windows, and the switch by which a window that
//! goes asks the loop to clean up.
use crate::event::{Event, WindowEvent};
use crate::ids::{make_wid, WindowId};
use crate::sink::{window_event, WindowEventsSink};
use crate::store::{dead_ids, has_window, living, open_windows, settle_all, settled, update_of, well_formed};
use crate::store::{entry, lemma_entry_unique, lemma_living_well_formed};
use crate::store::{InternalWindow, WindowStore, WindowUpdate};
use vstd::prelude::*;

verus! {

/// The store of windows and the clean-up switch.
pub struct EventLoopWindowTarget {
    pub store: WindowStore,
    pub cleanup_needed: bool,
}

/// What a target holds.
pub struct TargetView {
    pub windows: Seq<InternalWindow>,
    pub cleanup_needed: bool,
}

impl View for EventLoopWindowTarget {
    type V = TargetView;

    open spec fn view(&self) -> TargetView {
        TargetView { windows: self.store@, cleanup_needed: self.cleanup_needed }
    }
}

impl TargetView {
    /// The store is well-formed, and whenever a window in it is gone, a clean-up has been
    /// asked for.
    pub open spec fn wf(self) -> bool {
        &&& well_formed(self.windows)
        &&& self.cleanup_needed || forall|i: int|
            0 <= i < self.windows.len() ==> !(#[trigger] self.windows[i]).kill_switch
    }
}

/// What the loop has to tell of a window, in this order.
pub open spec fn notices<T>(update: WindowUpdate) -> Seq<Event<T>> {
    let wid = WindowId(update.surface);
    (match update.new_dpi {
        Some(dpi) => seq![window_event(WindowEvent::HiDpiFactorChanged(dpi), wid)],
        None => seq![],
    }) + (if update.refresh {
        seq![window_event(WindowEvent::RedrawRequested, wid)]
    } else {
        seq![]
    }) + (if update.closed {
        seq![window_event(WindowEvent::CloseRequested, wid)]
    } else {
        seq![]
    })
}

/// What the loop has to tell of `windows`, window by window.
pub open spec fn all_notices<T>(windows: Seq<InternalWindow>) -> Seq<Event<T>> {
    windows.flat_map(|w: InternalWindow| notices::<T>(update_of(w)))
}

/// The events that windows are gone.
pub open spec fn destroyed<T>(wids: Seq<WindowId>) -> Seq<Event<T>> {
    wids.map_values(|wid: WindowId| window_event::<T>(WindowEvent::Destroyed, wid))
}

/// The windows that are left once a clean-up that was asked for is done.
pub open spec fn remaining(target: TargetView) -> Seq<InternalWindow> {
    if target.cleanup_needed {
        living(target.windows)
    } else {
        target.windows
    }
}

/// The events that a target gives rise to: first those of the windows that a clean-up
/// removes, then what there is to tell of those that remain.
pub open spec fn trigger_events<T>(target: TargetView) -> Seq<Event<T>> {
    (if target.cleanup_needed {
        destroyed(dead_ids(target.windows))
    } else {
        seq![]
    }) + all_notices(remaining(target))
}

/// The target once all of that has been told.
pub open spec fn triggered(target: TargetView) -> TargetView {
    TargetView { windows: settle_all(remaining(target)), cleanup_needed: false }
}

impl EventLoopWindowTarget {
    /// A target without windows.
    pub fn new() -> (target: EventLoopWindowTarget)
        ensures
            target@ == (TargetView {
                windows: Seq::<InternalWindow>::empty(),
                cleanup_needed: false,
            }),
            target@.wf(),
    {
        EventLoopWindowTarget { store: WindowStore::new(), cleanup_needed: false }
    }

    /// Cleans up if that was asked for, and sends to `sink` all that there is to tell of
    /// the windows. What has been told is not told again.
    pub fn post_dispatch_triggers<T>(&mut self, sink: &mut WindowEventsSink<T>)
        requires
            old(self)@.wf(),
        ensures
            final(sink)@ == old(sink)@ + trigger_events(old(self)@),
            final(self)@ == triggered(old(self)@),
            final(self)@.wf(),
            open_windows(final(self)@.windows) == open_windows(old(self)@.windows),
    {
        let ghost before = self@;
        let ghost sent = sink@;
        // prune possible dead windows
        if self.cleanup_needed {
            let pruned = self.store.cleanup();
            self.cleanup_needed = false;
            let mut i: usize = 0;
            while i < pruned.len()
                invariant
                    i <= pruned@.len(),
                    sink@ == sent + destroyed(pruned@.take(i as int)),
                decreases pruned@.len() - i,
            {
                sink.send_window_event(WindowEvent::Destroyed, pruned[i]);
                proof {
                    let more = destroyed::<T>(pruned@.take(i + 1));
                    assert(more == destroyed::<T>(pruned@.take(i as int)).push(
                        window_event(WindowEvent::Destroyed, pruned@[i as int]),
                    ));
                }
                i += 1;
            }
            assert(pruned@.take(pruned@.len() as int) == pruned@);
        }
        let ghost left = remaining(before);
        assert(self.store@ == left);
        // process pending resize/refresh
        let updates = self.store.for_each();
        let ghost pruning_sent = sink@;
        let ghost f = |w: InternalWindow| notices::<T>(update_of(w));
        let mut i: usize = 0;
        assert(left.take(0).flat_map(f) == Seq::<Event<T>>::empty());
        while i < updates.len()
            invariant
                i <= updates@.len(),
                updates@ == left.map_values(|w: InternalWindow| update_of(w)),
                f == (|w: InternalWindow| notices::<T>(update_of(w))),
                sink@ == pruning_sent + left.take(i as int).flat_map(f),
            decreases updates@.len() - i,
        {
            proof {
                left.lemma_flat_map_take_append(f, i as int);
            }
            let ghost told = sink@;
            send_notices(sink, &updates[i]);
            assert(sink@ == told + notices::<T>(update_of(left[i as int])));
            assert(sink@ == pruning_sent + left.take(i + 1).flat_map(f));
            i += 1;
        }
        proof {
            assert(left.take(left.len() as int) == left);
            assert(sink@ == sent + trigger_events(before));
            lemma_triggered_lives(before);
        }
    }
}

/// Sends to `sink` what there is to tell of a window.
fn send_notices<T>(sink: &mut WindowEventsSink<T>, update: &WindowUpdate)
    ensures
        final(sink)@ == old(sink)@ + notices(*update),
{
    if let Some(dpi) = update.new_dpi {
        sink.send_window_event(WindowEvent::HiDpiFactorChanged(dpi), make_wid(update.surface));
    }
    if update.refresh {
        sink.send_window_event(WindowEvent::RedrawRequested, make_wid(update.surface));
    }
    if update.closed {
        sink.send_window_event(WindowEvent::CloseRequested, make_wid(update.surface));
    }
}

/// All that there is to tell of windows happened to windows.
pub proof fn law_windows_are_told_of_by_window_events<T>(target: TargetView)
    ensures
        forall|i: int|
            0 <= i < trigger_events::<T>(target).len() ==> (#[trigger] trigger_events::<T>(
                target,
            )[i]) is WindowEvent,
{
    lemma_notices_are_window_events::<T>(remaining(target));
}

proof fn lemma_notices_are_window_events<T>(windows: Seq<InternalWindow>)
    ensures
        forall|i: int|
            0 <= i < all_notices::<T>(windows).len() ==> (#[trigger] all_notices::<T>(
                windows,
            )[i]) is WindowEvent,
    decreases windows.len(),
{
    let f = |w: InternalWindow| notices::<T>(update_of(w));
    if windows.len() > 0 {
        let rest = windows.drop_last();
        lemma_notices_are_window_events::<T>(rest);
        assert(windows == rest.push(windows.last()));
        rest.lemma_flat_map_push(f, windows.last());
        assert(all_notices::<T>(windows) == all_notices::<T>(rest) + f(windows.last()));
    }
}

/// A target that has been triggered is valid, and no window in it is gone.
pub(crate) proof fn lemma_triggered_lives(target: TargetView)
    requires
        target.wf(),
    ensures
        triggered(target).wf(),
        forall|i: int|
            0 <= i < triggered(target).windows.len() ==> !(
            #[trigger] triggered(target).windows[i]).kill_switch,
{
    lemma_living_well_formed(target.windows);
    let left = remaining(target);
    assert forall|i: int| 0 <= i < left.len() implies #[trigger] triggered(target).windows[i]
        == settled(left[i]) by {}
    if target.cleanup_needed {
        let lives = |w: InternalWindow| !w.kill_switch;
        assert forall|i: int| 0 <= i < living(target.windows).len() implies !(
        #[trigger] living(target.windows)[i]).kill_switch by {
            target.windows.lemma_filter_pred(lives, i);
        }
    }
}

/// Nothing is told twice: a target that has been triggered gives rise to no events until
/// something happens.
pub proof fn law_nothing_is_told_twice<T>(target: TargetView)
    ensures
        trigger_events::<T>(triggered(target)) == Seq::<Event<T>>::empty(),
{
    lemma_settled_is_silent::<T>(remaining(target));
}

/// There is nothing to tell of settled windows.
proof fn lemma_settled_is_silent<T>(windows: Seq<InternalWindow>)
    ensures
        all_notices::<T>(settle_all(windows)) == Seq::<Event<T>>::empty(),
    decreases windows.len(),
{
    let f = |w: InternalWindow| notices::<T>(update_of(w));
    if windows.len() > 0 {
        let rest = settle_all(windows.drop_last());
        lemma_settled_is_silent::<T>(windows.drop_last());
        assert(settle_all(windows) == rest.push(settled(windows.last())));
        rest.lemma_flat_map_push(f, settled(windows.last()));
    }
}

/// A window that lives is settled when it has been told of; nothing else about it
/// changes.
pub proof fn law_told_windows_are_settled(target: TargetView, surface: usize)
    requires
        target.wf(),
        open_windows(target.windows).contains(surface),
    ensures
        has_window(triggered(target).windows, surface),
        entry(triggered(target).windows, surface) == settled(entry(target.windows, surface)),
{
    let windows = target.windows;
    let left = remaining(target);
    let after = triggered(target).windows;
    lemma_entry_unique(windows, surface);
    let k = choose|i: int| 0 <= i < windows.len() && (#[trigger] windows[i]).surface == surface;
    assert(windows[k] == entry(windows, surface));
    let j = if target.cleanup_needed {
        lemma_living_well_formed(windows);
        windows.lemma_filter_contains(|w: InternalWindow| !w.kill_switch, k);
        choose|j: int| 0 <= j < left.len() && left[j] == windows[k]
    } else {
        k
    };
    assert(left[j] == windows[k]);
    assert(after[j] == settled(left[j]));
    assert forall|l: int|
        0 <= l < after.len() && (#[trigger] after[l]).surface == surface implies after[l]
        == after[j] by {
        assert(after[l] == settled(left[l]));
        assert(left[l].surface == left[j].surface);
    }
}

/// `event` happened to the window `wid`.
pub open spec fn concerns<T>(event: Event<T>, wid: WindowId) -> bool {
    event matches Event::WindowEvent { window_id, .. } && window_id == wid
}

/// Those of `events` that happened to the window with that surface.
pub open spec fn told_of<T>(events: Seq<Event<T>>, surface: usize) -> Seq<Event<T>> {
    events.filter(|event: Event<T>| concerns(event, WindowId(surface)))
}

/// A window that waits to be told to draw is told so, unless it is gone.
pub proof fn law_waiting_window_is_told_to_draw<T>(target: TargetView, surface: usize)
    requires
        target.wf(),
        open_windows(target.windows).contains(surface),
        entry(target.windows, surface).need_refresh,
    ensures
        trigger_events::<T>(target).contains(
            window_event::<T>(WindowEvent::RedrawRequested, WindowId(surface)),
        ),
{
    let windows = target.windows;
    lemma_entry_unique(windows, surface);
    let k = choose|i: int| 0 <= i < windows.len() && (#[trigger] windows[i]).surface == surface;
    assert(windows[k] == entry(windows, surface));
    law_each_window_is_told_of::<T>(target, k);
    let told = told_of(trigger_events::<T>(target), surface);
    let at = if windows[k].new_dpi is Some {
        1int
    } else {
        0int
    };
    let redraw = window_event::<T>(WindowEvent::RedrawRequested, WindowId(surface));
    assert(told[at] == redraw);
    trigger_events::<T>(target).lemma_filter_contains_rev(
        |event: Event<T>| concerns(event, WindowId(surface)),
        redraw,
    );
}

/// How often `events` tell the window with that surface to draw.
pub open spec fn redraws<T>(events: Seq<Event<T>>, surface: usize) -> nat {
    events.filter(
        |event: Event<T>| event == window_event::<T>(
            WindowEvent::RedrawRequested,
            WindowId(surface),
        ),
    ).len()
}

/// However often a window has asked to be drawn, it is told so once.
pub proof fn law_requests_are_told_once<T>(target: TargetView, surface: usize)
    requires
        target.wf(),
    ensures
        redraws(trigger_events::<T>(target), surface) <= 1,
{
    let events = trigger_events::<T>(target);
    let told = told_of(events, surface);
    lemma_redraws_are_told_of(events, surface);
    reveal_with_fuel(Seq::filter, 5);
    if has_window(target.windows, surface) {
        let windows = target.windows;
        let k = choose|i: int|
            0 <= i < windows.len() && (#[trigger] windows[i]).surface == surface;
        law_each_window_is_told_of::<T>(target, k);
    } else {
        law_unknown_window_is_not_told_of::<T>(target, surface);
    }
}

/// That a window is to draw concerns it.
proof fn lemma_redraws_are_told_of<T>(events: Seq<Event<T>>, surface: usize)
    ensures
        redraws(events, surface) == redraws(told_of(events, surface), surface),
    decreases events.len(),
{
    reveal(Seq::filter);
    let p = |event: Event<T>| concerns(event, WindowId(surface));
    let q = |event: Event<T>|
        event == window_event::<T>(WindowEvent::RedrawRequested, WindowId(surface));
    if events.len() > 0 {
        let rest = events.drop_last();
        lemma_redraws_are_told_of(rest, surface);
        if p(events.last()) {
            let told = told_of(rest, surface);
            assert(told.push(events.last()).drop_last() == told);
        }
    }
}

/// Every window gets what there is to tell of it and nothing else: one that is gone gets
/// the one event that it is destroyed.
pub proof fn law_each_window_is_told_of<T>(target: TargetView, k: int)
    requires
        target.wf(),
        0 <= k < target.windows.len(),
    ensures
        told_of(trigger_events::<T>(target), target.windows[k].surface) == (
        if target.windows[k].kill_switch {
            seq![window_event::<T>(WindowEvent::Destroyed, WindowId(target.windows[k].surface))]
        } else {
            notices(update_of(target.windows[k]))
        }),
{
    let windows = target.windows;
    let w = windows[k];
    let p = |event: Event<T>| concerns(event, WindowId(w.surface));
    let gone = if target.cleanup_needed {
        destroyed::<T>(dead_ids(windows))
    } else {
        seq![]
    };
    Seq::filter_distributes_over_add(gone, all_notices::<T>(remaining(target)), p);
    if target.cleanup_needed {
        lemma_destroyed_told::<T>(windows, k);
        lemma_living_well_formed(windows);
        let alive = |w: InternalWindow| !w.kill_switch;
        if w.kill_switch {
            assert forall|j: int| 0 <= j < living(windows).len() implies (
            #[trigger] living(windows)[j]).surface != w.surface by {
                windows.lemma_filter_pred(alive, j);
                let i = choose|i: int| 0 <= i < windows.len() && windows[i] == living(windows)[j];
                assert(windows[i].surface != w.surface || i == k);
            }
            lemma_absent_told::<T>(living(windows), w.surface);
        } else {
            windows.lemma_filter_contains(alive, k);
            let j = choose|j: int| 0 <= j < living(windows).len() && living(windows)[j] == w;
            lemma_notices_told::<T>(living(windows), j);
        }
    } else {
        assert(!windows[k].kill_switch);
        reveal(Seq::filter);
        lemma_notices_told::<T>(windows, k);
    }
}

/// Of a window that the store does not know, nothing is told.
pub proof fn law_unknown_window_is_not_told_of<T>(target: TargetView, surface: usize)
    requires
        target.wf(),
        !has_window(target.windows, surface),
    ensures
        told_of(trigger_events::<T>(target), surface) == Seq::<Event<T>>::empty(),
{
    let windows = target.windows;
    let p = |event: Event<T>| concerns(event, WindowId(surface));
    let gone = if target.cleanup_needed {
        destroyed::<T>(dead_ids(windows))
    } else {
        seq![]
    };
    Seq::filter_distributes_over_add(gone, all_notices::<T>(remaining(target)), p);
    if target.cleanup_needed {
        lemma_absent_destroyed::<T>(windows, surface);
        lemma_living_well_formed(windows);
        assert forall|j: int| 0 <= j < living(windows).len() implies (
        #[trigger] living(windows)[j]).surface != surface by {
            let i = choose|i: int| 0 <= i < windows.len() && windows[i] == living(windows)[j];
            assert(windows[i].surface != surface);
        }
    } else {
        reveal(Seq::filter);
    }
    lemma_absent_told::<T>(remaining(target), surface);
}

/// A filter that lets everything pass changes nothing.
proof fn lemma_filter_all<A>(s: Seq<A>, p: spec_fn(A) -> bool)
    requires
        forall|i: int| 0 <= i < s.len() ==> p(#[trigger] s[i]),
    ensures
        s.filter(p) == s,
    decreases s.len(),
{
    reveal(Seq::filter);
    if s.len() > 0 {
        lemma_filter_all(s.drop_last(), p);
        assert(p(s[s.len() - 1]));
        assert(s.drop_last().push(s.last()) == s);
    }
}

/// A filter that lets nothing pass leaves nothing.
proof fn lemma_filter_none<A>(s: Seq<A>, p: spec_fn(A) -> bool)
    requires
        forall|i: int| 0 <= i < s.len() ==> !p(#[trigger] s[i]),
    ensures
        s.filter(p) == Seq::<A>::empty(),
    decreases s.len(),
{
    reveal(Seq::filter);
    if s.len() > 0 {
        lemma_filter_none(s.drop_last(), p);
        assert(!p(s[s.len() - 1]));
    }
}

/// All that is told of one window concerns that window.
proof fn lemma_notices_concern<T>(update: WindowUpdate, surface: usize)
    ensures
        told_of(notices::<T>(update), surface) == (if update.surface == surface {
            notices::<T>(update)
        } else {
            seq![]
        }),
{
    let p = |event: Event<T>| concerns(event, WindowId(surface));
    let told = notices::<T>(update);
    assert forall|i: int| 0 <= i < told.len() implies concerns(
        #[trigger] told[i],
        WindowId(update.surface),
    ) by {}
    if update.surface == surface {
        lemma_filter_all(told, p);
    } else {
        lemma_filter_none(told, p);
    }
}

/// Where no window has that surface, nothing is told of it.
proof fn lemma_absent_told<T>(windows: Seq<InternalWindow>, surface: usize)
    requires
        forall|i: int| 0 <= i < windows.len() ==> (#[trigger] windows[i]).surface != surface,
    ensures
        told_of(all_notices::<T>(windows), surface) == Seq::<Event<T>>::empty(),
    decreases windows.len(),
{
    let f = |w: InternalWindow| notices::<T>(update_of(w));
    let p = |event: Event<T>| concerns(event, WindowId(surface));
    if windows.len() > 0 {
        let rest = windows.drop_last();
        let last = windows.last();
        lemma_absent_told::<T>(rest, surface);
        assert(windows == rest.push(last));
        rest.lemma_flat_map_push(f, last);
        Seq::filter_distributes_over_add(all_notices::<T>(rest), f(last), p);
        lemma_notices_concern::<T>(update_of(last), surface);
    } else {
        reveal(Seq::filter);
    }
}

/// Of the notices, those of a window are its own.
proof fn lemma_notices_told<T>(windows: Seq<InternalWindow>, k: int)
    requires
        well_formed(windows),
        0 <= k < windows.len(),
    ensures
        told_of(all_notices::<T>(windows), windows[k].surface) == notices::<T>(
            update_of(windows[k]),
        ),
    decreases windows.len(),
{
    let surface = windows[k].surface;
    let f = |w: InternalWindow| notices::<T>(update_of(w));
    let p = |event: Event<T>| concerns(event, WindowId(surface));
    let rest = windows.drop_last();
    let last = windows.last();
    assert(windows == rest.push(last));
    rest.lemma_flat_map_push(f, last);
    Seq::filter_distributes_over_add(all_notices::<T>(rest), f(last), p);
    lemma_notices_concern::<T>(update_of(last), surface);
    if k == windows.len() - 1 {
        lemma_absent_told::<T>(rest, surface);
    } else {
        lemma_notices_told::<T>(rest, k);
    }
}

/// The events of the windows that are gone, with one window more.
proof fn lemma_destroyed_push<T>(windows: Seq<InternalWindow>)
    requires
        windows.len() > 0,
    ensures
        destroyed::<T>(dead_ids(windows)) == (if windows.last().kill_switch {
            destroyed::<T>(dead_ids(windows.drop_last())).push(
                window_event(WindowEvent::Destroyed, WindowId(windows.last().surface)),
            )
        } else {
            destroyed::<T>(dead_ids(windows.drop_last()))
        }),
{
}

/// Where no window has that surface, none with it is destroyed.
proof fn lemma_absent_destroyed<T>(windows: Seq<InternalWindow>, surface: usize)
    requires
        forall|i: int| 0 <= i < windows.len() ==> (#[trigger] windows[i]).surface != surface,
    ensures
        told_of(destroyed::<T>(dead_ids(windows)), surface) == Seq::<Event<T>>::empty(),
    decreases windows.len(),
{
    reveal(Seq::filter);
    if windows.len() > 0 {
        let rest = windows.drop_last();
        lemma_absent_destroyed::<T>(rest, surface);
        lemma_destroyed_push::<T>(windows);
        assert(destroyed::<T>(dead_ids(windows)).drop_last() == destroyed::<T>(dead_ids(rest))
            || !windows.last().kill_switch);
    }
}

/// A window is destroyed once if it is gone, and not if it is not.
proof fn lemma_destroyed_told<T>(windows: Seq<InternalWindow>, k: int)
    requires
        well_formed(windows),
        0 <= k < windows.len(),
    ensures
        told_of(destroyed::<T>(dead_ids(windows)), windows[k].surface) == (
        if windows[k].kill_switch {
            seq![window_event::<T>(WindowEvent::Destroyed, WindowId(windows[k].surface))]
        } else {
            seq![]
        }),
    decreases windows.len(),
{
    reveal(Seq::filter);
    let rest = windows.drop_last();
    lemma_destroyed_push::<T>(windows);
    assert(destroyed::<T>(dead_ids(windows)).drop_last() == destroyed::<T>(dead_ids(rest))
        || !windows.last().kill_switch);
    if k == windows.len() - 1 {
        lemma_absent_destroyed::<T>(rest, windows[k].surface);
    } else {
        lemma_destroyed_told::<T>(rest, k);
    }
}

/// A window that lives is told the scale factor that it is to get, that it should draw if
/// that was asked for, and that it was asked to close if it was, in this order, each of
/// them once, and nothing else.
pub proof fn law_living_window_is_told_what_waits<T>(target: TargetView, k: int)
    requires
        target.wf(),
        0 <= k < target.windows.len(),
        !target.windows[k].kill_switch,
    ensures
        ({
            let w = target.windows[k];
            let window_id = WindowId(w.surface);
            let told = told_of(trigger_events::<T>(target), w.surface);
            let dpis: int = if w.new_dpi is Some {
                1
            } else {
                0
            };
            let redraws: int = if w.need_refresh {
                1
            } else {
                0
            };
            let closes: int = if w.closed {
                1
            } else {
                0
            };
            &&& told.len() == dpis + redraws + closes
            &&& w.new_dpi matches Some(dpi) ==> told[0] == (Event::<T>::WindowEvent {
                window_id,
                event: WindowEvent::HiDpiFactorChanged(dpi),
            })
            &&& w.need_refresh ==> told[dpis] == (Event::<T>::WindowEvent {
                window_id,
                event: WindowEvent::RedrawRequested,
            })
            &&& w.closed ==> told[dpis + redraws] == (Event::<T>::WindowEvent {
                window_id,
                event: WindowEvent::CloseRequested,
            })
        }),
{
    law_each_window_is_told_of::<T>(target, k);
}

/// A window that is gone is told that it is destroyed, once, and nothing else.
pub proof fn law_gone_window_is_told_its_end<T>(target: TargetView, k: int)
    requires
        target.wf(),
        0 <= k < target.windows.len(),
        target.windows[k].kill_switch,
    ensures
        ({
            let told = told_of(trigger_events::<T>(target), target.windows[k].surface);
            &&& told.len() == 1
            &&& told[0] == (Event::<T>::WindowEvent {
                window_id: WindowId(target.windows[k].surface),
                event: WindowEvent::Destroyed,
            })
        }),
{
    law_each_window_is_told_of::<T>(target, k);
}

/// The ends of windows are told before anything else, in the store's order; after them no
/// end is told.
pub proof fn law_ends_are_told_first<T>(target: TargetView, i: int)
    requires
        target.wf(),
        0 <= i < trigger_events::<T>(target).len(),
    ensures
        dead_ids(target.windows).len() <= trigger_events::<T>(target).len(),
        i < dead_ids(target.windows).len() ==> trigger_events::<T>(target)[i] == (
        Event::<T>::WindowEvent {
            window_id: dead_ids(target.windows)[i],
            event: WindowEvent::Destroyed,
        }),
        i >= dead_ids(target.windows).len() ==> (trigger_events::<T>(target)[i] matches
            Event::WindowEvent { event, .. } && event != WindowEvent::Destroyed),
{
    lemma_notices_tell_no_end::<T>(remaining(target));
    if !target.cleanup_needed {
        lemma_all_live(target.windows);
    }
}

proof fn lemma_notices_tell_no_end<T>(windows: Seq<InternalWindow>)
    ensures
        forall|i: int|
            0 <= i < all_notices::<T>(windows).len() ==> (#[trigger] all_notices::<T>(windows)[i]
                matches Event::WindowEvent { event, .. } && event != WindowEvent::Destroyed),
    decreases windows.len(),
{
    let f = |w: InternalWindow| notices::<T>(update_of(w));
    if windows.len() > 0 {
        let rest = windows.drop_last();
        lemma_notices_tell_no_end::<T>(rest);
        assert(windows == rest.push(windows.last()));
        rest.lemma_flat_map_push(f, windows.last());
        assert(all_notices::<T>(windows) == all_notices::<T>(rest) + f(windows.last()));
    }
}

/// Where no window is gone, all are kept and none is pruned.
proof fn lemma_all_live(windows: Seq<InternalWindow>)
    requires
        forall|i: int| 0 <= i < windows.len() ==> !(#[trigger] windows[i]).kill_switch,
    ensures
        living(windows) == windows,
        dead_ids(windows).len() == 0,
    decreases windows.len(),
{
    lemma_filter_all(windows, |w: InternalWindow| !w.kill_switch);
    if windows.len() > 0 {
        lemma_all_live(windows.drop_last());
    }
}

/// What there is to tell of windows that live is told window by window, in the store's
/// order: of two parts of a store, first all of the one and then all of the other.
pub proof fn law_windows_are_told_of_in_order<T>(
    a: Seq<InternalWindow>,
    b: Seq<InternalWindow>,
)
    ensures
        trigger_events::<T>(TargetView { windows: a + b, cleanup_needed: false })
            == trigger_events::<T>(TargetView { windows: a, cleanup_needed: false })
            + trigger_events::<T>(TargetView { windows: b, cleanup_needed: false }),
{
    lemma_notices_add::<T>(a, b);
}

proof fn lemma_notices_add<T>(a: Seq<InternalWindow>, b: Seq<InternalWindow>)
    ensures
        all_notices::<T>(a + b) == all_notices::<T>(a) + all_notices::<T>(b),
    decreases b.len(),
{
    let f = |w: InternalWindow| notices::<T>(update_of(w));
    if b.len() == 0 {
        assert(a + b == a);
        assert(all_notices::<T>(b) == Seq::<Event<T>>::empty());
        assert(all_notices::<T>(a) + all_notices::<T>(b) == all_notices::<T>(a));
    } else {
        let rest = b.drop_last();
        lemma_notices_add::<T>(a, rest);
        assert(b == rest.push(b.last()));
        assert(a + b == (a + rest).push(b.last()));
        rest.lemma_flat_map_push(f, b.last());
        (a + rest).lemma_flat_map_push(f, b.last());
        assert(all_notices::<T>(a) + (all_notices::<T>(rest) + f(b.last())) == (all_notices::<T>(a)
            + all_notices::<T>(rest)) + f(b.last()));
    }
}

/// A clean-up that was asked for takes away the windows that are gone and is then done;
/// what is told behind the ends is what would be told of the windows that live alone.
pub proof fn law_clean_up_leaves_the_living<T>(target: TargetView)
    requires
        target.wf(),
    ensures
        ({
            let living = TargetView { windows: living(target.windows), cleanup_needed: false };
            let ends = dead_ids(target.windows).len() as int;
            &&& trigger_events::<T>(target).skip(ends) == trigger_events::<T>(living)
            &&& triggered(target).windows == triggered(living).windows
            &&& !triggered(target).cleanup_needed
        }),
{
    if !target.cleanup_needed {
        lemma_all_live(target.windows);
    }
}

/// To tell of the windows takes away what there was to tell and leaves everything else
/// about each window that lives as it was: its size, its surface, and what it is shown
/// with, the buffer on display included. The windows keep their order.
pub proof fn law_telling_leaves_the_windows_alone(target: TargetView, i: int)
    requires
        target.wf(),
        0 <= i < living(target.windows).len(),
    ensures
        triggered(target).windows.len() == living(target.windows).len(),
        ({
            let before = living(target.windows)[i];
            let after = triggered(target).windows[i];
            &&& after.surface == before.surface
            &&& after.size == before.size
            &&& after.fullscreen == before.fullscreen
            &&& after.kill_switch == before.kill_switch
            &&& after.frame == before.frame
            &&& after.newsize is None
            &&& after.new_dpi is None
            &&& !after.need_refresh
            &&& !after.need_frame_refresh
            &&& !after.closed
            &&& before.new_dpi is None ==> after.current_dpi == before.current_dpi
            &&& before.new_dpi is Some ==> Some(after.current_dpi) == before.new_dpi
        }),
{
    if !target.cleanup_needed {
        lemma_all_live(target.windows);
    }
}

/// What there is to tell is sent behind all that the sink holds, and the target is then
/// one that has been told of.
pub proof fn law_triggers_are_sent_last<T>()
    ensures
        forall|target: &mut EventLoopWindowTarget, sink: &mut WindowEventsSink<T>| #[trigger]
            call_ensures(
                EventLoopWindowTarget::post_dispatch_triggers::<T>,
                (target, sink),
                (),
            ) ==> {
                &&& final(sink)@.take(sink@.len() as int) == sink@
                &&& final(sink)@.skip(sink@.len() as int) == trigger_events::<T>(target@)
                &&& final(target)@ == triggered(target@)
            },
{
}

/// A target is valid exactly where its entries are and a clean-up has been asked for
/// unless all windows live.
pub proof fn law_valid_targets(target: TargetView, i: int)
    ensures
        target.wf() && 0 <= i < target.windows.len() && target.windows[i].kill_switch
            ==> target.cleanup_needed,
        target.wf() ==> well_formed(target.windows),
        well_formed(target.windows) && target.cleanup_needed ==> target.wf(),
        well_formed(target.windows) && (forall|k: int|
            0 <= k < target.windows.len() ==> !(#[trigger] target.windows[k]).kill_switch)
            ==> target.wf(),
{
}

/// A new target has no windows and nothing to clean up.
pub proof fn law_new_target_is_empty(target: EventLoopWindowTarget)
    requires
        call_ensures(EventLoopWindowTarget::new, (), target),
    ensures
        target@.windows.len() == 0,
        !target@.cleanup_needed,
{
}

} // verus!
