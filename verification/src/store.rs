//! The store of windows: what the loop knows of each window, and what a window and the
//! loop tell each other through it.
use crate::flip::Frame;
use crate::ids::{make_wid, WindowId};
use vstd::prelude::*;

verus! {

/// What the loop knows of a window.
#[derive(Debug, Copy, Clone, PartialEq, Eq)]
pub struct InternalWindow {
    /// The address of the surface that the window draws to.
    pub surface: usize,
    /// A size that the window is to get.
    pub newsize: Option<(u32, u32)>,
    pub size: (u32, u32),
    /// The window should be drawn again.
    pub need_refresh: bool,
    pub fullscreen: bool,
    /// The frame around the window should be drawn again.
    pub need_frame_refresh: bool,
    /// The window was asked to close.
    pub closed: bool,
    /// The window is gone, and its entry should go too.
    pub kill_switch: bool,
    /// What the window is shown with, as long as there is a window.
    pub frame: Option<Frame>,
    pub current_dpi: i32,
    /// A scale factor that the window is to get.
    pub new_dpi: Option<i32>,
}

/// What has become of a window since it was last looked at.
#[derive(Debug, Copy, Clone, PartialEq, Eq)]
pub struct WindowUpdate {
    pub newsize: Option<(u32, u32)>,
    pub size: (u32, u32),
    pub new_dpi: Option<i32>,
    pub refresh: bool,
    pub frame_refresh: bool,
    pub closed: bool,
    pub surface: usize,
    pub frame: Option<Frame>,
}

/// What has become of `w`.
pub open spec fn update_of(w: InternalWindow) -> WindowUpdate {
    WindowUpdate {
        newsize: w.newsize,
        size: w.size,
        new_dpi: w.new_dpi,
        refresh: w.need_refresh,
        frame_refresh: w.need_frame_refresh,
        closed: w.closed,
        surface: w.surface,
        frame: w.frame,
    }
}

/// `w` once it has been looked at: nothing is left to tell, and a new scale factor is
/// the current one.
pub open spec fn settled(w: InternalWindow) -> InternalWindow {
    InternalWindow {
        newsize: None,
        need_refresh: false,
        need_frame_refresh: false,
        closed: false,
        current_dpi: match w.new_dpi {
            Some(dpi) => dpi,
            None => w.current_dpi,
        },
        new_dpi: None,
        ..w
    }
}

/// All of `windows`, settled.
pub open spec fn settle_all(windows: Seq<InternalWindow>) -> Seq<InternalWindow> {
    windows.map_values(|w: InternalWindow| settled(w))
}

/// The identifier of `w`, if `w` is gone.
pub open spec fn dead_id(w: InternalWindow) -> Option<WindowId> {
    if w.kill_switch {
        Some(WindowId(w.surface))
    } else {
        None
    }
}

/// The identifiers of the windows that are gone, in the store's order.
pub open spec fn dead_ids(windows: Seq<InternalWindow>) -> Seq<WindowId> {
    windows.filter_map(|w: InternalWindow| dead_id(w))
}

/// The windows that are not gone, in the store's order.
pub open spec fn living(windows: Seq<InternalWindow>) -> Seq<InternalWindow> {
    windows.filter(|w: InternalWindow| !w.kill_switch)
}

/// Surfaces are all different, a window has a frame exactly as long as it lives, and
/// every window fills its monitor.
pub open spec fn well_formed(windows: Seq<InternalWindow>) -> bool {
    &&& forall|i: int, j: int|
        0 <= i < j < windows.len() ==> (#[trigger] windows[i]).surface != (
        #[trigger] windows[j]).surface
    &&& forall|i: int|
        0 <= i < windows.len() ==> ((#[trigger] windows[i]).frame is Some
            <==> !windows[i].kill_switch)
    &&& forall|i: int| 0 <= i < windows.len() ==> (#[trigger] windows[i]).fullscreen
}

/// There is an entry for the window with that surface.
pub open spec fn has_window(windows: Seq<InternalWindow>, surface: usize) -> bool {
    exists|i: int| 0 <= i < windows.len() && (#[trigger] windows[i]).surface == surface
}

/// The window with that surface lives.
pub open spec fn is_open(windows: Seq<InternalWindow>, surface: usize) -> bool {
    has_window(windows, surface) && !entry(windows, surface).kill_switch
}

/// The entry for the window with that surface.
pub open spec fn entry(windows: Seq<InternalWindow>, surface: usize) -> InternalWindow {
    windows[choose|i: int| 0 <= i < windows.len() && (#[trigger] windows[i]).surface == surface]
}

/// The surfaces of the windows that live.
pub open spec fn open_windows(windows: Seq<InternalWindow>) -> Set<usize> {
    Set::new(|surface: usize| is_open(windows, surface))
}

/// `windows` with `change` made to the entry with that surface.
pub open spec fn changed(
    windows: Seq<InternalWindow>,
    surface: usize,
    change: spec_fn(InternalWindow) -> InternalWindow,
) -> Seq<InternalWindow> {
    windows.map_values(
        |w: InternalWindow|
            if w.surface == surface {
                change(w)
            } else {
                w
            },
    )
}

/// Holds an entry for each window.
pub struct WindowStore {
    windows: Vec<InternalWindow>,
}

impl View for WindowStore {
    type V = Seq<InternalWindow>;

    /// The entries, the oldest first.
    closed spec fn view(&self) -> Seq<InternalWindow> {
        self.windows@
    }
}

impl WindowStore {
    /// The store's invariant.
    pub open spec fn wf(&self) -> bool {
        well_formed(self@)
    }

    /// A store without windows.
    pub fn new() -> (store: WindowStore)
        ensures
            store@ == Seq::<InternalWindow>::empty(),
            store.wf(),
    {
        WindowStore { windows: Vec::new() }
    }

    /// Adds the entry of a new window.
    pub fn push(&mut self, window: InternalWindow)
        requires
            old(self).wf(),
            !has_window(old(self)@, window.surface),
            window.frame is Some <==> !window.kill_switch,
            window.fullscreen,
        ensures
            final(self)@ == old(self)@.push(window),
            final(self).wf(),
    {
        self.windows.push(window);
    }

    /// Removes the entries of windows that are gone, and tells which those were. What
    /// stays keeps its order.
    pub fn cleanup(&mut self) -> (pruned: Vec<WindowId>)
        requires
            old(self).wf(),
        ensures
            pruned@ == dead_ids(old(self)@),
            final(self)@ == living(old(self)@),
            final(self).wf(),
            open_windows(final(self)@) == open_windows(old(self)@),
    {
        let mut pruned: Vec<WindowId> = Vec::new();
        let mut kept: Vec<InternalWindow> = Vec::new();
        let mut i: usize = 0;
        let ghost windows = self@;
        assert(dead_ids(windows.take(0)) == Seq::<WindowId>::empty());
        assert(living(windows.take(0)) == Seq::<InternalWindow>::empty()) by {
            reveal(Seq::filter);
        }
        while i < self.windows.len()
            invariant
                self@ == windows,
                i <= windows.len(),
                pruned@ == dead_ids(windows.take(i as int)),
                kept@ == living(windows.take(i as int)),
            decreases windows.len() - i,
        {
            proof {
                let more = windows.take(i + 1);
                assert(more.drop_last() == windows.take(i as int));
                assert(more.last() == windows[i as int]);
                reveal(Seq::filter);
            }
            let w = self.windows[i];
            if w.kill_switch {
                pruned.push(make_wid(w.surface));
            } else {
                kept.push(w);
            }
            i += 1;
        }
        proof {
            assert(windows.take(windows.len() as int) == windows);
            lemma_living_well_formed(windows);
            law_no_living_window_is_pruned(windows);
        }
        self.windows = kept;
        pruned
    }

    /// Tells what has become of each window, in the store's order, and settles it all, so
    /// that nothing is told twice.
    pub fn for_each(&mut self) -> (updates: Vec<WindowUpdate>)
        requires
            old(self).wf(),
        ensures
            updates@ == old(self)@.map_values(|w: InternalWindow| update_of(w)),
            final(self)@ == settle_all(old(self)@),
            final(self).wf(),
            open_windows(final(self)@) == open_windows(old(self)@),
    {
        let mut updates: Vec<WindowUpdate> = Vec::new();
        let mut i: usize = 0;
        let ghost windows = self@;
        while i < self.windows.len()
            invariant
                i <= windows.len(),
                self@.len() == windows.len(),
                updates@.len() == i,
                forall|j: int| 0 <= j < i ==> #[trigger] updates@[j] == update_of(windows[j]),
                forall|j: int| 0 <= j < i ==> #[trigger] self@[j] == settled(windows[j]),
                forall|j: int| i <= j < windows.len() ==> #[trigger] self@[j] == windows[j],
            decreases windows.len() - i,
        {
            let w = self.windows[i];
            assert(w == self@[i as int]);
            updates.push(
                WindowUpdate {
                    newsize: w.newsize,
                    size: w.size,
                    new_dpi: w.new_dpi,
                    refresh: w.need_refresh,
                    frame_refresh: w.need_frame_refresh,
                    closed: w.closed,
                    surface: w.surface,
                    frame: w.frame,
                },
            );
            let current_dpi: i32 = match w.new_dpi {
                Some(dpi) => dpi,
                None => w.current_dpi,
            };
            let looked_at = InternalWindow {
                newsize: None,
                need_refresh: false,
                need_frame_refresh: false,
                closed: false,
                current_dpi,
                new_dpi: None,
                ..w
            };
            self.windows.set(i, looked_at);
            i += 1;
        }
        proof {
            assert(self@ == settle_all(windows));
            law_same_windows_live(windows, self@);
        }
        updates
    }

    /// Tells whether there is an entry for the window with that surface.
    pub fn contains(&self, surface: usize) -> (found: bool)
        ensures
            found == has_window(self@, surface),
    {
        let mut i: usize = 0;
        while i < self.windows.len()
            invariant
                i <= self@.len(),
                forall|j: int| 0 <= j < i ==> (#[trigger] self@[j]).surface != surface,
            decreases self@.len() - i,
        {
            if self.windows[i].surface == surface {
                assert(self@[i as int].surface == surface);
                return true;
            }
            i += 1;
        }
        false
    }

    /// The entry for the window with that surface.
    pub fn get(&self, surface: usize) -> (window: InternalWindow)
        requires
            self.wf(),
            has_window(self@, surface),
        ensures
            window == entry(self@, surface),
    {
        self.windows[self.position(surface)]
    }

    /// Where the entry for the window with that surface stands.
    fn position(&self, surface: usize) -> (position: usize)
        requires
            self.wf(),
            has_window(self@, surface),
        ensures
            position < self@.len(),
            self@[position as int].surface == surface,
            self@[position as int] == entry(self@, surface),
    {
        let mut i: usize = 0;
        while i < self.windows.len() && self.windows[i].surface != surface
            invariant
                i <= self@.len(),
                self.wf(),
                forall|j: int| 0 <= j < i ==> (#[trigger] self@[j]).surface != surface,
            decreases self@.len() - i,
        {
            i += 1;
        }
        i
    }

    /// Replaces the entry of a window by `window`.
    pub(crate) fn put(&mut self, window: InternalWindow)
        requires
            old(self).wf(),
            has_window(old(self)@, window.surface),
            window.frame is Some <==> !window.kill_switch,
            window.fullscreen,
        ensures
            final(self)@ == changed(
                old(self)@,
                window.surface,
                |w: InternalWindow| window,
            ),
            final(self).wf(),
    {
        let position = self.position(window.surface);
        let ghost windows = self@;
        self.windows.set(position, window);
        assert(self@ == changed(windows, window.surface, |w: InternalWindow| window));
    }
}

/// The entry of a window is the only one with its surface.
pub(crate) proof fn lemma_entry_unique(windows: Seq<InternalWindow>, surface: usize)
    requires
        well_formed(windows),
        has_window(windows, surface),
    ensures
        entry(windows, surface).surface == surface,
        entry(windows, surface).frame is Some <==> !entry(windows, surface).kill_switch,
        entry(windows, surface).fullscreen,
        forall|i: int|
            0 <= i < windows.len() && (#[trigger] windows[i]).surface == surface ==> windows[i]
                == entry(windows, surface),
{
}

/// What lives in a well-formed store is well-formed.
pub(crate) proof fn lemma_living_well_formed(windows: Seq<InternalWindow>)
    requires
        well_formed(windows),
    ensures
        well_formed(living(windows)),
        forall|k: int|
            0 <= k < living(windows).len() ==> windows.contains(#[trigger] living(windows)[k]),
    decreases windows.len(),
{
    reveal(Seq::filter);
    if windows.len() > 0 {
        let rest = windows.drop_last();
        lemma_living_well_formed(rest);
        let last = windows.last();
        assert forall|k: int| 0 <= k < living(rest).len() implies {
            &&& windows.contains(#[trigger] living(rest)[k])
            &&& living(rest)[k].surface != last.surface
        } by {
            let i = choose|i: int| 0 <= i < rest.len() && rest[i] == living(rest)[k];
            assert(windows[i] == living(rest)[k]);
        }
        assert(windows[windows.len() - 1] == last);
    }
}

/// What is pruned and what is kept make up the whole store.
pub proof fn law_cleanup_splits_the_store(windows: Seq<InternalWindow>)
    ensures
        dead_ids(windows).len() + living(windows).len() == windows.len(),
    decreases windows.len(),
{
    reveal(Seq::filter);
    if windows.len() > 0 {
        law_cleanup_splits_the_store(windows.drop_last());
    }
}

/// After a clean-up there is nothing to clean up.
pub proof fn law_cleanup_leaves_nothing_dead(windows: Seq<InternalWindow>)
    ensures
        dead_ids(living(windows)).len() == 0,
        living(living(windows)) == living(windows),
    decreases windows.len(),
{
    reveal(Seq::filter);
    if windows.len() > 0 {
        law_cleanup_leaves_nothing_dead(windows.drop_last());
        if !windows.last().kill_switch {
            let kept = living(windows);
            assert(kept.drop_last() == living(windows.drop_last()));
        }
    }
}

/// Looking at a window twice tells nothing new.
pub proof fn law_settled_has_nothing_to_tell(w: InternalWindow)
    ensures
        settled(settled(w)) == settled(w),
        update_of(settled(w)).newsize is None,
        update_of(settled(w)).new_dpi is None,
        !update_of(settled(w)).refresh,
        !update_of(settled(w)).frame_refresh,
        !update_of(settled(w)).closed,
{
}

/// A window lives exactly where some entry with its surface says so.
pub(crate) proof fn lemma_open_iff(windows: Seq<InternalWindow>, surface: usize)
    requires
        well_formed(windows),
    ensures
        is_open(windows, surface) <==> exists|i: int|
            0 <= i < windows.len() && (#[trigger] windows[i]).surface == surface
                && !windows[i].kill_switch,
{
}

/// As long as no entry is added or removed, and none gets another surface or begins or
/// ceases to live, the same windows live.
pub proof fn law_same_windows_live(before: Seq<InternalWindow>, after: Seq<InternalWindow>)
    requires
        well_formed(before),
        well_formed(after),
        before.len() == after.len(),
        forall|i: int|
            0 <= i < before.len() ==> (#[trigger] before[i]).surface == after[i].surface
                && before[i].kill_switch == after[i].kill_switch,
    ensures
        open_windows(after) == open_windows(before),
{
    assert forall|surface: usize|
        open_windows(after).contains(surface) == open_windows(before).contains(surface) by {
        lemma_open_iff(before, surface);
        lemma_open_iff(after, surface);
        if is_open(after, surface) {
            let i = choose|i: int|
                0 <= i < after.len() && (#[trigger] after[i]).surface == surface
                    && !after[i].kill_switch;
            assert(before[i].surface == surface && !before[i].kill_switch);
        }
        if is_open(before, surface) {
            let i = choose|i: int|
                0 <= i < before.len() && (#[trigger] before[i]).surface == surface
                    && !before[i].kill_switch;
            assert(after[i].surface == surface && !after[i].kill_switch);
        }
    }
    assert(open_windows(after) =~= open_windows(before));
}

/// A clean-up takes away no window that lives.
pub proof fn law_no_living_window_is_pruned(windows: Seq<InternalWindow>)
    requires
        well_formed(windows),
    ensures
        open_windows(living(windows)) == open_windows(windows),
{
    lemma_living_well_formed(windows);
    let kept = living(windows);
    let alive = |w: InternalWindow| !w.kill_switch;
    assert forall|surface: usize|
        open_windows(kept).contains(surface) == open_windows(windows).contains(surface) by {
        lemma_open_iff(windows, surface);
        lemma_open_iff(kept, surface);
        if is_open(kept, surface) {
            let k = choose|k: int|
                0 <= k < kept.len() && (#[trigger] kept[k]).surface == surface
                    && !kept[k].kill_switch;
            let i = choose|i: int| 0 <= i < windows.len() && windows[i] == kept[k];
            assert(windows[i].surface == surface && !windows[i].kill_switch);
        }
        if is_open(windows, surface) {
            let i = choose|i: int|
                0 <= i < windows.len() && (#[trigger] windows[i]).surface == surface
                    && !windows[i].kill_switch;
            windows.lemma_filter_contains(alive, i);
            let k = choose|k: int| 0 <= k < kept.len() && kept[k] == windows[i];
            assert(kept[k].surface == surface && !kept[k].kill_switch);
        }
    }
    assert(open_windows(kept) =~= open_windows(windows));
}

/// To look at the windows takes away what there was to tell of each, makes a new scale
/// factor the current one, and leaves everything else about every window as it was: its
/// size, its surface, whether it lives, and what it is shown with.
pub proof fn law_looking_leaves_the_windows_alone(i: int)
    ensures
        forall|store: &mut WindowStore, updates: Vec<WindowUpdate>| #[trigger]
            call_ensures(WindowStore::for_each, (store,), updates) ==> {
                &&& final(store)@.len() == store@.len()
                &&& updates@.len() == store@.len()
                &&& 0 <= i < store@.len() ==> {
                    let before = store@[i];
                    let after = final(store)@[i];
                    &&& after.surface == before.surface
                    &&& after.size == before.size
                    &&& after.fullscreen == before.fullscreen
                    &&& after.kill_switch == before.kill_switch
                    &&& after.frame == before.frame
                    &&& after.newsize is None
                    &&& after.new_dpi is None
                    &&& !after.need_refresh
                    &&& !after.need_frame_refresh
                    &&& !after.closed
                    &&& before.new_dpi is None ==> after.current_dpi == before.current_dpi
                    &&& before.new_dpi is Some ==> Some(after.current_dpi) == before.new_dpi
                }
            },
{
}

/// What is told of a window is what the store held of it before it was looked at.
pub proof fn law_looking_tells_what_was_held(i: int)
    ensures
        forall|store: &mut WindowStore, updates: Vec<WindowUpdate>| #[trigger]
            call_ensures(WindowStore::for_each, (store,), updates) && 0 <= i < store@.len()
                ==> {
                let before = store@[i];
                let told = updates@[i];
                &&& told.surface == before.surface
                &&& told.newsize == before.newsize
                &&& told.size == before.size
                &&& told.new_dpi == before.new_dpi
                &&& told.refresh == before.need_refresh
                &&& told.frame_refresh == before.need_frame_refresh
                &&& told.closed == before.closed
                &&& told.frame == before.frame
            },
{
}

/// A settled window is the window itself but for what there was to tell.
pub proof fn law_settling_leaves_the_window_alone(w: InternalWindow)
    ensures
        settled(w).surface == w.surface,
        settled(w).size == w.size,
        settled(w).fullscreen == w.fullscreen,
        settled(w).kill_switch == w.kill_switch,
        settled(w).frame == w.frame,
        w.new_dpi is None ==> settled(w).current_dpi == w.current_dpi,
        w.new_dpi is Some ==> Some(settled(w).current_dpi) == w.new_dpi,
{
}

/// A clean-up goes window by window: what it keeps and what it prunes of two parts of a
/// store is what it keeps and prunes of the whole, in the same order. A window that lives
/// is kept as it is, and one that is gone is pruned by the identifier that is its surface.
pub proof fn law_cleanup_goes_window_by_window(
    a: Seq<InternalWindow>,
    b: Seq<InternalWindow>,
    w: InternalWindow,
)
    ensures
        living(a + b) == living(a) + living(b),
        dead_ids(a + b) == dead_ids(a) + dead_ids(b),
        !w.kill_switch ==> living(seq![w]) == seq![w] && dead_ids(seq![w]).len() == 0,
        w.kill_switch ==> living(seq![w]).len() == 0 && dead_ids(seq![w]) == seq![
            WindowId(w.surface),
        ],
{
    Seq::filter_distributes_over_add(a, b, |w: InternalWindow| !w.kill_switch);
    lemma_dead_ids_add(a, b);
    reveal(Seq::filter);
    assert(seq![w].drop_last() == Seq::<InternalWindow>::empty());
    assert(living(Seq::<InternalWindow>::empty()) == Seq::<InternalWindow>::empty());
    assert(dead_ids(Seq::<InternalWindow>::empty()) == Seq::<WindowId>::empty());
}

proof fn lemma_dead_ids_add(a: Seq<InternalWindow>, b: Seq<InternalWindow>)
    ensures
        dead_ids(a + b) == dead_ids(a) + dead_ids(b),
    decreases b.len(),
{
    if b.len() == 0 {
        assert(a + b == a);
        assert(dead_ids(a) + dead_ids(b) == dead_ids(a));
    } else {
        lemma_dead_ids_add(a, b.drop_last());
        assert((a + b).drop_last() == a + b.drop_last());
    }
}

/// A clean-up keeps every window that lives and nothing else, and prunes every window that
/// is gone and nothing else.
pub proof fn law_cleanup_keeps_what_lives(w: InternalWindow, wid: WindowId)
    ensures
        forall|store: &mut WindowStore, pruned: Vec<WindowId>| #[trigger]
            call_ensures(WindowStore::cleanup, (store,), pruned) ==> {
                &&& final(store)@.contains(w) <==> store@.contains(w) && !w.kill_switch
                &&& pruned@.contains(wid) <==> exists|i: int|
                    0 <= i < store@.len() && (#[trigger] store@[i]).kill_switch && WindowId(
                        store@[i].surface,
                    ) == wid
                &&& pruned@.len() + final(store)@.len() == store@.len()
            },
{
    assert forall|store: &mut WindowStore, pruned: Vec<WindowId>| #[trigger]
        call_ensures(WindowStore::cleanup, (store,), pruned) implies {
        &&& final(store)@.contains(w) <==> store@.contains(w) && !w.kill_switch
        &&& pruned@.contains(wid) <==> exists|i: int|
            0 <= i < store@.len() && (#[trigger] store@[i]).kill_switch && WindowId(
                store@[i].surface,
            ) == wid
        &&& pruned@.len() + final(store)@.len() == store@.len()
    } by {
        lemma_cleanup_members(store@, w, wid);
        law_cleanup_splits_the_store(store@);
    }
}

proof fn lemma_cleanup_members(windows: Seq<InternalWindow>, w: InternalWindow, wid: WindowId)
    ensures
        living(windows).contains(w) <==> windows.contains(w) && !w.kill_switch,
        dead_ids(windows).contains(wid) <==> exists|i: int|
            0 <= i < windows.len() && (#[trigger] windows[i]).kill_switch && WindowId(
                windows[i].surface,
            ) == wid,
    decreases windows.len(),
{
    reveal(Seq::filter);
    if windows.len() > 0 {
        let rest = windows.drop_last();
        let last = windows.last();
        lemma_cleanup_members(rest, w, wid);
        assert(windows == rest.push(last));
        assert(windows.contains(w) <==> rest.contains(w) || last == w) by {
            if rest.contains(w) {
                let i = choose|i: int| 0 <= i < rest.len() && rest[i] == w;
                assert(windows[i] == w);
            }
            if last == w {
                assert(windows[windows.len() - 1] == w);
            }
        }
        let kept = living(rest);
        if !last.kill_switch {
            assert(living(windows) == kept.push(last));
            assert(kept.push(last).contains(w) <==> kept.contains(w) || last == w) by {
                if kept.contains(w) {
                    let i = choose|i: int| 0 <= i < kept.len() && kept[i] == w;
                    assert(kept.push(last)[i] == w);
                }
                assert(kept.push(last)[kept.len() as int] == last);
            }
        }
        let ids = dead_ids(rest);
        let id = WindowId(last.surface);
        if last.kill_switch {
            assert(dead_ids(windows) == ids.push(id));
            assert(ids.push(id).contains(wid) <==> ids.contains(wid) || id == wid) by {
                if ids.contains(wid) {
                    let i = choose|i: int| 0 <= i < ids.len() && ids[i] == wid;
                    assert(ids.push(id)[i] == wid);
                }
                assert(ids.push(id)[ids.len() as int] == id);
            }
        }
        assert((exists|i: int|
            0 <= i < windows.len() && (#[trigger] windows[i]).kill_switch && WindowId(
                windows[i].surface,
            ) == wid) <==> (exists|i: int|
            0 <= i < rest.len() && (#[trigger] rest[i]).kill_switch && WindowId(
                rest[i].surface,
            ) == wid) || (last.kill_switch && id == wid)) by {
            if exists|i: int|
                0 <= i < rest.len() && (#[trigger] rest[i]).kill_switch && WindowId(
                    rest[i].surface,
                ) == wid {
                let i = choose|i: int|
                    0 <= i < rest.len() && (#[trigger] rest[i]).kill_switch && WindowId(
                        rest[i].surface,
                    ) == wid;
                assert(windows[i] == rest[i]);
            }
            assert(windows[windows.len() - 1] == last);
            assert(forall|i: int| 0 <= i < rest.len() ==> rest[i] == #[trigger] windows[i]);
        }
    }
}

/// A window is known by its surface: where an entry stands with that surface, it is the
/// one that is found, and the window lives as long as it is not marked as gone.
pub proof fn law_windows_are_found_by_their_surfaces(windows: Seq<InternalWindow>, i: int)
    requires
        well_formed(windows),
        0 <= i < windows.len(),
    ensures
        has_window(windows, windows[i].surface),
        entry(windows, windows[i].surface) == windows[i],
        open_windows(windows).contains(windows[i].surface) <==> !windows[i].kill_switch,
{
    lemma_entry_unique(windows, windows[i].surface);
}

/// Where no entry has that surface, there is no such window, and none that lives.
pub proof fn law_other_windows_are_not_found(windows: Seq<InternalWindow>, surface: usize)
    requires
        forall|i: int| 0 <= i < windows.len() ==> (#[trigger] windows[i]).surface != surface,
    ensures
        !has_window(windows, surface),
        !open_windows(windows).contains(surface),
{
}

/// Entries are valid exactly where no two share a surface, each has a frame as long as it
/// is not marked as gone and none after that, and each fills its monitor.
pub proof fn law_valid_entries(windows: Seq<InternalWindow>, i: int, j: int)
    requires
        well_formed(windows),
        0 <= i < windows.len(),
        0 <= j < windows.len(),
    ensures
        i != j ==> windows[i].surface != windows[j].surface,
        windows[i].kill_switch ==> windows[i].frame is None,
        !windows[i].kill_switch ==> windows[i].frame is Some,
        windows[i].fullscreen,
{
    if j < i {
        assert(windows[j].surface != windows[i].surface);
    }
}

/// What is read of a window is the entry with its surface, and there is one to read
/// exactly where some entry has that surface.
pub proof fn law_entries_are_read_by_surface(
    store: WindowStore,
    surface: usize,
    i: int,
    found: bool,
    window: InternalWindow,
)
    requires
        store.wf(),
        0 <= i < store@.len(),
        call_ensures(WindowStore::contains, (&store, surface), found),
        call_ensures(WindowStore::get, (&store, store@[i].surface), window),
    ensures
        window == store@[i],
        store@[i].surface == surface ==> found,
        found ==> exists|k: int| 0 <= k < store@.len() && (#[trigger] store@[k]).surface == surface,
{
    lemma_entry_unique(store@, store@[i].surface);
}

/// A change to one window is made to that window alone.
pub proof fn law_change_is_made_to_one_window(
    windows: Seq<InternalWindow>,
    surface: usize,
    change: spec_fn(InternalWindow) -> InternalWindow,
    i: int,
)
    requires
        0 <= i < windows.len(),
    ensures
        changed(windows, surface, change).len() == windows.len(),
        windows[i].surface == surface ==> changed(windows, surface, change)[i] == change(
            windows[i],
        ),
        windows[i].surface != surface ==> changed(windows, surface, change)[i] == windows[i],
{
}

/// No more is asked of entries than that surfaces are all different, that there is a frame
/// exactly as long as the window lives, and that it fills its monitor.
pub proof fn law_entries_are_valid_without_more(windows: Seq<InternalWindow>)
    requires
        forall|i: int, j: int|
            0 <= i < windows.len() && 0 <= j < windows.len() && i != j ==> (
            #[trigger] windows[i]).surface != (#[trigger] windows[j]).surface,
        forall|i: int|
            0 <= i < windows.len() ==> (#[trigger] windows[i]).fullscreen && (windows[i].kill_switch
                <==> windows[i].frame is None),
    ensures
        well_formed(windows),
{
}

/// A store begins without windows, and one that is added comes last and leaves the others
/// as they were.
pub proof fn law_added_window_comes_last(window: InternalWindow, store: WindowStore)
    requires
        call_ensures(WindowStore::new, (), store),
    ensures
        store@.len() == 0,
        forall|store: &mut WindowStore| #[trigger]
            call_ensures(WindowStore::push, (store, window), ()) ==> {
                &&& final(store)@.drop_last() == store@
                &&& final(store)@.last() == window
                &&& final(store)@.len() == store@.len() + 1
            },
{
}

} // verus!
