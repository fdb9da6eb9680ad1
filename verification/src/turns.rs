//! What holds of a run of the event loop together with the windows: when a window is told
//! to draw, and what it fills.
use crate::calls::{called, can_call, fills, law_call_does_what_it_says, waits_or_gone};
use crate::calls::{law_monitor_outlasts_a_call, law_new_window_fills_its_monitor};
use crate::calls::{law_request_outlasts_a_call, WindowCall};
use crate::card::Resources;
use crate::event::{Event, WindowEvent};
use crate::event_loop::{begun, expects, resumed, with_keyboard, with_user};
use crate::event_loop::{LoopView, Reply, SourceEvent};
use crate::flip::{first_action, FlipAction};
use crate::ids::WindowId;
use crate::run::{after_answers, handed_out, is_consistent, law_round_hands_out_everything};
use crate::run::{law_second_batch_is_handed_out, second_events, user_events, Answer};
use crate::sink::window_event;
use crate::store::{entry, lemma_entry_unique, open_windows};
use crate::target::{law_requests_are_told_once, law_told_windows_are_settled};
use crate::target::{law_waiting_window_is_told_to_draw, lemma_triggered_lives, redraws};
use crate::target::{trigger_events, triggered, TargetView};
use crate::window::WindowAttributes;
use vstd::prelude::*;

verus! {

/// A loop and the windows that were made on it.
pub struct World<T> {
    pub state: LoopView<T>,
    pub target: TargetView,
}

impl<T> World<T> {
    /// The windows are valid, and so is what the loop holds.
    pub open spec fn wf(self) -> bool {
        self.target.wf() && is_consistent(self.state)
    }
}

/// Something that happens to a loop or its windows.
pub enum Turn<T> {
    Run,
    Reply(Reply),
    Keyboard(SourceEvent<(WindowEvent, WindowId)>),
    User(SourceEvent<T>),
    Call(WindowCall),
}

/// The turn can be taken.
pub open spec fn can_turn<T>(world: World<T>, turn: Turn<T>) -> bool {
    match turn {
        Turn::Run => world.state.stage is Idle,
        Turn::Reply(reply) => expects(world.state.stage, reply),
        Turn::Call(call) => can_call(world.target, call),
        _ => true,
    }
}

/// The loop and its windows after the turn.
pub open spec fn turned<T>(world: World<T>, turn: Turn<T>) -> World<T> {
    match turn {
        Turn::Run => World { state: begun(world.state), ..world },
        Turn::Reply(reply) => {
            let outcome = resumed(world.state, world.target, reply);
            World { state: outcome.state, target: outcome.target }
        },
        Turn::Keyboard(evt) => World { state: with_keyboard(world.state, evt), ..world },
        Turn::User(evt) => World { state: with_user(world.state, evt), ..world },
        Turn::Call(call) => World { target: called(world.target, call), ..world },
    }
}

/// The loop and its windows after `turns`, one after the other.
pub open spec fn turned_all<T>(world: World<T>, turns: Seq<Turn<T>>) -> World<T>
    decreases turns.len(),
{
    if turns.len() == 0 {
        world
    } else {
        turned(turned_all(world, turns.drop_last()), turns.last())
    }
}

/// The turns can be taken, one after the other.
pub open spec fn can_turn_all<T>(world: World<T>, turns: Seq<Turn<T>>) -> bool
    decreases turns.len(),
{
    turns.len() > 0 ==> can_turn_all(world, turns.drop_last()) && can_turn(
        turned_all(world, turns.drop_last()),
        turns.last(),
    )
}

/// The callback handles the last event of a round that comes before the second time that
/// the windows are told of.
pub open spec fn ends_first_half<T>(state: LoopView<T>) -> bool {
    state.users.len() == 0 && (state.stage is Users || state.stage is FirstSink
        && state.round.len() == 0)
}

/// When the callback has answered, the loop takes up what there is to tell of the windows.
pub open spec fn takes_up<T>(state: LoopView<T>) -> bool {
    state.stage is Init || state.stage is NewEvents || ends_first_half(state)
}

/// While `turns` are taken, the loop does not take up what there is to tell of the windows.
pub open spec fn takes_nothing_up<T>(world: World<T>, turns: Seq<Turn<T>>) -> bool
    decreases turns.len(),
{
    turns.len() > 0 ==> takes_nothing_up(world, turns.drop_last()) && (turns.last() is Reply
        ==> !takes_up(turned_all(world, turns.drop_last()).state))
}

/// The loop and its windows stay valid, whatever happens.
pub proof fn law_turns_keep_the_world_valid<T>(world: World<T>, turns: Seq<Turn<T>>)
    requires
        world.wf(),
        can_turn_all(world, turns),
    ensures
        turned_all(world, turns).wf(),
    decreases turns.len(),
{
    if turns.len() > 0 {
        law_turns_keep_the_world_valid(world, turns.drop_last());
        let before = turned_all(world, turns.drop_last());
        match turns.last() {
            Turn::Call(call) => {
                law_call_does_what_it_says(before.target, call, 0);
            },
            _ => {
                lemma_triggered_lives(before.target);
                lemma_triggered_lives(triggered(before.target));
            },
        }
    }
}

/// A request to draw outlasts whatever happens until the loop next takes up what there is
/// to tell of the windows, unless the window goes.
pub proof fn law_request_outlasts_turns<T>(
    world: World<T>,
    turns: Seq<Turn<T>>,
    surface: usize,
)
    requires
        world.wf(),
        can_turn_all(world, turns),
        takes_nothing_up(world, turns),
        turns.len() > 0,
        turns[0] == Turn::<T>::Call(WindowCall::RequestRedraw { surface }),
    ensures
        turned_all(world, turns).wf(),
        waits_or_gone(turned_all(world, turns).target, surface),
    decreases turns.len(),
{
    let earlier = turns.drop_last();
    let before = turned_all(world, earlier);
    law_turns_keep_the_world_valid(world, turns);
    law_turns_keep_the_world_valid(world, earlier);
    if earlier.len() > 0 {
        assert(earlier[0] == turns[0]);
        law_request_outlasts_turns(world, earlier, surface);
    }
    if let Turn::Call(call) = turns.last() {
        law_request_outlasts_a_call(before.target, call, surface);
    }
}

/// The event that tells the window with that surface to draw.
pub open spec fn redraw<T>(surface: usize) -> Event<T> {
    window_event(WindowEvent::RedrawRequested, WindowId(surface))
}

/// A redraw that is asked for while an event of the first batch or one of the user's own
/// is handled is told in the same round, after all of the user's own events and before the
/// round is over, unless the window goes before the user's own events are done.
pub proof fn law_request_is_told_in_the_round<T>(
    world: World<T>,
    turns: Seq<Turn<T>>,
    answers: Seq<Answer>,
    surface: usize,
)
    requires
        world.wf(),
        world.state.stage is FirstSink || world.state.stage is Users,
        can_turn_all(world, turns),
        takes_nothing_up(world, turns),
        turns.len() > 0,
        turns[0] == Turn::<T>::Call(WindowCall::RequestRedraw { surface }),
        ({
            let end = turned_all(world, turns);
            &&& ends_first_half(end.state)
            &&& open_windows(end.target.windows).contains(surface)
            &&& answers.len() == end.state.sink.len() + trigger_events::<T>(end.target).len() + 1
            &&& answers[0].0 == end.target
        }),
    ensures
        ({
            let end = turned_all(world, turns);
            let told = handed_out(end.state, answers);
            &&& told == end.state.sink + trigger_events::<T>(end.target) + seq![
                Event::<T>::EventsCleared,
            ]
            &&& exists|j: int| 0 <= j < told.len() - 1 && #[trigger] told[j] == redraw::<T>(surface)
            &&& after_answers(end.state, answers).stage is Cleared
        }),
{
    let end = turned_all(world, turns);
    law_request_outlasts_turns(world, turns, surface);
    lemma_entry_unique(end.target.windows, surface);
    law_waiting_window_is_told_to_draw::<T>(end.target, surface);
    law_second_batch_is_handed_out(end.state, answers);
    let events = trigger_events::<T>(end.target);
    let i = choose|i: int| 0 <= i < events.len() && events[i] == redraw::<T>(surface);
    let told = handed_out(end.state, answers);
    assert(told[end.state.sink.len() + i] == redraw::<T>(surface));
}

/// A redraw that is asked for at any time and not taken up before the next round begins is
/// told in the first batch of that round, unless the window goes before that.
pub proof fn law_request_is_told_next_round<T>(
    world: World<T>,
    turns: Seq<Turn<T>>,
    answers: Seq<Answer>,
    surface: usize,
)
    requires
        world.wf(),
        can_turn_all(world, turns),
        takes_nothing_up(world, turns),
        turns.len() > 0,
        turns[0] == Turn::<T>::Call(WindowCall::RequestRedraw { surface }),
        ({
            let end = turned_all(world, turns);
            let first = end.state.sink + trigger_events::<T>(end.target);
            let n = first.len() + end.state.users.len();
            &&& end.state.stage is Init || end.state.stage is NewEvents
            &&& open_windows(end.target.windows).contains(surface)
            &&& answers.len() == n + second_events::<T>(answers, n as int).len() + 1
            &&& answers[0].0 == end.target
        }),
    ensures
        ({
            let end = turned_all(world, turns);
            let first = end.state.sink + trigger_events::<T>(end.target);
            let told = handed_out(end.state, answers);
            exists|j: int| 0 <= j < first.len() && #[trigger] told[j] == redraw::<T>(surface)
        }),
{
    let end = turned_all(world, turns);
    law_request_outlasts_turns(world, turns, surface);
    lemma_entry_unique(end.target.windows, surface);
    law_waiting_window_is_told_to_draw::<T>(end.target, surface);
    law_round_hands_out_everything(end.state, answers);
    let events = trigger_events::<T>(end.target);
    let i = choose|i: int| 0 <= i < events.len() && events[i] == redraw::<T>(surface);
    let told = handed_out(end.state, answers);
    assert(told[end.state.sink.len() + i] == redraw::<T>(surface));
}

/// What a round hands out depends on the windows at two moments only: when it begins, and
/// when the user's own events are done. What is asked for later is not told in the round.
pub proof fn law_late_request_is_not_told_in_the_round<T>(
    state: LoopView<T>,
    answers: Seq<Answer>,
    others: Seq<Answer>,
)
    requires
        state.stage is Init || state.stage is NewEvents,
        is_consistent(state),
        answers.len() > 0,
        others.len() == answers.len(),
        others[0].0 == answers[0].0,
        ({
            let first = state.sink + trigger_events::<T>(answers[0].0);
            let n = first.len() + state.users.len();
            &&& answers.len() == n + second_events::<T>(answers, n as int).len() + 1
            &&& others[n as int].0 == answers[n as int].0
        }),
    ensures
        handed_out(state, others) == handed_out(state, answers),
{
    law_round_hands_out_everything(state, answers);
    law_round_hands_out_everything(state, others);
}

/// In one round a window is told to draw at most twice because of its requests, once
/// before the user's own events and once after them, however often it has asked.
pub proof fn law_round_tells_to_draw_at_most_twice<T>(
    state: LoopView<T>,
    answers: Seq<Answer>,
    surface: usize,
)
    requires
        state.stage is Init || state.stage is NewEvents,
        is_consistent(state),
        answers.len() > 0,
        forall|i: int| 0 <= i < answers.len() ==> (#[trigger] answers[i]).0.wf(),
        ({
            let first = state.sink + trigger_events::<T>(answers[0].0);
            let n = first.len() + state.users.len();
            answers.len() == n + second_events::<T>(answers, n as int).len() + 1
        }),
    ensures
        ({
            let first = (state.sink + trigger_events::<T>(answers[0].0)).len() as int;
            let n = first + state.users.len();
            let told = handed_out(state, answers);
            &&& told.len() == answers.len()
            &&& redraws(told.take(first), surface) <= redraws(state.sink, surface) + 1
            &&& told.subrange(first, n) == user_events(state.users)
            &&& redraws(told.skip(n), surface) <= 1
            &&& redraws(told, surface) <= redraws(state.sink, surface) + 2
        }),
{
    law_round_hands_out_everything(state, answers);
    let before = state.sink + trigger_events::<T>(answers[0].0);
    let users = user_events(state.users);
    let n = (before.len() + users.len()) as int;
    let after = second_events::<T>(answers, n);
    let last = seq![Event::<T>::EventsCleared];
    let told = handed_out(state, answers);
    assert(told.take(before.len() as int) == before);
    assert(told.subrange(before.len() as int, n) == users);
    assert(told.skip(n) == after + last);
    lemma_redraws_add(state.sink, trigger_events::<T>(answers[0].0), surface);
    law_requests_are_told_once::<T>(answers[0].0, surface);
    lemma_redraws_add(before + users + after, last, surface);
    lemma_redraws_add(before + users, after, surface);
    lemma_redraws_add(before, users, surface);
    lemma_redraws_add(after, last, surface);
    lemma_no_redraws(users, surface);
    lemma_no_redraws(last, surface);
    if n == 0 {
        lemma_no_redraws(after, surface);
    } else {
        assert(answers[n].0.wf());
        law_requests_are_told_once::<T>(answers[n].0, surface);
    }
}

/// Nothing comes from the keyboard while `turns` are taken.
pub open spec fn brings_no_keys<T>(turns: Seq<Turn<T>>) -> bool {
    forall|i: int| 0 <= i < turns.len() ==> !(#[trigger] turns[i] matches Turn::Keyboard(
        SourceEvent::Msg(_),
    ))
}

/// Only the keyboard source sends events between rounds: if nothing was sent and nothing
/// comes from it, nothing has been sent when a round begins, whatever else happens.
pub proof fn law_only_the_keyboard_sends<T>(world: World<T>, turns: Seq<Turn<T>>)
    requires
        world.state.sink.len() == 0,
        can_turn_all(world, turns),
        brings_no_keys(turns),
    ensures
        turned_all(world, turns).state.sink.len() == 0,
    decreases turns.len(),
{
    if turns.len() > 0 {
        let earlier = turns.drop_last();
        assert forall|i: int| 0 <= i < earlier.len() implies !(
        #[trigger] earlier[i] matches Turn::Keyboard(SourceEvent::Msg(_))) by {
            assert(earlier[i] == turns[i]);
        }
        law_only_the_keyboard_sends(world, earlier);
        assert(!(turns[turns.len() - 1] matches Turn::Keyboard(SourceEvent::Msg(_))));
    }
}

/// Where nothing comes from the keyboard, a window is told to draw at most twice in any
/// round, once before the user's own events and once after them, however often and
/// whenever it has asked, and whatever else has happened before.
pub proof fn law_window_is_told_to_draw_at_most_twice<T>(
    world: World<T>,
    turns: Seq<Turn<T>>,
    answers: Seq<Answer>,
    surface: usize,
)
    requires
        world.wf(),
        world.state.sink.len() == 0,
        can_turn_all(world, turns),
        brings_no_keys(turns),
        answers.len() > 0,
        forall|i: int| 0 <= i < answers.len() ==> (#[trigger] answers[i]).0.wf(),
        ({
            let state = turned_all(world, turns).state;
            let n = trigger_events::<T>(answers[0].0).len() + state.users.len();
            &&& state.stage is Init || state.stage is NewEvents
            &&& answers.len() == n + second_events::<T>(answers, n as int).len() + 1
        }),
    ensures
        ({
            let state = turned_all(world, turns).state;
            let first = trigger_events::<T>(answers[0].0).len() as int;
            let n = first + state.users.len();
            let told = handed_out(state, answers);
            &&& told.len() == answers.len()
            &&& redraws(told.take(first), surface) <= 1
            &&& told.subrange(first, n) == user_events(state.users)
            &&& redraws(told.skip(n), surface) <= 1
            &&& redraws(told, surface) <= 2
        }),
{
    let state = turned_all(world, turns).state;
    law_only_the_keyboard_sends(world, turns);
    law_turns_keep_the_world_valid(world, turns);
    law_round_tells_to_draw_at_most_twice(state, answers, surface);
    lemma_no_redraws(state.sink, surface);
}

proof fn lemma_redraws_add<T>(a: Seq<Event<T>>, b: Seq<Event<T>>, surface: usize)
    ensures
        redraws(a + b, surface) == redraws(a, surface) + redraws(b, surface),
{
    Seq::filter_distributes_over_add(
        a,
        b,
        |event: Event<T>| event == window_event::<T>(
            WindowEvent::RedrawRequested,
            WindowId(surface),
        ),
    );
}

proof fn lemma_no_redraws<T>(events: Seq<Event<T>>, surface: usize)
    requires
        forall|i: int| 0 <= i < events.len() ==> !(#[trigger] events[i] is WindowEvent),
    ensures
        redraws(events, surface) == 0,
    decreases events.len(),
{
    reveal(Seq::filter);
    if events.len() > 0 {
        lemma_no_redraws(events.drop_last(), surface);
        assert(!(events[events.len() - 1] is WindowEvent));
    }
}

/// The window with that surface lives all the while that `turns` are taken.
pub open spec fn lives_through<T>(world: World<T>, turns: Seq<Turn<T>>, surface: usize) -> bool
    decreases turns.len(),
{
    &&& open_windows(turned_all(world, turns).target.windows).contains(surface)
    &&& turns.len() > 0 ==> lives_through(world, turns.drop_last(), surface)
}

/// For as long as it lives, a window fills the monitor that it was made on, whatever
/// happens and whatever was wished for when it was made.
pub proof fn law_window_fills_its_monitor<T>(
    world: World<T>,
    attributes: WindowAttributes,
    resources: Resources,
    surface: usize,
    turns: Seq<Turn<T>>,
)
    requires
        world.wf(),
        can_call(world.target, WindowCall::New { attributes, resources, surface }),
        ({
            let new = WindowCall::New { attributes, resources, surface };
            let made = turned(world, Turn::Call(new));
            can_turn_all(made, turns) && lives_through(made, turns, surface)
        }),
    ensures
        ({
            let new = WindowCall::New { attributes, resources, surface };
            let made = turned(world, Turn::Call(new));
            fills(turned_all(made, turns).target, surface, resources.connector)
        }),
    decreases turns.len(),
{
    let new = WindowCall::New { attributes, resources, surface };
    let made = turned(world, Turn::Call(new));
    law_new_window_fills_its_monitor(world.target, attributes, resources, surface);
    law_call_does_what_it_says(world.target, new, surface);
    if turns.len() > 0 {
        let earlier = turns.drop_last();
        law_window_fills_its_monitor(world, attributes, resources, surface, earlier);
        law_turns_keep_the_world_valid(made, earlier);
        let before = turned_all(made, earlier);
        match turns.last() {
            Turn::Call(call) => {
                law_monitor_outlasts_a_call(before.target, call, surface, resources.connector);
            },
            _ => {
                lemma_trigger_keeps_monitor(before.target, surface, resources.connector);
                lemma_trigger_keeps_monitor(
                    triggered(before.target),
                    surface,
                    resources.connector,
                );
            },
        }
    }
}

proof fn lemma_trigger_keeps_monitor(target: TargetView, surface: usize, connector: u32)
    requires
        target.wf(),
        fills(target, surface, connector),
    ensures
        triggered(target).wf(),
        fills(triggered(target), surface, connector),
{
    law_told_windows_are_settled(target, surface);
    lemma_triggered_lives(target);
    lemma_entry_unique(target.windows, surface);
    lemma_entry_unique(triggered(target).windows, surface);
}

/// A change of the size of the window with that surface is among `turns`.
pub open spec fn sets_size<T>(turns: Seq<Turn<T>>, surface: usize) -> bool {
    exists|i: int|
        0 <= i < turns.len() && (#[trigger] turns[i] matches Turn::Call(
            WindowCall::SetInnerSize { surface: s, .. },
        ) && s == surface)
}

/// The end of a flip of the window with that surface is among `turns`.
pub open spec fn ends_flip<T>(turns: Seq<Turn<T>>, surface: usize) -> bool {
    exists|i: int|
        0 <= i < turns.len() && (#[trigger] turns[i] matches Turn::Call(
            WindowCall::Flipped { surface: s, .. },
        ) && s == surface)
}

/// For as long as it lives, a window keeps its size until that is set, and what it is
/// shown with, the buffer on display included, until a flip of it ends, whatever else
/// happens and however often it is told of. A flip changes nothing of what it is shown
/// with but the buffer on display, and there is one from the first flip on.
pub proof fn law_window_keeps_what_is_not_changed<T>(
    world: World<T>,
    turns: Seq<Turn<T>>,
    surface: usize,
)
    requires
        world.wf(),
        can_turn_all(world, turns),
        lives_through(world, turns, surface),
    ensures
        ({
            let before = entry(world.target.windows, surface);
            let after = entry(turned_all(world, turns).target.windows, surface);
            &&& before.frame is Some && after.frame is Some
            &&& !sets_size(turns, surface) ==> after.size == before.size
            &&& !ends_flip(turns, surface) ==> after.frame == before.frame
            &&& before.frame->0.bo is Some || ends_flip(turns, surface)
                ==> after.frame->0.bo is Some
            &&& after.frame->0.crtc == before.frame->0.crtc
            &&& after.frame->0.connector == before.frame->0.connector
            &&& after.frame->0.encoder == before.frame->0.encoder
            &&& after.frame->0.mode == before.frame->0.mode
        }),
    decreases turns.len(),
{
    lemma_lives_from_the_start(world, turns, surface);
    lemma_entry_unique(world.target.windows, surface);
    if turns.len() > 0 {
        let earlier = turns.drop_last();
        let last = turns.last();
        law_window_keeps_what_is_not_changed(world, earlier, surface);
        law_turns_keep_the_world_valid(world, earlier);
        assert(open_windows(turned_all(world, earlier).target.windows).contains(surface)) by {
            reveal_with_fuel(lives_through, 2);
        }
        lemma_turn_keeps_what_it_does_not_change(turned_all(world, earlier), last, surface);
        lemma_among_turns(turns, surface);
    }
}

/// The turn sets the size of the window with that surface.
spec fn turn_sets_size<T>(turn: Turn<T>, surface: usize) -> bool {
    turn matches Turn::Call(WindowCall::SetInnerSize { surface: s, .. }) && s == surface
}

/// With the turn a flip of the window with that surface ends.
spec fn turn_ends_flip<T>(turn: Turn<T>, surface: usize) -> bool {
    turn matches Turn::Call(WindowCall::Flipped { surface: s, .. }) && s == surface
}

proof fn lemma_among_turns<T>(turns: Seq<Turn<T>>, surface: usize)
    requires
        turns.len() > 0,
    ensures
        sets_size(turns, surface) == (sets_size(turns.drop_last(), surface) || turn_sets_size(
            turns.last(),
            surface,
        )),
        ends_flip(turns, surface) == (ends_flip(turns.drop_last(), surface) || turn_ends_flip(
            turns.last(),
            surface,
        )),
{
    let earlier = turns.drop_last();
    let end = turns.len() - 1;
    assert(forall|i: int| 0 <= i < earlier.len() ==> #[trigger] earlier[i] == turns[i]);
    assert(forall|i: int| 0 <= i < turns.len() && i != end ==> earlier[i] == #[trigger] turns[i]);
    assert(turn_sets_size(turns[end], surface) == turn_sets_size(turns.last(), surface));
    if sets_size(earlier, surface) {
        let i = choose|i: int|
            0 <= i < earlier.len() && (#[trigger] earlier[i] matches Turn::Call(
                WindowCall::SetInnerSize { surface: s, .. },
            ) && s == surface);
        assert(turns[i] == earlier[i]);
    }
    if ends_flip(earlier, surface) {
        let i = choose|i: int|
            0 <= i < earlier.len() && (#[trigger] earlier[i] matches Turn::Call(
                WindowCall::Flipped { surface: s, .. },
            ) && s == surface);
        assert(turns[i] == earlier[i]);
    }
}

proof fn lemma_turn_keeps_what_it_does_not_change<T>(
    world: World<T>,
    turn: Turn<T>,
    surface: usize,
)
    requires
        world.wf(),
        can_turn(world, turn),
        open_windows(world.target.windows).contains(surface),
        open_windows(turned(world, turn).target.windows).contains(surface),
    ensures
        ({
            let before = entry(world.target.windows, surface);
            let after = entry(turned(world, turn).target.windows, surface);
            &&& before.frame is Some && after.frame is Some
            &&& !turn_sets_size(turn, surface) ==> after.size == before.size
            &&& !turn_ends_flip(turn, surface) ==> after.frame == before.frame
            &&& turn_ends_flip(turn, surface) ==> after.frame->0.bo is Some
            &&& after.frame->0.crtc == before.frame->0.crtc
            &&& after.frame->0.connector == before.frame->0.connector
            &&& after.frame->0.encoder == before.frame->0.encoder
            &&& after.frame->0.mode == before.frame->0.mode
        }),
{
    lemma_entry_unique(world.target.windows, surface);
    match turn {
        Turn::Call(call) => {
            law_call_does_what_it_says(world.target, call, surface);
        },
        _ => {
            lemma_trigger_keeps_entry(world.target, surface);
            lemma_trigger_keeps_entry(triggered(world.target), surface);
        },
    }
}

proof fn lemma_lives_from_the_start<T>(world: World<T>, turns: Seq<Turn<T>>, surface: usize)
    requires
        lives_through(world, turns, surface),
    ensures
        open_windows(world.target.windows).contains(surface),
    decreases turns.len(),
{
    if turns.len() > 0 {
        lemma_lives_from_the_start(world, turns.drop_last(), surface);
    } else {
        assert(turned_all(world, turns) == world);
    }
}

proof fn lemma_trigger_keeps_entry(target: TargetView, surface: usize)
    requires
        target.wf(),
        open_windows(target.windows).contains(surface),
    ensures
        triggered(target).wf(),
        open_windows(triggered(target).windows).contains(surface),
        entry(triggered(target).windows, surface).size == entry(target.windows, surface).size,
        entry(triggered(target).windows, surface).frame == entry(target.windows, surface).frame,
{
    law_told_windows_are_settled(target, surface);
    lemma_triggered_lives(target);
    lemma_entry_unique(target.windows, surface);
    lemma_entry_unique(triggered(target).windows, surface);
}

/// Once a flip of a window has ended, every later buffer of it is shown by a flip on the
/// same controller, whatever happens in between, for as long as the window lives.
pub proof fn law_shown_window_is_flipped_ever_after<T>(
    world: World<T>,
    turns: Seq<Turn<T>>,
    surface: usize,
    framebuffer: u32,
)
    requires
        world.wf(),
        can_turn_all(world, turns),
        lives_through(world, turns, surface),
        entry(world.target.windows, surface).frame->0.bo is Some || ends_flip(turns, surface),
    ensures
        ({
            let before = entry(world.target.windows, surface).frame->0;
            let after = entry(turned_all(world, turns).target.windows, surface).frame->0;
            first_action(after, framebuffer) == (FlipAction::QueueFlip {
                crtc: before.crtc,
                framebuffer,
            })
        }),
{
    law_window_keeps_what_is_not_changed(world, turns, surface);
}

} // verus!
