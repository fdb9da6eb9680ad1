//! What holds of a run of the event loop as a whole.
use crate::event::{ControlFlow, Event, StartCause, WindowEvent};
use crate::event_loop::{answered, begun, expects, first_drain, is_sticky, resumed};
use crate::event_loop::{second_drain, taken_up, user_drain, wait_cause, with_keyboard, with_user};
use crate::event_loop::{Action, LoopView, Outcome, Reply, SourceEvent, Stage};
use crate::ids::WindowId;
use crate::target::{law_nothing_is_told_twice, law_windows_are_told_of_by_window_events};
use crate::target::{trigger_events, triggered, TargetView};
use crate::time::{span_until, Duration, Instant};
use vstd::prelude::*;

verus! {

/// Something that reaches the loop: that it is to run, what came of an action, with the
/// target as it is then, or what a source brought.
pub enum Input<T> {
    Run,
    Reply { target: TargetView, reply: Reply },
    Keyboard(SourceEvent<(WindowEvent, WindowId)>),
    User(SourceEvent<T>),
}

/// The loop is in a state to take `input`.
pub open spec fn accepts<T>(state: LoopView<T>, input: Input<T>) -> bool {
    match input {
        Input::Run => state.stage is Idle,
        Input::Reply { reply, .. } => expects(state.stage, reply),
        _ => true,
    }
}

/// The loop once it has taken `input`.
pub open spec fn step<T>(state: LoopView<T>, input: Input<T>) -> LoopView<T> {
    match input {
        Input::Run => begun(state),
        Input::Reply { target, reply } => resumed(state, target, reply).state,
        Input::Keyboard(evt) => with_keyboard(state, evt),
        Input::User(evt) => with_user(state, evt),
    }
}

/// The loop once it has taken `inputs`, one after the other.
pub open spec fn replay<T>(state: LoopView<T>, inputs: Seq<Input<T>>) -> LoopView<T>
    decreases inputs.len(),
{
    if inputs.len() == 0 {
        state
    } else {
        step(replay(state, inputs.drop_last()), inputs.last())
    }
}

/// The loop can take `inputs`, one after the other.
pub open spec fn accepts_all<T>(state: LoopView<T>, inputs: Seq<Input<T>>) -> bool
    decreases inputs.len(),
{
    inputs.len() > 0 ==> accepts_all(state, inputs.drop_last()) && accepts(
        replay(state, inputs.drop_last()),
        inputs.last(),
    )
}

/// The loop is on its way out, or out.
pub open spec fn is_leaving<T>(state: LoopView<T>) -> bool {
    ||| state.stage is Idle
    ||| state.control_flow is Exit && (is_sticky(state.stage) || state.stage is Destroyed)
}

/// The wish to leave cannot be undone: once the callback has answered with it, whatever
/// comes in and whatever later calls answer, the loop goes on wanting to leave until the
/// run is over and another begins. It never again waits, reads the clock or begins a round.
pub proof fn law_exit_is_sticky<T>(
    state: LoopView<T>,
    target: TargetView,
    inputs: Seq<Input<T>>,
)
    requires
        expects(state.stage, Reply::Returned(ControlFlow::Exit)),
        accepts_all(resumed(state, target, Reply::Returned(ControlFlow::Exit)).state, inputs),
        forall|i: int| 0 <= i < inputs.len() ==> !(#[trigger] inputs[i] is Run),
    ensures
        is_leaving(
            replay(resumed(state, target, Reply::Returned(ControlFlow::Exit)).state, inputs),
        ),
    decreases inputs.len(),
{
    let begun = resumed(state, target, Reply::Returned(ControlFlow::Exit)).state;
    if inputs.len() > 0 {
        assert(!(inputs[inputs.len() - 1] is Run));
        law_exit_is_sticky(state, target, inputs.drop_last());
        let before = replay(begun, inputs.drop_last());
        assert(is_leaving(before));
    }
}

/// Events that were taken up are handed out before anything else is done: only while
/// they are being handed out are there any.
pub open spec fn is_consistent<T>(state: LoopView<T>) -> bool {
    state.round.len() > 0 ==> state.stage is FirstSink || state.stage is SecondSink
}

/// Whatever reaches the loop, what was taken up is handed out before the loop goes on.
pub proof fn law_rounds_are_finished<T>(state: LoopView<T>, inputs: Seq<Input<T>>)
    requires
        is_consistent(state),
        accepts_all(state, inputs),
    ensures
        is_consistent(replay(state, inputs)),
    decreases inputs.len(),
{
    if inputs.len() > 0 {
        law_rounds_are_finished(state, inputs.drop_last());
    }
}

/// The event of the user's own that the loop hands out when it takes `input`, if any.
pub open spec fn user_handed<T>(state: LoopView<T>, input: Input<T>) -> Seq<T> {
    if let Input::Reply { target, reply } = input {
        let outcome = resumed(state, target, reply);
        if outcome.state.stage is Users {
            seq![outcome.action->event->UserEvent_0]
        } else {
            Seq::empty()
        }
    } else {
        Seq::empty()
    }
}

/// The event of the user's own that `input` brings, if any.
pub open spec fn user_brought<T>(input: Input<T>) -> Seq<T> {
    match input {
        Input::User(SourceEvent::Msg(msg)) => seq![msg],
        _ => Seq::empty(),
    }
}

/// The events of the user's own that the loop hands out while it takes `inputs`.
pub open spec fn users_handed<T>(state: LoopView<T>, inputs: Seq<Input<T>>) -> Seq<T>
    decreases inputs.len(),
{
    if inputs.len() == 0 {
        Seq::empty()
    } else {
        users_handed(state, inputs.drop_last()) + user_handed(
            replay(state, inputs.drop_last()),
            inputs.last(),
        )
    }
}

/// The events of the user's own that `inputs` bring.
pub open spec fn users_brought<T>(inputs: Seq<Input<T>>) -> Seq<T>
    decreases inputs.len(),
{
    if inputs.len() == 0 {
        Seq::empty()
    } else {
        users_brought(inputs.drop_last()) + user_brought(inputs.last())
    }
}

/// The user's own events are neither lost nor made up, and keep their order: whatever
/// reaches the loop, over as many runs as it may, those that were handed out and then
/// those that wait are those that waited at first and then those that came in.
pub proof fn law_user_events_are_kept<T>(state: LoopView<T>, inputs: Seq<Input<T>>)
    requires
        accepts_all(state, inputs),
    ensures
        users_handed(state, inputs) + replay(state, inputs).users == state.users + users_brought(
            inputs,
        ),
        users_handed(state, inputs).is_prefix_of(state.users + users_brought(inputs)),
    decreases inputs.len(),
{
    if inputs.len() == 0 {
        assert(users_handed(state, inputs) + state.users == state.users);
        assert(state.users + users_brought(inputs) == state.users);
    } else {
        let earlier = inputs.drop_last();
        let last = inputs.last();
        law_user_events_are_kept(state, earlier);
        let before = replay(state, earlier);
        let after = step(before, last);
        assert(user_handed(before, last) + after.users == before.users + user_brought(last)) by {
            if user_handed(before, last).len() > 0 {
                assert(before.users == seq![before.users[0]] + before.users.drop_first());
            }
        }
        let handed = users_handed(state, earlier);
        let brought = users_brought(earlier);
        assert(handed + user_handed(before, last) + after.users == handed + (user_handed(
            before,
            last,
        ) + after.users));
        assert(handed + (before.users + user_brought(last)) == (handed + before.users)
            + user_brought(last));
        assert(state.users + brought + user_brought(last) == state.users + (brought
            + user_brought(last)));
    }
}

/// The loop waits for what the sources bring.
pub open spec fn is_dispatching(stage: Stage) -> bool {
    stage is Polling || stage is Waiting || stage is WaitingUntil
}

/// `input` comes when its time is: what a source brings, while the loop waits for that.
pub open spec fn in_time<T>(state: LoopView<T>, input: Input<T>) -> bool {
    &&& accepts(state, input)
    &&& input is Keyboard || input is User ==> is_dispatching(state.stage)
}

/// `inputs` come when their time is, one after the other, and all before the loop waits
/// for the sources or is run again.
pub open spec fn within_round<T>(state: LoopView<T>, inputs: Seq<Input<T>>) -> bool
    decreases inputs.len(),
{
    inputs.len() > 0 ==> {
        let before = replay(state, inputs.drop_last());
        &&& within_round(state, inputs.drop_last())
        &&& in_time(before, inputs.last())
        &&& !is_dispatching(before.stage)
        &&& !(before.stage is Idle)
    }
}

/// The user's own events are still to be handed out in this round.
pub open spec fn is_before_users(stage: Stage) -> bool {
    stage is Init || stage is NewEvents || stage is FirstSink || stage is Users
}

/// A round hands out those of the user's own events that waited when it began, and no
/// others: when it is over all of them have been handed out, and one that comes in later
/// is handed out only once the loop has waited for the sources.
pub proof fn law_round_hands_out_waiting_user_events<T>(
    state: LoopView<T>,
    inputs: Seq<Input<T>>,
)
    requires
        state.stage is Init || state.stage is NewEvents,
        within_round(state, inputs),
    ensures
        users_handed(state, inputs) + replay(state, inputs).users == state.users,
        !is_before_users(replay(state, inputs).stage) ==> users_handed(state, inputs)
            == state.users,
{
    lemma_users_run_out(state, inputs);
    law_user_events_are_kept(state, inputs);
    assert(state.users + Seq::<T>::empty() == state.users);
    assert(users_handed(state, inputs) + Seq::<T>::empty() == users_handed(state, inputs));
}

proof fn lemma_users_run_out<T>(state: LoopView<T>, inputs: Seq<Input<T>>)
    requires
        state.stage is Init || state.stage is NewEvents,
        within_round(state, inputs),
    ensures
        accepts_all(state, inputs),
        users_brought(inputs) == Seq::<T>::empty(),
        ({
            let after = replay(state, inputs);
            &&& is_before_users(after.stage) || after.users == Seq::<T>::empty()
            &&& !(after.stage is Woken)
            &&& !(after.stage is WokenUntil)
        }),
    decreases inputs.len(),
{
    if inputs.len() > 0 {
        lemma_users_run_out(state, inputs.drop_last());
    }
}

/// The event that `action` hands out.
pub open spec fn event_of<T>(action: Action<T>) -> Event<T> {
    action->event
}

/// The event that the callback is called with when the loop takes `input`, if any.
pub open spec fn told_by<T>(state: LoopView<T>, input: Input<T>) -> Seq<Event<T>> {
    match input {
        Input::Run => seq![Event::NewEvents(StartCause::Init)],
        Input::Reply { target, reply } => match resumed(state, target, reply).action {
            Action::Callback { event, .. } => seq![event],
            _ => Seq::empty(),
        },
        _ => Seq::empty(),
    }
}

/// The events that the callback is called with while the loop takes `inputs`.
pub open spec fn told<T>(state: LoopView<T>, inputs: Seq<Input<T>>) -> Seq<Event<T>>
    decreases inputs.len(),
{
    if inputs.len() == 0 {
        Seq::empty()
    } else {
        told(state, inputs.drop_last()) + told_by(
            replay(state, inputs.drop_last()),
            inputs.last(),
        )
    }
}

/// `event` happened to a window or a device.
pub open spec fn is_outer<T>(event: Event<T>) -> bool {
    event is WindowEvent || event is DeviceEvent
}

/// Only what happened to windows and devices is buffered.
pub open spec fn buffers_outer_events<T>(state: LoopView<T>) -> bool {
    &&& forall|i: int| 0 <= i < state.sink.len() ==> is_outer(#[trigger] state.sink[i])
    &&& forall|i: int| 0 <= i < state.round.len() ==> is_outer(#[trigger] state.round[i])
}

/// `next` can come right after `event`: within a round, what happened and the user's own
/// events, until the round is over; after that, the beginning of the next round or the
/// end; and after the end, nothing.
pub open spec fn can_follow<T>(event: Event<T>, next: Event<T>) -> bool {
    match event {
        Event::EventsCleared => next is LoopDestroyed || (next matches Event::NewEvents(cause)
            && !(cause is Init)),
        Event::LoopDestroyed => false,
        _ => is_outer(next) || next is UserEvent || next is EventsCleared,
    }
}

/// `events` can be what a run tells, as far as it has come: the beginning comes first and
/// never again, every round ends with the one event that it is over, and nothing comes
/// after the end.
pub open spec fn is_run_of<T>(events: Seq<Event<T>>) -> bool {
    &&& events.len() > 0
    &&& events[0] == Event::<T>::NewEvents(StartCause::Init)
    &&& forall|i: int, j: int|
        0 <= i && j == i + 1 && j < events.len() ==> can_follow(
            #[trigger] events[i],
            #[trigger] events[j],
        )
    &&& forall|i: int|
        0 < i < events.len() ==> #[trigger] events[i] != Event::<T>::NewEvents(StartCause::Init)
    &&& forall|i: int|
        0 <= i < events.len() - 1 ==> !(#[trigger] events[i] is LoopDestroyed)
}

/// `event` is one that the callback can have been told last when the loop stands there.
pub open spec fn is_told_at<T>(stage: Stage, event: Event<T>) -> bool {
    match stage {
        Stage::Init | Stage::NewEvents => event is NewEvents,
        Stage::FirstSink | Stage::SecondSink => is_outer(event),
        Stage::Users => event is UserEvent,
        Stage::Destroyed | Stage::Idle => event is LoopDestroyed,
        _ => event is EventsCleared,
    }
}

/// A run has a shape. Whatever reaches the loop, the callback is told of the beginning
/// first and once. Every round begins with the event that says so and ends with the one
/// event that it is over, with nothing but what happened and the user's own events in
/// between. When the run is over, the end has been told, last and once.
/// Only what happened to windows and devices is buffered.
pub proof fn law_run_has_a_shape<T>(state: LoopView<T>, inputs: Seq<Input<T>>)
    requires
        state.stage is Idle,
        is_consistent(state),
        buffers_outer_events(state),
        accepts_all(state, inputs),
        inputs.len() > 0,
        inputs[0] is Run,
        forall|i: int| 0 < i < inputs.len() ==> !(#[trigger] inputs[i] is Run),
    ensures
        is_run_of(told(state, inputs)),
        is_told_at(replay(state, inputs).stage, told(state, inputs).last()),
        is_consistent(replay(state, inputs)),
        buffers_outer_events(replay(state, inputs)),
    decreases inputs.len(),
{
    let earlier = inputs.drop_last();
    let last = inputs.last();
    let before = replay(state, earlier);
    law_rounds_are_finished(state, inputs);
    if earlier.len() == 0 {
        assert(last == inputs[0]);
        assert(told(state, earlier) == Seq::<Event<T>>::empty());
        assert(told(state, inputs) == seq![Event::<T>::NewEvents(StartCause::Init)]);
    } else {
        law_run_has_a_shape(state, earlier);
        assert(!(inputs[inputs.len() - 1] is Run));
        let events = told(state, earlier);
        let more = told_by(before, last);
        if let Input::Reply { target, reply } = last {
            lemma_step_tells_what_follows(before, target, reply, events.last());
        }
        if more.len() > 0 {
            let all = told(state, inputs);
            assert(all == events.push(more[0]));
            assert(can_follow(events.last(), more[0]));
            assert forall|i: int, j: int|
                0 <= i && j == i + 1 && j < all.len() implies can_follow(
                #[trigger] all[i],
                #[trigger] all[j],
            ) by {
                assert(all[i] == events[i]);
            }
            assert forall|i: int| 0 <= i < all.len() - 1 implies !(
            #[trigger] all[i] is LoopDestroyed) by {
                assert(all[i] == events[i]);
                assert(!(events.last() is LoopDestroyed));
            }
        } else {
            assert(told(state, inputs) == events);
        }
    }
}

/// What a step tells can come after what was told last.
proof fn lemma_step_tells_what_follows<T>(
    state: LoopView<T>,
    target: TargetView,
    reply: Reply,
    event: Event<T>,
)
    requires
        is_consistent(state),
        buffers_outer_events(state),
        expects(state.stage, reply),
        is_told_at(state.stage, event),
    ensures
        ({
            let outcome = resumed(state, target, reply);
            &&& buffers_outer_events(outcome.state)
            &&& match outcome.action {
                Action::Callback { event: next, .. } => can_follow(event, next) && is_told_at(
                    outcome.state.stage,
                    next,
                ),
                _ => is_told_at(outcome.state.stage, event),
            }
        }),
{
    law_windows_are_told_of_by_window_events::<T>(target);
    law_windows_are_told_of_by_window_events::<T>(triggered(target));
}

/// What the callback answers, with the target as it leaves it.
pub type Answer = (TargetView, ControlFlow);

/// The events that the callback is called with while it answers `answers`, one after the
/// other, beginning with the event that follows the first answer.
pub open spec fn handed_out<T>(state: LoopView<T>, answers: Seq<Answer>) -> Seq<Event<T>>
    decreases answers.len(),
{
    if answers.len() == 0 {
        Seq::empty()
    } else {
        let outcome = resumed(state, answers[0].0, Reply::Returned(answers[0].1));
        seq![event_of(outcome.action)] + handed_out(outcome.state, answers.drop_first())
    }
}

/// The loop once the callback has answered `answers`, one after the other.
pub open spec fn after_answers<T>(state: LoopView<T>, answers: Seq<Answer>) -> LoopView<T>
    decreases answers.len(),
{
    if answers.len() == 0 {
        state
    } else {
        after_answers(
            resumed(state, answers[0].0, Reply::Returned(answers[0].1)).state,
            answers.drop_first(),
        )
    }
}

/// The user's events, as the callback gets them.
pub open spec fn user_events<T>(users: Seq<T>) -> Seq<Event<T>> {
    users.map_values(|user: T| Event::UserEvent(user))
}

/// What is to be told of the windows once `n` events of the round have been handed out,
/// that is, what the callback brought about meanwhile.
pub open spec fn second_events<T>(answers: Seq<Answer>, n: int) -> Seq<Event<T>> {
    if n == 0 {
        Seq::empty()
    } else {
        trigger_events(answers[n].0)
    }
}

/// A round hands out everything and in order: what was sent, what there is to tell of the
/// windows, the user's own events, what there is to tell of the windows after that, and
/// that the round is over. A wish to leave in the middle does not cut it short.
pub proof fn law_round_hands_out_everything<T>(state: LoopView<T>, answers: Seq<Answer>)
    requires
        state.stage is Init || state.stage is NewEvents,
        is_consistent(state),
        answers.len() > 0,
        ({
            let first = state.sink + trigger_events::<T>(answers[0].0);
            let n = first.len() + state.users.len();
            answers.len() == n + second_events::<T>(answers, n as int).len() + 1
        }),
    ensures
        ({
            let first = state.sink + trigger_events::<T>(answers[0].0);
            let n = first.len() + state.users.len();
            &&& handed_out(state, answers) == first + user_events(state.users)
                + second_events::<T>(answers, n as int) + seq![Event::<T>::EventsCleared]
            &&& after_answers(state, answers).stage is Cleared
        }),
{
    let target = answers[0].0;
    let first = state.sink + trigger_events::<T>(target);
    let rest = answers.drop_first();
    let next = taken_up(answered(state, answers[0].1), target);
    assert(next.round == first);
    if first.len() + state.users.len() == 0 {
        law_nothing_is_told_twice::<T>(target);
        assert(last_target(rest, 0, triggered(target)) == triggered(target));
    }
    lemma_first_drain(next, triggered(target), rest);
    assert(resumed(state, target, Reply::Returned(answers[0].1)) == first_drain(
        next,
        triggered(target),
    ));
}

/// The target as it is once `n` answers have been given, with `target` to begin with.
spec fn last_target(answers: Seq<Answer>, n: int, target: TargetView) -> TargetView {
    if n == 0 {
        target
    } else {
        answers[n - 1].0
    }
}

/// The events handed out from `outcome` on.
spec fn from_outcome<T>(outcome: Outcome<T>, answers: Seq<Answer>) -> Seq<Event<T>> {
    seq![event_of(outcome.action)] + handed_out(outcome.state, answers)
}

proof fn lemma_second_drain<T>(state: LoopView<T>, target: TargetView, answers: Seq<Answer>)
    requires
        answers.len() == state.round.len(),
    ensures
        from_outcome(second_drain(state, target), answers) == state.round + seq![
            Event::<T>::EventsCleared,
        ],
        after_answers(second_drain(state, target).state, answers).stage is Cleared,
    decreases state.round.len(),
{
    if state.round.len() > 0 {
        let outcome = second_drain(state, target);
        let next = answered(outcome.state, answers[0].1);
        lemma_second_drain(next, answers[0].0, answers.drop_first());
        assert(state.round == seq![state.round[0]] + next.round);
        assert(from_outcome(outcome, answers) == seq![state.round[0]] + from_outcome(
            second_drain(next, answers[0].0),
            answers.drop_first(),
        ));
    }
}

proof fn lemma_user_drain<T>(state: LoopView<T>, target: TargetView, answers: Seq<Answer>)
    requires
        state.round.len() == 0,
        state.sink.len() == 0,
        answers.len() == state.users.len() + trigger_events::<T>(
            last_target(answers, state.users.len() as int, target),
        ).len(),
    ensures
        from_outcome(user_drain(state, target), answers) == user_events(state.users)
            + trigger_events::<T>(last_target(answers, state.users.len() as int, target)) + seq![
            Event::<T>::EventsCleared,
        ],
        after_answers(user_drain(state, target).state, answers).stage is Cleared,
    decreases state.users.len(),
{
    let told = trigger_events::<T>(last_target(answers, state.users.len() as int, target));
    if state.users.len() > 0 {
        let outcome = user_drain(state, target);
        let next = answered(outcome.state, answers[0].1);
        let rest = answers.drop_first();
        assert(last_target(rest, next.users.len() as int, answers[0].0) == last_target(
            answers,
            state.users.len() as int,
            target,
        ));
        lemma_user_drain(next, answers[0].0, rest);
        assert(user_events(state.users) == seq![Event::UserEvent(state.users[0])] + user_events(
            next.users,
        ));
        assert(from_outcome(outcome, answers) == seq![Event::UserEvent(state.users[0])]
            + from_outcome(user_drain(next, answers[0].0), rest));
        assert(user_events(state.users) + told + seq![Event::<T>::EventsCleared] == seq![
            Event::UserEvent(state.users[0]),
        ] + (user_events(next.users) + told + seq![Event::<T>::EventsCleared]));
    } else {
        let next = taken_up(state, target);
        assert(next.round == told);
        lemma_second_drain(next, triggered(target), answers);
        assert(user_events(state.users) + told == told);
    }
}

proof fn lemma_first_drain<T>(state: LoopView<T>, target: TargetView, answers: Seq<Answer>)
    requires
        state.sink.len() == 0,
        answers.len() == state.round.len() + state.users.len() + trigger_events::<T>(
            last_target(answers, (state.round.len() + state.users.len()) as int, target),
        ).len(),
    ensures
        from_outcome(first_drain(state, target), answers) == state.round + user_events(
            state.users,
        ) + trigger_events::<T>(
            last_target(answers, (state.round.len() + state.users.len()) as int, target),
        ) + seq![Event::<T>::EventsCleared],
        after_answers(first_drain(state, target).state, answers).stage is Cleared,
    decreases state.round.len(),
{
    let n = (state.round.len() + state.users.len()) as int;
    let told = trigger_events::<T>(last_target(answers, n, target));
    let users = user_events(state.users);
    if state.round.len() > 0 {
        let outcome = first_drain(state, target);
        let next = answered(outcome.state, answers[0].1);
        let rest = answers.drop_first();
        assert(last_target(rest, n - 1, answers[0].0) == last_target(answers, n, target));
        lemma_first_drain(next, answers[0].0, rest);
        assert(state.round == seq![state.round[0]] + next.round);
        assert(from_outcome(outcome, answers) == seq![state.round[0]] + from_outcome(
            first_drain(next, answers[0].0),
            rest,
        ));
        assert(state.round + users + told + seq![Event::<T>::EventsCleared] == seq![
            state.round[0],
        ] + (next.round + users + told + seq![Event::<T>::EventsCleared]));
    } else {
        lemma_user_drain(state, target, answers);
        assert(state.round + users == users);
    }
}

/// Once the user's own events are done, a round hands out what was sent and what there is
/// to tell of the windows then, and that the round is over.
pub proof fn law_second_batch_is_handed_out<T>(state: LoopView<T>, answers: Seq<Answer>)
    requires
        state.stage is FirstSink || state.stage is Users,
        state.round.len() == 0,
        state.users.len() == 0,
        answers.len() > 0,
        answers.len() == state.sink.len() + trigger_events::<T>(answers[0].0).len() + 1,
    ensures
        handed_out(state, answers) == state.sink + trigger_events::<T>(answers[0].0) + seq![
            Event::<T>::EventsCleared,
        ],
        after_answers(state, answers).stage is Cleared,
{
    let target = answers[0].0;
    let next = taken_up(answered(state, answers[0].1), target);
    assert(next.round == state.sink + trigger_events::<T>(target));
    lemma_second_drain(next, triggered(target), answers.drop_first());
    assert(resumed(state, target, Reply::Returned(answers[0].1)) == second_drain(
        next,
        triggered(target),
    ));
}

/// A wait until a deadline lasts no longer than to the deadline; if nothing cuts it
/// short, the callback is told that the time has come, and if something does, the
/// callback is told so, with the deadline that was asked for.
pub proof fn law_wait_ends_at_the_deadline<T>(
    state: LoopView<T>,
    target: TargetView,
    deadline: Instant,
    start: Instant,
    now: Instant,
)
    requires
        state.stage is Cleared,
        !(state.control_flow is Exit),
    ensures
        ({
            let timing = resumed(
                state,
                target,
                Reply::Returned(ControlFlow::WaitUntil(deadline)),
            );
            let waiting = resumed(timing.state, target, Reply::Now(start));
            let woken = resumed(waiting.state, target, Reply::Dispatched);
            let told = resumed(woken.state, target, Reply::Now(now));
            let timeout = span_until(start, deadline);
            &&& timing.action is ReadClock
            &&& waiting.action == (Action::<T>::Dispatch { timeout: Some(timeout) })
            &&& start.nanos <= deadline.nanos ==> start.nanos + timeout.nanos == deadline.nanos
            &&& woken.action is ReadClock
            &&& event_of(told.action) == Event::<T>::NewEvents(wait_cause(start, deadline, now))
            &&& now.nanos >= start.nanos + timeout.nanos ==> event_of(told.action) == Event::<
                T,
            >::NewEvents(StartCause::ResumeTimeReached { start, requested_resume: deadline })
            &&& now.nanos < deadline.nanos ==> event_of(told.action) == Event::<T>::NewEvents(
                StartCause::WaitCancelled { start, requested_resume: Some(deadline) },
            )
        }),
{
}

/// A loop that polls lets the sources bring what they have, does not wait, and begins the
/// next round.
pub proof fn law_poll_does_not_wait<T>(state: LoopView<T>, target: TargetView)
    requires
        state.stage is Cleared,
        !(state.control_flow is Exit),
    ensures
        ({
            let polling = resumed(state, target, Reply::Returned(ControlFlow::Poll));
            let told = resumed(polling.state, target, Reply::Dispatched);
            &&& polling.action == (Action::<T>::Dispatch { timeout: Some(Duration { nanos: 0 }) })
            &&& event_of(told.action) == Event::<T>::NewEvents(StartCause::Poll)
        }),
{
}

/// A loop that waits does so for as long as it takes, and tells when the wait ended.
pub proof fn law_wait_has_no_end<T>(state: LoopView<T>, target: TargetView, now: Instant)
    requires
        state.stage is Cleared,
        !(state.control_flow is Exit),
    ensures
        ({
            let waiting = resumed(state, target, Reply::Returned(ControlFlow::Wait));
            let woken = resumed(waiting.state, target, Reply::Dispatched);
            let told = resumed(woken.state, target, Reply::Now(now));
            &&& waiting.action == (Action::<T>::Dispatch { timeout: None })
            &&& woken.action is ReadClock
            &&& event_of(told.action) == Event::<T>::NewEvents(
                StartCause::WaitCancelled { start: now, requested_resume: None },
            )
        }),
{
}

/// A loop that is left says so to the callback and, whatever that answers, is over.
pub proof fn law_leaving_is_told_last<T>(
    state: LoopView<T>,
    target: TargetView,
    answer: ControlFlow,
    last_answer: ControlFlow,
)
    requires
        state.stage is Cleared,
        state.control_flow is Exit || answer is Exit,
    ensures
        ({
            let leaving = resumed(state, target, Reply::Returned(answer));
            let over = resumed(leaving.state, leaving.target, Reply::Returned(last_answer));
            &&& event_of(leaving.action) == Event::<T>::LoopDestroyed
            &&& over.action is Finished
            &&& over.state.stage is Idle
            &&& forall|reply: Reply| !expects(over.state.stage, reply)
        }),
{
}

/// As long as the callback does not ask to leave, the control flow is what it answered
/// last, whatever it answered before; so it is when a round is over.
pub proof fn law_last_answer_counts<T>(state: LoopView<T>, answers: Seq<Answer>)
    requires
        answers.len() > 0,
        state.control_flow != ControlFlow::Exit || state.stage == Stage::Init || state.stage
            == Stage::NewEvents,
        forall|i: int| 0 <= i < answers.len() ==> (#[trigger] answers[i]).1 != ControlFlow::Exit,
    ensures
        after_answers(state, answers).control_flow == answers.last().1,
    decreases answers.len(),
{
    let next = resumed(state, answers[0].0, Reply::Returned(answers[0].1)).state;
    let rest = answers.drop_first();
    assert(answers[0].1 != ControlFlow::Exit);
    assert(next.control_flow == answers[0].1);
    assert forall|i: int| 0 <= i < rest.len() implies (#[trigger] rest[i]).1
        != ControlFlow::Exit by {
        assert(rest[i] == answers[i + 1]);
    }
    if rest.len() > 0 {
        law_last_answer_counts(next, rest);
    } else {
        assert(after_answers(next, rest) == next);
    }
}

} // verus!
