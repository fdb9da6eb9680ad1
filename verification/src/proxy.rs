//! Handles by which other threads send events of the user's own to the loop.
use calloop::channel::{Channel, SendError, Sender};
use vstd::prelude::*;

verus! {

/// The sending end of a channel of `calloop`.
#[verifier::external_type_specification]
#[verifier::external_body]
#[verifier::reject_recursive_types(T)]
pub struct ExSender<T>(calloop::channel::Sender<T>);

/// The receiving end of a channel of `calloop`, an event source.
#[verifier::external_type_specification]
#[verifier::external_body]
#[verifier::reject_recursive_types(T)]
pub struct ExChannel<T>(calloop::channel::Channel<T>);

/// The loop that a proxy belongs to is gone.
#[derive(Debug, Copy, Clone, PartialEq, Eq)]
pub struct EventLoopClosed;

/// Why a channel did not take a message.
#[derive(Debug, PartialEq, Eq)]
pub enum SendFailure<T> {
    /// The receiver could not be woken up.
    Io,
    /// The receiver is gone; here is the message again.
    Disconnected(T),
}

/// Calls `calloop::channel::channel`, which makes a new channel and returns its
/// two ends. What the channel holds is shown by neither end, so nothing is claimed
/// of it; that two ends came out of one call is what `are_ends` says.
#[verifier::external_body]
fn new_channel<T>() -> (ends: (Sender<T>, Channel<T>)) {
    calloop::channel::channel()
}

/// The two ends are those of one channel: one call made both.
pub closed spec fn are_ends<T>(sender: Sender<T>, channel: Channel<T>) -> bool {
    call_ensures(new_channel::<T>, (), (sender, channel))
}

/// Makes a new channel.
pub(crate) fn open_channel<T>() -> (ends: (Sender<T>, Channel<T>))
    ensures
        are_ends(ends.0, ends.1),
{
    let make = new_channel::<T>;
    make()
}

/// Calls `calloop::channel::Sender::clone`, which returns another handle of the
/// same sending end. A sender shows nothing of itself, so to have the same
/// sending end is all that its equality says.
#[verifier::external_body]
pub(crate) fn clone_sender<T>(sender: &Sender<T>) -> (other: Sender<T>)
    ensures
        other == *sender,
{
    sender.clone()
}

/// Calls `calloop::channel::Sender::send`, which queues `event` for the receiver.
/// Whether it succeeds depends on the receiver, and is left open. Where the
/// receiver is gone, the event comes back as it was.
#[verifier::external_body]
fn channel_send<T>(sender: &Sender<T>, event: T) -> (sent: Result<(), SendFailure<T>>)
    ensures
        gives_back(sent, event),
{
    match sender.send(event) {
        Ok(()) => Ok(()),
        Err(SendError::Io(_)) => Err(SendFailure::Io),
        Err(SendError::Disconnected(event)) => Err(SendFailure::Disconnected(event)),
    }
}

/// `sent` is what the channel answers when `event` is sent at the end `sender`.
pub closed spec fn is_answer<T>(
    sender: Sender<T>,
    event: T,
    sent: Result<(), SendFailure<T>>,
) -> bool {
    call_ensures(channel_send::<T>, (&sender, event), sent)
}

/// A message that comes back is the one that was sent.
pub open spec fn gives_back<T>(sent: Result<(), SendFailure<T>>, event: T) -> bool {
    sent matches Err(SendFailure::Disconnected(returned)) ==> returned == event
}

/// The answer to a sender whose channel answered `sent`.
pub open spec fn send_reply<T>(sent: Result<(), SendFailure<T>>) -> Result<(), EventLoopClosed> {
    match sent {
        Ok(_) => Ok(()),
        Err(_) => Err(EventLoopClosed),
    }
}

/// Turns the channel's answer into the proxy's: every failure means that the loop
/// is closed.
pub fn closed_on_failure<T>(sent: Result<(), SendFailure<T>>) -> (reply: Result<
    (),
    EventLoopClosed,
>)
    ensures
        reply == send_reply(sent),
{
    match sent {
        Ok(()) => Ok(()),
        Err(_) => Err(EventLoopClosed),
    }
}

/// A handle that can be sent across threads and used to wake up the loop.
#[verifier::reject_recursive_types(T)]
pub struct EventLoopProxy<T> {
    user_sender: Sender<T>,
}

impl<T> EventLoopProxy<T> {
    /// The sending end that the proxy hands its events to.
    pub closed spec fn sender(&self) -> Sender<T> {
        self.user_sender
    }

    /// A proxy that hands its events to `user_sender`.
    pub(crate) fn new(user_sender: Sender<T>) -> (proxy: EventLoopProxy<T>)
        ensures
            proxy.sender() == user_sender,
    {
        EventLoopProxy { user_sender }
    }

    /// Sends `event` at the proxy's sending end. The reply is the one that follows from
    /// what the channel answered to that.
    pub fn send_event(&self, event: T) -> (reply: Result<(), EventLoopClosed>)
        ensures
            exists|sent: Result<(), SendFailure<T>>| #[trigger]
                is_answer(self.sender(), event, sent) && gives_back(sent, event) && reply
                    == send_reply(sent),
    {
        let send = channel_send::<T>;
        let sent = send(&self.user_sender, event);
        assert(is_answer(self.sender(), event, sent));
        closed_on_failure(sent)
    }
}

impl<T> Clone for EventLoopProxy<T> {
    fn clone(&self) -> (proxy: Self)
        ensures
            proxy.sender() == self.sender(),
    {
        EventLoopProxy { user_sender: clone_sender(&self.user_sender) }
    }
}

/// Proxies with the same sending end are interchangeable: they feed the same channel,
/// and what may be answered to one may be answered to the other.
pub proof fn law_proxies_feed_one_channel<T>(
    one: EventLoopProxy<T>,
    other: EventLoopProxy<T>,
    channel: Channel<T>,
    event: T,
    sent: Result<(), SendFailure<T>>,
)
    requires
        one.sender() == other.sender(),
        are_ends(one.sender(), channel),
    ensures
        are_ends(other.sender(), channel),
        is_answer(one.sender(), event, sent) <==> is_answer(other.sender(), event, sent),
{
}

/// A proxy succeeds exactly where its channel does.
pub proof fn law_proxy_succeeds_where_the_channel_does<T>(
    sent: Result<(), SendFailure<T>>,
    reply: Result<(), EventLoopClosed>,
)
    requires
        call_ensures(closed_on_failure::<T>, (sent,), reply),
    ensures
        sent is Ok <==> reply is Ok,
        sent is Err <==> reply == Err::<(), EventLoopClosed>(EventLoopClosed),
        send_reply(sent) is Ok <==> sent is Ok,
{
}

/// A proxy answers with success only where its own sending end took the very event, and
/// with failure only where that end refused it.
pub proof fn law_proxy_sends_at_its_own_end<T>(
    proxy: EventLoopProxy<T>,
    event: T,
    reply: Result<(), EventLoopClosed>,
)
    requires
        call_ensures(EventLoopProxy::<T>::send_event, (&proxy, event), reply),
    ensures
        reply is Ok ==> is_answer(proxy.sender(), event, Ok::<(), SendFailure<T>>(())),
        reply is Err ==> is_answer(proxy.sender(), event, Err::<(), _>(SendFailure::<T>::Io))
            || is_answer(proxy.sender(), event, Err::<(), _>(SendFailure::Disconnected(event))),
{
    let sent = choose|sent: Result<(), SendFailure<T>>| #[trigger]
        is_answer(proxy.sender(), event, sent) && gives_back(sent, event) && reply == send_reply(
            sent,
        );
    if let Ok(unit) = sent {
        assert(unit == ());
        assert(sent == Ok::<(), SendFailure<T>>(()));
    }
}

} // verus!
