//! The client actor of a channel that is reached over capnp-rpc.
//!
//! The capnp-rpc client is bound to one thread, so a channel handle proxies each
//! of its calls to an actor on that thread: it queues a command and awaits the
//! answer. The actor alternates between awaiting and deciding. What it awaits is
//! done by its driver, which reports an [`ActorEvent`]; what follows from it is
//! decided here, as an [`ActorAction`].
//!
//! A caller takes a message when its receive returns it. The answer to a receive
//! waits in an [`AnswerSlot`], from which the caller takes it in the step in which
//! its receive returns; what a caller leaves there that went away before that, the
//! actor takes back and keeps for the next caller. So no message is lost that was
//! pulled from the backend while there is an actor to offer it.

use crate::error::{RecvError, RecvFault, SendError, SendFault, received, sent};
use crate::loopback::messages;
use crate::rpc::{RpcError, RpcFault, map_recv_error, map_send_error};
use std::collections::VecDeque;
use vstd::prelude::*;

verus! {

/// Depth of the command queue feeding the actor. Commands are small and consumed
/// one at a time; a little slack avoids needless wakeups.
pub const COMMAND_QUEUE_DEPTH: usize = 32;

/// What the actor keeps from one command to the next: the messages that were
/// pulled from the backend and that no caller took, the oldest first.
#[derive(Debug)]
pub struct ClientActor {
    buffer: VecDeque<Vec<u8>>,
}

impl View for ClientActor {
    type V = Seq<Seq<u8>>;

    closed spec fn view(&self) -> Seq<Seq<u8>> {
        messages(self.buffer@)
    }
}

/// What came of the last action.
#[derive(Debug)]
pub enum ActorEvent {
    /// The handle of the channel was dropped.
    Shutdown,
    /// No command can come any more.
    CommandsClosed,
    /// A caller wants a message sent.
    Send { msg: Vec<u8> },
    /// A caller wants a message.
    Recv,
    /// The remote send returned.
    SendReturned(Result<(), RpcError>),
    /// The remote receive returned.
    RecvReturned(Result<Vec<u8>, RpcError>),
    /// The answer to a send was handed over; whether anybody took it is all one.
    SendReplied,
    /// The answer to a receive was offered and its caller is done: `refused` holds
    /// what it left in the [`AnswerSlot`]. That is nothing if its receive returned the
    /// answer, and the answer itself if the caller went away before that.
    RecvReplied { refused: Option<Result<Vec<u8>, RecvError>> },
}

/// What the driver is to do next.
#[derive(Debug)]
pub enum ActorAction {
    /// Tear down the client and end.
    Stop,
    /// Await a command, or the shutdown.
    AwaitCommand,
    /// Call the remote send and await its return, or the shutdown.
    CallSend { msg: Vec<u8> },
    /// Call the remote receive and await its return, or the shutdown.
    CallRecv,
    /// Answer the caller that wanted a message sent.
    ReplySend(Result<(), SendError>),
    /// Offer this answer to the caller that wanted a message, and await that it is
    /// done.
    ReplyRecv(Result<Vec<u8>, RecvError>),
}

/// The mathematical content of an [`ActorEvent`].
#[verifier::ext_equal]
pub enum Event {
    Shutdown,
    CommandsClosed,
    Send { msg: Seq<u8> },
    Recv,
    SendReturned(Result<(), RpcFault>),
    RecvReturned(Result<Seq<u8>, RpcFault>),
    SendReplied,
    RecvReplied { refused: Option<Result<Seq<u8>, RecvFault>> },
}

/// The mathematical content of an [`ActorAction`].
#[verifier::ext_equal]
pub enum Action {
    Stop,
    AwaitCommand,
    CallSend { msg: Seq<u8> },
    CallRecv,
    ReplySend(Result<(), SendFault>),
    ReplyRecv(Result<Seq<u8>, RecvFault>),
}

impl View for ActorEvent {
    type V = Event;

    open spec fn view(&self) -> Event {
        match self {
            ActorEvent::Shutdown => Event::Shutdown,
            ActorEvent::CommandsClosed => Event::CommandsClosed,
            ActorEvent::Send { msg } => Event::Send { msg: msg@ },
            ActorEvent::Recv => Event::Recv,
            ActorEvent::SendReturned(Ok(())) => Event::SendReturned(Ok(())),
            ActorEvent::SendReturned(Err(error)) => Event::SendReturned(Err(error@)),
            ActorEvent::RecvReturned(Ok(msg)) => Event::RecvReturned(Ok(msg@)),
            ActorEvent::RecvReturned(Err(error)) => Event::RecvReturned(Err(error@)),
            ActorEvent::SendReplied => Event::SendReplied,
            ActorEvent::RecvReplied { refused: None } => Event::RecvReplied { refused: None },
            ActorEvent::RecvReplied { refused: Some(answer) } => Event::RecvReplied {
                refused: Some(received(*answer)),
            },
        }
    }
}

impl View for ActorAction {
    type V = Action;

    open spec fn view(&self) -> Action {
        match self {
            ActorAction::Stop => Action::Stop,
            ActorAction::AwaitCommand => Action::AwaitCommand,
            ActorAction::CallSend { msg } => Action::CallSend { msg: msg@ },
            ActorAction::CallRecv => Action::CallRecv,
            ActorAction::ReplySend(answer) => Action::ReplySend(sent(*answer)),
            ActorAction::ReplyRecv(answer) => Action::ReplyRecv(received(*answer)),
        }
    }
}

/// What the actor does next.
pub open spec fn action_after(buffer: Seq<Seq<u8>>, event: Event) -> Action {
    match event {
        Event::Shutdown | Event::CommandsClosed => Action::Stop,
        Event::Send { msg } => Action::CallSend { msg },
        // A message already pulled for an abandoned caller must reach the next one.
        Event::Recv => if buffer.len() > 0 {
            Action::ReplyRecv(Ok(buffer[0]))
        } else {
            Action::CallRecv
        },
        Event::SendReturned(Ok(())) => Action::ReplySend(Ok(())),
        Event::SendReturned(Err(fault)) => Action::ReplySend(Err(fault.send_fault())),
        Event::RecvReturned(Ok(msg)) => Action::ReplyRecv(Ok(msg)),
        Event::RecvReturned(Err(fault)) => Action::ReplyRecv(Err(fault.recv_fault())),
        Event::SendReplied | Event::RecvReplied { .. } => Action::AwaitCommand,
    }
}

/// What the actor keeps then: a message that was refused goes back to the front,
/// an error that was refused is discarded.
pub open spec fn buffer_after(buffer: Seq<Seq<u8>>, event: Event) -> Seq<Seq<u8>> {
    match event {
        Event::Recv => if buffer.len() > 0 {
            buffer.skip(1)
        } else {
            buffer
        },
        Event::RecvReplied { refused: Some(Ok(msg)) } => seq![msg] + buffer,
        _ => buffer,
    }
}

impl ClientActor {
    /// An actor that keeps nothing. Its driver starts by awaiting a command.
    pub fn new() -> (actor: Self)
        ensures
            actor@ == Seq::<Seq<u8>>::empty(),
    {
        let actor = ClientActor { buffer: VecDeque::new() };
        assert(actor@ =~= Seq::empty());
        actor
    }

    /// Takes note of what came of the last action and decides on the next.
    pub fn on_event(&mut self, event: ActorEvent) -> (action: ActorAction)
        ensures
            action@ == action_after(old(self)@, event@),
            final(self)@ == buffer_after(old(self)@, event@),
            event matches ActorEvent::Send { msg } ==> (action matches ActorAction::CallSend {
                msg: whole,
            } && whole@ == msg@),
            event matches ActorEvent::RecvReturned(Ok(msg)) ==> (
            action matches ActorAction::ReplyRecv(Ok(whole)) && whole@ == msg@),
            (action matches ActorAction::ReplySend(Ok(()))) <==> (
            event matches ActorEvent::SendReturned(Ok(()))),
    {
        match event {
            ActorEvent::Shutdown | ActorEvent::CommandsClosed => ActorAction::Stop,
            ActorEvent::Send { msg } => ActorAction::CallSend { msg },
            ActorEvent::Recv => match self.buffer.pop_front() {
                Some(msg) => {
                    assert(self@ =~= old(self)@.skip(1));
                    ActorAction::ReplyRecv(Ok(msg))
                },
                None => {
                    assert(self@ =~= old(self)@);
                    ActorAction::CallRecv
                },
            },
            ActorEvent::SendReturned(result) => ActorAction::ReplySend(
                match result {
                    Ok(()) => Ok(()),
                    Err(error) => Err(map_send_error(error)),
                },
            ),
            ActorEvent::RecvReturned(result) => ActorAction::ReplyRecv(
                match result {
                    Ok(msg) => Ok(msg),
                    Err(error) => Err(map_recv_error(error)),
                },
            ),
            ActorEvent::SendReplied => ActorAction::AwaitCommand,
            ActorEvent::RecvReplied { refused } => {
                if let Some(Ok(msg)) = refused {
                    self.buffer.push_front(msg);
                    assert(self@ =~= seq![msg@] + old(self)@);
                }
                ActorAction::AwaitCommand
            },
        }
    }
}

/// Where the answer to a receive waits for its caller. Whoever takes it first, the
/// caller or the actor, has it alone.
///
/// Its view is the answer that waits there, if one does.
#[derive(Debug)]
pub struct AnswerSlot {
    answer: Option<Result<Vec<u8>, RecvError>>,
}

/// The content of an optional answer to a receive.
pub open spec fn content(answer: Option<Result<Vec<u8>, RecvError>>) -> Option<
    Result<Seq<u8>, RecvFault>,
> {
    match answer {
        Some(answer) => Some(received(answer)),
        None => None,
    }
}

impl View for AnswerSlot {
    type V = Option<Result<Seq<u8>, RecvFault>>;

    closed spec fn view(&self) -> Option<Result<Seq<u8>, RecvFault>> {
        content(self.answer)
    }
}

impl AnswerSlot {
    /// A slot in which nothing waits.
    pub fn new() -> (slot: Self)
        ensures
            slot@ is None,
    {
        AnswerSlot { answer: None }
    }

    /// Puts an answer there.
    pub fn put(&mut self, answer: Result<Vec<u8>, RecvError>)
        ensures
            final(self)@ == Some(received(answer)),
    {
        self.answer = Some(answer);
    }

    /// Takes the answer that waits there, if one does; nothing waits there then.
    pub fn take(&mut self) -> (answer: Option<Result<Vec<u8>, RecvError>>)
        ensures
            content(answer) == old(self)@,
            final(self)@ is None,
    {
        self.answer.take()
    }
}

/// How a command and its answer fared between a channel handle and its actor.
#[derive(Debug)]
pub enum Handover<T> {
    /// The command was not queued: the actor has ended.
    NotQueued,
    /// The command was queued and the actor ended before it answered.
    Dropped,
    /// The actor answered.
    Answered(T),
}

/// What a send over the actor returns: its answer, or that the channel is closed
/// where there is no actor to answer.
pub fn settle_send(handover: Handover<Result<(), SendError>>) -> (result: Result<(), SendError>)
    ensures
        result == (match handover {
            Handover::Answered(answer) => answer,
            _ => Err(SendError::Closed),
        }),
{
    match handover {
        Handover::Answered(answer) => answer,
        Handover::NotQueued | Handover::Dropped => Err(SendError::Closed),
    }
}

/// What a receive over the actor returns, by the same rule.
pub open spec fn returned(handover: Handover<Result<Seq<u8>, RecvFault>>) -> Result<
    Seq<u8>,
    RecvFault,
> {
    match handover {
        Handover::Answered(answer) => answer,
        _ => Err(RecvFault::Closed),
    }
}

/// What a receive over the actor returns, by the same rule.
pub fn settle_recv(handover: Handover<Result<Vec<u8>, RecvError>>) -> (result: Result<
    Vec<u8>,
    RecvError,
>)
    ensures
        result == (match handover {
            Handover::Answered(answer) => answer,
            _ => Err(RecvError::Closed),
        }),
        received(result) == returned(
            match handover {
                Handover::NotQueued => Handover::NotQueued,
                Handover::Dropped => Handover::Dropped,
                Handover::Answered(answer) => Handover::Answered(received(answer)),
            },
        ),
{
    match handover {
        Handover::Answered(answer) => answer,
        Handover::NotQueued | Handover::Dropped => Err(RecvError::Closed),
    }
}

/// What can come of an action. A caller either takes an answer or leaves that very
/// answer.
pub open spec fn follows(action: Action, event: Event) -> bool {
    match action {
        Action::Stop => false,
        Action::AwaitCommand => event is Shutdown || event is CommandsClosed || event is Send
            || event is Recv,
        Action::CallSend { .. } => event is Shutdown || event is SendReturned,
        Action::CallRecv => event is Shutdown || event is RecvReturned,
        Action::ReplySend(_) => event is SendReplied,
        Action::ReplyRecv(answer) => event matches Event::RecvReplied { refused } && (refused
            is None || refused == Some(answer)),
    }
}

/// What the actor keeps after a series of events, from its start.
pub open spec fn buffer_of(events: Seq<Event>) -> Seq<Seq<u8>>
    decreases events.len(),
{
    if events.len() == 0 {
        Seq::empty()
    } else {
        buffer_after(buffer_of(events.drop_last()), events.last())
    }
}

/// What the actor does after a series of events.
pub open spec fn action_of(events: Seq<Event>) -> Action
    decreases events.len(),
{
    if events.len() == 0 {
        Action::AwaitCommand
    } else {
        action_after(buffer_of(events.drop_last()), events.last())
    }
}

/// Whether a series of events can come about: each is something that can come of
/// the action before it.
pub open spec fn possible(events: Seq<Event>) -> bool
    decreases events.len(),
{
    events.len() > 0 ==> {
        &&& possible(events.drop_last())
        &&& follows(action_of(events.drop_last()), events.last())
    }
}

/// The messages that were pulled from the backend.
pub open spec fn pulled(events: Seq<Event>) -> Seq<Seq<u8>>
    decreases events.len(),
{
    if events.len() == 0 {
        Seq::empty()
    } else {
        match events.last() {
            Event::RecvReturned(Ok(msg)) => pulled(events.drop_last()).push(msg),
            _ => pulled(events.drop_last()),
        }
    }
}

/// The messages that callers took: that their receives returned.
pub open spec fn delivered(events: Seq<Event>) -> Seq<Seq<u8>>
    decreases events.len(),
{
    if events.len() == 0 {
        Seq::empty()
    } else {
        match (action_of(events.drop_last()), events.last()) {
            (
                Action::ReplyRecv(Ok(msg)),
                Event::RecvReplied { refused: None },
            ) => delivered(events.drop_last()).push(msg),
            _ => delivered(events.drop_last()),
        }
    }
}

/// The message that is being offered to a caller, if one is.
pub open spec fn offered(events: Seq<Event>) -> Seq<Seq<u8>> {
    match action_of(events) {
        Action::ReplyRecv(Ok(msg)) => seq![msg],
        _ => Seq::empty(),
    }
}

/// No message is lost, doubled or reordered, whichever callers go away and whenever:
/// what was pulled from the backend is what receives returned, then what is being
/// offered, then what is kept. And no more than one message is held back.
pub proof fn no_message_is_lost(events: Seq<Event>)
    requires
        possible(events),
    ensures
        pulled(events) == delivered(events) + offered(events) + buffer_of(events),
        offered(events).len() + buffer_of(events).len() <= 1,
        action_of(events) is CallRecv ==> buffer_of(events).len() == 0,
        action_of(events) is ReplyRecv ==> buffer_of(events).len() == 0,
    decreases events.len(),
{
    if events.len() > 0 {
        no_message_is_lost(events.drop_last());
    }
    assert(pulled(events) =~= delivered(events) + offered(events) + buffer_of(events));
}

/// A message that a caller refused is what the next caller is offered.
pub proof fn refused_message_is_offered_next(buffer: Seq<Seq<u8>>, msg: Seq<u8>)
    ensures
        action_after(
            buffer_after(buffer, Event::RecvReplied { refused: Some(Ok(msg)) }),
            Event::Recv,
        ) == Action::ReplyRecv(Ok(msg)),
        buffer_after(
            buffer_after(buffer, Event::RecvReplied { refused: Some(Ok(msg)) }),
            Event::Recv,
        ) == buffer,
{
    assert((seq![msg] + buffer).skip(1) =~= buffer);
}

/// Whatever the actor awaits, a shutdown can come of it and ends it.
pub proof fn shutdown_ends_the_actor(events: Seq<Event>)
    requires
        possible(events),
        action_of(events) is AwaitCommand || action_of(events) is CallSend || action_of(events)
            is CallRecv,
    ensures
        possible(events.push(Event::Shutdown)),
        action_of(events.push(Event::Shutdown)) is Stop,
{
    assert(events.push(Event::Shutdown).drop_last() =~= events);
}

/// What receives returned is the beginning of what was pulled from the backend: a
/// receive that was dropped leaves no gap.
pub proof fn receives_return_what_was_pulled(events: Seq<Event>)
    requires
        possible(events),
    ensures
        delivered(events).len() <= pulled(events).len(),
        delivered(events) == pulled(events).take(delivered(events).len() as int),
{
    no_message_is_lost(events);
    assert(delivered(events) =~= pulled(events).take(delivered(events).len() as int));
}

/// What a receive is offered is the oldest message that none returned yet. If it
/// returns it, it is counted once; if it is dropped, nothing changes.
pub proof fn receive_is_offered_the_oldest_message(events: Seq<Event>, msg: Seq<u8>)
    requires
        possible(events),
        action_of(events) == Action::ReplyRecv(Ok(msg)),
    ensures
        delivered(events).len() < pulled(events).len(),
        msg == pulled(events)[delivered(events).len() as int],
        ({
            let taken = events.push(Event::RecvReplied { refused: None });
            &&& possible(taken)
            &&& delivered(taken) == delivered(events).push(msg)
            &&& pulled(taken) == pulled(events)
        }),
        ({
            let dropped = events.push(Event::RecvReplied { refused: Some(Ok(msg)) });
            &&& possible(dropped)
            &&& delivered(dropped) == delivered(events)
            &&& pulled(dropped) == pulled(events)
            &&& buffer_of(dropped) == seq![msg]
        }),
{
    no_message_is_lost(events);
    assert(events.push(Event::RecvReplied { refused: None }).drop_last() =~= events);
    let dropped = events.push(Event::RecvReplied { refused: Some(Ok(msg)) });
    assert(dropped.drop_last() =~= events);
    assert(seq![msg] + buffer_of(events) =~= seq![msg]);
}

/// Whether all of a series of events concern sends alone.
pub open spec fn only_sends(events: Seq<Event>) -> bool {
    forall|i: int|
        0 <= i < events.len() ==> {
            ||| #[trigger] events[i] is Send
            ||| events[i] is SendReturned
            ||| events[i] is SendReplied
        }
}

proof fn sends_keep_the_buffer(events: Seq<Event>, more: Seq<Event>)
    requires
        only_sends(more),
    ensures
        buffer_of(events + more) == buffer_of(events),
    decreases more.len(),
{
    if more.len() == 0 {
        assert(events + more =~= events);
    } else {
        let fewer = more.drop_last();
        assert forall|i: int| 0 <= i < fewer.len() implies {
            ||| #[trigger] fewer[i] is Send
            ||| fewer[i] is SendReturned
            ||| fewer[i] is SendReplied
        } by {
            assert(fewer[i] == more[i]);
        }
        sends_keep_the_buffer(events, fewer);
        assert((events + more).drop_last() =~= events + fewer);
        assert(more[more.len() - 1] == more.last());
    }
}

/// A receive that is dropped before it returned, at any moment, loses nothing: the
/// message that came for it is what the next receive returns, whatever was sent
/// meanwhile.
pub proof fn dropped_receive_loses_nothing(events: Seq<Event>, msg: Seq<u8>, more: Seq<Event>)
    requires
        possible(events),
        action_of(events) == Action::ReplyRecv(Ok(msg)),
        only_sends(more),
        ({
            let meanwhile = events.push(Event::RecvReplied { refused: Some(Ok(msg)) }) + more;
            possible(meanwhile) && action_of(meanwhile) is AwaitCommand
        }),
    ensures
        ({
            let meanwhile = events.push(Event::RecvReplied { refused: Some(Ok(msg)) }) + more;
            let again = meanwhile.push(Event::Recv);
            &&& possible(again)
            &&& action_of(again) matches Action::ReplyRecv(answer) && returned(
                Handover::Answered(answer),
            ) == Ok::<Seq<u8>, RecvFault>(msg)
        }),
{
    let dropped = events.push(Event::RecvReplied { refused: Some(Ok(msg)) });
    receive_is_offered_the_oldest_message(events, msg);
    sends_keep_the_buffer(dropped, more);
    assert((dropped + more).push(Event::Recv).drop_last() =~= dropped + more);
}

/// The messages that callers asked to have sent.
pub open spec fn asked(events: Seq<Event>) -> Seq<Seq<u8>>
    decreases events.len(),
{
    if events.len() == 0 {
        Seq::empty()
    } else {
        match events.last() {
            Event::Send { msg } => asked(events.drop_last()).push(msg),
            _ => asked(events.drop_last()),
        }
    }
}

/// The messages with which the remote send was called.
pub open spec fn called(events: Seq<Event>) -> Seq<Seq<u8>>
    decreases events.len(),
{
    if events.len() == 0 {
        Seq::empty()
    } else {
        match action_of(events) {
            Action::CallSend { msg } => called(events.drop_last()).push(msg),
            _ => called(events.drop_last()),
        }
    }
}

/// Whatever happens, the remote send is called with the very messages that callers
/// asked to have sent: each once, whole, byte for byte and in order.
pub proof fn messages_are_sent_as_asked(events: Seq<Event>)
    ensures
        called(events) == asked(events),
    decreases events.len(),
{
    if events.len() > 0 {
        messages_are_sent_as_asked(events.drop_last());
    }
}

/// A caller is told that its message was sent only where the remote send of that whole
/// message succeeded, and then always; where it failed, the caller is told of a
/// closed channel if the connection was lost and else of the failure in its own words.
pub proof fn success_is_told_of_whole_messages_alone(events: Seq<Event>)
    requires
        possible(events),
    ensures
        action_of(events) matches Action::ReplySend(answer) ==> {
            let n = events.len() as int;
            &&& n >= 2
            &&& events[n - 2] matches Event::Send { msg } && asked(events).last() == msg
                && called(events).last() == msg && action_of(events.drop_last()) == (
            Action::CallSend { msg })
            &&& match answer {
                Ok(()) => events[n - 1] matches Event::SendReturned(Ok(())),
                Err(SendFault::Closed) => events[n - 1] matches Event::SendReturned(Err(fault))
                    && fault.disconnected(),
                Err(SendFault::Transport(words)) => events[n - 1] matches Event::SendReturned(
                    Err(fault),
                ) && !fault.disconnected() && words == fault.message(),
                Err(SendFault::TooLarge { .. }) => false,
            }
        },
        events.len() > 0 && events.last() == Event::SendReturned(Ok(())) ==> action_of(events)
            == Action::ReplySend(Ok(())),
{
    messages_are_sent_as_asked(events);
    if action_of(events) is ReplySend {
        let before = events.drop_last();
        assert(possible(before));
        assert(events.last() == events[events.len() - 1]);
        assert(events.last() is SendReturned);
        assert(follows(action_of(before), events.last()));
        assert(before.len() > 0);
        assert(before.last() == events[events.len() - 2]);
        assert(asked(before).last() == before.last()->Send_msg);
        assert(asked(events) == asked(before));
    }
}

/// Every action has its cause. A receive is answered with what came for it or with
/// what was kept, fails as the remote receive failed, and calls the remote receive
/// only where nothing is kept; the actor ends at a shutdown or where no command can
/// come, and at nothing else.
pub proof fn actions_have_their_causes(buffer: Seq<Seq<u8>>, event: Event)
    ensures
        match action_after(buffer, event) {
            Action::Stop => event is Shutdown || event is CommandsClosed,
            Action::AwaitCommand => event is SendReplied || event is RecvReplied,
            Action::CallSend { msg } => event == (Event::Send { msg }),
            Action::CallRecv => event is Recv && buffer.len() == 0,
            Action::ReplySend(_) => event is SendReturned,
            Action::ReplyRecv(Ok(msg)) => event == Event::RecvReturned(Ok(msg)) || (event is Recv
                && buffer.len() > 0 && buffer == seq![msg] + buffer_after(buffer, event)),
            Action::ReplyRecv(Err(RecvFault::Closed)) => event matches Event::RecvReturned(
                Err(fault),
            ) && fault.disconnected(),
            Action::ReplyRecv(Err(RecvFault::Transport(words))) => {
                event matches Event::RecvReturned(Err(fault)) && !fault.disconnected() && words
                    == fault.message()
            },
        },
{
    if event is Recv && buffer.len() > 0 {
        assert(buffer =~= seq![buffer[0]] + buffer.skip(1));
    }
}

/// What is kept changes in two ways alone: a receive takes the oldest of it, and a
/// message that a caller left is put before all of it.
pub proof fn kept_messages_change_in_two_ways(buffer: Seq<Seq<u8>>, event: Event)
    ensures
        match event {
            Event::RecvReplied { refused: Some(Ok(msg)) } => {
                &&& buffer_after(buffer, event).len() == buffer.len() + 1
                &&& buffer_after(buffer, event)[0] == msg
                &&& buffer_after(buffer, event).skip(1) == buffer
            },
            Event::Recv => buffer.len() > 0 ==> {
                &&& action_after(buffer, event) == Action::ReplyRecv(Ok(buffer[0]))
                &&& seq![buffer[0]] + buffer_after(buffer, event) == buffer
            },
            _ => buffer_after(buffer, event) == buffer,
        },
        buffer.len() == 0 && event is Recv ==> buffer_after(buffer, event).len() == 0
            && action_after(buffer, event) is CallRecv,
{
    match event {
        Event::RecvReplied { refused: Some(Ok(msg)) } => {
            assert((seq![msg] + buffer).skip(1) =~= buffer);
        },
        Event::Recv => {
            if buffer.len() > 0 {
                assert(seq![buffer[0]] + buffer.skip(1) =~= buffer);
            }
        },
        _ => {},
    }
}

/// Events and actions say the same as their contents: no byte of a message is left out.
pub proof fn events_and_actions_hide_nothing(event: ActorEvent, action: ActorAction)
    ensures
        event matches ActorEvent::Send { msg } ==> event@ == (Event::Send { msg: msg@ }),
        event matches ActorEvent::RecvReturned(Ok(msg)) ==> event@ == Event::RecvReturned(Ok(msg@)),
        event matches ActorEvent::RecvReturned(Err(e)) ==> event@ == Event::RecvReturned(Err(e@)),
        event matches ActorEvent::SendReturned(Ok(())) ==> event@ == Event::SendReturned(Ok(())),
        event matches ActorEvent::SendReturned(Err(e)) ==> event@ == Event::SendReturned(Err(e@)),
        event matches ActorEvent::RecvReplied { refused } ==> event@ == (Event::RecvReplied {
            refused: content(refused),
        }),
        action matches ActorAction::CallSend { msg } ==> action@ == (Action::CallSend {
            msg: msg@,
        }),
        action matches ActorAction::ReplyRecv(Ok(msg)) ==> action@ == Action::ReplyRecv(Ok(msg@)),
        action matches ActorAction::ReplyRecv(Err(e)) ==> action@ == Action::ReplyRecv(Err(e@)),
        action matches ActorAction::ReplySend(Ok(())) ==> action@ == Action::ReplySend(Ok(())),
        action matches ActorAction::ReplySend(Err(e)) ==> action@ == Action::ReplySend(Err(e@)),
{
}

/// What waits in a slot is the answer that was put there.
pub proof fn slots_hide_nothing(answer: Option<Result<Vec<u8>, RecvError>>)
    ensures
        answer is None <==> content(answer) is None,
        answer matches Some(Ok(msg)) ==> content(answer) == Some(Ok::<Seq<u8>, RecvFault>(msg@)),
        answer matches Some(Err(e)) ==> content(answer) == Some(Err::<Seq<u8>, RecvFault>(e@)),
{
}

} // verus!
