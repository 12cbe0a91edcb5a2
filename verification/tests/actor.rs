use fungi_transport::actor::{
    settle_recv, settle_send, ActorAction, ActorEvent, AnswerSlot, ClientActor, Handover,
    COMMAND_QUEUE_DEPTH,
};
use fungi_transport::error::{RecvError, SendError};
use fungi_transport::rpc::{RpcError, RpcErrorKind};

fn raised(kind: RpcErrorKind) -> RpcError {
    RpcError::Raised {
        kind,
        reason: String::from("why"),
    }
}

#[test]
fn send_is_called_and_answered() {
    let mut actor = ClientActor::new();
    let action = actor.on_event(ActorEvent::Send {
        msg: b"ping".to_vec(),
    });
    assert!(matches!(action, ActorAction::CallSend { msg } if msg == b"ping"));
    let action = actor.on_event(ActorEvent::SendReturned(Ok(())));
    assert!(matches!(action, ActorAction::ReplySend(Ok(()))));
    assert!(matches!(
        actor.on_event(ActorEvent::SendReplied),
        ActorAction::AwaitCommand
    ));
    let action = actor.on_event(ActorEvent::SendReturned(Err(raised(
        RpcErrorKind::Disconnected,
    ))));
    assert!(matches!(
        action,
        ActorAction::ReplySend(Err(SendError::Closed))
    ));
}

#[test]
fn message_of_an_abandoned_caller_reaches_the_next_one() {
    let mut actor = ClientActor::new();
    assert!(matches!(
        actor.on_event(ActorEvent::Recv),
        ActorAction::CallRecv
    ));
    let action = actor.on_event(ActorEvent::RecvReturned(Ok(b"one".to_vec())));
    let ActorAction::ReplyRecv(answer) = action else {
        panic!("no answer");
    };
    // The caller has gone away.
    let action = actor.on_event(ActorEvent::RecvReplied {
        refused: Some(answer),
    });
    assert!(matches!(action, ActorAction::AwaitCommand));
    // The next caller, who goes away too, and the one after that.
    for _ in 0..2 {
        let ActorAction::ReplyRecv(answer) = actor.on_event(ActorEvent::Recv) else {
            panic!("no answer");
        };
        assert_eq!(answer, Ok(b"one".to_vec()));
        actor.on_event(ActorEvent::RecvReplied {
            refused: Some(answer),
        });
    }
    assert!(matches!(
        actor.on_event(ActorEvent::Recv),
        ActorAction::ReplyRecv(Ok(msg)) if msg == b"one"
    ));
    actor.on_event(ActorEvent::RecvReplied { refused: None });
    // It was taken: the backend is asked again.
    assert!(matches!(
        actor.on_event(ActorEvent::Recv),
        ActorAction::CallRecv
    ));
}

/// Offers the answer of `action` in a slot, from which the caller takes it or not,
/// and reports what is left to the actor. Gives what the receive returned.
fn offer(
    actor: &mut ClientActor,
    action: ActorAction,
    dropped: bool,
) -> Option<Result<Vec<u8>, RecvError>> {
    let ActorAction::ReplyRecv(answer) = action else {
        panic!("no answer");
    };
    let mut slot = AnswerSlot::new();
    slot.put(answer);
    let returned = if dropped {
        None
    } else {
        slot.take()
            .map(|answer| settle_recv(Handover::Answered(answer)))
    };
    actor.on_event(ActorEvent::RecvReplied {
        refused: slot.take(),
    });
    returned
}

#[test]
fn dropped_receives_lose_nothing() {
    let mut actor = ClientActor::new();
    let mut returned = Vec::new();
    let mut pulled = 0u8;
    // Every other receive is dropped when its answer is already there.
    for call in 0..8 {
        let action = match actor.on_event(ActorEvent::Recv) {
            ActorAction::CallRecv => {
                pulled += 1;
                actor.on_event(ActorEvent::RecvReturned(Ok(vec![pulled])))
            }
            kept => kept,
        };
        returned.extend(offer(&mut actor, action, call % 2 == 0));
        // Sends meanwhile change nothing.
        actor.on_event(ActorEvent::Send { msg: vec![] });
        actor.on_event(ActorEvent::SendReturned(Ok(())));
        actor.on_event(ActorEvent::SendReplied);
    }
    assert_eq!(
        returned,
        [Ok(vec![1]), Ok(vec![2]), Ok(vec![3]), Ok(vec![4])]
    );
}

#[test]
fn answer_is_taken_once() {
    let mut slot = AnswerSlot::new();
    assert_eq!(slot.take(), None);
    slot.put(Ok(vec![1]));
    assert_eq!(slot.take(), Some(Ok(vec![1])));
    assert_eq!(slot.take(), None);
}

#[test]
fn refused_error_is_discarded() {
    let mut actor = ClientActor::new();
    let action = actor.on_event(ActorEvent::RecvReturned(Err(raised(RpcErrorKind::Failed))));
    let ActorAction::ReplyRecv(answer) = action else {
        panic!("no answer");
    };
    assert_eq!(
        answer,
        Err(RecvError::Transport(String::from("Failed: why")))
    );
    actor.on_event(ActorEvent::RecvReplied {
        refused: Some(answer),
    });
    assert!(matches!(
        actor.on_event(ActorEvent::Recv),
        ActorAction::CallRecv
    ));
}

#[test]
fn shutdown_and_closed_commands_stop_the_actor() {
    let mut actor = ClientActor::new();
    assert!(matches!(
        actor.on_event(ActorEvent::Shutdown),
        ActorAction::Stop
    ));
    assert!(matches!(
        actor.on_event(ActorEvent::CommandsClosed),
        ActorAction::Stop
    ));
}

#[test]
fn without_an_actor_the_channel_is_closed() {
    assert_eq!(settle_send(Handover::NotQueued), Err(SendError::Closed));
    assert_eq!(settle_send(Handover::Dropped), Err(SendError::Closed));
    assert_eq!(settle_send(Handover::Answered(Ok(()))), Ok(()));
    assert_eq!(
        settle_send(Handover::Answered(Err(SendError::TooLarge { max: 3 }))),
        Err(SendError::TooLarge { max: 3 })
    );
    assert_eq!(settle_recv(Handover::NotQueued), Err(RecvError::Closed));
    assert_eq!(settle_recv(Handover::Dropped), Err(RecvError::Closed));
    assert_eq!(
        settle_recv(Handover::Answered(Ok(vec![1]))),
        Ok(vec![1])
    );
    assert_eq!(COMMAND_QUEUE_DEPTH, 32);
}
