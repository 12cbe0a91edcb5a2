//! A channel that gives back what was put in.

use crate::rpc::{RpcError, RpcErrorKind, RpcFault};
use std::collections::VecDeque;
use vstd::prelude::*;

verus! {

/// A trivial in-memory FIFO queue behind a channel server. Receiving from an
/// empty queue fails; a driving client is expected to receive only what it has
/// already sent.
///
/// Its view is the sequence of messages waiting, the oldest first.
#[derive(Debug)]
pub struct Loopback {
    queue: VecDeque<Vec<u8>>,
}

/// The messages that a queue of byte vectors holds.
pub open spec fn messages(queue: Seq<Vec<u8>>) -> Seq<Seq<u8>> {
    Seq::new(queue.len(), |i: int| queue[i]@)
}

impl View for Loopback {
    type V = Seq<Seq<u8>>;

    closed spec fn view(&self) -> Seq<Seq<u8>> {
        messages(self.queue@)
    }
}

/// What receiving from an empty queue raises.
pub open spec fn channel_empty() -> RpcFault {
    RpcFault::Raised { kind: RpcErrorKind::Failed, reason: "channel empty"@ }
}

/// One use of a loopback channel: a message is put in, or one is asked for.
pub enum Use {
    Send(Seq<u8>),
    Recv,
}

/// The queue after one use.
pub open spec fn after_use(queue: Seq<Seq<u8>>, one: Use) -> Seq<Seq<u8>> {
    match one {
        Use::Send(msg) => queue.push(msg),
        Use::Recv => if queue.len() > 0 {
            queue.skip(1)
        } else {
            queue
        },
    }
}

impl Loopback {
    /// A queue with nothing in it.
    pub fn new() -> (loopback: Self)
        ensures
            loopback@ == Seq::<Seq<u8>>::empty(),
    {
        let loopback = Loopback { queue: VecDeque::new() };
        assert(loopback@ =~= Seq::empty());
        loopback
    }

    /// Puts a message at the end of the queue.
    pub fn send(&mut self, msg: Vec<u8>)
        ensures
            final(self)@ == after_use(old(self)@, Use::Send(msg@)),
    {
        self.queue.push_back(msg);
        assert(self@ =~= old(self)@.push(msg@));
    }

    /// Takes the oldest message.
    pub fn recv(&mut self) -> (result: Result<Vec<u8>, RpcError>)
        ensures
            result is Ok <==> old(self)@.len() > 0,
            result matches Ok(msg) ==> msg@ == old(self)@[0],
            result matches Err(error) ==> error@ == channel_empty(),
            final(self)@ == after_use(old(self)@, Use::Recv),
    {
        match self.queue.pop_front() {
            Some(msg) => {
                assert(self@ =~= old(self)@.skip(1));
                Ok(msg)
            },
            None => {
                assert(self@ =~= old(self)@);
                Err(
                    RpcError::Raised {
                        kind: RpcErrorKind::Failed,
                        reason: "channel empty".to_owned(),
                    },
                )
            },
        }
    }
}

/// The queue after a series of uses, from an empty queue.
pub open spec fn waiting(uses: Seq<Use>) -> Seq<Seq<u8>>
    decreases uses.len(),
{
    if uses.len() == 0 {
        Seq::empty()
    } else {
        after_use(waiting(uses.drop_last()), uses.last())
    }
}

/// The messages that a series of uses put in.
pub open spec fn put_in(uses: Seq<Use>) -> Seq<Seq<u8>>
    decreases uses.len(),
{
    if uses.len() == 0 {
        Seq::empty()
    } else {
        match uses.last() {
            Use::Send(msg) => put_in(uses.drop_last()).push(msg),
            Use::Recv => put_in(uses.drop_last()),
        }
    }
}

/// The messages that came out of a series of uses.
pub open spec fn came_out(uses: Seq<Use>) -> Seq<Seq<u8>>
    decreases uses.len(),
{
    if uses.len() == 0 {
        Seq::empty()
    } else {
        let before = waiting(uses.drop_last());
        if uses.last() is Recv && before.len() > 0 {
            came_out(uses.drop_last()).push(before[0])
        } else {
            came_out(uses.drop_last())
        }
    }
}

/// First in, first out: everything that was put in came out, in order, or is
/// still waiting behind what came out.
pub proof fn nothing_is_lost_or_reordered(uses: Seq<Use>)
    ensures
        put_in(uses) == came_out(uses) + waiting(uses),
    decreases uses.len(),
{
    if uses.len() > 0 {
        nothing_is_lost_or_reordered(uses.drop_last());
    }
    assert(put_in(uses) =~= came_out(uses) + waiting(uses));
}

/// Putting a message in adds it whole behind all that wait; asking takes the oldest
/// and leaves the others as they are.
pub proof fn uses_change_one_end(queue: Seq<Seq<u8>>, msg: Seq<u8>)
    ensures
        after_use(queue, Use::Send(msg)).len() == queue.len() + 1,
        after_use(queue, Use::Send(msg)).last() == msg,
        after_use(queue, Use::Send(msg)).drop_last() == queue,
        queue.len() > 0 ==> seq![queue[0]] + after_use(queue, Use::Recv) == queue,
        queue.len() == 0 ==> after_use(queue, Use::Recv) == queue,
{
    assert(after_use(queue, Use::Send(msg)).drop_last() =~= queue);
    if queue.len() > 0 {
        assert(seq![queue[0]] + after_use(queue, Use::Recv) =~= queue);
    }
}

/// The messages of a queue are its byte vectors, one for one and whole.
pub proof fn messages_are_one_for_one(queue: Seq<Vec<u8>>, i: int)
    ensures
        messages(queue).len() == queue.len(),
        0 <= i < queue.len() ==> messages(queue)[i] == queue[i]@,
{
}

} // verus!
