//! Length-prefix framing: adapt any byte stream into a datagram channel.
//!
//! The wire format is that of [`crate::wire`]. The channel decides; its driver
//! reads from and writes to the stream. To receive, the driver asks
//! [`FramedChannel::poll_recv`] for the next step, reads what it asks for and
//! hands the bytes to [`FramedChannel::on_read`], until a message or an error
//! comes out. To send, it asks [`FramedChannel::start_send`] for the prefix and
//! goes through the stages of [`after_write`].
//!
//! Cancel safety: all partial-frame state lives in [`FramedChannel`], and asking
//! for a step that reads changes nothing, so a receive that is dropped between
//! two reads resumes exactly where it stopped. A send is not cancel safe:
//! dropping it between two stages can leave a half-written frame on the stream.

use crate::error::{IoError, IoErrorKind, RecvError, RecvFault, SendError, SendFault};
use crate::text::{append_decimal, decimal};
use crate::wire::{
    announced_length, be32_value, frame, frame_announces_its_length, frames,
    frames_hold_whole_messages, frames_of_concat, length_prefix, prefix_bytes_weigh_by_their_places,
};
use vstd::prelude::*;

verus! {

/// Default maximum message size (1 MiB).
pub const DEFAULT_MAX_MSG_LEN: usize = 1024 * 1024;

/// A channel over any byte stream, delimiting messages with a 4-byte big-endian
/// length prefix. Generic over the stream so that one framing layer serves every
/// byte-stream backend.
///
/// Its view is the state of its receiving side, a [`Reading`].
#[derive(Debug)]
pub struct FramedChannel<S> {
    stream: S,
    max_msg_len: usize,
    header: [u8; 4],
    header_filled: usize,
    payload: Vec<u8>,
    // Set on protocol violation; every later receive says that the channel is closed.
    poisoned: bool,
}

/// The receiving side of a framed channel.
#[verifier::ext_equal]
pub struct Reading {
    /// The most bytes that one message may hold.
    pub max: nat,
    /// What was read since the end of the last whole frame.
    pub pending: Seq<u8>,
    /// Whether the peer broke the protocol.
    pub poisoned: bool,
}

/// What a receive comes to in a given state.
#[verifier::ext_equal]
pub enum Step {
    /// At least one and at most `want` bytes must be read first.
    Read { want: nat },
    /// A whole message is there.
    Message(Seq<u8>),
    /// The receive fails.
    Failed(RecvFault),
}

/// The complaint about a frame that is too long.
pub open spec fn frame_too_long(len: nat, max: nat) -> Seq<char> {
    "peer announced a "@ + decimal(len) + "-byte frame, exceeding the "@
        + decimal(max) + "-byte maximum"@
}

impl Reading {
    /// A channel on which nothing was read yet.
    pub open spec fn fresh(max: nat) -> Reading {
        Reading { max, pending: Seq::empty(), poisoned: false }
    }

    /// The length that the pending prefix announces.
    pub open spec fn announced(self) -> nat {
        be32_value(self.pending)
    }

    /// No more is ever pending than one whole frame, and payload is pending only
    /// where the frame is no longer than a message may be: a peer that announces
    /// a huge frame has none of it stored.
    pub open spec fn wf(self) -> bool {
        &&& self.max <= u32::MAX
        &&& self.pending.len() <= 4 || (self.announced() <= self.max && self.pending.len() <= 4
            + self.announced())
    }

    /// What a receive comes to.
    pub open spec fn step(self) -> Step {
        if self.poisoned {
            Step::Failed(RecvFault::Closed)
        } else if self.pending.len() < 4 {
            Step::Read { want: (4 - self.pending.len()) as nat }
        } else if self.announced() > self.max {
            Step::Failed(RecvFault::Transport(frame_too_long(self.announced(), self.max)))
        } else if self.pending.len() < 4 + self.announced() {
            Step::Read { want: (4 + self.announced() - self.pending.len()) as nat }
        } else {
            Step::Message(self.pending.skip(4))
        }
    }

    /// The state once that step is taken.
    pub open spec fn stepped(self) -> Reading {
        match self.step() {
            Step::Read { .. } => self,
            Step::Message(_) => Reading { pending: Seq::empty(), ..self },
            Step::Failed(_) => Reading { poisoned: true, ..self },
        }
    }

    /// The state once `bytes` were read.
    pub open spec fn fed(self, bytes: Seq<u8>) -> Reading {
        Reading { pending: self.pending + bytes, ..self }
    }

    /// What the end of the stream means: between frames a clean close, inside
    /// one a truncation.
    pub open spec fn end_fault(self) -> RecvFault {
        if self.pending.len() == 0 {
            RecvFault::Closed
        } else {
            RecvFault::Transport("stream ended mid-frame"@)
        }
    }

    /// The state once the stream ended: a truncation poisons the channel.
    pub open spec fn ended(self) -> Reading {
        if self.pending.len() == 0 {
            self
        } else {
            Reading { poisoned: true, ..self }
        }
    }
}

/// What a receive comes to.
#[derive(Debug, PartialEq, Eq)]
pub enum RecvStep {
    /// Read at least one and at most `want` bytes and report them.
    Read { want: usize },
    /// The next message.
    Message(Vec<u8>),
    /// The receive fails.
    Failed(RecvError),
}

impl View for RecvStep {
    type V = Step;

    open spec fn view(&self) -> Step {
        match self {
            RecvStep::Read { want } => Step::Read { want: *want as nat },
            RecvStep::Message(msg) => Step::Message(msg@),
            RecvStep::Failed(error) => Step::Failed(error@),
        }
    }
}

impl<S> View for FramedChannel<S> {
    type V = Reading;

    closed spec fn view(&self) -> Reading {
        Reading {
            max: self.max_msg_len as nat,
            pending: self.header@.subrange(0, self.header_filled as int) + self.payload@,
            poisoned: self.poisoned,
        }
    }
}

impl<S> FramedChannel<S> {
    /// The stream below the channel.
    pub closed spec fn on(&self) -> S {
        self.stream
    }

    /// What holds of every channel between two calls.
    pub closed spec fn wf(&self) -> bool {
        &&& self.header_filled <= 4
        &&& self.header_filled < 4 ==> self.payload@.len() == 0
        &&& self@.wf()
    }

    /// Every channel in good order is in a state in good order.
    pub proof fn wf_reading(&self)
        requires
            self.wf(),
        ensures
            self@.wf(),
    {
    }

    /// Wrap `stream`. `max_msg_len` bounds both directions: larger sends fail
    /// with [`SendError::TooLarge`], larger incoming frames poison the channel.
    pub fn new(stream: S, max_msg_len: usize) -> (channel: Self)
        requires
            max_msg_len <= u32::MAX,
        ensures
            channel.wf(),
            channel.on() == stream,
            channel@ == Reading::fresh(max_msg_len as nat),
    {
        let channel = Self {
            stream,
            max_msg_len,
            header: [0, 0, 0, 0],
            header_filled: 0,
            payload: Vec::new(),
            poisoned: false,
        };
        assert(channel@.pending =~= Seq::empty());
        channel
    }

    /// The stream, for the driver to read from and write to.
    pub fn stream_mut(&mut self) -> (stream: &mut S)
        requires
            old(self).wf(),
        ensures
            *stream == old(self).on(),
            final(self).on() == *final(stream),
            final(self)@ == old(self)@,
            final(self).wf(),
    {
        &mut self.stream
    }

    /// The next step of a receive. Where it is to read, nothing has changed.
    pub fn poll_recv(&mut self) -> (step: RecvStep)
        requires
            old(self).wf(),
        ensures
            step@ == old(self)@.step(),
            final(self)@ == old(self)@.stepped(),
            step matches RecvStep::Message(msg) ==> old(self)@.pending == frame(msg@)
                && msg@.len() <= old(self)@.max && !old(self)@.poisoned,
            old(self)@.poisoned ==> step == RecvStep::Failed(RecvError::Closed),
            !old(self)@.poisoned && old(self)@.pending.len() >= 4 && be32_value(
                old(self)@.pending,
            ) > old(self)@.max ==> final(self)@.poisoned && (step matches RecvStep::Failed(
                RecvError::Transport(_),
            )),
            final(self).on() == old(self).on(),
            final(self).wf(),
    {
        if self.poisoned {
            return RecvStep::Failed(RecvError::Closed);
        }
        if self.header_filled < 4 {
            return RecvStep::Read { want: 4 - self.header_filled };
        }
        let ghost before = self@;
        let len: u32 = announced_length(&self.header);
        assert(len == before.announced());
        if len as u64 > self.max_msg_len as u64 {
            self.poisoned = true;
            let mut text = "peer announced a ".to_owned();
            append_decimal(&mut text, len as u64);
            text.append("-byte frame, exceeding the ");
            append_decimal(&mut text, self.max_msg_len as u64);
            text.append("-byte maximum");
            return RecvStep::Failed(RecvError::Transport(text));
        }
        let want: usize = len as usize - self.payload.len();
        if want > 0 {
            return RecvStep::Read { want };
        }
        let mut msg: Vec<u8> = Vec::new();
        std::mem::swap(&mut msg, &mut self.payload);
        self.header_filled = 0;
        assert(msg@ =~= before.pending.skip(4));
        proof {
            message_is_what_was_announced(before);
        }
        assert(self@.pending =~= Seq::empty());
        RecvStep::Message(msg)
    }

    /// Takes in what a read gave: the bytes that arrived, or none at the end of
    /// the stream.
    pub fn on_read(&mut self, bytes: &[u8]) -> (result: Result<(), RecvError>)
        requires
            old(self).wf(),
            old(self)@.step() matches Step::Read { want } && bytes@.len() <= want,
        ensures
            final(self).wf(),
            final(self).on() == old(self).on(),
            result is Ok <==> bytes@.len() > 0,
            result is Ok ==> final(self)@ == old(self)@.fed(bytes@),
            result matches Err(error) ==> error@ == old(self)@.end_fault() && final(self)@ == old(
                self,
            )@.ended(),
    {
        let ghost before = self@;
        if bytes.len() == 0 {
            if self.header_filled == 0 {
                return Err(RecvError::Closed);
            }
            self.poisoned = true;
            return Err(RecvError::Transport("stream ended mid-frame".to_owned()));
        }
        if self.header_filled < 4 {
            let mut i: usize = 0;
            while i < bytes.len()
                invariant
                    i <= bytes@.len(),
                    self.header_filled + bytes@.len() - i <= 4,
                    self.header_filled == before.pending.len() + i,
                    self.header@.subrange(0, self.header_filled as int) == before.pending
                        + bytes@.subrange(0, i as int),
                    self.payload@.len() == 0,
                    self.max_msg_len == before.max,
                    before.max <= u32::MAX,
                    self.poisoned == before.poisoned,
                    self.on() == old(self).on(),
                decreases bytes@.len() - i,
            {
                let at: usize = self.header_filled;
                let ghost filled = self.header@.subrange(0, at as int);
                self.header[at] = bytes[i];
                self.header_filled = at + 1;
                i = i + 1;
                assert(self.header@.subrange(0, at as int + 1) =~= filled.push(bytes@[i - 1]));
                assert(bytes@.subrange(0, i as int) =~= bytes@.subrange(0, i - 1).push(
                    bytes@[i - 1],
                ));
                assert(self.header@.subrange(0, self.header_filled as int) =~= before.pending
                    + bytes@.subrange(0, i as int));
            }
            assert(bytes@.subrange(0, i as int) =~= bytes@);
            assert(self@.pending =~= before.pending + bytes@);
        } else {
            self.payload.extend_from_slice(bytes);
            assert(self@.pending =~= before.pending + bytes@);
            assert(self@.announced() == before.announced());
        }
        Ok(())
    }

    /// Admits a message to be sent and gives the length prefix that goes before
    /// it on the wire. A message over the maximum is refused, and nothing is to
    /// be written then.
    pub fn start_send(&self, msg: &[u8]) -> (prefix: Result<[u8; 4], SendError>)
        requires
            self.wf(),
        ensures
            prefix is Ok <==> msg@.len() <= self@.max,
            prefix matches Ok(bytes) ==> bytes@ + msg@ == frame(msg@),
            prefix matches Err(error) ==> error@ == (SendFault::TooLarge {
                max: self@.max,
            }),
    {
        if msg.len() > self.max_msg_len {
            return Err(SendError::TooLarge { max: self.max_msg_len });
        }
        Ok(length_prefix(msg.len() as u32))
    }
}

/// The stages of a send, in their order.
#[derive(Debug, Clone, Copy, PartialEq, Eq, Structural)]
pub enum SendStage {
    /// The length prefix is written.
    Prefix,
    /// The message is written.
    Payload,
    /// The stream is flushed.
    Flush,
}

/// How a send goes on.
#[derive(Debug, PartialEq, Eq)]
pub enum SendStep {
    /// This stage comes next.
    Next(SendStage),
    /// The send is over.
    Finished(Result<(), SendError>),
}

/// What a failed write means: with the peer or the stream gone the channel is
/// closed, the rest is opaque.
pub open spec fn send_io_fault(error: IoError) -> SendFault {
    match error.kind {
        IoErrorKind::Other => SendFault::Transport(error.message@),
        _ => SendFault::Closed,
    }
}

/// What a failed read means: after a reset the peer is gone, the rest is opaque.
pub open spec fn recv_io_fault(error: IoError) -> RecvFault {
    match error.kind {
        IoErrorKind::ConnectionReset
        | IoErrorKind::ConnectionAborted => RecvFault::Closed,
        _ => RecvFault::Transport(error.message@),
    }
}

/// Write-side errors: peer/stream gone maps to `Closed`, the rest is opaque.
pub fn map_send_io(e: IoError) -> (error: SendError)
    ensures
        error@ == send_io_fault(e),
{
    match e.kind {
        IoErrorKind::BrokenPipe
        | IoErrorKind::ConnectionReset
        | IoErrorKind::ConnectionAborted
        | IoErrorKind::UnexpectedEof
        | IoErrorKind::WriteZero => SendError::Closed,
        IoErrorKind::Other => SendError::Transport(e.message),
    }
}

/// Read-side errors: reset means the peer is gone, the rest is opaque.
pub fn map_recv_io(e: IoError) -> (error: RecvError)
    ensures
        error@ == recv_io_fault(e),
{
    match e.kind {
        IoErrorKind::ConnectionReset | IoErrorKind::ConnectionAborted => RecvError::Closed,
        _ => RecvError::Transport(e.message),
    }
}

/// How a send goes on after a stage: a failure ends it, success leads to the
/// next stage, and with the flush the message is sent.
pub fn after_write(stage: SendStage, outcome: Result<(), IoError>) -> (step: SendStep)
    ensures
        outcome matches Err(e) ==> step matches SendStep::Finished(Err(error)) && error@
            == send_io_fault(e),
        outcome is Ok ==> step == (match stage {
            SendStage::Prefix => SendStep::Next(SendStage::Payload),
            SendStage::Payload => SendStep::Next(SendStage::Flush),
            SendStage::Flush => SendStep::Finished(Ok(())),
        }),
{
    match outcome {
        Err(e) => SendStep::Finished(Err(map_send_io(e))),
        Ok(()) => match stage {
            SendStage::Prefix => SendStep::Next(SendStage::Payload),
            SendStage::Payload => SendStep::Next(SendStage::Flush),
            SendStage::Flush => SendStep::Finished(Ok(())),
        },
    }
}

/// The default maximum is one that every channel can have.
pub proof fn default_max_msg_len_fits()
    ensures
        DEFAULT_MAX_MSG_LEN <= u32::MAX,
{
}

/// A receive that is dropped before its read came back has changed nothing, so
/// the next one resumes exactly where it stopped.
pub proof fn recv_is_cancel_safe(reading: Reading)
    requires
        reading.step() is Read,
    ensures
        reading.stepped() == reading,
        reading.stepped().step() == reading.step(),
{
}

/// Once a peer broke the protocol, every later receive says that the channel is
/// closed.
pub proof fn poison_is_permanent(reading: Reading)
    requires
        reading.poisoned,
    ensures
        reading.step() == Step::Failed(RecvFault::Closed),
        reading.stepped() == reading,
{
}

/// A receive that fails by itself, and a stream that ends inside a frame, leave
/// the channel poisoned; a stream that ends between two frames does not.
pub proof fn violations_poison(reading: Reading)
    ensures
        reading.step() is Failed ==> reading.stepped().poisoned,
        reading.pending.len() > 0 ==> reading.ended().poisoned,
        reading.pending.len() == 0 ==> reading.ended() == reading,
{
}

/// Every step, every read of no more than was asked for and every end of the
/// stream keep a channel in good order: never more than one frame of at most the
/// maximum is stored.
pub proof fn good_order_is_kept(reading: Reading, bytes: Seq<u8>)
    requires
        reading.wf(),
    ensures
        reading.stepped().wf(),
        reading.ended().wf(),
        reading.step() matches Step::Read { want } && bytes.len() <= want ==> reading.fed(
            bytes,
        ).wf(),
        reading.pending.len() <= 4 + reading.max,
{
    if reading.pending.len() >= 4 {
        assert(reading.fed(bytes).announced() == reading.announced());
    }
}

/// The chunks that a series of reads gave, put together.
pub open spec fn joined(chunks: Seq<Seq<u8>>) -> Seq<u8>
    decreases chunks.len(),
{
    if chunks.len() == 0 {
        Seq::empty()
    } else {
        chunks[0] + joined(chunks.skip(1))
    }
}

/// The state after one more read, with the message that it completed, if it
/// completed one, taken out.
pub open spec fn after_chunk(reading: Reading, chunk: Seq<u8>) -> Reading {
    reading.fed(chunk).stepped()
}

/// The messages that one more read completes.
pub open spec fn completed(reading: Reading, chunk: Seq<u8>) -> Seq<Seq<u8>> {
    match reading.fed(chunk).step() {
        Step::Message(msg) => seq![msg],
        _ => Seq::empty(),
    }
}

/// The state after a series of reads.
pub open spec fn after_chunks(reading: Reading, chunks: Seq<Seq<u8>>) -> Reading
    decreases chunks.len(),
{
    if chunks.len() == 0 {
        reading
    } else {
        after_chunks(after_chunk(reading, chunks[0]), chunks.skip(1))
    }
}

/// The messages that come out of a series of reads.
pub open spec fn received(reading: Reading, chunks: Seq<Seq<u8>>) -> Seq<Seq<u8>>
    decreases chunks.len(),
{
    if chunks.len() == 0 {
        Seq::empty()
    } else {
        completed(reading, chunks[0]) + received(after_chunk(reading, chunks[0]), chunks.skip(1))
    }
}

/// Every read of the series gave something, and no more than the channel asked
/// for when it was made.
pub open spec fn fits(reading: Reading, chunks: Seq<Seq<u8>>) -> bool
    decreases chunks.len(),
{
    chunks.len() > 0 ==> {
        &&& chunks[0].len() > 0
        &&& reading.step() matches Step::Read { want } && chunks[0].len() <= want
        &&& fits(after_chunk(reading, chunks[0]), chunks.skip(1))
    }
}

/// No message is longer than `max`.
pub open spec fn none_longer(msgs: Seq<Seq<u8>>, max: nat) -> bool {
    forall|i: int| 0 <= i < msgs.len() ==> (#[trigger] msgs[i]).len() <= max
}

proof fn first_frame(msgs: Seq<Seq<u8>>)
    requires
        msgs.len() > 0,
    ensures
        frames(msgs) == frame(msgs[0]) + frames(msgs.skip(1)),
{
    let one = seq![msgs[0]];
    assert(one + msgs.skip(1) =~= msgs);
    frames_of_concat(one, msgs.skip(1));
    assert(one.drop_last() =~= Seq::empty());
    reveal_with_fuel(frames, 2);
    assert(frames(one) =~= frame(msgs[0]));
}

/// One more read of a channel at rest, where what is pending, the read and what
/// comes behind it are the wire form of `sent`: the read completes at most the
/// first of these messages, and the channel is at rest again.
proof fn one_more_chunk(reading: Reading, chunk: Seq<u8>, sent: Seq<Seq<u8>>, behind: Seq<u8>)
    requires
        reading.max <= u32::MAX,
        none_longer(sent, reading.max),
        reading.step() matches Step::Read { want } && 0 < chunk.len() <= want,
        reading.pending + chunk + behind == frames(sent),
    ensures
        completed(reading, chunk).len() <= 1,
        completed(reading, chunk).len() <= sent.len(),
        completed(reading, chunk) == sent.take(completed(reading, chunk).len() as int),
        after_chunk(reading, chunk).step() is Read,
        after_chunk(reading, chunk).max == reading.max,
        after_chunk(reading, chunk).pending + behind == frames(
            sent.skip(completed(reading, chunk).len() as int),
        ),
{
    let fed = reading.fed(chunk);
    let wire = frames(sent);
    assert(wire.len() > 0);
    assert(sent.len() > 0);
    first_frame(sent);
    let msg = sent[0];
    let others = frames(sent.skip(1));
    frame_announces_its_length(msg, others);
    assert(msg.len() <= reading.max);
    // What is pending agrees with the first frame as far as it goes.
    assert forall|i: int| 0 <= i < fed.pending.len() implies fed.pending[i] == wire[i] by {}
    assert forall|i: int| 0 <= i < reading.pending.len() implies reading.pending[i] == wire[i] by {
        assert(fed.pending[i] == wire[i]);
    }
    assert(reading.pending.len() >= 4 ==> reading.announced() == msg.len());
    assert(fed.pending.len() >= 4 ==> fed.announced() == msg.len());
    assert(fed.pending.len() <= 4 + msg.len());
    if fed.pending.len() == 4 + msg.len() {
        let whole = 4 + msg.len() as int;
        assert(fed.pending.skip(4) =~= msg) by {
            let first = frame(msg);
            assert(first.skip(4) =~= msg);
            assert forall|i: int| 0 <= i < whole implies fed.pending[i] == first[i] by {
                assert(fed.pending[i] == wire[i]);
            }
            assert(fed.pending =~= first);
        }
        assert(completed(reading, chunk) =~= seq![msg]);
        assert(sent.take(1) =~= seq![msg]);
        assert(Seq::<u8>::empty() + behind =~= others) by {
            assert(wire.skip(whole) =~= others);
            assert(wire.skip(whole) =~= behind);
        }
    } else {
        assert(completed(reading, chunk) =~= Seq::empty());
        assert(sent.take(0) =~= Seq::empty());
        assert(sent.skip(0) =~= sent);
    }
}

/// A channel at rest, with reads to come that together with what is pending
/// start the wire form of `sent`.
proof fn received_so_far(reading: Reading, chunks: Seq<Seq<u8>>, sent: Seq<Seq<u8>>, tail: Seq<u8>)
    requires
        reading.max <= u32::MAX,
        reading.step() is Read,
        none_longer(sent, reading.max),
        fits(reading, chunks),
        reading.pending + joined(chunks) + tail == frames(sent),
    ensures
        received(reading, chunks).len() <= sent.len(),
        received(reading, chunks) == sent.take(received(reading, chunks).len() as int),
        after_chunks(reading, chunks).step() is Read,
        after_chunks(reading, chunks).max == reading.max,
        after_chunks(reading, chunks).pending + tail == frames(
            sent.skip(received(reading, chunks).len() as int),
        ),
    decreases chunks.len(),
{
    if chunks.len() == 0 {
        assert(reading.pending + joined(chunks) =~= reading.pending);
        assert(sent.take(0) =~= Seq::empty());
        assert(sent.skip(0) =~= sent);
    } else {
        let chunk = chunks[0];
        let rest = chunks.skip(1);
        let behind = joined(rest) + tail;
        assert(reading.pending + chunk + behind =~= reading.pending + joined(chunks) + tail);
        one_more_chunk(reading, chunk, sent, behind);
        let done = completed(reading, chunk);
        let next = after_chunk(reading, chunk);
        let left = sent.skip(done.len() as int);
        assert(next.pending + joined(rest) + tail =~= next.pending + behind);
        assert forall|i: int| 0 <= i < left.len() implies (#[trigger] left[i]).len()
            <= reading.max by {
            assert(left[i] == sent[i + done.len()]);
        }
        received_so_far(next, rest, left, tail);
        let more = received(next, rest);
        assert(sent.take((done + more).len() as int) =~= done + left.take(more.len() as int));
        assert(sent.skip((done + more).len() as int) =~= left.skip(more.len() as int));
    }
}

/// What was sent is what is received, whole, once and in order, however the
/// stream cuts it into reads: from the wire form of any messages within the
/// maximum exactly these messages come out, nothing stays pending and the channel
/// is not poisoned.
pub proof fn any_chunking_delivers(max: nat, sent: Seq<Seq<u8>>, chunks: Seq<Seq<u8>>)
    requires
        max <= u32::MAX,
        none_longer(sent, max),
        joined(chunks) == frames(sent),
        fits(Reading::fresh(max), chunks),
    ensures
        received(Reading::fresh(max), chunks) == sent,
        after_chunks(Reading::fresh(max), chunks) == Reading::fresh(max),
{
    let fresh = Reading::fresh(max);
    let tail = Seq::<u8>::empty();
    assert(fresh.pending + joined(chunks) + tail =~= frames(sent));
    received_so_far(fresh, chunks, sent, tail);
    let count = received(fresh, chunks).len() as int;
    let left = sent.skip(count);
    let end = after_chunks(fresh, chunks);
    assert(end.pending + tail =~= end.pending);
    if left.len() > 0 {
        first_frame(left);
        assert(left[0] == sent[count]);
        frame_announces_its_length(left[0], frames(left.skip(1)));
        assert(false);
    }
    assert(sent.take(count) =~= sent);
    assert(end.pending =~= Seq::empty());
}

/// At any moment before that, what came out is the beginning of what was sent, and
/// what was read is the wire form of it and what is pending.
pub proof fn part_of_the_stream_delivers_part(
    max: nat,
    sent: Seq<Seq<u8>>,
    chunks: Seq<Seq<u8>>,
    unread: Seq<u8>,
)
    requires
        max <= u32::MAX,
        none_longer(sent, max),
        joined(chunks) + unread == frames(sent),
        fits(Reading::fresh(max), chunks),
    ensures
        received(Reading::fresh(max), chunks).len() <= sent.len(),
        received(Reading::fresh(max), chunks) == sent.take(
            received(Reading::fresh(max), chunks).len() as int,
        ),
        !after_chunks(Reading::fresh(max), chunks).poisoned,
        joined(chunks) == frames(received(Reading::fresh(max), chunks))
            + after_chunks(Reading::fresh(max), chunks).pending,
{
    let fresh = Reading::fresh(max);
    assert(fresh.pending + joined(chunks) + unread =~= frames(sent));
    received_so_far(fresh, chunks, sent, unread);
    let done = received(fresh, chunks);
    let left = sent.skip(done.len() as int);
    let read = frames(done) + after_chunks(fresh, chunks).pending;
    assert(done + left =~= sent);
    frames_of_concat(done, left);
    assert(joined(chunks) + unread =~= read + unread);
    assert(joined(chunks).len() == read.len());
    assert(joined(chunks) =~= (joined(chunks) + unread).take(read.len() as int));
    assert(read =~= (read + unread).take(read.len() as int));
}

/// A stream that ends between two frames is a clean close, and one that ends
/// inside a frame is a truncation that poisons the channel: the one exactly where
/// all that was read is the wire form of the messages that came out.
pub proof fn only_truncation_poisons_at_the_end(
    max: nat,
    sent: Seq<Seq<u8>>,
    chunks: Seq<Seq<u8>>,
    unread: Seq<u8>,
)
    requires
        max <= u32::MAX,
        none_longer(sent, max),
        joined(chunks) + unread == frames(sent),
        fits(Reading::fresh(max), chunks),
    ensures
        ({
            let end = after_chunks(Reading::fresh(max), chunks);
            let whole = joined(chunks) == frames(received(Reading::fresh(max), chunks));
            &&& whole <==> end.end_fault() is Closed
            &&& whole <==> !end.ended().poisoned
        }),
{
    part_of_the_stream_delivers_part(max, sent, chunks, unread);
    let end = after_chunks(Reading::fresh(max), chunks);
    let out = frames(received(Reading::fresh(max), chunks));
    assert((out + end.pending).len() == out.len() + end.pending.len());
    assert(end.pending.len() == 0 ==> out + end.pending =~= out);
}

/// What a receive comes to that has the given reads before it: what it returns, if
/// it returns; the state then; and the reads that it left. A read that gives nothing
/// is the end of the stream.
pub open spec fn recv_call(reading: Reading, chunks: Seq<Seq<u8>>) -> (
    Option<Result<Seq<u8>, RecvFault>>,
    Reading,
    Seq<Seq<u8>>,
)
    decreases chunks.len(),
{
    match reading.step() {
        Step::Message(msg) => (Some(Ok(msg)), reading.stepped(), chunks),
        Step::Failed(fault) => (Some(Err(fault)), reading.stepped(), chunks),
        Step::Read { .. } => if chunks.len() == 0 {
            (None, reading, chunks)
        } else if chunks[0].len() == 0 {
            (Some(Err(reading.end_fault())), reading.ended(), chunks.skip(1))
        } else {
            recv_call(reading.fed(chunks[0]), chunks.skip(1))
        },
    }
}

/// What `count` receives return, one after the other.
pub open spec fn recv_calls(reading: Reading, chunks: Seq<Seq<u8>>, count: nat) -> Seq<
    Option<Result<Seq<u8>, RecvFault>>,
>
    decreases count,
{
    if count == 0 {
        Seq::empty()
    } else {
        let (result, next, left) = recv_call(reading, chunks);
        seq![result] + recv_calls(next, left, (count - 1) as nat)
    }
}

/// The messages among those that are offered which a channel sends: a longer one is
/// refused.
pub open spec fn admitted(max: nat, offered: Seq<Seq<u8>>) -> Seq<Seq<u8>>
    decreases offered.len(),
{
    if offered.len() == 0 {
        Seq::empty()
    } else if offered.last().len() <= max {
        admitted(max, offered.drop_last()).push(offered.last())
    } else {
        admitted(max, offered.drop_last())
    }
}

/// The bytes that a series of sends puts on the wire: a frame for each message that
/// is sent, nothing for one that is refused.
pub open spec fn written(max: nat, offered: Seq<Seq<u8>>) -> Seq<u8>
    decreases offered.len(),
{
    if offered.len() == 0 {
        Seq::empty()
    } else if offered.last().len() <= max {
        written(max, offered.drop_last()) + frame(offered.last())
    } else {
        written(max, offered.drop_last())
    }
}

proof fn written_is_the_wire_form(max: nat, offered: Seq<Seq<u8>>)
    ensures
        written(max, offered) == frames(admitted(max, offered)),
        none_longer(admitted(max, offered), max),
    decreases offered.len(),
{
    if offered.len() > 0 {
        written_is_the_wire_form(max, offered.drop_last());
        let before = admitted(max, offered.drop_last());
        assert(before.push(offered.last()).drop_last() =~= before);
    }
}

/// One receive of a channel at rest takes the first of the messages that are on
/// their way, and leaves the channel at rest with the others before it.
proof fn one_receive(reading: Reading, chunks: Seq<Seq<u8>>, sent: Seq<Seq<u8>>)
    requires
        reading.max <= u32::MAX,
        reading.step() is Read,
        sent.len() > 0,
        none_longer(sent, reading.max),
        fits(reading, chunks),
        reading.pending + joined(chunks) == frames(sent),
    ensures
        ({
            let (result, next, left) = recv_call(reading, chunks);
            &&& result == Some(Ok::<Seq<u8>, RecvFault>(sent[0]))
            &&& next == Reading::fresh(reading.max)
            &&& fits(next, left)
            &&& joined(left) == frames(sent.skip(1))
        }),
    decreases chunks.len(),
{
    first_frame(sent);
    frame_announces_its_length(sent[0], frames(sent.skip(1)));
    if chunks.len() == 0 {
        assert(reading.pending + joined(chunks) =~= reading.pending);
        assert(false);
    }
    let chunk = chunks[0];
    let rest = chunks.skip(1);
    assert(reading.pending + chunk + joined(rest) =~= reading.pending + joined(chunks));
    one_more_chunk(reading, chunk, sent, joined(rest));
    let fed = reading.fed(chunk);
    if completed(reading, chunk).len() == 0 {
        assert(fed.step() is Read);
        assert(sent.skip(0) =~= sent);
        one_receive(fed, rest, sent);
    } else {
        assert(fed.step() is Message);
        assert(sent.take(1)[0] == sent[0]);
        let next = fed.stepped();
        assert(next.pending + joined(rest) =~= joined(rest));
        reveal_with_fuel(recv_call, 2);
    }
}

/// Every receive returns one whole message: of a channel that is between frames and
/// not poisoned, with messages within its maximum on their way, as many receives
/// return exactly these messages in their order, neither merged nor split, however
/// the stream cuts them.
pub proof fn each_receive_returns_one_message(
    reading: Reading,
    sent: Seq<Seq<u8>>,
    chunks: Seq<Seq<u8>>,
)
    requires
        reading.max <= u32::MAX,
        !reading.poisoned,
        reading.pending.len() == 0,
        none_longer(sent, reading.max),
        joined(chunks) == frames(sent),
        fits(reading, chunks),
    ensures
        recv_calls(reading, chunks, sent.len()) == Seq::new(
            sent.len(),
            |i: int| Some(Ok::<Seq<u8>, RecvFault>(sent[i])),
        ),
    decreases sent.len(),
{
    if sent.len() > 0 {
        assert(reading.pending + joined(chunks) =~= joined(chunks));
        one_receive(reading, chunks, sent);
        let (_, next, left) = recv_call(reading, chunks);
        let others = sent.skip(1);
        assert forall|i: int| 0 <= i < others.len() implies (#[trigger] others[i]).len()
            <= reading.max by {
            assert(others[i] == sent[i + 1]);
        }
        each_receive_returns_one_message(next, others, left);
    }
    assert(recv_calls(reading, chunks, sent.len()) =~= Seq::new(
        sent.len(),
        |i: int| Some(Ok::<Seq<u8>, RecvFault>(sent[i])),
    ));
}

/// From one end of a stream to the other: where a channel sends what it is offered
/// and another of the same maximum, between frames and not poisoned, reads what that
/// put on the wire, its receives return the messages that were sent, one whole
/// message each, in order.
pub proof fn receives_return_what_was_sent(
    reading: Reading,
    offered: Seq<Seq<u8>>,
    chunks: Seq<Seq<u8>>,
)
    requires
        reading.max <= u32::MAX,
        !reading.poisoned,
        reading.pending.len() == 0,
        joined(chunks) == written(reading.max, offered),
        fits(reading, chunks),
    ensures
        ({
            let sent = admitted(reading.max, offered);
            recv_calls(reading, chunks, sent.len()) == Seq::new(
                sent.len(),
                |i: int| Some(Ok::<Seq<u8>, RecvFault>(sent[i])),
            )
        }),
{
    written_is_the_wire_form(reading.max, offered);
    each_receive_returns_one_message(reading, admitted(reading.max, offered), chunks);
}

/// A frame over the maximum is refused, however long it is: with a prefix before it
/// that announces more than a message may hold, a receive gives no message and asks
/// for nothing more, it complains of both numbers, and every later receive says that
/// the channel is closed.
pub proof fn oversized_frame_is_refused(reading: Reading)
    requires
        !reading.poisoned,
        reading.pending.len() >= 4,
        be32_value(reading.pending) > reading.max,
    ensures
        reading.step() == Step::Failed(
            RecvFault::Transport(
                "peer announced a "@ + decimal(be32_value(reading.pending))
                    + "-byte frame, exceeding the "@ + decimal(reading.max) + "-byte maximum"@,
            ),
        ),
        reading.stepped().poisoned,
        reading.stepped().step() == Step::Failed(RecvFault::Closed),
        reading.stepped().stepped() == reading.stepped(),
{
}

/// A receive gives a message exactly if the channel is not poisoned and what is
/// pending is the whole frame of that message, which is within the maximum: the
/// message has the length that its prefix announced, and nothing is left pending.
pub proof fn message_is_what_was_announced(reading: Reading)
    requires
        reading.max <= u32::MAX,
        reading.wf(),
    ensures
        reading.step() matches Step::Message(msg) ==> {
            &&& !reading.poisoned
            &&& reading.pending == frame(msg)
            &&& msg.len() == be32_value(reading.pending)
            &&& msg.len() <= reading.max
            &&& reading.stepped() == Reading::fresh(reading.max)
        },
        forall|msg: Seq<u8>|
            !reading.poisoned && msg.len() <= reading.max && reading.pending == #[trigger] frame(
                msg,
            ) ==> reading.step() == Step::Message(msg),
{
    if let Step::Message(msg) = reading.step() {
        prefix_bytes_weigh_by_their_places(0, reading.pending);
        assert(reading.pending =~= reading.pending.take(4) + msg);
        assert(reading.pending =~= frame(msg));
    }
    assert forall|msg: Seq<u8>|
        !reading.poisoned && msg.len() <= reading.max && reading.pending == #[trigger] frame(
            msg,
        ) implies reading.step() == Step::Message(msg) by {
        frames_hold_whole_messages(Seq::empty(), msg);
    }
}

/// A receive reads on exactly while the frame that is pending is not whole, and never
/// past its end: it asks for what its prefix lacks, then for what its payload lacks.
pub proof fn read_asks_for_the_rest_of_the_frame(reading: Reading, msg: Seq<u8>, there: int)
    requires
        reading.max <= u32::MAX,
        msg.len() <= reading.max,
        !reading.poisoned,
        0 <= there < frame(msg).len(),
        reading.pending == frame(msg).take(there),
    ensures
        reading.step() == (Step::Read {
            want: (if there < 4 {
                4 - there
            } else {
                frame(msg).len() - there
            }) as nat,
        }),
        reading.stepped() == reading,
{
    frames_hold_whole_messages(Seq::empty(), msg);
    if there >= 4 {
        assert(reading.pending[0] == frame(msg)[0]);
        assert(reading.pending[1] == frame(msg)[1]);
        assert(reading.pending[2] == frame(msg)[2]);
        assert(reading.pending[3] == frame(msg)[3]);
    }
}

/// What is read is put behind what is pending, and nothing else changes. The end of
/// the stream is a clean close with nothing pending; with anything pending it is a
/// truncation, after which every receive says that the channel is closed.
pub proof fn reads_and_ends_do_what_they_say(reading: Reading, bytes: Seq<u8>)
    requires
        !reading.poisoned,
    ensures
        reading.fed(bytes).pending == reading.pending + bytes,
        reading.fed(bytes).max == reading.max,
        !reading.fed(bytes).poisoned,
        reading.end_fault() == (if reading.pending.len() == 0 {
            RecvFault::Closed
        } else {
            RecvFault::Transport("stream ended mid-frame"@)
        }),
        reading.pending.len() == 0 ==> reading.ended() == reading,
        reading.pending.len() > 0 ==> reading.ended().step() == Step::Failed(RecvFault::Closed),
        reading.ended().max == reading.max,
        reading.stepped().max == reading.max,
        forall|max: nat|
            (#[trigger] Reading::fresh(max)).max == max && Reading::fresh(max).pending.len() == 0
                && !Reading::fresh(max).poisoned,
{
}

/// An I/O failure is a closed channel or is passed on in its own words: on the write
/// side it closes for every kind that is told apart, on the read side for a
/// connection that was reset or aborted alone.
pub proof fn io_failures_close_or_keep_their_words(error: IoError)
    ensures
        send_io_fault(error) == SendFault::Closed || send_io_fault(error) == SendFault::Transport(
            error.message@,
        ),
        send_io_fault(error) is Closed <==> error.kind != IoErrorKind::Other,
        recv_io_fault(error) == RecvFault::Closed || recv_io_fault(error) == RecvFault::Transport(
            error.message@,
        ),
        recv_io_fault(error) is Closed <==> error.kind == IoErrorKind::ConnectionReset
            || error.kind == IoErrorKind::ConnectionAborted,
{
}

/// A step says the same as its content: nothing of a message, of an error or of the
/// number of bytes is left out.
pub proof fn steps_hide_nothing(step: RecvStep)
    ensures
        step matches RecvStep::Read { want } ==> step@ == (Step::Read { want: want as nat }),
        step matches RecvStep::Message(msg) ==> step@ == Step::Message(msg@),
        step matches RecvStep::Failed(RecvError::Closed) ==> step@ == Step::Failed(
            RecvFault::Closed,
        ),
        step matches RecvStep::Failed(RecvError::Transport(cause)) ==> step@ == Step::Failed(
            RecvFault::Transport(cause@),
        ),
{
}

} // verus!
