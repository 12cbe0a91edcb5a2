//! What can go wrong on a channel.

use crate::text::{append_decimal, decimal};
use vstd::prelude::*;

verus! {

/// Why a message was not sent.
#[derive(Debug, Clone, PartialEq, Eq)]
pub enum SendError {
    /// The peer or the stream is gone.
    Closed,
    /// The message is longer than the channel carries.
    TooLarge {
        /// The most bytes that one message may hold.
        max: usize,
    },
    /// Any other failure of the transport.
    Transport(String),
}

/// Why no message was received.
#[derive(Debug, Clone, PartialEq, Eq)]
pub enum RecvError {
    /// The peer or the stream is gone.
    Closed,
    /// Any other failure of the transport.
    Transport(String),
}

/// The mathematical content of a [`SendError`].
#[verifier::ext_equal]
pub enum SendFault {
    Closed,
    TooLarge { max: nat },
    Transport(Seq<char>),
}

/// The mathematical content of a [`RecvError`].
#[verifier::ext_equal]
pub enum RecvFault {
    Closed,
    Transport(Seq<char>),
}

impl View for SendError {
    type V = SendFault;

    open spec fn view(&self) -> SendFault {
        match self {
            SendError::Closed => SendFault::Closed,
            SendError::TooLarge { max } => SendFault::TooLarge { max: *max as nat },
            SendError::Transport(cause) => SendFault::Transport(cause@),
        }
    }
}

impl View for RecvError {
    type V = RecvFault;

    open spec fn view(&self) -> RecvFault {
        match self {
            RecvError::Closed => RecvFault::Closed,
            RecvError::Transport(cause) => RecvFault::Transport(cause@),
        }
    }
}

impl SendFault {
    /// The message for people.
    pub open spec fn message(self) -> Seq<char> {
        match self {
            SendFault::Closed => "channel closed"@,
            SendFault::TooLarge { max } => "message exceeds the maximum of "@
                + decimal(max) + " bytes"@,
            SendFault::Transport(cause) => "transport error: "@ + cause,
        }
    }
}

impl RecvFault {
    /// The message for people.
    pub open spec fn message(self) -> Seq<char> {
        match self {
            RecvFault::Closed => "channel closed"@,
            RecvFault::Transport(cause) => "transport error: "@ + cause,
        }
    }
}

impl SendError {
    /// The message for people.
    pub fn to_string(&self) -> (text: String)
        ensures
            text@ == self@.message(),
    {
        match self {
            SendError::Closed => "channel closed".to_owned(),
            SendError::TooLarge { max } => {
                let mut text = "message exceeds the maximum of ".to_owned();
                append_decimal(&mut text, *max as u64);
                text.append(" bytes");
                text
            },
            SendError::Transport(cause) => {
                let mut text = "transport error: ".to_owned();
                text.append(cause.as_str());
                text
            },
        }
    }
}

impl RecvError {
    /// The message for people.
    pub fn to_string(&self) -> (text: String)
        ensures
            text@ == self@.message(),
    {
        match self {
            RecvError::Closed => "channel closed".to_owned(),
            RecvError::Transport(cause) => {
                let mut text = "transport error: ".to_owned();
                text.append(cause.as_str());
                text
            },
        }
    }
}

/// The content of what a send returns.
pub open spec fn sent(result: Result<(), SendError>) -> Result<(), SendFault> {
    match result {
        Ok(()) => Ok(()),
        Err(error) => Err(error@),
    }
}

/// The content of what a receive returns.
pub open spec fn received(result: Result<Vec<u8>, RecvError>) -> Result<Seq<u8>, RecvFault> {
    match result {
        Ok(msg) => Ok(msg@),
        Err(error) => Err(error@),
    }
}

/// The kinds of I/O failure that a channel tells apart.
#[derive(Debug, Clone, Copy, PartialEq, Eq, Structural)]
pub enum IoErrorKind {
    BrokenPipe,
    ConnectionReset,
    ConnectionAborted,
    UnexpectedEof,
    WriteZero,
    /// Every other kind.
    Other,
}

/// A failed read or write on the stream below a channel.
#[derive(Debug, Clone, PartialEq, Eq)]
pub struct IoError {
    pub kind: IoErrorKind,
    /// What the operating system or the stream said of it.
    pub message: String,
}

/// The words of an error hold all that it knows: the cause, or the maximum in base
/// ten, and nothing but fixed words around it.
pub proof fn errors_tell_all_they_know(send: SendFault, recv: RecvFault)
    ensures
        send matches SendFault::Transport(cause) ==> send.message() == "transport error: "@ + cause,
        recv matches RecvFault::Transport(cause) ==> recv.message() == "transport error: "@ + cause,
        send matches SendFault::TooLarge { max } ==> send.message()
            == "message exceeds the maximum of "@ + decimal(max) + " bytes"@,
        send is Closed ==> send.message() == "channel closed"@,
        recv is Closed ==> recv.message() == "channel closed"@,
{
}

/// The content of what a send or a receive returns leaves nothing out.
pub proof fn results_hide_nothing(
    send: Result<(), SendError>,
    recv: Result<Vec<u8>, RecvError>,
    error: SendError,
)
    ensures
        send is Ok <==> sent(send) is Ok,
        send matches Err(e) ==> sent(send) == Err::<(), SendFault>(e@),
        recv matches Ok(msg) ==> received(recv) == Ok::<Seq<u8>, RecvFault>(msg@),
        recv matches Err(RecvError::Closed) ==> received(recv) == Err::<Seq<u8>, RecvFault>(
            RecvFault::Closed,
        ),
        recv matches Err(RecvError::Transport(cause)) ==> received(recv) == Err::<
            Seq<u8>,
            RecvFault,
        >(RecvFault::Transport(cause@)),
        error is Closed ==> error@ == SendFault::Closed,
        error matches SendError::TooLarge { max } ==> error@ == (SendFault::TooLarge {
            max: max as nat,
        }),
        error matches SendError::Transport(cause) ==> error@ == SendFault::Transport(cause@),
{
}

} // verus!
