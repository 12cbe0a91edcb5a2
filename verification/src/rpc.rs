//! Errors at the boundary of the Cap'n Proto runtime.
//!
//! A channel server answers over capnp-rpc, whose exceptions carry a kind and a
//! reason. A closed backend travels as a disconnection, so that the client finds
//! a closed channel; every other failure travels as text.

use crate::error::{RecvError, RecvFault, SendError, SendFault};
use vstd::prelude::*;

verus! {

/// The kinds of exception that travel between two vats.
#[derive(Debug, Clone, Copy, PartialEq, Eq, Structural)]
pub enum RpcErrorKind {
    Failed,
    Overloaded,
    Disconnected,
    Unimplemented,
}

/// An error of the Cap'n Proto runtime.
#[derive(Debug, Clone, PartialEq, Eq)]
pub enum RpcError {
    /// An exception of one of the kinds that travel.
    Raised { kind: RpcErrorKind, reason: String },
    /// Any other error, such as a reply that cannot be decoded: its text.
    Malformed { text: String },
}

/// The mathematical content of an [`RpcError`].
#[verifier::ext_equal]
pub enum RpcFault {
    Raised { kind: RpcErrorKind, reason: Seq<char> },
    Malformed { text: Seq<char> },
}

impl View for RpcError {
    type V = RpcFault;

    open spec fn view(&self) -> RpcFault {
        match self {
            RpcError::Raised { kind, reason } => RpcFault::Raised { kind: *kind, reason: reason@ },
            RpcError::Malformed { text } => RpcFault::Malformed { text: text@ },
        }
    }
}

impl RpcErrorKind {
    /// The name of the kind, as it is printed.
    pub open spec fn name(self) -> Seq<char> {
        match self {
            RpcErrorKind::Failed => "Failed"@,
            RpcErrorKind::Overloaded => "Overloaded"@,
            RpcErrorKind::Disconnected => "Disconnected"@,
            RpcErrorKind::Unimplemented => "Unimplemented"@,
        }
    }
}

impl RpcFault {
    /// Whether the connection is lost.
    pub open spec fn disconnected(self) -> bool {
        self matches RpcFault::Raised { kind, .. } && kind == RpcErrorKind::Disconnected
    }

    /// The error in words.
    pub open spec fn message(self) -> Seq<char> {
        match self {
            RpcFault::Raised { kind, reason } => raised_message(kind, reason),
            RpcFault::Malformed { text } => text,
        }
    }

    /// What a send comes to that fails so.
    pub open spec fn send_fault(self) -> SendFault {
        if self.disconnected() {
            SendFault::Closed
        } else {
            SendFault::Transport(self.message())
        }
    }

    /// What a receive comes to that fails so.
    pub open spec fn recv_fault(self) -> RecvFault {
        if self.disconnected() {
            RecvFault::Closed
        } else {
            RecvFault::Transport(self.message())
        }
    }
}

/// An exception in words: the kind and, if there is one, the reason.
pub open spec fn raised_message(kind: RpcErrorKind, reason: Seq<char>) -> Seq<char> {
    if reason.len() == 0 {
        kind.name()
    } else {
        kind.name() + ": "@ + reason
    }
}

/// `Display` of `capnp::Error`: the name of the kind alone where the error has no
/// extra text, else the name, a colon, a space and that text. Stated of the four
/// kinds that travel between vats.
#[verifier::external_body]
fn raised_text(kind: RpcErrorKind, reason: &str) -> (text: String)
    ensures
        text@ == raised_message(kind, reason@),
{
    let kind = match kind {
        RpcErrorKind::Failed => capnp::ErrorKind::Failed,
        RpcErrorKind::Overloaded => capnp::ErrorKind::Overloaded,
        RpcErrorKind::Disconnected => capnp::ErrorKind::Disconnected,
        RpcErrorKind::Unimplemented => capnp::ErrorKind::Unimplemented,
    };
    let error = capnp::Error { kind, extra: String::from(reason) };
    format!("{}", error)
}

impl RpcError {
    /// The error in words.
    pub fn to_string(&self) -> (text: String)
        ensures
            text@ == self@.message(),
    {
        match self {
            RpcError::Raised { kind, reason } => raised_text(*kind, reason.as_str()),
            RpcError::Malformed { text } => text.clone(),
        }
    }

    /// Whether the connection is lost.
    fn is_disconnected(&self) -> (lost: bool)
        ensures
            lost == self@.disconnected(),
    {
        match self {
            RpcError::Raised { kind, .. } => *kind == RpcErrorKind::Disconnected,
            RpcError::Malformed { .. } => false,
        }
    }
}

/// A disconnection maps to a closed channel; anything else is an opaque
/// transport error.
pub fn map_send_error(e: RpcError) -> (error: SendError)
    ensures
        error@ == e@.send_fault(),
{
    if e.is_disconnected() {
        SendError::Closed
    } else {
        SendError::Transport(e.to_string())
    }
}

/// See [`map_send_error`]; the same rule for the receive side.
pub fn map_recv_error(e: RpcError) -> (error: RecvError)
    ensures
        error@ == e@.recv_fault(),
{
    if e.is_disconnected() {
        RecvError::Closed
    } else {
        RecvError::Transport(e.to_string())
    }
}

/// What the server raises when the backend fails to send.
pub open spec fn raised_for_send(fault: SendFault) -> RpcFault {
    match fault {
        SendFault::Closed => RpcFault::Raised {
            kind: RpcErrorKind::Disconnected,
            reason: "channel closed"@,
        },
        _ => RpcFault::Raised { kind: RpcErrorKind::Failed, reason: fault.message() },
    }
}

/// What the server raises when the backend fails to receive.
pub open spec fn raised_for_recv(fault: RecvFault) -> RpcFault {
    match fault {
        RecvFault::Closed => RpcFault::Raised {
            kind: RpcErrorKind::Disconnected,
            reason: "channel closed"@,
        },
        _ => RpcFault::Raised { kind: RpcErrorKind::Failed, reason: fault.message() },
    }
}

/// Server-side: a backend `Closed` becomes a disconnection so that the client
/// reconstructs it as [`SendError::Closed`]; other failures stay `Failed` (which
/// the client maps to `Transport`).
pub fn backend_send_error_to_capnp(e: SendError) -> (error: RpcError)
    ensures
        error@ == raised_for_send(e@),
{
    match e {
        SendError::Closed => RpcError::Raised {
            kind: RpcErrorKind::Disconnected,
            reason: "channel closed".to_owned(),
        },
        other => RpcError::Raised { kind: RpcErrorKind::Failed, reason: other.to_string() },
    }
}

/// See [`backend_send_error_to_capnp`]; the same rule for the receive side.
pub fn backend_recv_error_to_capnp(e: RecvError) -> (error: RpcError)
    ensures
        error@ == raised_for_recv(e@),
{
    match e {
        RecvError::Closed => RpcError::Raised {
            kind: RpcErrorKind::Disconnected,
            reason: "channel closed".to_owned(),
        },
        other => RpcError::Raised { kind: RpcErrorKind::Failed, reason: other.to_string() },
    }
}

/// A failed send keeps its meaning across the boundary, whatever the runtime
/// makes of the reason on its way: the client finds a closed channel exactly
/// where the backend did, and a transport error otherwise.
pub proof fn send_failure_survives_the_boundary(
    fault: SendFault,
    kind: RpcErrorKind,
    reason: Seq<char>,
)
    requires
        raised_for_send(fault)->kind == kind,
    ensures
        fault is Closed <==> (RpcFault::Raised { kind, reason }).send_fault() is Closed,
        fault !is Closed <==> (RpcFault::Raised { kind, reason }).send_fault() is Transport,
{
}

/// The same for a failed receive.
pub proof fn recv_failure_survives_the_boundary(
    fault: RecvFault,
    kind: RpcErrorKind,
    reason: Seq<char>,
)
    requires
        raised_for_recv(fault)->kind == kind,
    ensures
        fault is Closed <==> (RpcFault::Raised { kind, reason }).recv_fault() is Closed,
        fault !is Closed <==> (RpcFault::Raised { kind, reason }).recv_fault() is Transport,
{
}

/// Whatever fails in the runtime, the channel is closed if and only if the connection
/// is lost, and otherwise the failure is passed on in the runtime's own words: the
/// kind and, behind a colon, the whole reason, or the whole text.
pub proof fn runtime_failures_close_or_keep_their_words(
    kind: RpcErrorKind,
    reason: Seq<char>,
    text: Seq<char>,
)
    ensures
        ({
            let raised = RpcFault::Raised { kind, reason };
            let words = if reason.len() == 0 {
                kind.name()
            } else {
                kind.name() + ": "@ + reason
            };
            &&& kind == RpcErrorKind::Disconnected ==> raised.send_fault() == SendFault::Closed
                && raised.recv_fault() == RecvFault::Closed
            &&& kind != RpcErrorKind::Disconnected ==> raised.send_fault() == SendFault::Transport(
                words,
            ) && raised.recv_fault() == RecvFault::Transport(words)
        }),
        (RpcFault::Malformed { text }).send_fault() == SendFault::Transport(text),
        (RpcFault::Malformed { text }).recv_fault() == RecvFault::Transport(text),
{
}

/// Across the boundary and back, a closed channel stays closed, and any other failure
/// of the backend reaches the client whole: its message, behind the kind `Failed`.
pub proof fn backend_failures_reach_the_client_whole(send: SendFault, recv: RecvFault)
    ensures
        send is Closed ==> raised_for_send(send).send_fault() == SendFault::Closed,
        send !is Closed ==> raised_for_send(send).send_fault() == SendFault::Transport(
            "Failed"@ + ": "@ + send.message(),
        ),
        recv is Closed ==> raised_for_recv(recv).recv_fault() == RecvFault::Closed,
        recv !is Closed ==> raised_for_recv(recv).recv_fault() == RecvFault::Transport(
            "Failed"@ + ": "@ + recv.message(),
        ),
        send is Closed ==> raised_for_send(send) == (RpcFault::Raised {
            kind: RpcErrorKind::Disconnected,
            reason: "channel closed"@,
        }),
        recv is Closed ==> raised_for_recv(recv) == (RpcFault::Raised {
            kind: RpcErrorKind::Disconnected,
            reason: "channel closed"@,
        }),
{
    reveal_strlit("transport error: ");
    reveal_strlit("message exceeds the maximum of ");
}

/// An error of the runtime says the same as its content.
pub proof fn runtime_errors_hide_nothing(error: RpcError)
    ensures
        error matches RpcError::Raised { kind, reason } ==> error@ == (RpcFault::Raised {
            kind,
            reason: reason@,
        }),
        error matches RpcError::Malformed { text } ==> error@ == (RpcFault::Malformed {
            text: text@,
        }),
{
}

} // verus!
