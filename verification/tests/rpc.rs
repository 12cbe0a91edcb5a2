use fungi_transport::error::{RecvError, SendError};
use fungi_transport::loopback::Loopback;
use fungi_transport::rpc::{
    backend_recv_error_to_capnp, backend_send_error_to_capnp, map_recv_error, map_send_error,
    RpcError, RpcErrorKind,
};

fn raised(kind: RpcErrorKind, reason: &str) -> RpcError {
    RpcError::Raised {
        kind,
        reason: String::from(reason),
    }
}

#[test]
fn errors_print_as_the_runtime_prints_them() {
    let kinds = [
        (RpcErrorKind::Failed, capnp::ErrorKind::Failed, "Failed"),
        (RpcErrorKind::Overloaded, capnp::ErrorKind::Overloaded, "Overloaded"),
        (RpcErrorKind::Disconnected, capnp::ErrorKind::Disconnected, "Disconnected"),
        (RpcErrorKind::Unimplemented, capnp::ErrorKind::Unimplemented, "Unimplemented"),
    ];
    for (kind, theirs, name) in kinds {
        assert_eq!(raised(kind, "").to_string(), name);
        assert_eq!(raised(kind, "why").to_string(), format!("{name}: why"));
        let error = capnp::Error {
            kind: theirs,
            extra: String::from("why"),
        };
        assert_eq!(raised(kind, "why").to_string(), error.to_string());
    }
    let malformed = RpcError::Malformed {
        text: String::from("empty buffer"),
    };
    assert_eq!(malformed.to_string(), "empty buffer");
}

#[test]
fn disconnection_is_a_closed_channel() {
    let lost = || raised(RpcErrorKind::Disconnected, "gone");
    assert_eq!(map_send_error(lost()), SendError::Closed);
    assert_eq!(map_recv_error(lost()), RecvError::Closed);
}

#[test]
fn other_errors_are_opaque() {
    for kind in [
        RpcErrorKind::Failed,
        RpcErrorKind::Overloaded,
        RpcErrorKind::Unimplemented,
    ] {
        let text = raised(kind, "why").to_string();
        assert_eq!(
            map_send_error(raised(kind, "why")),
            SendError::Transport(text.clone())
        );
        assert_eq!(
            map_recv_error(raised(kind, "why")),
            RecvError::Transport(text)
        );
    }
    let malformed = || RpcError::Malformed {
        text: String::from("Disconnected"),
    };
    assert_eq!(
        map_send_error(malformed()),
        SendError::Transport(String::from("Disconnected"))
    );
    assert_eq!(
        map_recv_error(malformed()),
        RecvError::Transport(String::from("Disconnected"))
    );
}

#[test]
fn backend_errors_travel_by_kind() {
    assert_eq!(
        backend_send_error_to_capnp(SendError::Closed),
        raised(RpcErrorKind::Disconnected, "channel closed")
    );
    assert_eq!(
        backend_send_error_to_capnp(SendError::TooLarge { max: 9 }),
        raised(RpcErrorKind::Failed, "message exceeds the maximum of 9 bytes")
    );
    assert_eq!(
        backend_recv_error_to_capnp(RecvError::Closed),
        raised(RpcErrorKind::Disconnected, "channel closed")
    );
    assert_eq!(
        backend_recv_error_to_capnp(RecvError::Transport(String::from("x"))),
        raised(RpcErrorKind::Failed, "transport error: x")
    );
}

#[test]
fn closed_survives_the_boundary() {
    assert_eq!(
        map_send_error(backend_send_error_to_capnp(SendError::Closed)),
        SendError::Closed
    );
    assert_eq!(
        map_recv_error(backend_recv_error_to_capnp(RecvError::Closed)),
        RecvError::Closed
    );
    assert_eq!(
        map_send_error(backend_send_error_to_capnp(SendError::Transport(
            String::from("x")
        ))),
        SendError::Transport(String::from("Failed: transport error: x"))
    );
}

#[test]
fn loopback_is_first_in_first_out() {
    let mut loopback = Loopback::new();
    loopback.send(b"one".to_vec());
    loopback.send(b"two".to_vec());
    assert_eq!(loopback.recv(), Ok(b"one".to_vec()));
    loopback.send(b"three".to_vec());
    assert_eq!(loopback.recv(), Ok(b"two".to_vec()));
    assert_eq!(loopback.recv(), Ok(b"three".to_vec()));
    assert_eq!(
        loopback.recv(),
        Err(raised(RpcErrorKind::Failed, "channel empty"))
    );
}
