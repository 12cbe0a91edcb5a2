use fungi_transport::error::{IoError, IoErrorKind, RecvError, SendError};
use fungi_transport::framed::{
    after_write, map_recv_io, map_send_io, FramedChannel, RecvStep, SendStage, SendStep,
    DEFAULT_MAX_MSG_LEN,
};
use fungi_transport::wire::{announced_length, length_prefix};

/// Puts a message on the wire, as a driver does: prefix, payload, flush.
fn send(channel: &FramedChannel<()>, wire: &mut Vec<u8>, msg: &[u8]) -> Result<(), SendError> {
    let prefix = channel.start_send(msg)?;
    let mut stage = SendStage::Prefix;
    loop {
        match stage {
            SendStage::Prefix => wire.extend_from_slice(&prefix),
            SendStage::Payload => wire.extend_from_slice(msg),
            SendStage::Flush => {}
        }
        match after_write(stage, Ok(())) {
            SendStep::Next(next) => stage = next,
            SendStep::Finished(result) => return result,
        }
    }
}

/// Receives one message from the front of `wire`, reading at most `chunk` bytes
/// at a time; an empty wire is the end of the stream.
fn recv(
    channel: &mut FramedChannel<()>,
    wire: &mut Vec<u8>,
    chunk: usize,
) -> Result<Vec<u8>, RecvError> {
    loop {
        match channel.poll_recv() {
            RecvStep::Message(msg) => return Ok(msg),
            RecvStep::Failed(error) => return Err(error),
            RecvStep::Read { want } => {
                let n = want.min(chunk).min(wire.len());
                let rest = wire.split_off(n);
                let bytes = std::mem::replace(wire, rest);
                channel.on_read(&bytes)?;
            }
        }
    }
}

fn closed(result: Result<Vec<u8>, RecvError>) -> bool {
    result == Err(RecvError::Closed)
}

#[test]
fn roundtrip_both_directions() {
    let mut a = FramedChannel::new((), DEFAULT_MAX_MSG_LEN);
    let mut b = FramedChannel::new((), DEFAULT_MAX_MSG_LEN);
    let (mut to_b, mut to_a) = (Vec::new(), Vec::new());
    send(&a, &mut to_b, b"ping").unwrap();
    assert_eq!(recv(&mut b, &mut to_b, 64).unwrap(), b"ping");
    send(&b, &mut to_a, b"pong").unwrap();
    assert_eq!(recv(&mut a, &mut to_a, 64).unwrap(), b"pong");
}

#[test]
fn too_large_is_rejected() {
    let a = FramedChannel::new((), 16);
    let mut wire = Vec::new();
    assert_eq!(
        send(&a, &mut wire, &[0; 17]),
        Err(SendError::TooLarge { max: 16 })
    );
    assert!(wire.is_empty());
    assert_eq!(send(&a, &mut wire, &[0; 16]), Ok(()));
    assert_eq!(wire.len(), 20);
}

#[test]
fn recv_after_peer_drop_is_closed() {
    let mut b = FramedChannel::new((), DEFAULT_MAX_MSG_LEN);
    let mut wire = Vec::new();
    assert!(closed(recv(&mut b, &mut wire, 64)));
    // A clean close is no protocol violation: it is found anew each time.
    assert_eq!(b.poll_recv(), RecvStep::Read { want: 4 });
}

#[test]
fn recv_is_cancel_safe() {
    let a = FramedChannel::new((), DEFAULT_MAX_MSG_LEN);
    let mut b = FramedChannel::new((), DEFAULT_MAX_MSG_LEN);
    let mut wire = Vec::new();
    send(&a, &mut wire, b"mycelium").unwrap();
    // Receives that are dropped while they wait for the next byte.
    for (i, byte) in wire.iter().enumerate() {
        let want = if i < 4 { 4 - i } else { 12 - i };
        assert_eq!(b.poll_recv(), RecvStep::Read { want });
        assert_eq!(b.poll_recv(), RecvStep::Read { want });
        b.on_read(&[*byte]).unwrap();
    }
    assert_eq!(b.poll_recv(), RecvStep::Message(b"mycelium".to_vec()));
    assert_eq!(b.poll_recv(), RecvStep::Read { want: 4 });
}

#[test]
fn any_chunk_size_delivers_the_same_messages() {
    let a = FramedChannel::new((), 300);
    let sent: Vec<Vec<u8>> = vec![
        vec![],
        vec![1],
        vec![],
        (0..=255).collect(),
        vec![0, 0, 0, 9],
        vec![7; 300],
    ];
    for chunk in [1, 2, 3, 4, 5, 7, 64, 1000] {
        let mut wire = Vec::new();
        for msg in &sent {
            send(&a, &mut wire, msg).unwrap();
        }
        let mut b = FramedChannel::new((), 300);
        for msg in &sent {
            assert_eq!(&recv(&mut b, &mut wire, chunk).unwrap(), msg);
        }
        assert!(closed(recv(&mut b, &mut wire, chunk)));
    }
}

#[test]
fn refused_sends_leave_no_gap() {
    let a = FramedChannel::new((), 4);
    let mut b = FramedChannel::new((), 4);
    let mut wire = Vec::new();
    let results: Vec<bool> = [&b"one"[..], b"three", b"", b"four"]
        .iter()
        .map(|msg| send(&a, &mut wire, msg).is_ok())
        .collect();
    assert_eq!(results, [true, false, true, true]);
    for msg in [&b"one"[..], b"", b"four"] {
        assert_eq!(recv(&mut b, &mut wire, 2).unwrap(), msg);
    }
    assert!(closed(recv(&mut b, &mut wire, 2)));
}

#[test]
fn wire_format_is_a_big_endian_length_and_the_payload() {
    let a = FramedChannel::new((), 0x10000);
    let mut wire = Vec::new();
    send(&a, &mut wire, b"abc").unwrap();
    assert_eq!(wire, [0, 0, 0, 3, b'a', b'b', b'c']);
    assert_eq!(a.start_send(&[0; 0x102]).unwrap(), [0, 0, 1, 2]);
    for len in [0u32, 1, 255, 256, 65535, 65536, 0x0102_0304, u32::MAX] {
        assert_eq!(length_prefix(len), len.to_be_bytes());
        assert_eq!(announced_length(&len.to_be_bytes()), len);
    }
}

#[test]
fn oversized_frame_poisons_the_channel() {
    let mut b = FramedChannel::new((), 16);
    let mut wire = vec![0, 0, 0, 17, 1, 2, 3];
    assert_eq!(
        recv(&mut b, &mut wire, 64),
        Err(RecvError::Transport(String::from(
            "peer announced a 17-byte frame, exceeding the 16-byte maximum"
        )))
    );
    // Nothing of the payload was taken in, and the channel stays closed.
    assert_eq!(wire, [1, 2, 3]);
    assert!(closed(recv(&mut b, &mut wire, 64)));
    assert!(closed(recv(&mut b, &mut wire, 64)));
    assert_eq!(wire, [1, 2, 3]);
}

#[test]
fn frame_of_the_maximum_length_is_taken() {
    let mut b = FramedChannel::new((), 3);
    let mut wire = vec![0, 0, 0, 3, 4, 5, 6];
    assert_eq!(recv(&mut b, &mut wire, 64).unwrap(), [4, 5, 6]);
}

#[test]
fn stream_that_ends_mid_frame_poisons_the_channel() {
    for wire in [vec![0], vec![0, 0, 0], vec![0, 0, 0, 2], vec![0, 0, 0, 2, 9]] {
        let mut b = FramedChannel::new((), 16);
        let mut wire = wire;
        assert_eq!(
            recv(&mut b, &mut wire, 64),
            Err(RecvError::Transport(String::from("stream ended mid-frame")))
        );
        let mut more = vec![0, 0, 0, 0];
        assert!(closed(recv(&mut b, &mut more, 64)));
        assert_eq!(more.len(), 4);
    }
}

fn io(kind: IoErrorKind) -> IoError {
    IoError {
        kind,
        message: String::from("boom"),
    }
}

#[test]
fn io_errors_keep_the_gone_peer_apart() {
    for kind in [
        IoErrorKind::BrokenPipe,
        IoErrorKind::ConnectionReset,
        IoErrorKind::ConnectionAborted,
        IoErrorKind::UnexpectedEof,
        IoErrorKind::WriteZero,
    ] {
        assert_eq!(map_send_io(io(kind)), SendError::Closed);
    }
    assert_eq!(
        map_send_io(io(IoErrorKind::Other)),
        SendError::Transport(String::from("boom"))
    );
    for kind in [IoErrorKind::ConnectionReset, IoErrorKind::ConnectionAborted] {
        assert_eq!(map_recv_io(io(kind)), RecvError::Closed);
    }
    for kind in [
        IoErrorKind::BrokenPipe,
        IoErrorKind::UnexpectedEof,
        IoErrorKind::WriteZero,
        IoErrorKind::Other,
    ] {
        assert_eq!(
            map_recv_io(io(kind)),
            RecvError::Transport(String::from("boom"))
        );
    }
}

#[test]
fn failed_write_ends_the_send() {
    for stage in [SendStage::Prefix, SendStage::Payload, SendStage::Flush] {
        assert_eq!(
            after_write(stage, Err(io(IoErrorKind::WriteZero))),
            SendStep::Finished(Err(SendError::Closed))
        );
        assert_eq!(
            after_write(stage, Err(io(IoErrorKind::Other))),
            SendStep::Finished(Err(SendError::Transport(String::from("boom"))))
        );
    }
}

#[test]
fn stream_is_handed_to_the_driver() {
    let mut channel = FramedChannel::new(vec![1], 16);
    channel.stream_mut().push(2);
    assert_eq!(channel.stream_mut(), &vec![1, 2]);
}

#[test]
fn errors_speak_for_themselves() {
    assert_eq!(SendError::Closed.to_string(), "channel closed");
    assert_eq!(
        SendError::TooLarge { max: 16 }.to_string(),
        "message exceeds the maximum of 16 bytes"
    );
    assert_eq!(
        SendError::Transport(String::from("x")).to_string(),
        "transport error: x"
    );
    assert_eq!(RecvError::Closed.to_string(), "channel closed");
    assert_eq!(
        RecvError::Transport(String::from("x")).to_string(),
        "transport error: x"
    );
}
