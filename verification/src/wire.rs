//! The wire format of a framed channel: a 4-byte big-endian payload length,
//! then the payload. It restores message boundaries over a raw byte stream.

use vstd::prelude::*;

verus! {

/// The big-endian form of `n` in four bytes.
pub open spec fn be32(n: nat) -> Seq<u8> {
    seq![
        (n / 0x100_0000 % 0x100) as u8,
        (n / 0x1_0000 % 0x100) as u8,
        (n / 0x100 % 0x100) as u8,
        (n % 0x100) as u8,
    ]
}

/// The number that the first four bytes of `bytes` denote, most significant
/// byte first.
pub open spec fn be32_value(bytes: Seq<u8>) -> nat {
    (bytes[0] * 0x100_0000 + bytes[1] * 0x1_0000 + bytes[2] * 0x100 + bytes[3]) as nat
}

/// One message as it travels.
pub open spec fn frame(msg: Seq<u8>) -> Seq<u8> {
    be32(msg.len()) + msg
}

/// A sequence of messages as it travels.
pub open spec fn frames(msgs: Seq<Seq<u8>>) -> Seq<u8>
    decreases msgs.len(),
{
    if msgs.len() == 0 {
        Seq::empty()
    } else {
        frames(msgs.drop_last()) + frame(msgs.last())
    }
}

/// The length prefix reads back as the length.
pub proof fn be32_reads_back(n: nat)
    requires
        n <= u32::MAX,
    ensures
        be32(n).len() == 4,
        be32_value(be32(n)) == n,
{
}

/// The length prefix of a frame announces the length of its message.
pub proof fn frame_announces_its_length(msg: Seq<u8>, rest: Seq<u8>)
    requires
        msg.len() <= u32::MAX,
    ensures
        frame(msg).len() == 4 + msg.len(),
        be32_value(frame(msg) + rest) == msg.len(),
{
    be32_reads_back(msg.len());
    let bytes = frame(msg) + rest;
    assert(bytes[0] == be32(msg.len())[0]);
    assert(bytes[1] == be32(msg.len())[1]);
    assert(bytes[2] == be32(msg.len())[2]);
    assert(bytes[3] == be32(msg.len())[3]);
}

/// Concatenation of two sequences of messages is concatenation on the wire.
pub proof fn frames_of_concat(a: Seq<Seq<u8>>, b: Seq<Seq<u8>>)
    ensures
        frames(a + b) == frames(a) + frames(b),
    decreases b.len(),
{
    if b.len() == 0 {
        assert(a + b =~= a);
        assert(frames(a) + frames(b) =~= frames(a));
    } else {
        frames_of_concat(a, b.drop_last());
        assert((a + b).drop_last() =~= a + b.drop_last());
        assert((a + b).last() == b.last());
        assert(frames(a + b) =~= frames(a) + frames(b));
    }
}

/// The wire form of a length.
pub fn length_prefix(len: u32) -> (prefix: [u8; 4])
    ensures
        prefix@ == be32(len as nat),
{
    let prefix: [u8; 4] = [
        (len / 0x100_0000) as u8,
        (len / 0x1_0000 % 0x100) as u8,
        (len / 0x100 % 0x100) as u8,
        (len % 0x100) as u8,
    ];
    assert(prefix@ =~= be32(len as nat));
    prefix
}

/// The length that a prefix announces.
pub fn announced_length(prefix: &[u8; 4]) -> (len: u32)
    ensures
        len == be32_value(prefix@),
{
    prefix[0] as u32 * 0x100_0000 + prefix[1] as u32 * 0x1_0000 + prefix[2] as u32 * 0x100
        + prefix[3] as u32
}

/// The bytes of a length weigh by their places, the first the most, in both
/// directions.
pub proof fn prefix_bytes_weigh_by_their_places(n: nat, bytes: Seq<u8>)
    requires
        n <= u32::MAX,
        bytes.len() >= 4,
    ensures
        be32(n).len() == 4,
        be32(n)[0] * 0x100_0000 + be32(n)[1] * 0x1_0000 + be32(n)[2] * 0x100 + be32(n)[3] == n,
        be32_value(bytes) == bytes[0] * 0x100_0000 + bytes[1] * 0x1_0000 + bytes[2] * 0x100
            + bytes[3],
        be32_value(bytes) <= u32::MAX,
        be32(be32_value(bytes)) == bytes.take(4),
{
    be32_reads_back(n);
    let v = be32_value(bytes);
    places(bytes[0] as int, bytes[1] as int, bytes[2] as int, bytes[3] as int);
    assert(be32(v) =~= bytes.take(4));
}

/// The places of a number that is put together out of four bytes.
proof fn places(a: int, b: int, c: int, d: int)
    requires
        0 <= a < 0x100,
        0 <= b < 0x100,
        0 <= c < 0x100,
        0 <= d < 0x100,
    ensures
        ({
            let v = a * 0x100_0000 + b * 0x1_0000 + c * 0x100 + d;
            &&& v / 0x100_0000 % 0x100 == a
            &&& v / 0x1_0000 % 0x100 == b
            &&& v / 0x100 % 0x100 == c
            &&& v % 0x100 == d
        }),
{
    let v = a * 0x100_0000 + b * 0x1_0000 + c * 0x100 + d;
    assert(v / 0x100_0000 == a);
    assert(v / 0x1_0000 == a * 0x100 + b);
    assert(v / 0x100 == a * 0x1_0000 + b * 0x100 + c);
}

/// A frame is its prefix and then the whole message; messages travel one behind the
/// other, each in its own frame.
pub proof fn frames_hold_whole_messages(msgs: Seq<Seq<u8>>, msg: Seq<u8>)
    requires
        msg.len() <= u32::MAX,
    ensures
        frame(msg).len() == msg.len() + 4,
        frame(msg).skip(4) == msg,
        be32_value(frame(msg)) == msg.len(),
        frames(Seq::empty()) == Seq::<u8>::empty(),
        frames(msgs.push(msg)) == frames(msgs) + frame(msg),
{
    frame_announces_its_length(msg, Seq::empty());
    assert(frame(msg) + Seq::<u8>::empty() =~= frame(msg));
    assert(frame(msg).skip(4) =~= msg);
    assert(msgs.push(msg).drop_last() =~= msgs);
}

} // verus!
