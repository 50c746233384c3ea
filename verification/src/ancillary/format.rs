//! The framing of control messages in a buffer.
//!
//! A buffer holds control messages one after the other. Each starts with a
//! header of sixteen bytes: the length of header and payload as a 64-bit
//! number, then level and type as signed 32-bit numbers. The payload
//! follows, and after it zero bytes up to the next multiple of eight.

use super::bytes::{
    i32_from_bytes, i32_to_bytes, lemma_i32_round_trip, lemma_to_bytes_len, lemma_u64_round_trip,
    u64_from_bytes, u64_to_bytes,
};
use super::layout::{align_up, message_space, padding};
use vstd::prelude::*;

verus! {

/// One control message: where it belongs, what it is, and its payload.
pub struct ControlMessage {
    pub level: i32,
    pub kind: i32,
    pub data: Seq<u8>,
}

/// `n` zero bytes.
pub open spec fn zeros(n: int) -> Seq<u8> {
    Seq::new(n as nat, |i: int| 0u8)
}

/// The bytes of a message: header, payload and padding.
pub open spec fn encode_message(m: ControlMessage) -> Seq<u8> {
    u64_to_bytes(16 + m.data.len() as int) + i32_to_bytes(m.level as int) + i32_to_bytes(
        m.kind as int,
    ) + m.data + zeros(padding(m.data.len() as int))
}

/// The length field of the header that starts at `pos`.
pub open spec fn length_field(bytes: Seq<u8>, pos: int) -> int {
    u64_from_bytes(bytes.subrange(pos, pos + 8))
}

/// Whether a whole message starts at `pos`: the header lies inside the
/// buffer, and its length field covers the header and ends inside the buffer.
pub open spec fn has_message(bytes: Seq<u8>, pos: int) -> bool {
    &&& 0 <= pos
    &&& pos + 16 <= bytes.len()
    &&& 16 <= length_field(bytes, pos) <= bytes.len() - pos
}

/// The message that starts at `pos`.
pub open spec fn message_at(bytes: Seq<u8>, pos: int) -> ControlMessage
    recommends
        has_message(bytes, pos),
{
    ControlMessage {
        level: i32_from_bytes(bytes.subrange(pos + 8, pos + 12)) as i32,
        kind: i32_from_bytes(bytes.subrange(pos + 12, pos + 16)) as i32,
        data: bytes.subrange(pos + 16, pos + length_field(bytes, pos)),
    }
}

/// Where the message after the one at `pos` starts: the padded length further.
pub open spec fn next_position(bytes: Seq<u8>, pos: int) -> int {
    pos + align_up(length_field(bytes, pos))
}

/// Number of bytes from `pos` to the end of the buffer.
pub open spec fn remaining_len(bytes: Seq<u8>, pos: int) -> int {
    if pos <= bytes.len() {
        bytes.len() - pos
    } else {
        0
    }
}

/// The messages found by walking the buffer from `pos`. The walk ends at the
/// first position where no whole message starts.
pub open spec fn messages_from(bytes: Seq<u8>, pos: int) -> Seq<ControlMessage>
    decreases remaining_len(bytes, pos),
{
    if has_message(bytes, pos) {
        seq![message_at(bytes, pos)] + messages_from(bytes, next_position(bytes, pos))
    } else {
        Seq::empty()
    }
}

/// The messages of a buffer.
pub open spec fn messages(bytes: Seq<u8>) -> Seq<ControlMessage> {
    messages_from(bytes, 0)
}

/// Whether the walk from `pos` passes only whole, padded messages and ends
/// at the end of the buffer.
pub open spec fn ends_exactly(bytes: Seq<u8>, pos: int) -> bool
    decreases bytes.len() - pos,
{
    if pos == bytes.len() {
        true
    } else if has_message(bytes, pos) && next_position(bytes, pos) <= bytes.len() {
        ends_exactly(bytes, next_position(bytes, pos))
    } else {
        false
    }
}

/// Whether the buffer is made of whole, padded messages and nothing else.
pub open spec fn well_formed(bytes: Seq<u8>) -> bool {
    ends_exactly(bytes, 0)
}

/// An encoded message takes the space of its payload: header, payload, padding.
pub proof fn lemma_encode_len(m: ControlMessage)
    ensures
        encode_message(m).len() == message_space(m.data.len() as int),
{
    lemma_to_bytes_len(16 + m.data.len() as int);
    lemma_to_bytes_len(m.level as int);
    lemma_to_bytes_len(m.kind as int);
}

/// A walk never leaves the buffer: every message found lies inside it, and
/// there are no more messages than bytes.
pub proof fn lemma_messages_bounded(bytes: Seq<u8>, pos: int)
    requires
        0 <= pos,
    ensures
        messages_from(bytes, pos).len() * 16 <= remaining_len(bytes, pos),
        forall|i: int|
            0 <= i < messages_from(bytes, pos).len() ==> (#[trigger] messages_from(
                bytes,
                pos,
            )[i]).data.len() + 16 <= bytes.len() - pos,
    decreases remaining_len(bytes, pos),
{
    if has_message(bytes, pos) {
        let next = next_position(bytes, pos);
        lemma_messages_bounded(bytes, next);
        let rest = messages_from(bytes, next);
        let all = messages_from(bytes, pos);
        assert forall|i: int| 0 <= i < all.len() implies (#[trigger] all[i]).data.len() + 16
            <= bytes.len() - pos by {
            if i > 0 {
                assert(all[i] == rest[i - 1]);
            }
        }
    }
}

/// A message that starts inside a buffer starts in every longer buffer too,
/// with the same content.
pub proof fn lemma_message_in_prefix(bytes: Seq<u8>, more: Seq<u8>, pos: int)
    requires
        has_message(bytes, pos),
    ensures
        has_message(bytes + more, pos),
        message_at(bytes + more, pos) == message_at(bytes, pos),
        next_position(bytes + more, pos) == next_position(bytes, pos),
{
    let all = bytes + more;
    assert(all.subrange(pos, pos + 8) =~= bytes.subrange(pos, pos + 8));
    assert(all.subrange(pos + 8, pos + 12) =~= bytes.subrange(pos + 8, pos + 12));
    assert(all.subrange(pos + 12, pos + 16) =~= bytes.subrange(pos + 12, pos + 16));
    let len = length_field(bytes, pos);
    assert(all.subrange(pos + 16, pos + len) =~= bytes.subrange(pos + 16, pos + len));
}

/// Decoding what was encoded: where the bytes of `m` stand at the end of a
/// buffer, the message `m` starts, and the next position is the buffer's end.
pub proof fn lemma_encoded_message_at(bytes: Seq<u8>, m: ControlMessage)
    requires
        message_space(m.data.len() as int) < 0x1_0000_0000_0000_0000,
    ensures
        has_message(bytes + encode_message(m), bytes.len() as int),
        message_at(bytes + encode_message(m), bytes.len() as int) == m,
        next_position(bytes + encode_message(m), bytes.len() as int) == bytes.len()
            + encode_message(m).len(),
{
    let pos = bytes.len() as int;
    let len: int = 16 + m.data.len() as int;
    lemma_u64_round_trip(len);
    lemma_i32_round_trip(m.level as int);
    lemma_i32_round_trip(m.kind as int);
    lemma_parts(
        bytes,
        u64_to_bytes(len),
        i32_to_bytes(m.level as int),
        i32_to_bytes(m.kind as int),
        m.data,
        zeros(padding(m.data.len() as int)),
    );
}

/// The parts of a message stand in a buffer where they were put.
proof fn lemma_parts(
    bytes: Seq<u8>,
    len: Seq<u8>,
    level: Seq<u8>,
    kind: Seq<u8>,
    data: Seq<u8>,
    pad: Seq<u8>,
)
    requires
        len.len() == 8,
        level.len() == 4,
        kind.len() == 4,
    ensures
        ({
            let all = bytes + (len + level + kind + data + pad);
            let pos = bytes.len() as int;
            &&& all.len() == pos + 16 + data.len() + pad.len()
            &&& all.subrange(pos, pos + 8) == len
            &&& all.subrange(pos + 8, pos + 12) == level
            &&& all.subrange(pos + 12, pos + 16) == kind
            &&& all.subrange(pos + 16, pos + 16 + data.len()) == data
        }),
{
    let all = bytes + (len + level + kind + data + pad);
    let pos = bytes.len() as int;
    assert(all.subrange(pos, pos + 8) =~= len);
    assert(all.subrange(pos + 8, pos + 12) =~= level);
    assert(all.subrange(pos + 12, pos + 16) =~= kind);
    assert(all.subrange(pos + 16, pos + 16 + data.len()) =~= data);
}

/// A buffer that holds one encoded message and nothing else is well formed
/// and decodes to that message.
pub proof fn lemma_single_message(m: ControlMessage)
    requires
        message_space(m.data.len() as int) < 0x1_0000_0000_0000_0000,
    ensures
        well_formed(encode_message(m)),
        messages(encode_message(m)) == seq![m],
{
    lemma_messages_append(Seq::empty(), 0, m);
    assert(Seq::<u8>::empty() + encode_message(m) =~= encode_message(m));
}

/// Appending an encoded message to a buffer whose walk from `pos` ends at
/// its end appends that message to the messages found, and the walk again
/// ends at the end.
pub proof fn lemma_messages_append(bytes: Seq<u8>, pos: int, m: ControlMessage)
    requires
        0 <= pos <= bytes.len(),
        ends_exactly(bytes, pos),
        message_space(m.data.len() as int) < 0x1_0000_0000_0000_0000,
    ensures
        ends_exactly(bytes + encode_message(m), pos),
        messages_from(bytes + encode_message(m), pos) == messages_from(bytes, pos).push(m),
    decreases remaining_len(bytes, pos),
{
    let e = encode_message(m);
    let all = bytes + e;
    if pos == bytes.len() {
        lemma_encoded_message_at(bytes, m);
        let end = all.len() as int;
        assert(ends_exactly(all, end));
        assert(messages_from(all, end) =~= Seq::empty());
        assert(messages_from(bytes, pos) =~= Seq::empty());
    } else {
        let next = next_position(bytes, pos);
        lemma_message_in_prefix(bytes, e, pos);
        lemma_messages_append(bytes, next, m);
    }
}

} // verus!
