//! Walking a buffer of control messages, header by header.

use super::bytes::{read_i32, read_u64};
use super::format::{
    has_message, length_field, message_at, messages_from, next_position, remaining_len,
};
use super::layout::{checked_align_up, HEADER_SIZE};
use vstd::prelude::*;

verus! {

/// The header of a control message.
#[derive(Debug, Clone, Copy)]
pub struct ControlHeader {
    /// Number of bytes of header and payload together.
    pub cmsg_len: usize,
    /// The level that the message belongs to.
    pub cmsg_level: i32,
    /// The type of the message within its level.
    pub cmsg_type: i32,
}

/// One step of a walk: the header of the message found, the place of its
/// payload, and the position at which the walk goes on.
#[derive(Debug, Clone, Copy)]
pub struct Step {
    pub header: ControlHeader,
    pub data_start: usize,
    pub data_end: usize,
    pub next: usize,
}

/// Reads the header of the message that starts at `pos`. Gives `None` where
/// no whole message starts: the header does not fit, its length field is
/// smaller than a header, or it reaches beyond the end of the buffer.
pub fn header_at(bytes: &[u8], pos: usize) -> (r: Option<ControlHeader>)
    ensures
        r is Some <==> has_message(bytes@, pos as int),
        r matches Some(h) ==> {
            &&& h.cmsg_len == length_field(bytes@, pos as int)
            &&& h.cmsg_level == message_at(bytes@, pos as int).level
            &&& h.cmsg_type == message_at(bytes@, pos as int).kind
        },
{
    let total: usize = bytes.len();
    if pos > total || total - pos < HEADER_SIZE {
        return None;
    }
    let len: u64 = read_u64(bytes, pos);
    if len < HEADER_SIZE as u64 || len > (total - pos) as u64 {
        return None;
    }
    let level: i32 = read_i32(bytes, pos + 8);
    let kind: i32 = read_i32(bytes, pos + 12);
    Some(ControlHeader { cmsg_len: len as usize, cmsg_level: level, cmsg_type: kind })
}

/// Finds the message that starts at `pos` and the position behind it. The
/// walk goes on at the padded length behind `pos`, or at the end of the
/// buffer where the padding is cut off.
pub fn step_at(bytes: &[u8], pos: usize) -> (r: Option<Step>)
    ensures
        r is Some <==> has_message(bytes@, pos as int),
        r matches Some(s) ==> {
            &&& s.header.cmsg_level == message_at(bytes@, pos as int).level
            &&& s.header.cmsg_type == message_at(bytes@, pos as int).kind
            &&& s.header.cmsg_len == length_field(bytes@, pos as int)
            &&& s.data_start == pos + 16
            &&& s.data_end == pos + s.header.cmsg_len
            &&& s.data_end <= bytes@.len()
            &&& bytes@.subrange(s.data_start as int, s.data_end as int) == message_at(
                bytes@,
                pos as int,
            ).data
            &&& pos < s.next <= bytes@.len()
            &&& s.next == if next_position(bytes@, pos as int) <= bytes@.len() {
                next_position(bytes@, pos as int)
            } else {
                bytes@.len() as int
            }
            &&& messages_from(bytes@, s.next as int) == messages_from(
                bytes@,
                next_position(bytes@, pos as int),
            )
        },
{
    let total: usize = bytes.len();
    match header_at(bytes, pos) {
        None => None,
        Some(header) => {
            let left: usize = total - pos;
            let next: usize = match checked_align_up(header.cmsg_len) {
                Some(padded) => if padded <= left {
                    pos + padded
                } else {
                    total
                },
                None => total,
            };
            proof {
                let beyond = next_position(bytes@, pos as int);
                if beyond > total {
                    assert(!has_message(bytes@, beyond));
                    assert(!has_message(bytes@, total as int));
                }
            }
            Some(
                Step {
                    header,
                    data_start: pos + HEADER_SIZE,
                    data_end: pos + header.cmsg_len,
                    next,
                },
            )
        },
    }
}

/// A walk can be taken up in the middle: the messages from `pos` on are the
/// messages of the buffer without its first `pos` bytes.
pub proof fn lemma_messages_shift(bytes: Seq<u8>, pos: int)
    requires
        0 <= pos <= bytes.len(),
    ensures
        messages_from(bytes, pos) == messages_from(bytes.subrange(pos, bytes.len() as int), 0),
{
    lemma_shift_from(bytes, pos, 0);
}

/// The walk of a buffer from `pos + at` finds what the walk from `at` finds
/// in the buffer without its first `pos` bytes.
pub proof fn lemma_shift_from(bytes: Seq<u8>, pos: int, at: int)
    requires
        0 <= pos <= bytes.len(),
        0 <= at,
    ensures
        messages_from(bytes, pos + at) == messages_from(
            bytes.subrange(pos, bytes.len() as int),
            at,
        ),
    decreases remaining_len(bytes, pos + at),
{
    let tail = bytes.subrange(pos, bytes.len() as int);
    if pos + at + 16 <= bytes.len() {
        assert(tail.subrange(at, at + 8) =~= bytes.subrange(pos + at, pos + at + 8));
        assert(tail.subrange(at + 8, at + 12) =~= bytes.subrange(pos + at + 8, pos + at + 12));
        assert(tail.subrange(at + 12, at + 16) =~= bytes.subrange(pos + at + 12, pos + at + 16));
        if has_message(bytes, pos + at) {
            let len = length_field(bytes, pos + at);
            assert(tail.subrange(at + 16, at + len) =~= bytes.subrange(
                pos + at + 16,
                pos + at + len,
            ));
            let step = next_position(tail, at) - at;
            lemma_shift_from(bytes, pos, at + step);
        }
    }
}

} // verus!
