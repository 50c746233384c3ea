//! Appending one control message to the used part of a buffer.

use super::bytes::{
    i32_to_bytes, lemma_to_bytes_len, splice, u64_to_bytes, write_i32, write_u64,
};
use super::format::{encode_message, lemma_encode_len, zeros, ControlMessage};
use super::layout::{
    checked_message_space, message_space, padding, CREDS_SIZE, FD_SIZE, HEADER_SIZE,
    SCM_CREDENTIALS, SCM_RIGHTS, SOL_SOCKET,
};
use super::payload::{fd_bytes, lemma_fd_bytes_len, write_fds};
use super::socket_cred::{creds_bytes, lemma_creds_round_trip, write_creds, SocketCred};
use vstd::prelude::*;

verus! {

/// The message that passes the file descriptors `fds`.
pub open spec fn rights_message(fds: Seq<i32>) -> ControlMessage {
    ControlMessage { level: SOL_SOCKET, kind: SCM_RIGHTS, data: fd_bytes(fds) }
}

/// The message that passes the credentials `creds`.
pub open spec fn credentials_message(creds: Seq<SocketCred>) -> ControlMessage {
    ControlMessage { level: SOL_SOCKET, kind: SCM_CREDENTIALS, data: creds_bytes(creds) }
}

/// Whether a message with `payload_len` bytes of payload can be added to a
/// buffer of `capacity` bytes of which `used` are taken: the payload's size
/// fits in 32 bits, and the padded message fits in what is left.
pub open spec fn message_fits(used: nat, capacity: nat, payload_len: nat) -> bool {
    &&& payload_len <= u32::MAX
    &&& used + message_space(payload_len as int) <= capacity
}

/// Where a message with `count` items of `item_size` bytes ends when it is
/// added behind `length` used bytes, or `None` if it does not fit.
pub(crate) fn message_end(
    length: usize,
    capacity: usize,
    count: usize,
    item_size: usize,
) -> (r: Option<usize>)
    requires
        0 < item_size <= 16,
    ensures
        r is Some <==> message_fits(length as nat, capacity as nat, (count * item_size) as nat),
        r matches Some(end) ==> end == length + message_space(count * item_size),
{
    if count > 0xffff_ffff {
        assert(count * item_size > u32::MAX) by (nonlinear_arith)
            requires
                count > 0xffff_ffff,
                item_size >= 1,
        ;
        return None;
    }
    assert(count * item_size <= 0xffff_ffff * 16) by (nonlinear_arith)
        requires
            count <= 0xffff_ffff,
            item_size <= 16,
    ;
    let payload_len: u64 = (count as u64) * (item_size as u64);
    if payload_len > 0xffff_ffff || payload_len > usize::MAX as u64 {
        return None;
    }
    match checked_message_space(payload_len as usize) {
        None => None,
        Some(space) => match length.checked_add(space) {
            None => None,
            Some(end) => if end > capacity {
                None
            } else {
                Some(end)
            },
        },
    }
}

/// Writes the frame of one message into `buffer`: from `length` to `end`
/// first zero bytes, then at `length` the header with the given level and
/// type and the length of a payload of `payload_len` bytes. The payload is
/// left zero.
pub(crate) fn add_to_ancillary_data(
    buffer: &mut [u8],
    length: usize,
    end: usize,
    payload_len: usize,
    level: i32,
    kind: i32,
)
    requires
        end == length + message_space(payload_len as int),
        end <= old(buffer)@.len(),
    ensures
        final(buffer)@ == splice(
            old(buffer)@,
            length as int,
            encode_message(ControlMessage { level, kind, data: zeros(payload_len as int) }),
        ),
    no_unwind
{
    let mut i: usize = length;
    while i < end
        invariant
            length <= i <= end,
            end <= old(buffer)@.len(),
            buffer@ == splice(old(buffer)@, length as int, zeros(i - length)),
        decreases end - i,
    {
        buffer[i] = 0;
        i = i + 1;
    }
    write_u64(buffer, length, (HEADER_SIZE + payload_len) as u64);
    write_i32(buffer, length + 8, level);
    write_i32(buffer, length + 12, kind);
    proof {
        lemma_to_bytes_len(16 + payload_len);
        lemma_to_bytes_len(level as int);
        lemma_to_bytes_len(kind as int);
        lemma_frame(
            old(buffer)@,
            length as int,
            end - length,
            u64_to_bytes(16 + payload_len),
            i32_to_bytes(level as int),
            i32_to_bytes(kind as int),
            payload_len as int,
        );
    }
}

/// Writing the three fields of a header over zero bytes gives a header
/// followed by zero bytes: by the payload left zero, and by the padding.
proof fn lemma_frame(
    storage: Seq<u8>,
    at: int,
    space: int,
    len: Seq<u8>,
    level: Seq<u8>,
    kind: Seq<u8>,
    payload_len: int,
)
    requires
        0 <= at,
        0 <= payload_len,
        space == message_space(payload_len),
        at + space <= storage.len(),
        len.len() == 8,
        level.len() == 4,
        kind.len() == 4,
    ensures
        splice(
            splice(splice(splice(storage, at, zeros(space)), at, len), at + 8, level),
            at + 12,
            kind,
        ) == splice(
            storage,
            at,
            len + level + kind + zeros(payload_len) + zeros(padding(payload_len)),
        ),
{
    let written = splice(
        splice(splice(splice(storage, at, zeros(space)), at, len), at + 8, level),
        at + 12,
        kind,
    );
    let framed = splice(
        storage,
        at,
        len + level + kind + zeros(payload_len) + zeros(padding(payload_len)),
    );
    assert(written.len() == framed.len());
    assert(written =~= framed);
}

/// Putting a payload where the frame of a message left zero bytes gives the
/// bytes of the message with that payload.
proof fn lemma_fill_payload(storage: Seq<u8>, at: int, level: i32, kind: i32, data: Seq<u8>)
    requires
        0 <= at,
        at + message_space(data.len() as int) <= storage.len(),
    ensures
        ({
            let frame = ControlMessage { level, kind, data: zeros(data.len() as int) };
            let m = ControlMessage { level, kind, data };
            let filled = splice(splice(storage, at, encode_message(frame)), at + 16, data);
            &&& filled == splice(storage, at, encode_message(m))
            &&& filled.subrange(0, at) == storage.subrange(0, at)
            &&& filled.subrange(0, at + message_space(data.len() as int)) == storage.subrange(0, at)
                + encode_message(m)
        }),
{
    let frame = ControlMessage { level, kind, data: zeros(data.len() as int) };
    let m = ControlMessage { level, kind, data };
    let filled = splice(splice(storage, at, encode_message(frame)), at + 16, data);
    lemma_to_bytes_len(16 + data.len() as int);
    lemma_to_bytes_len(level as int);
    lemma_to_bytes_len(kind as int);
    lemma_encode_len(frame);
    lemma_encode_len(m);
    assert(filled =~= splice(storage, at, encode_message(m)));
    assert(filled.subrange(0, at) =~= storage.subrange(0, at));
    assert(filled.subrange(0, at + message_space(data.len() as int)) =~= storage.subrange(0, at)
        + encode_message(m));
}

/// Writes the message that passes `fds` into `buffer`, from `length` to `end`.
pub(crate) fn append_fds(buffer: &mut [u8], length: usize, end: usize, fds: &[i32], count: usize)
    requires
        count == fds@.len(),
        end == length + message_space(4 * fds@.len() as int),
        end <= old(buffer)@.len(),
    ensures
        final(buffer)@ == splice(
            old(buffer)@,
            length as int,
            encode_message(rights_message(fds@)),
        ),
        final(buffer)@.subrange(0, length as int) == old(buffer)@.subrange(0, length as int),
        final(buffer)@.subrange(0, end as int) == old(buffer)@.subrange(0, length as int)
            + encode_message(rights_message(fds@)),
    no_unwind
{
    proof {
        lemma_fd_bytes_len(fds@);
        lemma_fill_payload(old(buffer)@, length as int, SOL_SOCKET, SCM_RIGHTS, fd_bytes(fds@));
    }
    add_to_ancillary_data(buffer, length, end, FD_SIZE * count, SOL_SOCKET, SCM_RIGHTS);
    write_fds(buffer, length + HEADER_SIZE, fds, count);
}

/// Writes the message that passes `creds` into `buffer`, from `length` to
/// `end`.
pub(crate) fn append_creds(
    buffer: &mut [u8],
    length: usize,
    end: usize,
    creds: &[SocketCred],
    count: usize,
)
    requires
        count == creds@.len(),
        end == length + message_space(12 * creds@.len() as int),
        end <= old(buffer)@.len(),
    ensures
        final(buffer)@ == splice(
            old(buffer)@,
            length as int,
            encode_message(credentials_message(creds@)),
        ),
        final(buffer)@.subrange(0, length as int) == old(buffer)@.subrange(0, length as int),
        final(buffer)@.subrange(0, end as int) == old(buffer)@.subrange(0, length as int)
            + encode_message(credentials_message(creds@)),
    no_unwind
{
    proof {
        lemma_creds_round_trip(creds@);
        lemma_fill_payload(
            old(buffer)@,
            length as int,
            SOL_SOCKET,
            SCM_CREDENTIALS,
            creds_bytes(creds@),
        );
    }
    add_to_ancillary_data(buffer, length, end, CREDS_SIZE * count, SOL_SOCKET, SCM_CREDENTIALS);
    write_creds(buffer, length + HEADER_SIZE, creds, count);
}

} // verus!
