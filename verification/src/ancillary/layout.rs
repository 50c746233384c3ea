//! Sizes, alignment and identifiers of the control message layout.

use vstd::prelude::*;

verus! {

/// Size of a control message header: a 64-bit length and two 32-bit tags.
pub const HEADER_SIZE: usize = 16;

/// Every control message starts on a multiple of this many bytes.
pub const ALIGNMENT: usize = 8;

/// Size of one file descriptor slot in a rights message.
pub const FD_SIZE: usize = 4;

/// Size of one credentials record: process, user and group identifier.
pub const CREDS_SIZE: usize = 12;

/// Level of control messages that belong to the socket layer.
pub const SOL_SOCKET: i32 = 1;

/// Type of a socket level message that carries file descriptors.
pub const SCM_RIGHTS: i32 = 1;

/// Type of a socket level message that carries process credentials.
pub const SCM_CREDENTIALS: i32 = 2;

/// The smallest multiple of [`ALIGNMENT`] that is not below `len`.
pub open spec fn align_up(len: int) -> int {
    if len % 8 == 0 {
        len
    } else {
        len + 8 - len % 8
    }
}

/// Number of zero bytes that follow a payload of `len` bytes.
pub open spec fn padding(len: int) -> int {
    align_up(len) - len
}

/// Number of buffer bytes that a message with `len` payload bytes occupies.
pub open spec fn message_space(len: int) -> int {
    16 + align_up(len)
}

/// Rounds `len` up to the alignment, or reports that the result does not fit.
pub fn checked_align_up(len: usize) -> (r: Option<usize>)
    ensures
        r is Some <==> align_up(len as int) <= usize::MAX,
        r matches Some(a) ==> a == align_up(len as int),
{
    let rest: usize = len % ALIGNMENT;
    if rest == 0 {
        Some(len)
    } else {
        len.checked_add(ALIGNMENT - rest)
    }
}

/// Space of a message with `len` payload bytes, or `None` if it does not fit
/// in a `usize`.
pub fn checked_message_space(len: usize) -> (r: Option<usize>)
    ensures
        r is Some <==> message_space(len as int) <= usize::MAX,
        r matches Some(s) ==> s == message_space(len as int),
{
    match checked_align_up(len) {
        Some(aligned) => aligned.checked_add(HEADER_SIZE),
        None => None,
    }
}

} // verus!
