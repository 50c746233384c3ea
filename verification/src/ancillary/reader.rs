//! Reading the control messages of a received buffer.

use super::bytes::read_i32;
use super::format::{messages, messages_from, ControlMessage};
use super::layout::{CREDS_SIZE, FD_SIZE, SCM_CREDENTIALS, SCM_RIGHTS, SOL_SOCKET};
use super::owned::{owned_in, IntoAncillaryMessages};
use super::payload::fd_slots;
use super::socket_cred::{cred_count, is_cred, read_cred, SocketCred};
use super::walk::{step_at, ControlHeader};
use crate::io::{control_truncated, MSG_CTRUNC};
use vstd::prelude::*;

verus! {

/// Whether a message passes file descriptors.
pub open spec fn is_rights(m: ControlMessage) -> bool {
    m.level == SOL_SOCKET && m.kind == SCM_RIGHTS
}

/// Whether a message passes credentials.
pub open spec fn is_credentials(m: ControlMessage) -> bool {
    m.level == SOL_SOCKET && m.kind == SCM_CREDENTIALS
}

/// Reader to parse received ancillary messages from a Unix socket.
#[derive(Debug)]
pub struct AncillaryMessageReader<'a> {
    buffer: &'a mut [u8],
    length: usize,
    truncated: bool,
}

/// Iterator over ancillary messages from a [`AncillaryMessageReader`].
#[derive(Copy, Clone)]
pub struct AncillaryMessages<'a> {
    buffer: &'a [u8],
    position: usize,
}

/// This enum represent one control message of variable type.
pub enum AncillaryMessage<'a> {
    /// Ancillary message holding file descriptors.
    FileDescriptors(FileDescriptors<'a>),
    /// Ancillary message holding unix credentials.
    Credentials(UnixCredentials<'a>),
    /// Ancillary message uninterpreted data.
    Other(UnknownMessage<'a>),
}

/// A control message containing borrowed file descriptors.
#[derive(Copy, Clone)]
pub struct FileDescriptors<'a> {
    /// The message data.
    data: &'a [u8],
}

/// A control message containing unix credentials for a process.
#[derive(Copy, Clone)]
pub struct UnixCredentials<'a> {
    /// The message data.
    data: &'a [u8],
}

/// An unrecognized control message.
#[derive(Copy, Clone)]
pub struct UnknownMessage<'a> {
    /// The `cmsg_level` field of the ancillary data.
    cmsg_level: i32,
    /// The `cmsg_type` field of the ancillary data.
    cmsg_type: i32,
    /// The message data.
    data: &'a [u8],
}

impl<'a> AncillaryMessageReader<'a> {
    #[verifier::type_invariant]
    spec fn inv(self) -> bool {
        self.length <= self.buffer@.len()
    }

    /// All bytes of the buffer, used or not.
    pub closed spec fn storage(&self) -> Seq<u8> {
        self.buffer@
    }

    /// The used bytes: what was received.
    pub closed spec fn view(&self) -> Seq<u8> {
        self.buffer@.subrange(0, self.length as int)
    }

    /// Whether control data was cut off when the buffer was filled.
    pub closed spec fn was_truncated(&self) -> bool {
        self.truncated
    }

    /// Create an ancillary data with the given buffer. Nothing is received
    /// yet: no byte is used.
    pub fn new(buffer: &'a mut [u8]) -> (r: Self)
        ensures
            r.storage() == old(buffer)@,
            r@ == Seq::<u8>::empty(),
            !r.was_truncated(),
    {
        Self { buffer, length: 0, truncated: false }
    }

    /// Create a reader over a buffer that a receive call has filled. The
    /// call reported `length` bytes of control data, and with `truncated`
    /// that it had to cut some off. No more bytes are used than the buffer
    /// has.
    pub fn from_received(buffer: &'a mut [u8], length: usize, truncated: bool) -> (r: Self)
        ensures
            r.storage() == old(buffer)@,
            r@ == old(buffer)@.subrange(
                0,
                if length <= old(buffer)@.len() {
                    length as int
                } else {
                    old(buffer)@.len() as int
                },
            ),
            r.was_truncated() == truncated,
    {
        let capacity: usize = buffer.len();
        let length: usize = if length <= capacity {
            length
        } else {
            capacity
        };
        Self { buffer, length, truncated }
    }

    /// Create a reader over a buffer that a receive call has filled, from
    /// what the call left in the message header: the length of the control
    /// data and the flags of the message. The data was truncated if the
    /// flags say so.
    pub fn from_recvmsg(buffer: &'a mut [u8], control_len: usize, msg_flags: i32) -> (r: Self)
        ensures
            r.storage() == old(buffer)@,
            r@ == old(buffer)@.subrange(
                0,
                if control_len <= old(buffer)@.len() {
                    control_len as int
                } else {
                    old(buffer)@.len() as int
                },
            ),
            r.was_truncated() == (msg_flags & MSG_CTRUNC != 0),
    {
        let truncated: bool = control_truncated(msg_flags);
        Self::from_received(buffer, control_len, truncated)
    }

    /// Returns the capacity of the buffer.
    pub fn capacity(&self) -> (r: usize)
        ensures
            r == self.storage().len(),
    {
        self.buffer.len()
    }

    /// Returns `true` if the ancillary data is empty.
    pub fn is_empty(&self) -> (r: bool)
        ensures
            r <==> self@.len() == 0,
    {
        proof {
            use_type_invariant(self);
        }
        self.length == 0
    }

    /// Returns the number of used bytes. They are the front of the buffer.
    pub fn len(&self) -> (r: usize)
        ensures
            r == self@.len(),
            r <= self.storage().len(),
            self@ == self.storage().subrange(0, r as int),
    {
        proof {
            use_type_invariant(self);
        }
        self.length
    }

    /// Is `true` if during a recv operation the ancillary message was truncated.
    pub fn is_truncated(&self) -> (r: bool)
        ensures
            r == self.was_truncated(),
    {
        self.truncated
    }

    /// Returns the iterator of the control messages. Each call starts a new
    /// walk at the first byte.
    pub fn messages(&self) -> (r: AncillaryMessages<'_>)
        ensures
            r.remaining() == messages(self@),
    {
        proof {
            use_type_invariant(self);
        }
        AncillaryMessages {
            buffer: vstd::slice::slice_subrange(self.buffer, 0, self.length),
            position: 0,
        }
    }

    /// Consume the ancillary message to take ownership of the file descriptors.
    pub fn into_messages(self) -> (r: IntoAncillaryMessages<'a>)
        ensures
            r.remaining() == messages(self@),
    {
        proof {
            use_type_invariant(&self);
        }
        let AncillaryMessageReader { buffer, length, truncated: _ } = self;
        let (used, _rest) = buffer.split_at_mut(length);
        IntoAncillaryMessages::new(used)
    }

    /// Discards the reader and gives every file descriptor that nobody has
    /// taken out of it: they have to be closed.
    pub fn discard(self) -> (r: Vec<i32>)
        ensures
            r@ == owned_in(messages(self@)),
    {
        let mut messages = self.into_messages();
        messages.discard()
    }
}

impl<'a> AncillaryMessages<'a> {
    /// The messages that the iterator has not given out yet.
    pub closed spec fn remaining(&self) -> Seq<ControlMessage> {
        messages_from(self.buffer@, self.position as int)
    }

    /// Gives the next message, or `None` at the end of the walk.
    pub fn next(&mut self) -> (r: Option<AncillaryMessage<'a>>)
        ensures
            r is None <==> old(self).remaining().len() == 0,
            r is None ==> final(self).remaining() == old(self).remaining(),
            r matches Some(m) ==> {
                &&& m@ == old(self).remaining()[0]
                &&& m.is_classified()
                &&& final(self).remaining() == old(self).remaining().skip(1)
            },
    {
        match step_at(self.buffer, self.position) {
            None => None,
            Some(step) => {
                let data: &'a [u8] = vstd::slice::slice_subrange(
                    self.buffer,
                    step.data_start,
                    step.data_end,
                );
                self.position = step.next;
                Some(AncillaryMessage::try_from_cmsghdr(&step.header, data))
            },
        }
    }
}

impl<'a> AncillaryMessage<'a> {
    /// The message as level, type and payload.
    pub open spec fn view(&self) -> ControlMessage {
        match self {
            AncillaryMessage::FileDescriptors(fds) => ControlMessage {
                level: SOL_SOCKET,
                kind: SCM_RIGHTS,
                data: fds@,
            },
            AncillaryMessage::Credentials(creds) => ControlMessage {
                level: SOL_SOCKET,
                kind: SCM_CREDENTIALS,
                data: creds@,
            },
            AncillaryMessage::Other(other) => other@,
        }
    }

    /// Whether the variant is the one that level and type ask for: an
    /// unrecognized message is neither a rights nor a credentials message.
    pub open spec fn is_classified(&self) -> bool {
        self is Other ==> !is_rights(self@) && !is_credentials(self@)
    }

    /// Makes the message for a header and its payload: by level and type one
    /// of file descriptors, of credentials, or an unrecognized one.
    pub fn try_from_cmsghdr(header: &ControlHeader, data: &'a [u8]) -> (r: Self)
        ensures
            r@ == (ControlMessage {
                level: header.cmsg_level,
                kind: header.cmsg_type,
                data: data@,
            }),
            r.is_classified(),
    {
        if header.cmsg_level == SOL_SOCKET && header.cmsg_type == SCM_RIGHTS {
            Self::FileDescriptors(FileDescriptors::new(data))
        } else if header.cmsg_level == SOL_SOCKET && header.cmsg_type == SCM_CREDENTIALS {
            Self::Credentials(UnixCredentials::new(data))
        } else {
            Self::Other(UnknownMessage::new(header.cmsg_level, header.cmsg_type, data))
        }
    }
}

/// Leaving out the first slot of a payload leaves out its first file
/// descriptor.
pub proof fn lemma_fd_slots_skip(data: Seq<u8>)
    requires
        data.len() >= 4,
    ensures
        fd_slots(data.skip(4)) == fd_slots(data).skip(1),
{
    let rest = data.skip(4);
    assert forall|i: int| 0 <= i < fd_slots(rest).len() implies fd_slots(rest)[i] == fd_slots(
        data,
    ).skip(1)[i] by {
        assert(rest.subrange(4 * i, 4 * i + 4) =~= data.subrange(4 * (i + 1), 4 * (i + 1) + 4));
    }
}

impl<'a> FileDescriptors<'a> {
    /// The payload of the message.
    pub closed spec fn view(&self) -> Seq<u8> {
        self.data@
    }

    /// The rights message with the payload `data`.
    pub fn new(data: &'a [u8]) -> (r: Self)
        ensures
            r@ == data@,
    {
        FileDescriptors { data }
    }

    /// The file descriptors in the message.
    pub open spec fn slots(&self) -> Seq<i32> {
        fd_slots(self@)
    }

    /// Get the number of file descriptors in the message.
    pub fn len(&self) -> (r: usize)
        ensures
            r == self.slots().len(),
    {
        self.data.len() / FD_SIZE
    }

    /// Check if the message is empty (contains no file descriptors).
    pub fn is_empty(&self) -> (r: bool)
        ensures
            r <==> self.slots().len() == 0,
    {
        self.len() == 0
    }

    /// Get a borrowed file descriptor from the message.
    ///
    /// Returns `None` if the index is out of bounds.
    pub fn get(&self, index: usize) -> (r: Option<i32>)
        ensures
            r == if index < self.slots().len() {
                Some(self.slots()[index as int])
            } else {
                None
            },
    {
        proof {
            vstd::slice::axiom_spec_len(self.data);
        }
        if index >= self.len() {
            None
        } else {
            Some(read_i32(self.data, index * FD_SIZE))
        }
    }

    /// Get the file descriptor at `index` if it is one that can be lent.
    ///
    /// Returns `None` if the index is out of bounds, and if the slot holds a
    /// negative number: no open file descriptor is negative, and the slot of
    /// one that was taken holds -1.
    pub fn get_open(&self, index: usize) -> (r: Option<i32>)
        ensures
            r == if index < self.slots().len() && self.slots()[index as int] >= 0 {
                Some(self.slots()[index as int])
            } else {
                None
            },
    {
        match self.get(index) {
            Some(fd) => if fd >= 0 {
                Some(fd)
            } else {
                None
            },
            None => None,
        }
    }

    /// The bounds on the number of file descriptors that `next` will give:
    /// it gives exactly as many as the message holds.
    pub fn size_hint(&self) -> (r: (usize, Option<usize>))
        ensures
            r.0 == self.slots().len(),
            r.1 == Some(r.0),
    {
        (self.len(), Some(self.len()))
    }

    /// Gives the first file descriptor and leaves it out of the message, or
    /// gives `None` if the message holds none.
    pub fn next(&mut self) -> (r: Option<i32>)
        ensures
            r == if old(self).slots().len() > 0 {
                Some(old(self).slots()[0])
            } else {
                None
            },
            r is Some ==> final(self)@ == old(self)@.skip(4),
            r is Some ==> final(self).slots() == old(self).slots().skip(1),
            r is None ==> final(self)@ == old(self)@,
    {
        match self.get(0) {
            None => None,
            Some(fd) => {
                proof {
                    lemma_fd_slots_skip(self@);
                }
                self.data = vstd::slice::slice_subrange(self.data, FD_SIZE, self.data.len());
                Some(fd)
            },
        }
    }
}

impl<'a> UnixCredentials<'a> {
    /// The payload of the message.
    pub closed spec fn view(&self) -> Seq<u8> {
        self.data@
    }

    /// The credentials message with the payload `data`.
    pub fn new(data: &'a [u8]) -> (r: Self)
        ensures
            r@ == data@,
    {
        UnixCredentials { data }
    }

    /// Number of credentials in the message.
    pub open spec fn count(&self) -> nat {
        cred_count(self@)
    }

    /// The bytes of the credentials at `index`.
    pub open spec fn record(&self, index: int) -> Seq<u8> {
        self@.subrange(12 * index, 12 * index + 12)
    }

    /// Get the number of credentials in the message.
    pub fn len(&self) -> (r: usize)
        ensures
            r == self.count(),
    {
        self.data.len() / CREDS_SIZE
    }

    /// Check if the message is empty (contains no credentials).
    pub fn is_empty(&self) -> (r: bool)
        ensures
            r <==> self.count() == 0,
    {
        self.len() == 0
    }

    /// Get the credentials at a specific index.
    pub fn get(&self, index: usize) -> (r: Option<SocketCred>)
        ensures
            r is Some <==> index < self.count(),
            r matches Some(cred) ==> is_cred(self.record(index as int), cred),
    {
        proof {
            vstd::slice::axiom_spec_len(self.data);
        }
        if index >= self.len() {
            None
        } else {
            Some(read_cred(self.data, index * CREDS_SIZE))
        }
    }

    /// The bounds on the number of credentials that `next` will give: it
    /// gives exactly as many as the message holds.
    pub fn size_hint(&self) -> (r: (usize, Option<usize>))
        ensures
            r.0 == self.count(),
            r.1 == Some(r.0),
    {
        (self.len(), Some(self.len()))
    }

    /// Gives the first credentials and leaves them out of the message, or
    /// gives `None` if the message holds none.
    pub fn next(&mut self) -> (r: Option<SocketCred>)
        ensures
            r is Some <==> old(self).count() > 0,
            r matches Some(cred) ==> is_cred(old(self).record(0), cred),
            r is Some ==> final(self)@ == old(self)@.skip(12),
            r is None ==> final(self)@ == old(self)@,
    {
        match self.get(0) {
            None => None,
            Some(cred) => {
                self.data = vstd::slice::slice_subrange(self.data, CREDS_SIZE, self.data.len());
                Some(cred)
            },
        }
    }
}

impl<'a> UnknownMessage<'a> {
    /// The message as level, type and payload.
    pub closed spec fn view(&self) -> ControlMessage {
        ControlMessage { level: self.cmsg_level, kind: self.cmsg_type, data: self.data@ }
    }

    /// The message with the given level, type and payload.
    pub fn new(cmsg_level: i32, cmsg_type: i32, data: &'a [u8]) -> (r: Self)
        ensures
            r@ == (ControlMessage { level: cmsg_level, kind: cmsg_type, data: data@ }),
    {
        UnknownMessage { cmsg_level, cmsg_type, data }
    }

    /// Get the cmsg_level of the message.
    pub fn cmsg_level(&self) -> (r: i32)
        ensures
            r == self@.level,
    {
        self.cmsg_level
    }

    /// Get the cmsg_type of the message.
    pub fn cmsg_type(&self) -> (r: i32)
        ensures
            r == self@.kind,
    {
        self.cmsg_type
    }

    /// Get the data of the message.
    pub fn data(&self) -> (r: &'a [u8])
        ensures
            r@ == self@.data,
    {
        self.data
    }
}

} // verus!
