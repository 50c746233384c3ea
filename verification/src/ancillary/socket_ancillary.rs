//! One buffer of ancillary data for both directions: control messages are
//! added to it before a send, and read from it after a receive.

use super::append::{
    append_creds, append_fds, credentials_message, message_end, message_fits, rights_message,
};
use super::bytes::{read_i32, splice};
use super::format::{
    encode_message, lemma_messages_append, messages, messages_from, well_formed, ControlMessage,
};
use super::layout::{CREDS_SIZE, FD_SIZE, SCM_CREDENTIALS, SCM_RIGHTS, SOL_SOCKET};
use super::payload::{fd_slots, lemma_fd_bytes_len};
use super::reader::{is_credentials, is_rights, lemma_fd_slots_skip, UnknownMessage};
use super::socket_cred::{cred_count, is_cred, lemma_creds_round_trip, read_cred, SocketCred};
use super::walk::{step_at, ControlHeader};
use vstd::prelude::*;

verus! {

/// This control message contains file descriptors.
///
/// The level is equal to `SOL_SOCKET` and the type is equal to `SCM_RIGHTS`.
pub struct ScmRights<'a> {
    data: &'a [u8],
}

/// This control message contains unix credentials.
///
/// The level is equal to `SOL_SOCKET` and the type is equal to `SCM_CREDENTIALS`.
pub struct ScmCredentials<'a> {
    data: &'a [u8],
}

/// The error type of parsing the type of a control message.
///
/// The iteration over a buffer does not give it: a message of a type that is
/// not recognized is no error, it is given out as it is.
#[non_exhaustive]
#[derive(Debug)]
pub enum AncillaryError {
    /// The ancillary data type is not recognized.
    Unknown {
        /// The cmsg_level field of the ancillary data.
        cmsg_level: i32,
        /// The cmsg_type field of the ancillary data.
        cmsg_type: i32,
    },
}

/// This enum represent one control message of variable type.
pub enum AncillaryData<'a> {
    /// Ancillary data holding file descriptors.
    ScmRights(ScmRights<'a>),
    /// Ancillary data holding unix credentials.
    ScmCredentials(ScmCredentials<'a>),
    /// Ancillary data of a level and type that are not recognized, with its
    /// bytes as they are.
    Other(UnknownMessage<'a>),
}

/// This struct is used to iterate through the control messages.
#[must_use]
pub struct Messages<'a> {
    buffer: &'a [u8],
    position: usize,
}

/// A Unix socket Ancillary data struct.
#[derive(Debug)]
pub struct SocketAncillary<'a> {
    buffer: &'a mut [u8],
    length: usize,
    truncated: bool,
}

impl<'a> ScmRights<'a> {
    /// The part of the payload that the iteration has not passed.
    pub closed spec fn view(&self) -> Seq<u8> {
        self.data@
    }

    /// The file descriptors that the iteration has not given out.
    pub open spec fn slots(&self) -> Seq<i32> {
        fd_slots(self@)
    }

    /// Gives the next file descriptor, or `None` when fewer bytes are left
    /// than one takes.
    pub fn next(&mut self) -> (r: Option<i32>)
        ensures
            r == if old(self).slots().len() > 0 {
                Some(old(self).slots()[0])
            } else {
                None
            },
            r is Some ==> final(self)@ == old(self)@.skip(4),
            r is Some ==> final(self).slots() == old(self).slots().skip(1),
            r is None ==> final(self)@ == old(self)@,
    {
        let total: usize = self.data.len();
        if FD_SIZE <= total {
            proof {
                lemma_fd_slots_skip(self@);
            }
            let fd: i32 = read_i32(self.data, 0);
            self.data = vstd::slice::slice_subrange(self.data, FD_SIZE, total);
            Some(fd)
        } else {
            None
        }
    }
}

impl<'a> ScmCredentials<'a> {
    /// The part of the payload that the iteration has not passed.
    pub closed spec fn view(&self) -> Seq<u8> {
        self.data@
    }

    /// Number of credentials that the iteration has not given out.
    pub open spec fn count(&self) -> nat {
        cred_count(self@)
    }

    /// Gives the next credentials, or `None` when fewer bytes are left than
    /// they take.
    pub fn next(&mut self) -> (r: Option<SocketCred>)
        ensures
            r is Some <==> old(self).count() > 0,
            r matches Some(cred) ==> is_cred(old(self)@.subrange(0, 12), cred),
            r is Some ==> final(self)@ == old(self)@.skip(12),
            r is None ==> final(self)@ == old(self)@,
    {
        let total: usize = self.data.len();
        if CREDS_SIZE <= total {
            let cred: SocketCred = read_cred(self.data, 0);
            self.data = vstd::slice::slice_subrange(self.data, CREDS_SIZE, total);
            Some(cred)
        } else {
            None
        }
    }
}

impl<'a> AncillaryData<'a> {
    /// The message as level, type and payload.
    pub open spec fn view(&self) -> ControlMessage {
        match self {
            AncillaryData::ScmRights(rights) => ControlMessage {
                level: SOL_SOCKET,
                kind: SCM_RIGHTS,
                data: rights@,
            },
            AncillaryData::ScmCredentials(creds) => ControlMessage {
                level: SOL_SOCKET,
                kind: SCM_CREDENTIALS,
                data: creds@,
            },
            AncillaryData::Other(other) => other@,
        }
    }

    /// Whether the variant is the one that level and type ask for: an
    /// unrecognized message is neither a rights nor a credentials message.
    pub open spec fn is_classified(&self) -> bool {
        self is Other ==> !is_rights(self@) && !is_credentials(self@)
    }

    /// Create an `AncillaryData::ScmRights` variant.
    fn as_rights(data: &'a [u8]) -> (r: Self)
        ensures
            r is ScmRights,
            r@.data == data@,
    {
        AncillaryData::ScmRights(ScmRights { data })
    }

    /// Create an `AncillaryData::ScmCredentials` variant.
    fn as_credentials(data: &'a [u8]) -> (r: Self)
        ensures
            r is ScmCredentials,
            r@.data == data@,
    {
        AncillaryData::ScmCredentials(ScmCredentials { data })
    }

    /// Makes the message for a header and its payload: by level and type one
    /// of file descriptors, of credentials, or an unrecognized one. Every
    /// header gives a message; none gives an error.
    pub fn try_from_cmsghdr(header: &ControlHeader, data: &'a [u8]) -> (r: Result<
        Self,
        AncillaryError,
    >)
        ensures
            r matches Ok(m) && m.is_classified() && m@ == (ControlMessage {
                level: header.cmsg_level,
                kind: header.cmsg_type,
                data: data@,
            }),
    {
        if header.cmsg_level == SOL_SOCKET && header.cmsg_type == SCM_RIGHTS {
            Ok(AncillaryData::as_rights(data))
        } else if header.cmsg_level == SOL_SOCKET && header.cmsg_type == SCM_CREDENTIALS {
            Ok(AncillaryData::as_credentials(data))
        } else {
            Ok(
                AncillaryData::Other(
                    UnknownMessage::new(header.cmsg_level, header.cmsg_type, data),
                ),
            )
        }
    }
}

impl<'a> Messages<'a> {
    /// The messages that the iterator has not given out yet.
    pub closed spec fn remaining(&self) -> Seq<ControlMessage> {
        messages_from(self.buffer@, self.position as int)
    }

    /// Gives the next message, or `None` at the end of the walk. Every
    /// message is given out with its level, its type and every byte of its
    /// payload, in the variant that level and type ask for; none is an
    /// error.
    pub fn next(&mut self) -> (r: Option<Result<AncillaryData<'a>, AncillaryError>>)
        ensures
            r is None <==> old(self).remaining().len() == 0,
            r is None ==> final(self).remaining() == old(self).remaining(),
            r matches Some(outcome) ==> {
                &&& outcome matches Ok(m) && m@ == old(self).remaining()[0] && m.is_classified()
                &&& final(self).remaining() == old(self).remaining().skip(1)
            },
    {
        match step_at(self.buffer, self.position) {
            None => None,
            Some(step) => {
                let data: &'a [u8] = vstd::slice::slice_subrange(
                    self.buffer,
                    step.data_start,
                    step.data_end,
                );
                self.position = step.next;
                Some(AncillaryData::try_from_cmsghdr(&step.header, data))
            },
        }
    }
}

impl<'a> SocketAncillary<'a> {
    #[verifier::type_invariant]
    spec fn inv(self) -> bool {
        self.length <= self.buffer@.len()
    }

    /// All bytes of the buffer, used or not.
    pub closed spec fn storage(&self) -> Seq<u8> {
        self.buffer@
    }

    /// The used bytes.
    pub closed spec fn view(&self) -> Seq<u8> {
        self.buffer@.subrange(0, self.length as int)
    }

    /// Whether control data was cut off when the buffer was filled.
    pub closed spec fn was_truncated(&self) -> bool {
        self.truncated
    }

    /// Create an ancillary data with the given buffer.
    pub fn new(buffer: &'a mut [u8]) -> (r: Self)
        ensures
            r.storage() == old(buffer)@,
            r@ == Seq::<u8>::empty(),
            !r.was_truncated(),
    {
        SocketAncillary { buffer, length: 0, truncated: false }
    }

    /// Create an ancillary data over a buffer that a receive call has
    /// filled. The call reported `length` bytes of control data, and with
    /// `truncated` that it had to cut some off. No more bytes are used than
    /// the buffer has.
    pub fn from_received(buffer: &'a mut [u8], length: usize, truncated: bool) -> (r: Self)
        ensures
            r.storage() == old(buffer)@,
            r@ == old(buffer)@.subrange(
                0,
                if length <= old(buffer)@.len() {
                    length as int
                } else {
                    old(buffer)@.len() as int
                },
            ),
            r.was_truncated() == truncated,
    {
        let capacity: usize = buffer.len();
        let length: usize = if length <= capacity {
            length
        } else {
            capacity
        };
        SocketAncillary { buffer, length, truncated }
    }

    /// Gives the buffer back, for a receive call to fill it.
    pub fn into_buffer(self) -> (r: &'a mut [u8])
        ensures
            r@ == self.storage(),
    {
        let SocketAncillary { buffer, length: _, truncated: _ } = self;
        buffer
    }

    /// Returns the capacity of the buffer.
    pub fn capacity(&self) -> (r: usize)
        ensures
            r == self.storage().len(),
    {
        self.buffer.len()
    }

    /// Returns `true` if the ancillary data is empty.
    pub fn is_empty(&self) -> (r: bool)
        ensures
            r <==> self@.len() == 0,
    {
        proof {
            use_type_invariant(self);
        }
        self.length == 0
    }

    /// Returns the number of used bytes. They are the front of the buffer.
    pub fn len(&self) -> (r: usize)
        ensures
            r == self@.len(),
            r <= self.storage().len(),
            self@ == self.storage().subrange(0, r as int),
    {
        proof {
            use_type_invariant(self);
        }
        self.length
    }

    /// The used bytes: what is to be sent as control data.
    pub fn as_bytes(&self) -> (r: &[u8])
        ensures
            r@ == self@,
    {
        proof {
            use_type_invariant(self);
        }
        vstd::slice::slice_subrange(self.buffer, 0, self.length)
    }

    /// Returns the iterator of the control messages.
    pub fn messages(&self) -> (r: Messages<'_>)
        ensures
            r.remaining() == messages(self@),
    {
        proof {
            use_type_invariant(self);
        }
        Messages {
            buffer: vstd::slice::slice_subrange(self.buffer, 0, self.length),
            position: 0,
        }
    }

    /// Is `true` if during a recv operation the ancillary was truncated.
    pub fn truncated(&self) -> (r: bool)
        ensures
            r == self.was_truncated(),
    {
        self.truncated
    }

    /// Add file descriptors to the ancillary data.
    ///
    /// The function returns `true` if there was enough space in the buffer.
    /// If there was not enough space then no file descriptors was appended.
    /// Technically, that means this operation adds a control message with the level `SOL_SOCKET`
    /// and type `SCM_RIGHTS`.
    pub fn add_fds(&mut self, fds: &[i32]) -> (ok: bool)
        ensures
            ok <==> message_fits(old(self)@.len(), old(self).storage().len(), 4 * fds@.len()),
            ok ==> final(self).storage() == splice(
                old(self).storage(),
                old(self)@.len() as int,
                encode_message(rights_message(fds@)),
            ),
            ok ==> final(self)@ == old(self)@ + encode_message(rights_message(fds@)),
            ok ==> !final(self).was_truncated(),
            ok && well_formed(old(self)@) ==> well_formed(final(self)@) && messages(final(self)@)
                == messages(old(self)@).push(rights_message(fds@)),
            !ok ==> final(self).storage() == old(self).storage() && final(self)@ == old(self)@
                && final(self).was_truncated() == old(self).was_truncated(),
    {
        proof {
            use_type_invariant(&*self);
        }
        let count: usize = fds.len();
        match message_end(self.length, self.buffer.len(), count, FD_SIZE) {
            None => false,
            Some(end) => {
                proof {
                    lemma_fd_bytes_len(fds@);
                    if well_formed(old(self)@) {
                        lemma_messages_append(old(self)@, 0, rights_message(fds@));
                    }
                }
                append_fds(self.buffer, self.length, end, fds, count);
                self.length = end;
                self.truncated = false;
                true
            },
        }
    }

    /// Add credentials to the ancillary data.
    ///
    /// The function returns `true` if there was enough space in the buffer.
    /// If there was not enough space then no credentials was appended.
    /// Technically, that means this operation adds a control message with the level `SOL_SOCKET`
    /// and type `SCM_CREDENTIALS`.
    pub fn add_creds(&mut self, creds: &[SocketCred]) -> (ok: bool)
        ensures
            ok <==> message_fits(old(self)@.len(), old(self).storage().len(), 12 * creds@.len()),
            ok ==> final(self).storage() == splice(
                old(self).storage(),
                old(self)@.len() as int,
                encode_message(credentials_message(creds@)),
            ),
            ok ==> final(self)@ == old(self)@ + encode_message(credentials_message(creds@)),
            ok ==> !final(self).was_truncated(),
            ok && well_formed(old(self)@) ==> well_formed(final(self)@) && messages(final(self)@)
                == messages(old(self)@).push(credentials_message(creds@)),
            !ok ==> final(self).storage() == old(self).storage() && final(self)@ == old(self)@
                && final(self).was_truncated() == old(self).was_truncated(),
    {
        proof {
            use_type_invariant(&*self);
        }
        let count: usize = creds.len();
        match message_end(self.length, self.buffer.len(), count, CREDS_SIZE) {
            None => false,
            Some(end) => {
                proof {
                    lemma_creds_round_trip(creds@);
                    if well_formed(old(self)@) {
                        lemma_messages_append(old(self)@, 0, credentials_message(creds@));
                    }
                }
                append_creds(self.buffer, self.length, end, creds, count);
                self.length = end;
                self.truncated = false;
                true
            },
        }
    }

    /// Clears the ancillary data, removing all values.
    pub fn clear(&mut self)
        ensures
            final(self).storage() == old(self).storage(),
            final(self)@ == Seq::<u8>::empty(),
            !final(self).was_truncated(),
    {
        self.length = 0;
        self.truncated = false;
    }
}

} // verus!
