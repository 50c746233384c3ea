//! Writing control messages into a buffer that the caller lends.

use super::append::{
    append_creds, append_fds, credentials_message, message_end, message_fits, rights_message,
};
use super::bytes::splice;
use super::format::{
    encode_message, lemma_messages_append, messages, well_formed, ControlMessage,
};
use super::layout::{CREDS_SIZE, FD_SIZE};
use super::payload::lemma_fd_bytes_len;
use super::socket_cred::{lemma_creds_round_trip, SocketCred};
use vstd::prelude::*;

verus! {

/// Error of adding a control message: the buffer has no room for it.
#[derive(Debug, Clone, Copy)]
pub struct AddControlMessageError(());

/// Writer of ancillary messages for a Unix socket.
///
/// The writer fills a buffer of fixed size from the front. It never holds
/// anything but whole messages. Beside the buffer it keeps the file
/// descriptors that were handed over to it: they are to be closed once the
/// messages are sent.
#[derive(Debug)]
pub struct AncillaryMessageWriter<'a> {
    buffer: &'a mut [u8],
    length: usize,
    owned: Vec<i32>,
}

impl<'a> AncillaryMessageWriter<'a> {
    #[verifier::type_invariant]
    spec fn inv(self) -> bool {
        &&& self.length <= self.buffer@.len()
        &&& well_formed(self.buffer@.subrange(0, self.length as int))
    }

    /// All bytes of the buffer, used or not.
    pub closed spec fn storage(&self) -> Seq<u8> {
        self.buffer@
    }

    /// The used bytes.
    pub closed spec fn view(&self) -> Seq<u8> {
        self.buffer@.subrange(0, self.length as int)
    }

    /// The messages written so far.
    pub open spec fn messages(&self) -> Seq<ControlMessage> {
        messages(self@)
    }

    /// The file descriptors that were handed over to the writer and not
    /// taken out of it again, in the order in which they were added.
    pub closed spec fn owned(&self) -> Seq<i32> {
        self.owned@
    }

    /// Create an ancillary message writer with the given buffer.
    pub fn new(buffer: &'a mut [u8]) -> (r: Self)
        ensures
            r.storage() == old(buffer)@,
            r@ == Seq::<u8>::empty(),
            r.owned() == Seq::<i32>::empty(),
    {
        AncillaryMessageWriter { buffer, length: 0, owned: Vec::new() }
    }

    /// Returns the capacity of the buffer.
    pub fn capacity(&self) -> (r: usize)
        ensures
            r == self.storage().len(),
    {
        self.buffer.len()
    }

    /// Returns `true` if the ancillary data is empty.
    pub fn is_empty(&self) -> (r: bool)
        ensures
            r <==> self@.len() == 0,
    {
        proof {
            use_type_invariant(self);
        }
        self.length == 0
    }

    /// Returns the number of used bytes. They are the front of the buffer,
    /// and they are whole messages.
    pub fn len(&self) -> (r: usize)
        ensures
            r == self@.len(),
            r <= self.storage().len(),
            self@ == self.storage().subrange(0, r as int),
            well_formed(self@),
    {
        proof {
            use_type_invariant(self);
        }
        self.length
    }

    /// The used bytes: what is to be sent as control data.
    pub fn as_bytes(&self) -> (r: &[u8])
        ensures
            r@ == self@,
    {
        proof {
            use_type_invariant(self);
        }
        vstd::slice::slice_subrange(self.buffer, 0, self.length)
    }

    /// Add file descriptors to the ancillary data.
    ///
    /// One control message with the level `SOL_SOCKET` and the type
    /// `SCM_RIGHTS` is added behind the used bytes. If there is not enough
    /// space for it, nothing is written. The file descriptors are lent: the
    /// writer does not own them.
    pub fn add_fds(&mut self, fds: &[i32]) -> (r: Result<(), AddControlMessageError>)
        ensures
            final(self).owned() == old(self).owned(),
            r is Ok <==> message_fits(
                old(self)@.len(),
                old(self).storage().len(),
                4 * fds@.len(),
            ),
            r is Ok ==> final(self).storage() == splice(
                old(self).storage(),
                old(self)@.len() as int,
                encode_message(rights_message(fds@)),
            ),
            r is Ok ==> final(self)@ == old(self)@ + encode_message(rights_message(fds@)),
            r is Ok ==> final(self).messages() == old(self).messages().push(rights_message(fds@)),
            r is Err ==> final(self).storage() == old(self).storage() && final(self)@ == old(
                self,
            )@,
    {
        proof {
            use_type_invariant(&*self);
        }
        let count: usize = fds.len();
        match message_end(self.length, self.buffer.len(), count, FD_SIZE) {
            None => Err(AddControlMessageError(())),
            Some(end) => {
                proof {
                    lemma_fd_bytes_len(fds@);
                    lemma_messages_append(old(self)@, 0, rights_message(fds@));
                }
                append_fds(self.buffer, self.length, end, fds, count);
                self.length = end;
                Ok(())
            },
        }
    }

    /// Add file descriptors to the ancillary data and hand them over to the
    /// writer.
    ///
    /// The message is the one that [`Self::add_fds`] adds. If it is added,
    /// the writer owns the file descriptors from then on: the receiver gets
    /// copies of them with the message, so they are to be closed on this
    /// side once the message is sent. [`Self::take_owned`] gives them out
    /// for that. If there is not enough space, nothing is written and
    /// nothing is handed over.
    pub fn add_owned_fds(&mut self, fds: &[i32]) -> (r: Result<(), AddControlMessageError>)
        ensures
            r is Ok <==> message_fits(
                old(self)@.len(),
                old(self).storage().len(),
                4 * fds@.len(),
            ),
            r is Ok ==> final(self).storage() == splice(
                old(self).storage(),
                old(self)@.len() as int,
                encode_message(rights_message(fds@)),
            ),
            r is Ok ==> final(self)@ == old(self)@ + encode_message(rights_message(fds@)),
            r is Ok ==> final(self).messages() == old(self).messages().push(rights_message(fds@)),
            r is Ok ==> final(self).owned() == old(self).owned() + fds@,
            r is Err ==> final(self).storage() == old(self).storage() && final(self)@ == old(
                self,
            )@ && final(self).owned() == old(self).owned(),
    {
        match self.add_fds(fds) {
            Err(error) => Err(error),
            Ok(()) => {
                proof {
                    use_type_invariant(&*self);
                }
                let ghost written = self@;
                let ghost storage = self.storage();
                let mut list: Vec<i32> = Vec::new();
                core::mem::swap(&mut self.owned, &mut list);
                let count: usize = fds.len();
                let mut i: usize = 0;
                while i < count
                    invariant
                        i <= count,
                        count == fds@.len(),
                        list@ == old(self).owned() + fds@.take(i as int),
                    decreases count - i,
                {
                    list.push(fds[i]);
                    i = i + 1;
                    assert(fds@.take(i as int) =~= fds@.take(i - 1).push(fds@[i - 1]));
                }
                assert(fds@.take(count as int) =~= fds@);
                self.owned = list;
                assert(self@ == written && self.storage() == storage);
                Ok(())
            },
        }
    }

    /// Gives out the file descriptors that the writer owns, for the caller
    /// to close: after a send that succeeded, or when the writer is not
    /// needed any more. Afterwards the writer owns none. The buffer stays as
    /// it is.
    pub fn take_owned(&mut self) -> (r: Vec<i32>)
        ensures
            r@ == old(self).owned(),
            final(self).owned() == Seq::<i32>::empty(),
            final(self).storage() == old(self).storage(),
            final(self)@ == old(self)@,
    {
        proof {
            use_type_invariant(&*self);
        }
        let mut list: Vec<i32> = Vec::new();
        core::mem::swap(&mut self.owned, &mut list);
        list
    }

    /// Add credentials to the ancillary data.
    ///
    /// One control message with the level `SOL_SOCKET` and the type
    /// `SCM_CREDENTIALS` is added behind the used bytes. If there is not
    /// enough space for it, nothing is written.
    pub fn add_creds(&mut self, creds: &[SocketCred]) -> (r: Result<(), AddControlMessageError>)
        ensures
            final(self).owned() == old(self).owned(),
            r is Ok <==> message_fits(
                old(self)@.len(),
                old(self).storage().len(),
                12 * creds@.len(),
            ),
            r is Ok ==> final(self).storage() == splice(
                old(self).storage(),
                old(self)@.len() as int,
                encode_message(credentials_message(creds@)),
            ),
            r is Ok ==> final(self)@ == old(self)@ + encode_message(credentials_message(creds@)),
            r is Ok ==> final(self).messages() == old(self).messages().push(
                credentials_message(creds@),
            ),
            r is Err ==> final(self).storage() == old(self).storage() && final(self)@ == old(
                self,
            )@,
    {
        proof {
            use_type_invariant(&*self);
        }
        let count: usize = creds.len();
        match message_end(self.length, self.buffer.len(), count, CREDS_SIZE) {
            None => Err(AddControlMessageError(())),
            Some(end) => {
                proof {
                    lemma_creds_round_trip(creds@);
                    lemma_messages_append(old(self)@, 0, credentials_message(creds@));
                }
                append_creds(self.buffer, self.length, end, creds, count);
                self.length = end;
                Ok(())
            },
        }
    }

    /// Clears the ancillary data: no byte is used any more. The bytes of the
    /// buffer stay as they are, and the writer goes on owning what it owns.
    pub fn clear(&mut self)
        ensures
            final(self).storage() == old(self).storage(),
            final(self)@ == Seq::<u8>::empty(),
            final(self).owned() == old(self).owned(),
    {
        self.length = 0;
    }
}

} // verus!
