//! Taking over the file descriptors of a received buffer.
//!
//! A received file descriptor belongs to the buffer that it came in until
//! somebody takes it. Taking it writes [`TAKEN`] into its slot, so that
//! nobody can take it again. What is still in a slot when the buffer is
//! discarded has to be closed: the `discard` functions say which those are.

use super::bytes::{
    i32_to_bytes, lemma_i32_round_trip, lemma_to_bytes_len, read_i32, splice, write_i32,
};
use super::format::{messages, ControlMessage};
use super::layout::{FD_SIZE, SCM_CREDENTIALS, SCM_RIGHTS, SOL_SOCKET};
use super::payload::fd_slots;
use super::reader::{is_credentials, is_rights, UnixCredentials, UnknownMessage};
use super::walk::{lemma_messages_shift, step_at, ControlHeader};
use vstd::prelude::*;

verus! {

/// What stands in a slot whose file descriptor was taken.
pub const TAKEN: i32 = -1;

/// Taking the file descriptor at `index`: what the caller gets, and the
/// slots afterwards. Nothing is to be had outside the slots, nor from a
/// slot that was taken before.
pub open spec fn take_slot(slots: Seq<i32>, index: int) -> (Option<i32>, Seq<i32>) {
    if 0 <= index < slots.len() && slots[index] != TAKEN {
        (Some(slots[index]), slots.update(index, TAKEN))
    } else {
        (None, slots)
    }
}

/// The first slot at or behind `from` that was not taken, or the number of
/// slots if there is none.
pub open spec fn first_owned(slots: Seq<i32>, from: int) -> int
    decreases slots.len() - from,
{
    if from < 0 || from >= slots.len() {
        slots.len() as int
    } else if slots[from] != TAKEN {
        from
    } else {
        first_owned(slots, from + 1)
    }
}

/// The file descriptors that are still in their slots, in order.
pub open spec fn owned_fds(slots: Seq<i32>) -> Seq<i32>
    decreases slots.len(),
{
    if slots.len() == 0 {
        Seq::empty()
    } else if slots.last() != TAKEN {
        owned_fds(slots.drop_last()).push(slots.last())
    } else {
        owned_fds(slots.drop_last())
    }
}

/// The file descriptors that are still in the slots of a message: those of
/// a rights message, none of any other.
pub open spec fn owned_in_message(m: ControlMessage) -> Seq<i32> {
    if is_rights(m) {
        owned_fds(fd_slots(m.data))
    } else {
        Seq::empty()
    }
}

/// The file descriptors that are still in the slots of a row of messages.
pub open spec fn owned_in(messages: Seq<ControlMessage>) -> Seq<i32>
    decreases messages.len(),
{
    if messages.len() == 0 {
        Seq::empty()
    } else {
        owned_in_message(messages[0]) + owned_in(messages.skip(1))
    }
}

/// All slots taken: `n` times [`TAKEN`].
pub open spec fn all_taken(n: nat) -> Seq<i32> {
    Seq::new(n, |i: int| TAKEN)
}

/// A file descriptor can be taken once: who tries again at the same slot
/// gets nothing, and the slots stay as the first taking left them.
pub proof fn lemma_take_once(slots: Seq<i32>, index: int)
    ensures
        take_slot(take_slot(slots, index).1, index) == (None::<i32>, take_slot(slots, index).1),
{
}

/// Where every slot was taken, no file descriptor is owned.
pub proof fn lemma_all_taken_owns_nothing(n: nat)
    ensures
        owned_fds(all_taken(n)) == Seq::<i32>::empty(),
    decreases n,
{
    if n > 0 {
        assert(all_taken(n).drop_last() =~= all_taken((n - 1) as nat));
        lemma_all_taken_owns_nothing((n - 1) as nat);
    }
}

/// The owned file descriptors of two rows of slots in a row are those of the
/// first and then those of the second.
pub proof fn lemma_owned_fds_concat(first: Seq<i32>, second: Seq<i32>)
    ensures
        owned_fds(first + second) == owned_fds(first) + owned_fds(second),
    decreases second.len(),
{
    if second.len() == 0 {
        assert(first + second =~= first);
    } else {
        assert((first + second).drop_last() =~= first + second.drop_last());
        lemma_owned_fds_concat(first, second.drop_last());
    }
}

/// Every file descriptor leaves its slot exactly once: taking the one at
/// `index` hands out that one, and the slots own what they owned before
/// without it, in the same order.
pub proof fn lemma_take_removes_one(slots: Seq<i32>, index: int)
    requires
        0 <= index < slots.len(),
        slots[index] != TAKEN,
    ensures
        take_slot(slots, index).0 == Some(slots[index]),
        owned_fds(slots) == owned_fds(slots.take(index)).push(slots[index]) + owned_fds(
            slots.skip(index + 1),
        ),
        owned_fds(take_slot(slots, index).1) == owned_fds(slots.take(index)) + owned_fds(
            slots.skip(index + 1),
        ),
{
    let front = slots.take(index);
    let back = slots.skip(index + 1);
    let one = seq![slots[index]];
    let none = seq![TAKEN];
    assert(slots =~= front + one + back);
    assert(take_slot(slots, index).1 =~= front + none + back);
    lemma_owned_fds_concat(front + one, back);
    lemma_owned_fds_concat(front, one);
    lemma_owned_fds_concat(front + none, back);
    lemma_owned_fds_concat(front, none);
    assert(one.drop_last() =~= Seq::<i32>::empty());
    assert(none.drop_last() =~= Seq::<i32>::empty());
    assert(owned_fds(Seq::<i32>::empty()) =~= Seq::<i32>::empty());
    assert(owned_fds(one) =~= one);
    assert(owned_fds(none) =~= Seq::<i32>::empty());
}

/// Writing a file descriptor into slot `index` of a payload changes that
/// slot and no other.
pub proof fn lemma_slot_written(data: Seq<u8>, index: int, fd: i32)
    requires
        0 <= index < fd_slots(data).len(),
    ensures
        fd_slots(splice(data, 4 * index, i32_to_bytes(fd as int))) == fd_slots(data).update(
            index,
            fd,
        ),
{
    let part = i32_to_bytes(fd as int);
    let written = splice(data, 4 * index, part);
    lemma_i32_round_trip(fd as int);
    assert forall|j: int| 0 <= j < fd_slots(data).len() implies fd_slots(written)[j] == fd_slots(
        data,
    ).update(index, fd)[j] by {
        if j == index {
            assert(written.subrange(4 * j, 4 * j + 4) =~= part);
        } else {
            assert(written.subrange(4 * j, 4 * j + 4) =~= data.subrange(4 * j, 4 * j + 4));
        }
    }
    assert(fd_slots(written) =~= fd_slots(data).update(index, fd));
}

/// Writes [`TAKEN`] into slot `index` of a payload.
pub(crate) fn mark_taken(data: &mut [u8], index: usize)
    requires
        index < fd_slots(old(data)@).len(),
    ensures
        final(data)@ == splice(old(data)@, 4 * index, i32_to_bytes(TAKEN as int)),
        final(data)@.len() == old(data)@.len(),
        fd_slots(final(data)@) == fd_slots(old(data)@).update(index as int, TAKEN),
    no_unwind
{
    proof {
        vstd::slice::axiom_spec_len(data);
        lemma_slot_written(old(data)@, index as int, TAKEN);
        lemma_to_bytes_len(TAKEN as int);
    }
    write_i32(data, FD_SIZE * index, TAKEN);
}

/// Owning iterator over ancillary messages from a received buffer.
pub struct IntoAncillaryMessages<'a> {
    buffer: Option<&'a mut [u8]>,
}

/// This enum represent one control message of variable type.
///
/// Where applicable, it has taken ownership of the objects in the control message.
pub enum OwnedAncillaryMessage<'a> {
    /// Ancillary message holding file descriptors.
    FileDescriptors(OwnedFileDescriptors<'a>),
    /// Ancillary message holding unix credentials.
    Credentials(UnixCredentials<'a>),
    /// Ancillary message uninterpreted data.
    Other(UnknownMessage<'a>),
}

/// A control message containing owned file descriptors.
pub struct OwnedFileDescriptors<'a> {
    /// The message data.
    data: &'a mut [u8],
    position: usize,
}

impl<'a> OwnedFileDescriptors<'a> {
    #[verifier::type_invariant]
    spec fn inv(self) -> bool {
        &&& self.position <= fd_slots(self.data@).len()
        &&& forall|i: int| 0 <= i < self.position ==> fd_slots(self.data@)[i] == TAKEN
    }

    /// The payload of the message.
    pub closed spec fn view(&self) -> Seq<u8> {
        self.data@
    }

    /// The slots of the message: a file descriptor, or [`TAKEN`].
    pub open spec fn slots(&self) -> Seq<i32> {
        fd_slots(self@)
    }

    /// Number of slots that the iteration has passed.
    pub closed spec fn position(&self) -> nat {
        self.position as nat
    }

    /// Takes the payload of a rights message into ownership. No slot is
    /// passed yet.
    pub(crate) fn new(data: &'a mut [u8]) -> (r: Self)
        ensures
            r@ == old(data)@,
            r.position() == 0,
    {
        OwnedFileDescriptors { data, position: 0 }
    }

    /// Get the number of slots that the iteration has not passed yet.
    pub fn len(&self) -> (r: usize)
        ensures
            r == self.slots().len() - self.position(),
            self.position() <= self.slots().len(),
            forall|i: int| 0 <= i < self.position() ==> self.slots()[i] == TAKEN,
    {
        proof {
            use_type_invariant(self);
        }
        self.data.len() / FD_SIZE - self.position
    }

    /// Check if the iteration has passed every slot.
    pub fn is_empty(&self) -> (r: bool)
        ensures
            r <==> self.slots().len() == self.position(),
    {
        self.len() == 0
    }

    /// The number of slots that the iteration has not passed, as the lower
    /// and as the upper bound of what `next` will give. It gives fewer where
    /// somebody has taken a file descriptor out of one of these slots.
    pub fn size_hint(&self) -> (r: (usize, Option<usize>))
        ensures
            r.0 == self.slots().len() - self.position(),
            r.1 == Some(r.0),
    {
        (self.len(), Some(self.len()))
    }

    /// Take ownership of a specific file descriptor in the message.
    ///
    /// Returns `None` if ownership of the file descriptor has already been taken,
    /// or if the index is out of bounds. Whatever is returned, nothing is to
    /// be had at this index afterwards.
    pub fn take_ownership(&mut self, index: usize) -> (r: Option<i32>)
        ensures
            r == take_slot(old(self).slots(), index as int).0,
            final(self).slots() == take_slot(old(self).slots(), index as int).1,
            take_slot(final(self).slots(), index as int).0 is None,
            final(self)@ == if r is Some {
                splice(old(self)@, 4 * index, i32_to_bytes(TAKEN as int))
            } else {
                old(self)@
            },
            final(self).position() == old(self).position(),
    {
        proof {
            use_type_invariant(&*self);
        }
        if index >= self.data.len() / FD_SIZE {
            None
        } else {
            let fd: i32 = read_i32(self.data, FD_SIZE * index);
            if fd == TAKEN {
                None
            } else {
                mark_taken(self.data, index);
                Some(fd)
            }
        }
    }

    /// Gives the next file descriptor that nobody has taken, and takes it.
    /// The iteration goes from the first slot to the last and passes over
    /// the slots that were taken before.
    pub fn next(&mut self) -> (r: Option<i32>)
        ensures
            ({
                let found = first_owned(old(self).slots(), old(self).position() as int);
                if found < old(self).slots().len() {
                    &&& r == Some(old(self).slots()[found])
                    &&& final(self).slots() == old(self).slots().update(found, TAKEN)
                    &&& final(self)@ == splice(old(self)@, 4 * found, i32_to_bytes(TAKEN as int))
                    &&& final(self).position() == found + 1
                } else {
                    &&& r is None
                    &&& final(self)@ == old(self)@
                    &&& final(self).position() == old(self).slots().len()
                }
            }),
    {
        proof {
            use_type_invariant(&*self);
        }
        let total: usize = self.data.len() / FD_SIZE;
        while self.position < total
            invariant
                total == old(self).slots().len(),
                self.position <= total,
                old(self).position() <= self.position,
                self@ == old(self)@,
                first_owned(old(self).slots(), old(self).position() as int) == first_owned(
                    old(self).slots(),
                    self.position as int,
                ),
            decreases total - self.position,
        {
            proof {
                use_type_invariant(&*self);
            }
            let at: usize = self.position;
            let fd: Option<i32> = self.take_ownership(at);
            self.position = at + 1;
            if let Some(fd) = fd {
                return Some(fd);
            }
        }
        None
    }

    /// Takes every file descriptor that is still in its slot. This is what
    /// has to be closed when the message is discarded; afterwards the
    /// message owns nothing.
    pub fn discard(&mut self) -> (r: Vec<i32>)
        ensures
            r@ == owned_fds(old(self).slots()),
            final(self).slots() == all_taken(old(self).slots().len()),
            owned_fds(final(self).slots()) == Seq::<i32>::empty(),
            final(self)@.len() == old(self)@.len(),
            final(self)@.skip(4 * old(self).slots().len() as int) == old(self)@.skip(
                4 * old(self).slots().len() as int,
            ),
            final(self).position() == old(self).slots().len(),
    {
        let total: usize = self.data.len() / FD_SIZE;
        let mut taken: Vec<i32> = Vec::new();
        let mut i: usize = 0;
        assert(old(self).slots().take(0) =~= Seq::<i32>::empty());
        while i < total
            invariant
                total == old(self).slots().len(),
                i <= total,
                self.slots().len() == total,
                self@.len() == old(self)@.len(),
                self@.skip(4 * total) == old(self)@.skip(4 * total),
                forall|j: int| 0 <= j < i ==> self.slots()[j] == TAKEN,
                forall|j: int| i <= j < total ==> self.slots()[j] == old(self).slots()[j],
                taken@ == owned_fds(old(self).slots().take(i as int)),
            decreases total - i,
        {
            proof {
                assert(old(self).slots().take(i + 1).drop_last() =~= old(self).slots().take(
                    i as int,
                ));
            }
            let ghost before = self@;
            if let Some(fd) = self.take_ownership(i) {
                taken.push(fd);
            }
            proof {
                lemma_to_bytes_len(TAKEN as int);
                assert(self@.skip(4 * total) =~= before.skip(4 * total));
            }
            i = i + 1;
        }
        proof {
            assert(old(self).slots().take(total as int) =~= old(self).slots());
            assert(self.slots() =~= all_taken(total as nat));
            lemma_all_taken_owns_nothing(total as nat);
        }
        self.position = total;
        taken
    }
}

impl<'a> OwnedAncillaryMessage<'a> {
    /// The message as level, type and payload.
    pub open spec fn view(&self) -> ControlMessage {
        match self {
            OwnedAncillaryMessage::FileDescriptors(fds) => ControlMessage {
                level: SOL_SOCKET,
                kind: SCM_RIGHTS,
                data: fds@,
            },
            OwnedAncillaryMessage::Credentials(creds) => ControlMessage {
                level: SOL_SOCKET,
                kind: SCM_CREDENTIALS,
                data: creds@,
            },
            OwnedAncillaryMessage::Other(other) => other@,
        }
    }

    /// Whether the variant is the one that level and type ask for, and no
    /// slot of a rights message is passed yet.
    pub open spec fn is_classified(&self) -> bool {
        &&& self is Other ==> !is_rights(self@) && !is_credentials(self@)
        &&& self matches OwnedAncillaryMessage::FileDescriptors(fds) ==> fds.position() == 0
    }

    /// Makes the message for a header and its payload: by level and type one
    /// of file descriptors, of credentials, or an unrecognized one.
    pub(crate) fn try_from_cmsghdr(header: &ControlHeader, data: &'a mut [u8]) -> (r: Self)
        ensures
            r@ == (ControlMessage {
                level: header.cmsg_level,
                kind: header.cmsg_type,
                data: old(data)@,
            }),
            r.is_classified(),
    {
        if header.cmsg_level == SOL_SOCKET && header.cmsg_type == SCM_RIGHTS {
            Self::FileDescriptors(OwnedFileDescriptors::new(data))
        } else if header.cmsg_level == SOL_SOCKET && header.cmsg_type == SCM_CREDENTIALS {
            Self::Credentials(UnixCredentials::new(data))
        } else {
            Self::Other(UnknownMessage::new(header.cmsg_level, header.cmsg_type, data))
        }
    }
}

impl<'a> IntoAncillaryMessages<'a> {
    /// The messages that the iterator has not given out yet.
    pub closed spec fn remaining(&self) -> Seq<ControlMessage> {
        match self.buffer {
            Some(buffer) => messages(buffer@),
            None => Seq::empty(),
        }
    }

    /// An iterator over the messages in `buffer`.
    pub(crate) fn new(buffer: &'a mut [u8]) -> (r: Self)
        ensures
            r.remaining() == messages(old(buffer)@),
    {
        IntoAncillaryMessages { buffer: Some(buffer) }
    }

    /// Gives the next message, or `None` at the end of the walk. The message
    /// owns the file descriptors in it.
    pub fn next(&mut self) -> (r: Option<OwnedAncillaryMessage<'a>>)
        ensures
            r is None <==> old(self).remaining().len() == 0,
            r is None ==> final(self).remaining().len() == 0,
            r matches Some(m) ==> {
                &&& m@ == old(self).remaining()[0]
                &&& m.is_classified()
                &&& final(self).remaining() == old(self).remaining().skip(1)
            },
    {
        let buffer: &'a mut [u8] = match self.buffer.take() {
            None => {
                return None;
            },
            Some(buffer) => buffer,
        };
        match step_at(buffer, 0) {
            None => None,
            Some(step) => {
                proof {
                    lemma_messages_shift(buffer@, step.next as int);
                }
                let (whole, rest) = buffer.split_at_mut(step.next);
                self.buffer = Some(rest);
                let (front, _padding) = whole.split_at_mut(step.data_end);
                let (_header, data) = front.split_at_mut(step.data_start);
                assert(self.remaining() =~= old(self).remaining().skip(1));
                assert(data@ == old(self).remaining()[0].data);
                Some(OwnedAncillaryMessage::try_from_cmsghdr(&step.header, data))
            },
        }
    }

    /// Takes every file descriptor of the messages that the iterator has not
    /// given out. This is what has to be closed when the iterator is
    /// discarded; afterwards it has no message left.
    pub fn discard(&mut self) -> (r: Vec<i32>)
        ensures
            r@ == owned_in(old(self).remaining()),
            final(self).remaining().len() == 0,
            owned_in(final(self).remaining()) == Seq::<i32>::empty(),
    {
        let mut taken: Vec<i32> = Vec::new();
        loop
            invariant
                taken@ + owned_in(self.remaining()) == owned_in(old(self).remaining()),
            ensures
                self.remaining().len() == 0,
                taken@ == owned_in(old(self).remaining()),
            decreases self.remaining().len(),
        {
            let ghost before = self.remaining();
            let ghost had = taken@;
            match self.next() {
                None => {
                    break ;
                },
                Some(OwnedAncillaryMessage::FileDescriptors(mut fds)) => {
                    let mut found: Vec<i32> = fds.discard();
                    taken.append(&mut found);
                    assert(taken@ + owned_in(self.remaining()) =~= had + owned_in(before));
                },
                Some(_) => {
                    assert(taken@ + owned_in(self.remaining()) =~= had + owned_in(before));
                },
            }
        }
        taken
    }
}

} // verus!
