//! Process credentials as a control message carries them.

use super::bytes::{
    i32_from_bytes, i32_to_bytes, lemma_i32_round_trip, lemma_to_bytes_len, lemma_u32_round_trip,
    read_i32, read_u32, splice, u32_from_bytes, u32_to_bytes, write_i32, write_u32,
};
use super::payload::{concat, lemma_concat_chunk, lemma_concat_len};
use vstd::prelude::*;

verus! {

/// Unix credentials: the identifiers of a process, its user and its group.
#[derive(Copy, Clone, Debug)]
pub struct SocketCred {
    pid: i32,
    uid: u32,
    gid: u32,
}

impl SocketCred {
    /// The process identifier.
    pub closed spec fn pid(&self) -> i32 {
        self.pid
    }

    /// The user identifier.
    pub closed spec fn uid(&self) -> u32 {
        self.uid
    }

    /// The group identifier.
    pub closed spec fn gid(&self) -> u32 {
        self.gid
    }

    /// Create a Unix credential struct.
    ///
    /// PID, UID and GID is set to 0.
    pub fn new() -> (r: SocketCred)
        ensures
            r.pid() == 0,
            r.uid() == 0,
            r.gid() == 0,
    {
        SocketCred { pid: 0, uid: 0, gid: 0 }
    }

    /// Set the PID.
    pub fn set_pid(&mut self, pid: i32)
        ensures
            final(self).pid() == pid,
            final(self).uid() == old(self).uid(),
            final(self).gid() == old(self).gid(),
    {
        self.pid = pid;
    }

    /// Get the current PID.
    pub fn get_pid(&self) -> (r: i32)
        ensures
            r == self.pid(),
    {
        self.pid
    }

    /// Set the UID.
    pub fn set_uid(&mut self, uid: u32)
        ensures
            final(self).pid() == old(self).pid(),
            final(self).uid() == uid,
            final(self).gid() == old(self).gid(),
    {
        self.uid = uid;
    }

    /// Get the current UID.
    #[must_use]
    pub fn get_uid(&self) -> (r: u32)
        ensures
            r == self.uid(),
    {
        self.uid
    }

    /// Set the GID.
    pub fn set_gid(&mut self, gid: u32)
        ensures
            final(self).pid() == old(self).pid(),
            final(self).uid() == old(self).uid(),
            final(self).gid() == gid,
    {
        self.gid = gid;
    }

    /// Get the current GID.
    #[must_use]
    pub fn get_gid(&self) -> (r: u32)
        ensures
            r == self.gid(),
    {
        self.gid
    }

    /// Two records with the same three identifiers are the same record.
    pub proof fn lemma_same(self, other: SocketCred)
        requires
            self.pid() == other.pid(),
            self.uid() == other.uid(),
            self.gid() == other.gid(),
        ensures
            self == other,
    {
    }
}

/// The twelve bytes of a record: process, user and group identifier.
pub open spec fn cred_bytes(cred: SocketCred) -> Seq<u8> {
    i32_to_bytes(cred.pid() as int) + u32_to_bytes(cred.uid() as int) + u32_to_bytes(
        cred.gid() as int,
    )
}

/// Whether twelve bytes stand for the record `cred`.
pub open spec fn is_cred(bytes: Seq<u8>, cred: SocketCred) -> bool {
    &&& cred.pid() == i32_from_bytes(bytes.subrange(0, 4))
    &&& cred.uid() == u32_from_bytes(bytes.subrange(4, 8))
    &&& cred.gid() == u32_from_bytes(bytes.subrange(8, 12))
}

/// The bytes of a row of records: twelve for each, in order.
pub open spec fn creds_bytes(creds: Seq<SocketCred>) -> Seq<u8> {
    concat(creds.map_values(|cred: SocketCred| cred_bytes(cred)))
}

/// Number of whole records in the payload of a credentials message.
pub open spec fn cred_count(data: Seq<u8>) -> nat {
    data.len() / 12
}

/// A record takes twelve bytes, and they stand for it.
pub proof fn lemma_cred_round_trip(cred: SocketCred)
    ensures
        cred_bytes(cred).len() == 12,
        is_cred(cred_bytes(cred), cred),
{
    let bytes = cred_bytes(cred);
    lemma_i32_round_trip(cred.pid() as int);
    lemma_u32_round_trip(cred.uid() as int);
    lemma_u32_round_trip(cred.gid() as int);
    assert(bytes.subrange(0, 4) =~= i32_to_bytes(cred.pid() as int));
    assert(bytes.subrange(4, 8) =~= u32_to_bytes(cred.uid() as int));
    assert(bytes.subrange(8, 12) =~= u32_to_bytes(cred.gid() as int));
}

/// A row of records takes twelve bytes for each, and record `i` stands at
/// twelve times `i`.
pub proof fn lemma_creds_round_trip(creds: Seq<SocketCred>)
    ensures
        creds_bytes(creds).len() == 12 * creds.len(),
        cred_count(creds_bytes(creds)) == creds.len(),
        forall|i: int|
            0 <= i < creds.len() ==> is_cred(
                creds_bytes(creds).subrange(12 * i, 12 * i + 12),
                #[trigger] creds[i],
            ),
{
    let chunks = creds.map_values(|cred: SocketCred| cred_bytes(cred));
    assert forall|i: int| 0 <= i < chunks.len() implies (#[trigger] chunks[i]).len() == 12 by {
        lemma_cred_round_trip(creds[i]);
    }
    lemma_concat_len(chunks, 12);
    assert forall|i: int| 0 <= i < creds.len() implies is_cred(
        creds_bytes(creds).subrange(12 * i, 12 * i + 12),
        #[trigger] creds[i],
    ) by {
        lemma_concat_chunk(chunks, 12, i);
        lemma_cred_round_trip(creds[i]);
    }
}

/// Reads the record that starts at `at`.
pub(crate) fn read_cred(bytes: &[u8], at: usize) -> (r: SocketCred)
    requires
        at + 12 <= bytes@.len(),
    ensures
        is_cred(bytes@.subrange(at as int, at + 12), r),
{
    proof {
        vstd::slice::axiom_spec_len(bytes);
        let part = bytes@.subrange(at as int, at + 12);
        assert(part.subrange(0, 4) =~= bytes@.subrange(at as int, at + 4));
        assert(part.subrange(4, 8) =~= bytes@.subrange(at + 4, at + 8));
        assert(part.subrange(8, 12) =~= bytes@.subrange(at + 8, at + 12));
    }
    let pid: i32 = read_i32(bytes, at);
    let uid: u32 = read_u32(bytes, at + 4);
    let gid: u32 = read_u32(bytes, at + 8);
    SocketCred { pid, uid, gid }
}

/// Writes the bytes of `cred` into `buffer`, from `at` on.
pub(crate) fn write_cred(buffer: &mut [u8], at: usize, cred: &SocketCred)
    requires
        at + 12 <= old(buffer)@.len(),
    ensures
        final(buffer)@ == splice(old(buffer)@, at as int, cred_bytes(*cred)),
    no_unwind
{
    proof {
        vstd::slice::axiom_spec_len(buffer);
        lemma_to_bytes_len(cred.pid() as int);
        lemma_to_bytes_len(cred.uid() as int);
        lemma_to_bytes_len(cred.gid() as int);
    }
    write_i32(buffer, at, cred.pid);
    write_u32(buffer, at + 4, cred.uid);
    write_u32(buffer, at + 8, cred.gid);
    assert(buffer@ =~= splice(old(buffer)@, at as int, cred_bytes(*cred)));
}

/// Writes the bytes of the `count` records of `creds` into `buffer`, from
/// `at` on.
pub(crate) fn write_creds(buffer: &mut [u8], at: usize, creds: &[SocketCred], count: usize)
    requires
        count == creds@.len(),
        at + 12 * creds@.len() <= old(buffer)@.len(),
    ensures
        final(buffer)@ == splice(old(buffer)@, at as int, creds_bytes(creds@)),
    no_unwind
{
    proof {
        vstd::slice::axiom_spec_len(buffer);
    }
    let ghost chunks = creds@.map_values(|cred: SocketCred| cred_bytes(cred));
    let mut i: usize = 0;
    assert(concat(chunks.take(0)) =~= Seq::<u8>::empty());
    assert(buffer@ =~= splice(old(buffer)@, at as int, Seq::<u8>::empty()));
    while i < count
        invariant
            i <= creds@.len(),
            count == creds@.len(),
            chunks == creds@.map_values(|cred: SocketCred| cred_bytes(cred)),
            at + 12 * creds@.len() <= old(buffer)@.len(),
            old(buffer)@.len() <= usize::MAX,
            buffer@ == splice(old(buffer)@, at as int, concat(chunks.take(i as int))),
            concat(chunks.take(i as int)).len() == 12 * i,
        decreases creds@.len() - i,
    {
        let ghost done = concat(chunks.take(i as int));
        write_cred(buffer, at + 12 * i, &creds[i]);
        proof {
            let part = cred_bytes(creds@[i as int]);
            lemma_cred_round_trip(creds@[i as int]);
            assert(chunks.take(i + 1).drop_last() =~= chunks.take(i as int));
            assert(concat(chunks.take(i + 1)) == done + part);
            assert(buffer@ =~= splice(old(buffer)@, at as int, done + part));
        }
        i = i + 1;
    }
    assert(chunks.take(i as int) =~= chunks);
}

} // verus!
