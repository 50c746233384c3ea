//! What a control message carries: items of one fixed size, back to back.

use super::bytes::{
    i32_from_bytes, i32_to_bytes, lemma_i32_round_trip, lemma_to_bytes_len, splice, write_i32,
};
use vstd::prelude::*;

verus! {

/// The given chunks of bytes, one after the other.
pub open spec fn concat(chunks: Seq<Seq<u8>>) -> Seq<u8>
    decreases chunks.len(),
{
    if chunks.len() == 0 {
        Seq::empty()
    } else {
        concat(chunks.drop_last()) + chunks.last()
    }
}

/// Whether every chunk has `size` bytes.
pub open spec fn all_of_size(chunks: Seq<Seq<u8>>, size: int) -> bool {
    forall|i: int| 0 <= i < chunks.len() ==> (#[trigger] chunks[i]).len() == size
}

/// Chunks of one size take that size times their number.
pub proof fn lemma_concat_len(chunks: Seq<Seq<u8>>, size: int)
    requires
        all_of_size(chunks, size),
    ensures
        concat(chunks).len() == chunks.len() * size,
    decreases chunks.len(),
{
    if chunks.len() > 0 {
        lemma_concat_len(chunks.drop_last(), size);
        assert((chunks.len() - 1) * size + size == chunks.len() * size) by (nonlinear_arith);
    }
}

/// Among chunks of one size, chunk `i` stands at `i` times that size.
pub proof fn lemma_concat_chunk(chunks: Seq<Seq<u8>>, size: int, i: int)
    requires
        all_of_size(chunks, size),
        0 <= i < chunks.len(),
    ensures
        0 <= i * size,
        (i + 1) * size <= concat(chunks).len(),
        concat(chunks).subrange(i * size, (i + 1) * size) == chunks[i],
    decreases chunks.len(),
{
    let front = chunks.drop_last();
    lemma_concat_len(chunks, size);
    lemma_concat_len(front, size);
    assert((i + 1) * size == i * size + size) by (nonlinear_arith);
    if i == chunks.len() - 1 {
        assert(concat(chunks).subrange(i * size, (i + 1) * size) =~= chunks[i]);
    } else {
        lemma_concat_chunk(front, size, i);
        assert(concat(chunks).subrange(i * size, (i + 1) * size) =~= concat(front).subrange(
            i * size,
            (i + 1) * size,
        ));
    }
}

/// The bytes of a row of file descriptors: four for each, in order.
pub open spec fn fd_bytes(fds: Seq<i32>) -> Seq<u8> {
    concat(fds.map_values(|fd: i32| i32_to_bytes(fd as int)))
}

/// The file descriptors that the payload of a rights message holds: one for
/// each four bytes; bytes that do not fill a slot are left out.
pub open spec fn fd_slots(data: Seq<u8>) -> Seq<i32> {
    Seq::new(data.len() / 4, |i: int| i32_from_bytes(data.subrange(4 * i, 4 * i + 4)) as i32)
}

/// A row of file descriptors takes four bytes for each.
pub proof fn lemma_fd_bytes_len(fds: Seq<i32>)
    ensures
        fd_bytes(fds).len() == 4 * fds.len(),
{
    let chunks = fds.map_values(|fd: i32| i32_to_bytes(fd as int));
    assert forall|i: int| 0 <= i < chunks.len() implies (#[trigger] chunks[i]).len() == 4 by {
        lemma_to_bytes_len(fds[i] as int);
    }
    lemma_concat_len(chunks, 4);
}

/// Reading the slots of what was written for a row of file descriptors gives
/// the file descriptors, in order.
pub proof fn lemma_fd_round_trip(fds: Seq<i32>)
    ensures
        fd_slots(fd_bytes(fds)) == fds,
{
    let chunks = fds.map_values(|fd: i32| i32_to_bytes(fd as int));
    let data = fd_bytes(fds);
    lemma_fd_bytes_len(fds);
    assert forall|i: int| 0 <= i < chunks.len() implies (#[trigger] chunks[i]).len() == 4 by {
        lemma_to_bytes_len(fds[i] as int);
    }
    assert forall|i: int| 0 <= i < fds.len() implies fd_slots(data)[i] == fds[i] by {
        lemma_concat_chunk(chunks, 4, i);
        lemma_i32_round_trip(fds[i] as int);
    }
    assert(fd_slots(data) =~= fds);
}

/// Writes the bytes of `fds` into `buffer`, from `at` on.
pub(crate) fn write_fds(buffer: &mut [u8], at: usize, fds: &[i32], count: usize)
    requires
        count == fds@.len(),
        at + 4 * fds@.len() <= old(buffer)@.len(),
    ensures
        final(buffer)@ == splice(old(buffer)@, at as int, fd_bytes(fds@)),
    no_unwind
{
    proof {
        vstd::slice::axiom_spec_len(buffer);
    }
    let ghost chunks = fds@.map_values(|fd: i32| i32_to_bytes(fd as int));
    let mut i: usize = 0;
    assert(concat(chunks.take(0)) =~= Seq::<u8>::empty());
    assert(buffer@ =~= splice(old(buffer)@, at as int, Seq::<u8>::empty()));
    while i < count
        invariant
            i <= fds@.len(),
            count == fds@.len(),
            chunks == fds@.map_values(|fd: i32| i32_to_bytes(fd as int)),
            at + 4 * fds@.len() <= old(buffer)@.len(),
            old(buffer)@.len() <= usize::MAX,
            buffer@ == splice(old(buffer)@, at as int, concat(chunks.take(i as int))),
            concat(chunks.take(i as int)).len() == 4 * i,
        decreases fds@.len() - i,
    {
        let ghost done = concat(chunks.take(i as int));
        write_i32(buffer, at + 4 * i, fds[i]);
        proof {
            let part = i32_to_bytes(fds@[i as int] as int);
            lemma_to_bytes_len(fds@[i as int] as int);
            assert(chunks.take(i + 1).drop_last() =~= chunks.take(i as int));
            assert(concat(chunks.take(i + 1)) == done + part);
            assert(buffer@ =~= splice(old(buffer)@, at as int, done + part));
        }
        i = i + 1;
    }
    assert(chunks.take(i as int) =~= chunks);
}

} // verus!
