//! Integers as little-endian bytes, read from and written into a buffer.

use vstd::prelude::*;

verus! {

/// The number that four bytes stand for, lowest byte first.
#[verifier::opaque]
pub open spec fn u32_from_bytes(b: Seq<u8>) -> int
    recommends
        b.len() == 4,
{
    b[0] as int + 0x100 * (b[1] as int) + 0x1_0000 * (b[2] as int) + 0x100_0000 * (b[3] as int)
}

/// The four bytes of a number below 2^32, lowest byte first.
#[verifier::opaque]
pub open spec fn u32_to_bytes(v: int) -> Seq<u8>
    recommends
        0 <= v < 0x1_0000_0000,
{
    seq![
        (v % 0x100) as u8,
        (v / 0x100 % 0x100) as u8,
        (v / 0x1_0000 % 0x100) as u8,
        (v / 0x100_0000 % 0x100) as u8,
    ]
}

/// The signed number that four bytes stand for in two's complement.
pub open spec fn i32_from_bytes(b: Seq<u8>) -> int
    recommends
        b.len() == 4,
{
    let u = u32_from_bytes(b);
    if u < 0x8000_0000 {
        u
    } else {
        u - 0x1_0000_0000
    }
}

/// The four bytes of a signed 32-bit number in two's complement.
pub open spec fn i32_to_bytes(v: int) -> Seq<u8>
    recommends
        -0x8000_0000 <= v < 0x8000_0000,
{
    u32_to_bytes(
        if v < 0 {
            v + 0x1_0000_0000
        } else {
            v
        },
    )
}

/// The number that eight bytes stand for, lowest byte first.
pub open spec fn u64_from_bytes(b: Seq<u8>) -> int
    recommends
        b.len() == 8,
{
    u32_from_bytes(b.subrange(0, 4)) + 0x1_0000_0000 * u32_from_bytes(b.subrange(4, 8))
}

/// The eight bytes of a number below 2^64, lowest byte first.
pub open spec fn u64_to_bytes(v: int) -> Seq<u8>
    recommends
        0 <= v < 0x1_0000_0000_0000_0000,
{
    u32_to_bytes(v % 0x1_0000_0000) + u32_to_bytes(v / 0x1_0000_0000)
}

/// `s` with the bytes from `at` on replaced by `part`.
pub open spec fn splice(s: Seq<u8>, at: int, part: Seq<u8>) -> Seq<u8>
    recommends
        0 <= at,
        at + part.len() <= s.len(),
{
    s.subrange(0, at) + part + s.subrange(at + part.len(), s.len() as int)
}

/// How many bytes each number is written as.
pub proof fn lemma_to_bytes_len(v: int)
    ensures
        u32_to_bytes(v).len() == 4,
        i32_to_bytes(v).len() == 4,
        u64_to_bytes(v).len() == 8,
{
    reveal(u32_to_bytes);
}

/// Four bytes stand for a number below 2^32.
pub proof fn lemma_u32_from_bytes_range(b: Seq<u8>)
    requires
        b.len() == 4,
    ensures
        0 <= u32_from_bytes(b) < 0x1_0000_0000,
        -0x8000_0000 <= i32_from_bytes(b) < 0x8000_0000,
{
    reveal(u32_from_bytes);
}

/// Writing a number below 2^32 as bytes and reading it back gives the number.
pub proof fn lemma_u32_round_trip(v: int)
    requires
        0 <= v < 0x1_0000_0000,
    ensures
        u32_to_bytes(v).len() == 4,
        u32_from_bytes(u32_to_bytes(v)) == v,
{
    reveal(u32_from_bytes);
    reveal(u32_to_bytes);
}

/// Reading four bytes as a number and writing it back gives the bytes.
pub proof fn lemma_u32_bytes_round_trip(b: Seq<u8>)
    requires
        b.len() == 4,
    ensures
        u32_to_bytes(u32_from_bytes(b)) == b,
{
    reveal(u32_from_bytes);
    reveal(u32_to_bytes);
    let u = u32_from_bytes(b);
    let r1 = b[1] as int + 0x100 * (b[2] as int) + 0x1_0000 * (b[3] as int);
    let r2 = b[2] as int + 0x100 * (b[3] as int);
    assert(u == b[0] as int + 0x100 * r1);
    assert(u % 0x100 == b[0] as int && u / 0x100 == r1);
    assert(r1 == b[1] as int + 0x100 * r2);
    assert(r1 % 0x100 == b[1] as int && r1 / 0x100 == r2);
    assert(r2 % 0x100 == b[2] as int && r2 / 0x100 == b[3] as int);
    assert(u / 0x1_0000 == r2 && u / 0x100_0000 == b[3] as int);
    assert(u32_to_bytes(u) =~= b);
}

/// Writing a signed 32-bit number as bytes and reading it back gives the number.
pub proof fn lemma_i32_round_trip(v: int)
    requires
        -0x8000_0000 <= v < 0x8000_0000,
    ensures
        i32_to_bytes(v).len() == 4,
        i32_from_bytes(i32_to_bytes(v)) == v,
{
    if v < 0 {
        lemma_u32_round_trip(v + 0x1_0000_0000);
    } else {
        lemma_u32_round_trip(v);
    }
}

/// Reading four bytes as a signed number and writing it back gives the bytes.
pub proof fn lemma_i32_bytes_round_trip(b: Seq<u8>)
    requires
        b.len() == 4,
    ensures
        i32_to_bytes(i32_from_bytes(b)) == b,
{
    lemma_u32_bytes_round_trip(b);
    lemma_u32_from_bytes_range(b);
}

/// Writing a number below 2^64 as bytes and reading it back gives the number.
pub proof fn lemma_u64_round_trip(v: int)
    requires
        0 <= v < 0x1_0000_0000_0000_0000,
    ensures
        u64_to_bytes(v).len() == 8,
        u64_from_bytes(u64_to_bytes(v)) == v,
{
    let low = v % 0x1_0000_0000;
    let high = v / 0x1_0000_0000;
    lemma_u32_round_trip(low);
    lemma_u32_round_trip(high);
    assert(u64_to_bytes(v).subrange(0, 4) =~= u32_to_bytes(low));
    assert(u64_to_bytes(v).subrange(4, 8) =~= u32_to_bytes(high));
}

/// Reads the unsigned 32-bit number that starts at `at`.
pub(crate) fn read_u32(bytes: &[u8], at: usize) -> (v: u32)
    requires
        at + 4 <= bytes@.len(),
    ensures
        v as int == u32_from_bytes(bytes@.subrange(at as int, at + 4)),
{
    proof {
        reveal(u32_from_bytes);
    }
    let b0: u32 = bytes[at] as u32;
    let b1: u32 = bytes[at + 1] as u32;
    let b2: u32 = bytes[at + 2] as u32;
    let b3: u32 = bytes[at + 3] as u32;
    b0 + 0x100 * b1 + 0x1_0000 * b2 + 0x100_0000 * b3
}

/// Reads the signed 32-bit number that starts at `at`.
pub(crate) fn read_i32(bytes: &[u8], at: usize) -> (v: i32)
    requires
        at + 4 <= bytes@.len(),
    ensures
        v as int == i32_from_bytes(bytes@.subrange(at as int, at + 4)),
{
    let u: u32 = read_u32(bytes, at);
    if u < 0x8000_0000 {
        u as i32
    } else {
        let low: i32 = (u - 0x8000_0000) as i32;
        low + i32::MIN
    }
}

/// Reads the unsigned 64-bit number that starts at `at`.
pub(crate) fn read_u64(bytes: &[u8], at: usize) -> (v: u64)
    requires
        at + 8 <= bytes@.len(),
    ensures
        v as int == u64_from_bytes(bytes@.subrange(at as int, at + 8)),
{
    proof {
        vstd::slice::axiom_spec_len(bytes);
    }
    let low: u64 = read_u32(bytes, at) as u64;
    let high: u64 = read_u32(bytes, at + 4) as u64;
    proof {
        let whole = bytes@.subrange(at as int, at + 8);
        assert(whole.subrange(0, 4) =~= bytes@.subrange(at as int, at + 4));
        assert(whole.subrange(4, 8) =~= bytes@.subrange(at + 4, at + 8));
    }
    low + 0x1_0000_0000 * high
}

/// Writes `v` as four bytes that start at `at`.
pub(crate) fn write_u32(bytes: &mut [u8], at: usize, v: u32)
    requires
        at + 4 <= old(bytes)@.len(),
    ensures
        final(bytes)@ == splice(old(bytes)@, at as int, u32_to_bytes(v as int)),
    no_unwind
{
    proof {
        reveal(u32_to_bytes);
    }
    bytes[at] = (v % 0x100) as u8;
    bytes[at + 1] = (v / 0x100 % 0x100) as u8;
    bytes[at + 2] = (v / 0x1_0000 % 0x100) as u8;
    bytes[at + 3] = (v / 0x100_0000 % 0x100) as u8;
}

/// Writes `v` as four bytes in two's complement that start at `at`.
pub(crate) fn write_i32(bytes: &mut [u8], at: usize, v: i32)
    requires
        at + 4 <= old(bytes)@.len(),
    ensures
        final(bytes)@ == splice(old(bytes)@, at as int, i32_to_bytes(v as int)),
    no_unwind
{
    let u: u32 = if v < 0 {
        let low: u32 = (v - i32::MIN) as u32;
        low + 0x8000_0000
    } else {
        v as u32
    };
    write_u32(bytes, at, u);
}

/// Writes `v` as eight bytes that start at `at`.
pub(crate) fn write_u64(bytes: &mut [u8], at: usize, v: u64)
    requires
        at + 8 <= old(bytes)@.len(),
    ensures
        final(bytes)@ == splice(old(bytes)@, at as int, u64_to_bytes(v as int)),
    no_unwind
{
    proof {
        vstd::slice::axiom_spec_len(bytes);
    }
    write_u32(bytes, at, (v % 0x1_0000_0000) as u32);
    write_u32(bytes, at + 4, (v / 0x1_0000_0000) as u32);
    proof {
        lemma_to_bytes_len((v % 0x1_0000_0000) as int);
        lemma_to_bytes_len((v / 0x1_0000_0000) as int);
    }
}

} // verus!
