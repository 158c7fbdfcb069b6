//! Byte-level building blocks of the stored encoding: big-endian integers of
//! fixed width and length-prefixed byte buffers, written into a growing output
//! and read back from a cursor over an input slice.

use vstd::prelude::*;

verus! {

/// Why a byte sequence could not be read back as a value.
#[derive(Clone, Copy, Debug, PartialEq, Eq, Structural)]
pub enum DecodeError {
    /// The input ended before the value was complete.
    InputTooShort,
    /// Bytes were left over after the value, or a number did not fit.
    InputTooLong,
    /// The bytes do not denote any value of the type.
    InvalidValue,
}

/// The eight big-endian bytes of `n`.
pub open spec fn u64_be(n: u64) -> Seq<u8> {
    seq![
        (n >> 56u64) as u8, (n >> 48u64) as u8, (n >> 40u64) as u8, (n >> 32u64) as u8,
        (n >> 24u64) as u8, (n >> 16u64) as u8, (n >> 8u64) as u8, n as u8,
    ]
}

/// The number that eight big-endian bytes denote.
pub open spec fn u64_from_be(b: Seq<u8>) -> u64
    recommends
        b.len() == 8,
{
    ((b[0] as u64) << 56u64) | ((b[1] as u64) << 48u64) | ((b[2] as u64) << 40u64) | ((
    b[3] as u64) << 32u64) | ((b[4] as u64) << 24u64) | ((b[5] as u64) << 16u64) | ((
    b[6] as u64) << 8u64) | (b[7] as u64)
}

/// The four big-endian bytes of `n`.
pub open spec fn u32_be(n: u32) -> Seq<u8> {
    seq![(n >> 24u32) as u8, (n >> 16u32) as u8, (n >> 8u32) as u8, n as u8]
}

/// The number that four big-endian bytes denote.
pub open spec fn u32_from_be(b: Seq<u8>) -> u32
    recommends
        b.len() == 4,
{
    ((b[0] as u32) << 24u32) | ((b[1] as u32) << 16u32) | ((b[2] as u32) << 8u32) | (b[3] as u32)
}

/// A byte buffer inside a larger encoding: its length in four bytes, then its bytes.
pub open spec fn nested_buffer(b: Seq<u8>) -> Seq<u8> {
    u32_be(b.len() as u32) + b
}

/// Reading back the bytes of a number gives the number.
pub proof fn lemma_u64_round_trip(n: u64)
    ensures
        u64_from_be(u64_be(n)) == n,
{
    assert(((((n >> 56u64) as u8) as u64) << 56u64) | ((((n >> 48u64) as u8) as u64) << 48u64)
        | ((((n >> 40u64) as u8) as u64) << 40u64) | ((((n >> 32u64) as u8) as u64) << 32u64)
        | ((((n >> 24u64) as u8) as u64) << 24u64) | ((((n >> 16u64) as u8) as u64) << 16u64)
        | ((((n >> 8u64) as u8) as u64) << 8u64) | ((n as u8) as u64) == n) by (bit_vector);
}

/// Reading back the bytes of a number gives the number.
pub proof fn lemma_u32_round_trip(n: u32)
    ensures
        u32_from_be(u32_be(n)) == n,
{
    assert(((((n >> 24u32) as u8) as u32) << 24u32) | ((((n >> 16u32) as u8) as u32) << 16u32)
        | ((((n >> 8u32) as u8) as u32) << 8u32) | ((n as u8) as u32) == n) by (bit_vector);
}

/// Every eight bytes are the bytes of the number they denote.
pub proof fn lemma_u64_canonical(b: Seq<u8>)
    requires
        b.len() == 8,
    ensures
        u64_be(u64_from_be(b)) == b,
{
    let (b0, b1, b2, b3, b4, b5, b6, b7) = (b[0], b[1], b[2], b[3], b[4], b[5], b[6], b[7]);
    let v = u64_from_be(b);
    assert(v == ((b0 as u64) << 56u64) | ((b1 as u64) << 48u64) | ((b2 as u64) << 40u64) | ((
    b3 as u64) << 32u64) | ((b4 as u64) << 24u64) | ((b5 as u64) << 16u64) | ((b6 as u64)
        << 8u64) | (b7 as u64));
    assert((v >> 56u64) as u8 == b0 && (v >> 48u64) as u8 == b1 && (v >> 40u64) as u8 == b2
        && (v >> 32u64) as u8 == b3 && (v >> 24u64) as u8 == b4 && (v >> 16u64) as u8 == b5
        && (v >> 8u64) as u8 == b6 && v as u8 == b7) by (bit_vector)
        requires
            v == ((b0 as u64) << 56u64) | ((b1 as u64) << 48u64) | ((b2 as u64) << 40u64) | ((
            b3 as u64) << 32u64) | ((b4 as u64) << 24u64) | ((b5 as u64) << 16u64) | ((
            b6 as u64) << 8u64) | (b7 as u64),
    ;
    assert(u64_be(v) =~= b);
}

/// Every four bytes are the bytes of the number they denote.
pub proof fn lemma_u32_canonical(b: Seq<u8>)
    requires
        b.len() == 4,
    ensures
        u32_be(u32_from_be(b)) == b,
{
    let (b0, b1, b2, b3) = (b[0], b[1], b[2], b[3]);
    let v = u32_from_be(b);
    assert(v == ((b0 as u32) << 24u32) | ((b1 as u32) << 16u32) | ((b2 as u32) << 8u32) | (
    b3 as u32));
    assert((v >> 24u32) as u8 == b0 && (v >> 16u32) as u8 == b1 && (v >> 8u32) as u8 == b2
        && v as u8 == b3) by (bit_vector)
        requires
            v == ((b0 as u32) << 24u32) | ((b1 as u32) << 16u32) | ((b2 as u32) << 8u32) | (
            b3 as u32),
    ;
    assert(u32_be(v) =~= b);
}

/// Appends the eight big-endian bytes of `n`.
pub fn push_u64(dest: &mut Vec<u8>, n: u64)
    ensures
        final(dest)@ == old(dest)@ + u64_be(n),
{
    dest.push((n >> 56u64) as u8);
    dest.push((n >> 48u64) as u8);
    dest.push((n >> 40u64) as u8);
    dest.push((n >> 32u64) as u8);
    dest.push((n >> 24u64) as u8);
    dest.push((n >> 16u64) as u8);
    dest.push((n >> 8u64) as u8);
    dest.push(n as u8);
    assert(final(dest)@ =~= old(dest)@ + u64_be(n));
}

/// Appends the four big-endian bytes of `n`.
pub fn push_u32(dest: &mut Vec<u8>, n: u32)
    ensures
        final(dest)@ == old(dest)@ + u32_be(n),
{
    dest.push((n >> 24u32) as u8);
    dest.push((n >> 16u32) as u8);
    dest.push((n >> 8u32) as u8);
    dest.push(n as u8);
    assert(dest@ =~= old(dest)@ + u32_be(n));
}

/// Appends the bytes of `src` as they are.
pub fn push_bytes(dest: &mut Vec<u8>, src: &[u8])
    ensures
        final(dest)@ == old(dest)@ + src@,
{
    let mut i: usize = 0;
    while i < src.len()
        invariant
            i <= src@.len(),
            dest@ == old(dest)@ + src@.subrange(0, i as int),
        decreases src@.len() - i,
    {
        dest.push(src[i]);
        i = i + 1;
        assert(dest@ =~= old(dest)@ + src@.subrange(0, i as int));
    }
    assert(src@.subrange(0, i as int) =~= src@);
}

/// Appends `src` as a buffer inside a larger encoding: length, then bytes.
pub fn push_nested_buffer(dest: &mut Vec<u8>, src: &[u8])
    requires
        src@.len() <= u32::MAX,
    ensures
        final(dest)@ == old(dest)@ + nested_buffer(src@),
{
    push_u32(dest, src.len() as u32);
    push_bytes(dest, src);
    assert(dest@ =~= old(dest)@ + nested_buffer(src@));
}

/// Reads eight big-endian bytes at `*pos` and moves past them.
pub fn read_u64(input: &[u8], pos: &mut usize) -> (r: Result<u64, DecodeError>)
    requires
        *old(pos) <= input@.len(),
    ensures
        *old(pos) + 8 <= input@.len() ==> r == Ok::<u64, DecodeError>(
            u64_from_be(input@.subrange(*old(pos) as int, *old(pos) + 8)),
        ) && *final(pos) == *old(pos) + 8,
        *old(pos) + 8 > input@.len() ==> r == Err::<u64, DecodeError>(DecodeError::InputTooShort)
            && *final(pos) == *old(pos),
{
    if input.len() - *pos < 8 {
        return Err(DecodeError::InputTooShort);
    }
    let p = *pos;
    let v: u64 = ((input[p] as u64) << 56u64) | ((input[p + 1] as u64) << 48u64) | ((input[p
        + 2] as u64) << 40u64) | ((input[p + 3] as u64) << 32u64) | ((input[p + 4] as u64)
        << 24u64) | ((input[p + 5] as u64) << 16u64) | ((input[p + 6] as u64) << 8u64) | (input[p
        + 7] as u64);
    *pos = p + 8;
    Ok(v)
}

/// Reads four big-endian bytes at `*pos` and moves past them.
pub fn read_u32(input: &[u8], pos: &mut usize) -> (r: Result<u32, DecodeError>)
    requires
        *old(pos) <= input@.len(),
    ensures
        *old(pos) + 4 <= input@.len() ==> r == Ok::<u32, DecodeError>(
            u32_from_be(input@.subrange(*old(pos) as int, *old(pos) + 4)),
        ) && *final(pos) == *old(pos) + 4,
        *old(pos) + 4 > input@.len() ==> r == Err::<u32, DecodeError>(DecodeError::InputTooShort)
            && *final(pos) == *old(pos),
{
    if input.len() - *pos < 4 {
        return Err(DecodeError::InputTooShort);
    }
    let p = *pos;
    let v: u32 = ((input[p] as u32) << 24u32) | ((input[p + 1] as u32) << 16u32) | ((input[p
        + 2] as u32) << 8u32) | (input[p + 3] as u32);
    *pos = p + 4;
    Ok(v)
}

/// Reads `n` bytes at `*pos` and moves past them.
pub fn read_bytes(input: &[u8], pos: &mut usize, n: usize) -> (r: Result<Vec<u8>, DecodeError>)
    requires
        *old(pos) <= input@.len(),
    ensures
        *old(pos) + n <= input@.len() ==> r is Ok && r->Ok_0@ == input@.subrange(
            *old(pos) as int,
            *old(pos) + n,
        ) && *final(pos) == *old(pos) + n,
        *old(pos) + n > input@.len() ==> r == Err::<Vec<u8>, DecodeError>(
            DecodeError::InputTooShort,
        ) && *final(pos) == *old(pos),
{
    if input.len() - *pos < n {
        return Err(DecodeError::InputTooShort);
    }
    let start = *pos;
    let mut out: Vec<u8> = Vec::with_capacity(n);
    let mut i: usize = 0;
    while i < n
        invariant
            i <= n,
            start + n <= input@.len(),
            input@.len() <= usize::MAX,
            out@ == input@.subrange(start as int, start + i),
        decreases n - i,
    {
        out.push(input[start + i]);
        i = i + 1;
        assert(out@ =~= input@.subrange(start as int, start + i));
    }
    *pos = start + n;
    Ok(out)
}

} // verus!
