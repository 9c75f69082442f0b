//! Taking fixed-width fields off the front of a packet body.
//!
//! All multi-byte integers on the wire are little-endian and 32 bits wide.

use crate::node::HandleError;
use vstd::prelude::*;

verus! {

/// The number that four little-endian bytes stand for.
pub open spec fn u32_from_le(bytes: Seq<u8>) -> u32
    recommends
        bytes.len() == 4,
{
    let b0 = bytes[0] as int;
    let b1 = bytes[1] as int;
    let b2 = bytes[2] as int;
    let b3 = bytes[3] as int;
    (b0 + 0x100 * b1 + 0x1_0000 * b2 + 0x100_0000 * b3) as u32
}

/// The four little-endian bytes of a number.
pub open spec fn u32_to_le(x: u32) -> Seq<u8> {
    seq![
        (x % 0x100) as u8,
        ((x / 0x100) % 0x100) as u8,
        ((x / 0x1_0000) % 0x100) as u8,
        (x / 0x100_0000) as u8,
    ]
}

/// Reading back the bytes written for a number gives the number.
pub proof fn lemma_u32_le_round_trip(x: u32)
    ensures
        u32_to_le(x).len() == 4,
        u32_from_le(u32_to_le(x)) == x,
{
}

/// The four little-endian bytes of `x`.
pub fn u32_le_bytes(x: u32) -> (bytes: [u8; 4])
    ensures
        bytes@ == u32_to_le(x),
{
    let bytes: [u8; 4] = [
        (x % 0x100) as u8,
        ((x / 0x100) % 0x100) as u8,
        ((x / 0x1_0000) % 0x100) as u8,
        (x / 0x100_0000) as u8,
    ];
    assert(bytes@ =~= u32_to_le(x));
    bytes
}

/// Appends the four little-endian bytes of `x` to `out`.
pub fn push_u32(out: &mut Vec<u8>, x: u32)
    ensures
        final(out)@ == old(out)@ + u32_to_le(x),
{
    let bytes = u32_le_bytes(x);
    out.extend_from_slice(bytes.as_slice());
    assert(out@ =~= old(out)@ + u32_to_le(x));
}

/// A run of `n` zero bytes.
pub open spec fn zero_padding(n: nat) -> Seq<u8> {
    Seq::new(n, |i: int| 0u8)
}

/// Appends `n` zero bytes to `out`, which must have room for them.
pub fn push_zero_padding(out: &mut Vec<u8>, n: usize)
    requires
        old(out)@.len() + n <= usize::MAX,
    ensures
        final(out)@ == old(out)@ + zero_padding(n as nat),
{
    let mut i: usize = 0;
    while i < n
        invariant
            i <= n,
            old(out)@.len() + n <= usize::MAX,
            out@ == old(out)@ + zero_padding(i as nat),
        decreases n - i,
    {
        out.push(0);
        i = i + 1;
        assert(out@ =~= old(out)@ + zero_padding(i as nat));
    }
}

/// What is left of a body after its first `n` bytes.
pub open spec fn rest_after(body: Seq<u8>, n: int) -> Seq<u8> {
    body.subrange(n, body.len() as int)
}

/// Splits a little-endian `u32` off the front of `xs`.
///
/// Fails with `PacketTruncated` exactly when fewer than four bytes are left.
pub fn peel_u32(xs: &[u8]) -> (r: Result<(u32, &[u8]), HandleError>)
    ensures
        match r {
            Ok((value, rest)) => {
                &&& xs@.len() >= 4
                &&& value == u32_from_le(xs@.subrange(0, 4))
                &&& rest@ == rest_after(xs@, 4)
            },
            Err(e) => xs@.len() < 4 && e == HandleError::PacketTruncated,
        },
{
    if xs.len() < 4 {
        return Err(HandleError::PacketTruncated);
    }
    let (first_4, rest) = xs.split_at(4);
    let b0 = first_4[0] as u32;
    let b1 = first_4[1] as u32;
    let b2 = first_4[2] as u32;
    let b3 = first_4[3] as u32;
    Ok((b0 + 0x100 * b1 + 0x1_0000 * b2 + 0x100_0000 * b3, rest))
}

/// Splits the first `len` bytes off the front of `xs`.
///
/// Fails with `PacketTruncated` exactly when fewer than `len` bytes are left.
pub fn peel_slice(xs: &[u8], len: usize) -> (r: Result<(&[u8], &[u8]), HandleError>)
    ensures
        match r {
            Ok((front, rest)) => {
                &&& xs@.len() >= len
                &&& front@ == xs@.subrange(0, len as int)
                &&& rest@ == rest_after(xs@, len as int)
            },
            Err(e) => xs@.len() < len && e == HandleError::PacketTruncated,
        },
{
    if xs.len() < len {
        return Err(HandleError::PacketTruncated);
    }
    Ok(xs.split_at(len))
}

/// Checks that nothing is left of a body.
///
/// Fails with `PacketContinuedUnexpectedly` exactly when a byte is left.
pub fn peel_end(xs: &[u8]) -> (r: Result<(), HandleError>)
    ensures
        match r {
            Ok(_) => xs@.len() == 0,
            Err(e) => xs@.len() != 0 && e == HandleError::PacketContinuedUnexpectedly,
        },
{
    if xs.len() != 0 {
        Err(HandleError::PacketContinuedUnexpectedly)
    } else {
        Ok(())
    }
}

} // verus!
