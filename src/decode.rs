//! Decoders for the values an attribute payload may carry.
//!
//! Integers are read most significant byte first. Each decoder checks the
//! length of the buffer before it reads a byte and reports a shortfall with
//! its own error variant.
use vstd::prelude::*;
use crate::bytes::{be_value, read_be};
use crate::errors::DecodeError;

verus! {

/// The bytes `[offset, offset + len)` of `b`, or why they are not there.
pub open spec fn field_result(b: Seq<u8>, offset: nat, len: nat, name: &'static str) -> Result<
    Seq<u8>,
    DecodeError,
> {
    if offset + len <= b.len() {
        Ok(b.subrange(offset as int, (offset + len) as int))
    } else {
        Err(
            DecodeError::InvalidBufferLength {
                name,
                len: len as usize,
                buffer_len: if offset <= b.len() {
                    (b.len() - offset) as usize
                } else {
                    0
                },
            },
        )
    }
}

/// Reads the field `name` of `len` bytes at `offset`, never past the end of `buf`.
pub fn read_field<'a>(buf: &'a [u8], offset: usize, len: usize, name: &'static str) -> (r: Result<
    &'a [u8],
    DecodeError,
>)
    ensures
        match (r, field_result(buf@, offset as nat, len as nat, name)) {
            (Ok(s), Ok(t)) => s@ == t,
            (Err(e), Err(f)) => e == f,
            _ => false,
        },
{
    let n = buf.len();
    if offset <= n && len <= n - offset {
        Ok(vstd::slice::slice_subrange(buf, offset, offset + len))
    } else {
        let avail: usize = if offset <= n {
            n - offset
        } else {
            0
        };
        Err(DecodeError::InvalidBufferLength { name, len, buffer_len: avail })
    }
}

/// The first `w` bytes of `b` read as a number, when there are that many.
pub open spec fn front_value(b: Seq<u8>, w: nat) -> nat {
    be_value(b.subrange(0, w as int))
}

/// What decoding a `u8` from `b` gives: the first byte, or the width's error.
pub open spec fn u8_result(b: Seq<u8>) -> Result<u8, DecodeError> {
    if b.len() < 1 {
        Err(DecodeError::InvalidU8)
    } else {
        Ok(front_value(b, 1) as u8)
    }
}

/// What decoding a `u16` from `b` gives: the first two bytes, or the width's error.
pub open spec fn u16_result(b: Seq<u8>) -> Result<u16, DecodeError> {
    if b.len() < 2 {
        Err(DecodeError::InvalidU16)
    } else {
        Ok(front_value(b, 2) as u16)
    }
}

/// What decoding a `u32` from `b` gives: the first four bytes, or the width's error.
pub open spec fn u32_result(b: Seq<u8>) -> Result<u32, DecodeError> {
    if b.len() < 4 {
        Err(DecodeError::InvalidU32)
    } else {
        Ok(front_value(b, 4) as u32)
    }
}

/// What decoding a `u64` from `b` gives: the first eight bytes, or the width's error.
pub open spec fn u64_result(b: Seq<u8>) -> Result<u64, DecodeError> {
    if b.len() < 8 {
        Err(DecodeError::InvalidU64)
    } else {
        Ok(front_value(b, 8) as u64)
    }
}

/// What decoding a `u128` from `b` gives: the first sixteen bytes, or the width's error.
pub open spec fn u128_result(b: Seq<u8>) -> Result<u128, DecodeError> {
    if b.len() < 16 {
        Err(DecodeError::InvalidU128)
    } else {
        Ok(front_value(b, 16) as u128)
    }
}

/// Four bytes read as a two's complement number.
pub open spec fn i32_result(b: Seq<u8>) -> Result<i32, DecodeError> {
    if b.len() < 4 {
        Err(DecodeError::InvalidI32)
    } else if front_value(b, 4) < 0x8000_0000 {
        Ok(front_value(b, 4) as i32)
    } else {
        Ok((front_value(b, 4) - 0x1_0000_0000) as i32)
    }
}

/// The first `w` bytes spell a number below `256^w`.
proof fn lemma_front_value_bound(b: Seq<u8>, w: nat)
    requires
        w <= b.len(),
    ensures
        front_value(b, w) < crate::bytes::pow256(w),
{
    crate::bytes::lemma_be_value_bound(b.subrange(0, w as int));
}

/// Reads a `u8` from the front of `buf`.
pub fn parse_u8(buf: &[u8]) -> (r: Result<u8, DecodeError>)
    ensures
        r == u8_result(buf@),
{
    if buf.len() < 1 {
        return Err(DecodeError::InvalidU8);
    }
    proof {
        lemma_front_value_bound(buf@, 1);
        reveal_with_fuel(crate::bytes::pow256, 2);
    }
    Ok(read_be(buf, 1) as u8)
}

/// Reads a big-endian `u16` from the front of `buf`.
pub fn parse_u16(buf: &[u8]) -> (r: Result<u16, DecodeError>)
    ensures
        r == u16_result(buf@),
{
    if buf.len() < 2 {
        return Err(DecodeError::InvalidU16);
    }
    proof {
        lemma_front_value_bound(buf@, 2);
        reveal_with_fuel(crate::bytes::pow256, 3);
    }
    Ok(read_be(buf, 2) as u16)
}

/// Reads a big-endian `u32` from the front of `buf`.
pub fn parse_u32(buf: &[u8]) -> (r: Result<u32, DecodeError>)
    ensures
        r == u32_result(buf@),
{
    if buf.len() < 4 {
        return Err(DecodeError::InvalidU32);
    }
    proof {
        lemma_front_value_bound(buf@, 4);
        reveal_with_fuel(crate::bytes::pow256, 5);
    }
    Ok(read_be(buf, 4) as u32)
}

/// Reads a big-endian `u64` from the front of `buf`.
pub fn parse_u64(buf: &[u8]) -> (r: Result<u64, DecodeError>)
    ensures
        r == u64_result(buf@),
{
    if buf.len() < 8 {
        return Err(DecodeError::InvalidU64);
    }
    proof {
        lemma_front_value_bound(buf@, 8);
        reveal_with_fuel(crate::bytes::pow256, 9);
    }
    Ok(read_be(buf, 8) as u64)
}

/// Reads a big-endian `u128` from the front of `buf`.
pub fn parse_u128(buf: &[u8]) -> (r: Result<u128, DecodeError>)
    ensures
        r == u128_result(buf@),
{
    if buf.len() < 16 {
        return Err(DecodeError::InvalidU128);
    }
    proof {
        lemma_front_value_bound(buf@, 16);
        reveal_with_fuel(crate::bytes::pow256, 17);
    }
    Ok(read_be(buf, 16))
}

/// Reads a big-endian two's complement `i32` from the front of `buf`.
pub fn parse_i32(buf: &[u8]) -> (r: Result<i32, DecodeError>)
    ensures
        r == i32_result(buf@),
{
    if buf.len() < 4 {
        return Err(DecodeError::InvalidI32);
    }
    proof {
        lemma_front_value_bound(buf@, 4);
        reveal_with_fuel(crate::bytes::pow256, 5);
    }
    let u: u128 = read_be(buf, 4);
    if u < 0x8000_0000 {
        Ok(u as i32)
    } else {
        let s: i64 = u as i64 - 0x1_0000_0000i64;
        Ok(s as i32)
    }
}

/// What decoding a MAC address from `b` gives.
pub open spec fn mac_result(b: Seq<u8>) -> Result<Seq<u8>, DecodeError> {
    if b.len() != 6 {
        Err(DecodeError::InvalidMACAddress)
    } else {
        Ok(b)
    }
}

/// What decoding an IPv6 address from `b` gives.
pub open spec fn ipv6_result(b: Seq<u8>) -> Result<Seq<u8>, DecodeError> {
    if b.len() != 16 {
        Err(DecodeError::InvalidIPv6Address)
    } else {
        Ok(b)
    }
}

/// Reads a MAC address: `buf` must hold exactly six bytes, taken as they are.
pub fn parse_mac(buf: &[u8]) -> (r: Result<[u8; 6], DecodeError>)
    ensures
        match (r, mac_result(buf@)) {
            (Ok(a), Ok(s)) => a@ == s,
            (Err(e), Err(f)) => e == f,
            _ => false,
        },
{
    if buf.len() != 6 {
        return Err(DecodeError::InvalidMACAddress);
    }
    let a: [u8; 6] = [buf[0], buf[1], buf[2], buf[3], buf[4], buf[5]];
    assert(a@ =~= buf@);
    Ok(a)
}

/// Reads an IPv6 address: `buf` must hold exactly sixteen bytes, taken as they are.
pub fn parse_ipv6(buf: &[u8]) -> (r: Result<[u8; 16], DecodeError>)
    ensures
        match (r, ipv6_result(buf@)) {
            (Ok(a), Ok(s)) => a@ == s,
            (Err(e), Err(f)) => e == f,
            _ => false,
        },
{
    if buf.len() != 16 {
        return Err(DecodeError::InvalidIPv6Address);
    }
    let a: [u8; 16] = [
        buf[0],
        buf[1],
        buf[2],
        buf[3],
        buf[4],
        buf[5],
        buf[6],
        buf[7],
        buf[8],
        buf[9],
        buf[10],
        buf[11],
        buf[12],
        buf[13],
        buf[14],
        buf[15],
    ];
    assert(a@ =~= buf@);
    Ok(a)
}

} // verus!
