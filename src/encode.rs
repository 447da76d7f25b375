//! Encoders: each writes a value as the bytes its decoder reads.
use vstd::prelude::*;
use crate::bytes::{be_bytes, pow256, write_be};
use crate::errors::EncodeError;

verus! {

/// The scalar widths the codec knows, in bytes.
pub open spec fn is_scalar_width(w: nat) -> bool {
    w == 1 || w == 2 || w == 4 || w == 8 || w == 16
}

/// The bit pattern of `v` read as an unsigned number.
pub open spec fn i32_bits(v: i32) -> nat {
    if v >= 0 {
        v as nat
    } else {
        (v + 0x1_0000_0000) as nat
    }
}

/// Appends `v`.
pub fn emit_u8(out: &mut Vec<u8>, v: u8)
    ensures
        final(out)@ == old(out)@ + be_bytes(v as nat, 1),
{
    proof {
        reveal_with_fuel(pow256, 2);
    }
    write_be(out, v as u128, 1);
}

/// Appends `v`, most significant byte first.
pub fn emit_u16(out: &mut Vec<u8>, v: u16)
    ensures
        final(out)@ == old(out)@ + be_bytes(v as nat, 2),
{
    proof {
        reveal_with_fuel(pow256, 3);
    }
    write_be(out, v as u128, 2);
}

/// Appends `v`, most significant byte first.
pub fn emit_u32(out: &mut Vec<u8>, v: u32)
    ensures
        final(out)@ == old(out)@ + be_bytes(v as nat, 4),
{
    proof {
        reveal_with_fuel(pow256, 5);
    }
    write_be(out, v as u128, 4);
}

/// Appends `v`, most significant byte first.
pub fn emit_u64(out: &mut Vec<u8>, v: u64)
    ensures
        final(out)@ == old(out)@ + be_bytes(v as nat, 8),
{
    proof {
        reveal_with_fuel(pow256, 9);
    }
    write_be(out, v as u128, 8);
}

/// Appends `v`, most significant byte first.
pub fn emit_u128(out: &mut Vec<u8>, v: u128)
    ensures
        final(out)@ == old(out)@ + be_bytes(v as nat, 16),
{
    proof {
        reveal_with_fuel(pow256, 17);
    }
    write_be(out, v, 16);
}

/// Appends `v` in two's complement, most significant byte first.
pub fn emit_i32(out: &mut Vec<u8>, v: i32)
    ensures
        final(out)@ == old(out)@ + be_bytes(i32_bits(v), 4),
{
    proof {
        reveal_with_fuel(pow256, 5);
    }
    let bits: u128 = if v >= 0 {
        v as u128
    } else {
        (v as i64 + 0x1_0000_0000i64) as u128
    };
    write_be(out, bits, 4);
}

/// Appends `v` in a field of `width` bytes, most significant byte first.
/// Fails, leaving `out` as it was, when `width` is not a scalar width or
/// `v` does not fit in it.
pub fn emit_uint(out: &mut Vec<u8>, v: u128, width: usize) -> (r: Result<(), EncodeError>)
    ensures
        r is Ok <==> is_scalar_width(width as nat) && v < pow256(width as nat),
        r is Ok ==> final(out)@ == old(out)@ + be_bytes(v as nat, width as nat),
        r is Err ==> final(out)@ == old(out)@,
{
    if !(width == 1 || width == 2 || width == 4 || width == 8 || width == 16) {
        return Err(EncodeError::new("not a scalar width"));
    }
    proof {
        reveal_with_fuel(pow256, 17);
    }
    if width < 16 {
        let limit: u128 = if width == 1 {
            0x100
        } else if width == 2 {
            0x1_0000
        } else if width == 4 {
            0x1_0000_0000
        } else {
            0x1_0000_0000_0000_0000
        };
        if v >= limit {
            return Err(EncodeError::new("value does not fit in the field"));
        }
    }
    write_be(out, v, width);
    Ok(())
}

} // verus!
