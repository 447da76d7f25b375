//! Properties that relate several functions of the codec, proved over the
//! spec functions their contracts use.
use vstd::prelude::*;
use vstd::utf8::{valid_utf8, decode_utf8};
use crate::bytes::{be_bytes, pow256, lemma_bytes_of_value, lemma_value_of_bytes, lemma_be_value_bound, lemma_be_bytes_len};
use crate::decode::{front_value, field_result, u8_result, u16_result, u32_result, u64_result, u128_result, i32_result};
use crate::encode::{is_scalar_width, i32_bits};
use crate::errors::{DecodeError, NLAError};
use crate::nla::{Nla, NLA_HEADER_SIZE, NLA_MAX_PAYLOAD, le16_at, le16_bytes, nla_result, is_nla_result};

verus! {

/// For every scalar width, a buffer of exactly that many bytes decodes, and
/// encoding the decoded value gives the buffer back.
pub proof fn law_decode_then_encode(b: Seq<u8>)
    requires
        is_scalar_width(b.len()),
    ensures
        b.len() == 1 ==> u8_result(b) is Ok && be_bytes(u8_result(b)->Ok_0 as nat, 1) == b,
        b.len() == 2 ==> u16_result(b) is Ok && be_bytes(u16_result(b)->Ok_0 as nat, 2) == b,
        b.len() == 4 ==> u32_result(b) is Ok && be_bytes(u32_result(b)->Ok_0 as nat, 4) == b,
        b.len() == 4 ==> i32_result(b) is Ok && be_bytes(i32_bits(i32_result(b)->Ok_0), 4) == b,
        b.len() == 8 ==> u64_result(b) is Ok && be_bytes(u64_result(b)->Ok_0 as nat, 8) == b,
        b.len() == 16 ==> u128_result(b) is Ok && be_bytes(u128_result(b)->Ok_0 as nat, 16) == b,
{
    assert(b.subrange(0, b.len() as int) =~= b);
    lemma_bytes_of_value(b);
    lemma_be_value_bound(b);
    reveal_with_fuel(pow256, 17);
}

/// For every scalar width, encoding a value and decoding the bytes gives
/// the value back.
pub proof fn law_encode_then_decode(v: nat, w: nat)
    requires
        is_scalar_width(w),
        v < pow256(w),
    ensures
        be_bytes(v, w).len() == w,
        front_value(be_bytes(v, w), w) == v,
        w == 1 ==> u8_result(be_bytes(v, w)) == Ok::<u8, DecodeError>(v as u8),
        w == 2 ==> u16_result(be_bytes(v, w)) == Ok::<u16, DecodeError>(v as u16),
        w == 4 ==> u32_result(be_bytes(v, w)) == Ok::<u32, DecodeError>(v as u32),
        w == 8 ==> u64_result(be_bytes(v, w)) == Ok::<u64, DecodeError>(v as u64),
        w == 16 ==> u128_result(be_bytes(v, w)) == Ok::<u128, DecodeError>(v as u128),
{
    lemma_be_bytes_len(v, w);
    lemma_value_of_bytes(v, w);
    assert(be_bytes(v, w).subrange(0, w as int) =~= be_bytes(v, w));
}

/// A signed value survives encoding and decoding.
pub proof fn law_i32_encode_then_decode(v: i32)
    ensures
        i32_result(be_bytes(i32_bits(v), 4)) == Ok::<i32, DecodeError>(v),
{
    reveal_with_fuel(pow256, 5);
    law_encode_then_decode(i32_bits(v), 4);
}

/// For every scalar width, a buffer shorter than the width fails with that
/// width's own error, and the named-field reader reports the width as the
/// needed length and the buffer's length as what is available.
pub proof fn law_short_buffer(b: Seq<u8>, w: nat, name: &'static str)
    requires
        is_scalar_width(w),
        b.len() < w,
    ensures
        w == 1 ==> u8_result(b) == Err::<u8, DecodeError>(DecodeError::InvalidU8),
        w == 2 ==> u16_result(b) == Err::<u16, DecodeError>(DecodeError::InvalidU16),
        w == 4 ==> u32_result(b) == Err::<u32, DecodeError>(DecodeError::InvalidU32),
        w == 4 ==> i32_result(b) == Err::<i32, DecodeError>(DecodeError::InvalidI32),
        w == 8 ==> u64_result(b) == Err::<u64, DecodeError>(DecodeError::InvalidU64),
        w == 16 ==> u128_result(b) == Err::<u128, DecodeError>(DecodeError::InvalidU128),
        field_result(b, 0, w, name) == Err::<Seq<u8>, DecodeError>(
            DecodeError::InvalidBufferLength { name, len: w as usize, buffer_len: b.len() as usize },
        ),
{
}

/// Header checks come in a fixed order: a buffer too short for a header is
/// reported as such whatever it holds; then a declared length below the
/// header size; then a declared length beyond the buffer.
pub proof fn law_header_precedence(b: Seq<u8>)
    ensures
        b.len() < NLA_HEADER_SIZE ==> nla_result(b) == Err::<(u16, u16, Seq<u8>), NLAError>(
            NLAError::BufferTooSmall { buffer_len: b.len() as usize },
        ),
        b.len() >= NLA_HEADER_SIZE && le16_at(b, 0) < NLA_HEADER_SIZE ==> nla_result(b) == Err::<
            (u16, u16, Seq<u8>),
            NLAError,
        >(NLAError::InvalidLength { nla_len: le16_at(b, 0) }),
        b.len() >= NLA_HEADER_SIZE && le16_at(b, 0) > b.len() ==> nla_result(b) == Err::<
            (u16, u16, Seq<u8>),
            NLAError,
        >(NLAError::LengthMismatch { buffer_len: b.len() as usize, nla_len: le16_at(b, 0) }),
        nla_result(b) is Ok ==> nla_result(b)->Ok_0.2.len() == le16_at(b, 0) - NLA_HEADER_SIZE,
{
}

/// Parsing the same bytes twice gives the same attribute or the same error.
pub proof fn law_header_parse_repeatable(b: Seq<u8>, r1: Result<Nla, NLAError>, r2: Result<Nla, NLAError>)
    requires
        is_nla_result(r1, b),
        is_nla_result(r2, b),
    ensures
        r1 is Ok <==> r2 is Ok,
        r1 is Ok ==> r1->Ok_0.kind == r2->Ok_0.kind && r1->Ok_0.length == r2->Ok_0.length
            && r1->Ok_0.payload@ == r2->Ok_0.payload@,
        r1 is Err ==> r1 == r2,
{
}

/// Decoding the same bytes twice as a string gives the same text, or fails
/// both times.
pub proof fn law_string_repeatable(b: Seq<u8>, s1: Seq<char>, s2: Seq<char>)
    requires
        valid_utf8(b),
        s1 == decode_utf8(b),
        s2 == decode_utf8(b),
    ensures
        s1 == s2,
{
}

/// An attribute written by the encoder parses back to its type, its length
/// and its payload.
pub proof fn law_attribute_round_trip(kind: u16, payload: Seq<u8>)
    requires
        payload.len() <= NLA_MAX_PAYLOAD,
    ensures
        ({
            let len = (payload.len() + NLA_HEADER_SIZE) as u16;
            nla_result(le16_bytes(len) + le16_bytes(kind) + payload) == Ok::<
                (u16, u16, Seq<u8>),
                NLAError,
            >((kind, len, payload))
        }),
{
    let len = (payload.len() + NLA_HEADER_SIZE) as u16;
    let b = le16_bytes(len) + le16_bytes(kind) + payload;
    assert(le16_at(b, 0) == len);
    assert(le16_at(b, 2) == kind);
    assert(b.subrange(NLA_HEADER_SIZE as int, len as int) =~= payload);
}

} // verus!
