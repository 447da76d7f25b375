//! The netlink attribute header: a length field, then a type field, each
//! two bytes with the low byte first, then the payload.
use vstd::prelude::*;
use crate::errors::{DecodeError, EncodeError, NLAError};

verus! {

/// Bytes in an attribute header; also the smallest valid attribute length.
pub const NLA_HEADER_SIZE: usize = 4;

/// The two-byte field at `i`, low byte first.
pub open spec fn le16_at(b: Seq<u8>, i: int) -> u16 {
    (b[i] as int + 256 * (b[i + 1] as int)) as u16
}

/// The low and high bytes of `v`.
pub open spec fn le16_bytes(v: u16) -> Seq<u8> {
    seq![(v % 256) as u8, (v / 256) as u8]
}

/// A parsed attribute: its type code, its declared length and its payload.
pub struct Nla<'a> {
    pub kind: u16,
    pub length: u16,
    pub payload: &'a [u8],
}

/// What parsing `b` as an attribute gives, checks in this order: room for
/// a header, a declared length of at least a header, a declared length
/// within the buffer. On success: (type, declared length, payload).
pub open spec fn nla_result(b: Seq<u8>) -> Result<(u16, u16, Seq<u8>), NLAError> {
    if b.len() < NLA_HEADER_SIZE {
        Err(NLAError::BufferTooSmall { buffer_len: b.len() as usize })
    } else if le16_at(b, 0) < NLA_HEADER_SIZE {
        Err(NLAError::InvalidLength { nla_len: le16_at(b, 0) })
    } else if le16_at(b, 0) > b.len() {
        Err(NLAError::LengthMismatch { buffer_len: b.len() as usize, nla_len: le16_at(b, 0) })
    } else {
        Ok((le16_at(b, 2), le16_at(b, 0), b.subrange(NLA_HEADER_SIZE as int, le16_at(b, 0) as int)))
    }
}

/// Whether `r` is what [`nla_result`] gives for `b`.
pub open spec fn is_nla_result(r: Result<Nla, NLAError>, b: Seq<u8>) -> bool {
    match (r, nla_result(b)) {
        (Ok(a), Ok((kind, length, payload))) => a.kind == kind && a.length == length && a.payload@
            == payload,
        (Err(e), Err(f)) => e == f,
        _ => false,
    }
}

fn read_le16(buf: &[u8], i: usize) -> (r: u16)
    requires
        i + 1 < buf@.len(),
    ensures
        r == le16_at(buf@, i as int),
{
    buf[i] as u16 + 256 * (buf[i + 1] as u16)
}

impl<'a> Nla<'a> {
    /// Parses the attribute at the front of `buf`.
    pub fn parse(buf: &'a [u8]) -> (r: Result<Nla<'a>, NLAError>)
        ensures
            is_nla_result(r, buf@),
    {
        let n = buf.len();
        if n < NLA_HEADER_SIZE {
            return Err(NLAError::BufferTooSmall { buffer_len: n });
        }
        let length = read_le16(buf, 0);
        if (length as usize) < NLA_HEADER_SIZE {
            return Err(NLAError::InvalidLength { nla_len: length });
        }
        if length as usize > n {
            return Err(NLAError::LengthMismatch { buffer_len: n, nla_len: length });
        }
        let kind = read_le16(buf, 2);
        let payload = vstd::slice::slice_subrange(buf, NLA_HEADER_SIZE, length as usize);
        Ok(Nla { kind, length, payload })
    }
}

/// Parses the attribute at the front of `buf`; a malformed header is
/// reported as [`DecodeError::InvalidNLABuffer`] carrying its cause.
pub fn decode_nla<'a>(buf: &'a [u8]) -> (r: Result<Nla<'a>, DecodeError>)
    ensures
        match (r, nla_result(buf@)) {
            (Ok(a), Ok((kind, length, payload))) => a.kind == kind && a.length == length
                && a.payload@ == payload,
            (Err(e), Err(f)) => e == DecodeError::InvalidNLABuffer(f),
            _ => false,
        },
{
    match Nla::parse(buf) {
        Ok(a) => Ok(a),
        Err(e) => Err(DecodeError::from(e)),
    }
}

/// Largest payload whose attribute length still fits the length field.
pub const NLA_MAX_PAYLOAD: usize = 65531;

/// Appends an attribute of type `kind` holding `payload`. Fails, leaving
/// `out` as it was, when the total length would not fit in two bytes.
pub fn emit_nla(out: &mut Vec<u8>, kind: u16, payload: &[u8]) -> (r: Result<(), EncodeError>)
    ensures
        r is Ok <==> payload@.len() <= NLA_MAX_PAYLOAD,
        r is Ok ==> final(out)@ == old(out)@ + le16_bytes((payload@.len() + NLA_HEADER_SIZE) as u16)
            + le16_bytes(kind) + payload@,
        r is Err ==> final(out)@ == old(out)@,
{
    if payload.len() > NLA_MAX_PAYLOAD {
        return Err(EncodeError::new("attribute payload does not fit in the length field"));
    }
    let length: u16 = (payload.len() + NLA_HEADER_SIZE) as u16;
    out.push((length % 256) as u8);
    out.push((length / 256) as u8);
    out.push((kind % 256) as u8);
    out.push((kind / 256) as u8);
    let mut i: usize = 0;
    let ghost start = out@;
    while i < payload.len()
        invariant
            i <= payload@.len(),
            out@ == start + payload@.subrange(0, i as int),
        decreases payload@.len() - i,
    {
        out.push(payload[i]);
        i = i + 1;
        proof {
            assert(out@ =~= start + payload@.subrange(0, i as int));
        }
    }
    proof {
        assert(payload@.subrange(0, i as int) =~= payload@);
        assert(start =~= old(out)@ + le16_bytes(length) + le16_bytes(kind));
    }
    Ok(())
}

} // verus!
