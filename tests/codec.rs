use nla_codec::decode::{
    parse_i32, parse_ipv6, parse_mac, parse_u128, parse_u16, parse_u32, parse_u64, parse_u8,
    read_field,
};
use nla_codec::encode::{
    emit_i32, emit_u128, emit_u16, emit_u32, emit_u64, emit_u8, emit_uint,
};
use nla_codec::errors::{DecodeError, EncodeError, NLAError};
use nla_codec::nla::{decode_nla, emit_nla, Nla, NLA_HEADER_SIZE, NLA_MAX_PAYLOAD};
use nla_codec::text::parse_string;

#[test]
fn scalar_widths_round_trip() {
    let b1 = [0x9Au8];
    let v = parse_u8(&b1).unwrap();
    assert_eq!(v, 0x9A);
    let mut out = Vec::new();
    emit_u8(&mut out, v);
    assert_eq!(out, b1.to_vec());

    let b2 = [0x12u8, 0x34];
    let v = parse_u16(&b2).unwrap();
    assert_eq!(v, 0x1234);
    let mut out = Vec::new();
    emit_u16(&mut out, v);
    assert_eq!(out, b2.to_vec());

    let b4 = [0xDEu8, 0xAD, 0xBE, 0xEF];
    let v = parse_u32(&b4).unwrap();
    assert_eq!(v, 0xDEADBEEF);
    let mut out = Vec::new();
    emit_u32(&mut out, v);
    assert_eq!(out, b4.to_vec());

    let b8 = [1u8, 2, 3, 4, 5, 6, 7, 8];
    let v = parse_u64(&b8).unwrap();
    assert_eq!(v, 0x0102030405060708);
    let mut out = Vec::new();
    emit_u64(&mut out, v);
    assert_eq!(out, b8.to_vec());

    let b16: Vec<u8> = (0u8..16).collect();
    let v = parse_u128(&b16).unwrap();
    assert_eq!(v, 0x000102030405060708090A0B0C0D0E0F);
    let mut out = Vec::new();
    emit_u128(&mut out, v);
    assert_eq!(out, b16);
}

#[test]
fn signed_round_trip() {
    let b = [0xFFu8, 0xFF, 0xFF, 0xFE];
    let v = parse_i32(&b).unwrap();
    assert_eq!(v, -2);
    let mut out = Vec::new();
    emit_i32(&mut out, v);
    assert_eq!(out, b.to_vec());
    assert_eq!(parse_i32(&[0x7F, 0xFF, 0xFF, 0xFF]).unwrap(), i32::MAX);
    assert_eq!(parse_i32(&[0x80, 0, 0, 0]).unwrap(), i32::MIN);
}

#[test]
fn decoders_read_only_the_front() {
    assert_eq!(parse_u16(&[0xAB, 0xCD, 0xEF]).unwrap(), 0xABCD);
    assert_eq!(parse_u8(&[7, 8]).unwrap(), 7);
}

#[test]
fn short_buffers_give_width_errors() {
    assert!(matches!(parse_u8(&[]), Err(DecodeError::InvalidU8)));
    assert!(matches!(parse_u16(&[1]), Err(DecodeError::InvalidU16)));
    assert!(matches!(parse_u32(&[1, 2, 3]), Err(DecodeError::InvalidU32)));
    assert!(matches!(parse_i32(&[1, 2, 3]), Err(DecodeError::InvalidI32)));
    assert!(matches!(parse_u64(&[0; 7]), Err(DecodeError::InvalidU64)));
    assert!(matches!(parse_u128(&[0; 15]), Err(DecodeError::InvalidU128)));
}

#[test]
fn named_field_reports_lengths() {
    let b = [1u8, 2, 3];
    match read_field(&b, 0, 4, "mtu") {
        Err(DecodeError::InvalidBufferLength { name, len, buffer_len }) => {
            assert_eq!(name, "mtu");
            assert_eq!(len, 4);
            assert_eq!(buffer_len, 3);
        }
        other => panic!("unexpected {:?}", other),
    }
    match read_field(&b, 5, 1, "flags") {
        Err(DecodeError::InvalidBufferLength { len, buffer_len, .. }) => {
            assert_eq!(len, 1);
            assert_eq!(buffer_len, 0);
        }
        other => panic!("unexpected {:?}", other),
    }
    assert_eq!(read_field(&b, 1, 2, "x").unwrap(), &[2u8, 3][..]);
}

#[test]
fn mac_address_lengths() {
    let mac = [0x00u8, 0x11, 0x22, 0x33, 0x44, 0x55];
    assert_eq!(parse_mac(&mac).unwrap(), mac);
    assert!(matches!(parse_mac(&mac[..5]), Err(DecodeError::InvalidMACAddress)));
    assert!(matches!(parse_mac(&[0u8; 7]), Err(DecodeError::InvalidMACAddress)));
}

#[test]
fn ipv6_address_lengths() {
    let addr: Vec<u8> = (0xF0u8..=0xFF).collect();
    let a = parse_ipv6(&addr).unwrap();
    assert_eq!(a.to_vec(), addr);
    assert!(matches!(parse_ipv6(&addr[..15]), Err(DecodeError::InvalidIPv6Address)));
}

#[test]
fn string_decoding() {
    let s = parse_string("eth0 ✓".as_bytes()).unwrap();
    assert_eq!(s, "eth0 ✓");
    assert_eq!(s.as_bytes(), "eth0 ✓".as_bytes());
    let with_nul = parse_string(b"lo\0").unwrap();
    assert_eq!(with_nul, "lo\0");
    assert_eq!(parse_string(&[]).unwrap(), "");
    assert!(matches!(parse_string(&[0x80]), Err(DecodeError::Utf8Error(_))));
    match parse_string(&[b'a', 0xC3]) {
        Err(DecodeError::Utf8Error(e)) => assert_eq!(e.utf8_error().valid_up_to(), 1),
        other => panic!("unexpected {:?}", other),
    }
}

#[test]
fn header_too_small() {
    assert_eq!(Nla::parse(&[0x08]).err(), Some(NLAError::BufferTooSmall { buffer_len: 1 }));
    assert_eq!(Nla::parse(&[]).err(), Some(NLAError::BufferTooSmall { buffer_len: 0 }));
}

#[test]
fn header_invalid_length() {
    assert_eq!(
        Nla::parse(&[0x03, 0x00, 0x01, 0x00]).err(),
        Some(NLAError::InvalidLength { nla_len: 3 })
    );
}

#[test]
fn header_length_mismatch() {
    assert_eq!(
        Nla::parse(&[0x09, 0x00, 0x01, 0x00, 1, 2, 3, 4]).err(),
        Some(NLAError::LengthMismatch { buffer_len: 8, nla_len: 9 })
    );
}

#[test]
fn header_error_wrapped_for_decoding() {
    match decode_nla(&[0x01, 0x00]) {
        Err(DecodeError::InvalidNLABuffer(e)) => {
            assert_eq!(e, NLAError::BufferTooSmall { buffer_len: 2 })
        }
        other => panic!("unexpected {:?}", other.err()),
    }
}

#[test]
fn decoding_twice_gives_same_result() {
    let buf = [0x08u8, 0x00, 0x02, 0x01, 1, 2, 3, 4, 9];
    let a = Nla::parse(&buf).unwrap();
    let b = Nla::parse(&buf).unwrap();
    assert_eq!((a.kind, a.length, a.payload), (b.kind, b.length, b.payload));
    assert_eq!(parse_u32(a.payload).unwrap(), parse_u32(b.payload).unwrap());
    assert_eq!(parse_string(&buf[4..8]).unwrap(), parse_string(&buf[4..8]).unwrap());
    assert_eq!(Nla::parse(&buf[..3]).err(), Nla::parse(&buf[..3]).err());
}

#[test]
fn end_to_end_attribute() {
    let buf = [0x08u8, 0x00, 0x01, 0x00, 0xAA, 0xBB, 0xCC, 0xDD];
    let nla = Nla::parse(&buf).unwrap();
    assert_eq!(nla.kind, 1);
    assert_eq!(nla.length, 8);
    assert_eq!(nla.payload, &[0xAA, 0xBB, 0xCC, 0xDD]);
    assert_eq!(parse_u32(nla.payload).unwrap(), 0xAABBCCDD);
}

#[test]
fn attribute_emit_and_parse() {
    let mut out = vec![0xEEu8];
    emit_nla(&mut out, 0x0203, b"abc").unwrap();
    assert_eq!(out, vec![0xEE, 7, 0, 0x03, 0x02, b'a', b'b', b'c']);
    let nla = Nla::parse(&out[1..]).unwrap();
    assert_eq!(nla.kind, 0x0203);
    assert_eq!(nla.length, 7);
    assert_eq!(nla.payload, b"abc");
    assert_eq!(NLA_HEADER_SIZE, 4);
}

#[test]
fn attribute_too_long_to_encode() {
    let mut out = vec![1u8];
    let big = vec![0u8; NLA_MAX_PAYLOAD + 1];
    let e = emit_nla(&mut out, 1, &big).unwrap_err();
    assert!(!e.message.is_empty());
    assert_eq!(out, vec![1u8]);
    let fits = vec![0u8; NLA_MAX_PAYLOAD];
    emit_nla(&mut out, 1, &fits).unwrap();
    assert_eq!(&out[1..3], &[0xFF, 0xFF]);
}

#[test]
fn uint_in_a_chosen_width() {
    let mut out = Vec::new();
    emit_uint(&mut out, 0x0102, 2).unwrap();
    emit_uint(&mut out, 5, 4).unwrap();
    assert_eq!(out, vec![1, 2, 0, 0, 0, 5]);
    assert!(emit_uint(&mut out, 0x100, 1).is_err());
    assert!(emit_uint(&mut out, 1, 3).is_err());
    assert_eq!(out.len(), 6);
    emit_uint(&mut out, u128::MAX, 16).unwrap();
    assert_eq!(out.len(), 22);
}

#[test]
fn error_constructors() {
    let e = EncodeError::new("bad value");
    assert_eq!(e.message, "bad value");
    let e = EncodeError::from(String::from("too wide"));
    assert_eq!(e.message, "too wide");
    match DecodeError::other("unknown attribute") {
        DecodeError::Other(m) => assert_eq!(m, "unknown attribute"),
        other => panic!("unexpected {:?}", other),
    }
    assert!(matches!(DecodeError::from(String::from("x")), DecodeError::Other(m) if m == "x"));
    assert!(matches!(
        DecodeError::from(NLAError::InvalidLength { nla_len: 2 }),
        DecodeError::InvalidNLABuffer(NLAError::InvalidLength { nla_len: 2 })
    ));
}
