use block_codec::bigendian::{be_length, push_be, read_be};
use block_codec::codec::{decode_exact, encode, try_encode, Rlp};
use block_codec::error::Error;
use block_codec::string::{bytes_length, decode_bytes, encode_bytes};

fn string_of(payload: &[u8]) -> Vec<u8> {
    let mut out = Vec::new();
    encode_bytes(payload, &mut out);
    out
}

#[test]
fn big_endian_digits_are_minimal() {
    let cases: [(u64, &[u8]); 6] = [
        (0, &[]),
        (1, &[1]),
        (255, &[255]),
        (256, &[1, 0]),
        (0x0102_0304, &[1, 2, 3, 4]),
        (u64::MAX, &[0xff; 8]),
    ];
    for (n, digits) in cases {
        let mut out = vec![0xaa];
        push_be(n, &mut out);
        assert_eq!(&out[1..], digits);
        assert_eq!(be_length(n), digits.len());
        assert_eq!(read_be(digits), n);
    }
}

#[test]
fn read_be_keeps_leading_zeros_out_of_the_value() {
    assert_eq!(read_be(&[0, 0, 1]), 1);
    assert_eq!(read_be(&[0, 1, 0]), 256);
}

#[test]
fn uint_encodings_are_exact() {
    assert_eq!(encode(&0u64), vec![0x80]);
    assert_eq!(encode(&1u64), vec![0x01]);
    assert_eq!(encode(&0x7fu64), vec![0x7f]);
    assert_eq!(encode(&0x80u64), vec![0x81, 0x80]);
    assert_eq!(encode(&0x0400u64), vec![0x82, 0x04, 0x00]);
    assert_eq!(
        encode(&u64::MAX),
        vec![0x88, 0xff, 0xff, 0xff, 0xff, 0xff, 0xff, 0xff, 0xff]
    );
}

#[test]
fn uint_encode_appends_to_what_is_there() {
    let mut out = vec![0xde, 0xad];
    0x1234u64.encode(&mut out);
    assert_eq!(out, vec![0xde, 0xad, 0x82, 0x12, 0x34]);
}

#[test]
fn uint_length_is_the_length_of_the_encoding() {
    for x in [0u64, 1, 0x7f, 0x80, 0xff, 0x100, 0xffff_ffff, u64::MAX] {
        assert_eq!(x.length(), encode(&x).len());
        assert_eq!(x.checked_length(), Some(encode(&x).len()));
        assert_eq!(try_encode(&x), Some(encode(&x)));
    }
}

#[test]
fn uint_round_trips() {
    for x in [0u64, 1, 0x7f, 0x80, 0xff, 0x100, 0xdead_beef, u64::MAX - 1, u64::MAX] {
        let bytes = encode(&x);
        assert_eq!(u64::decode(&bytes), Ok((x, bytes.len())));
        assert_eq!(decode_exact::<u64>(&bytes), Ok(x));
    }
}

#[test]
fn uint_decode_leaves_what_follows() {
    assert_eq!(u64::decode(&[0x82, 0x04, 0x00, 0x99, 0x98]), Ok((0x0400, 3)));
    assert_eq!(u64::decode(&[0x05, 0x06]), Ok((5, 1)));
    assert_eq!(decode_exact::<u64>(&[0x05, 0x06]), Err(Error::TrailingBytes));
}

#[test]
fn uint_agrees_with_alloy_rlp() {
    let mut x: u64 = 1;
    for _ in 0..200 {
        x = x.wrapping_mul(6364136223846793005).wrapping_add(1442695040888963407);
        for shift in [0u32, 8, 17, 33, 56, 63] {
            let v = x >> shift;
            assert_eq!(encode(&v), alloy_rlp::encode(v));
        }
    }
}

#[test]
fn uint_with_a_leading_zero_is_rejected() {
    assert_eq!(u64::decode(&[0x82, 0x00, 0x01]), Err(Error::LeadingZero));
    assert_eq!(u64::decode(&[0x00]), Err(Error::LeadingZero));
}

#[test]
fn uint_of_nine_bytes_overflows() {
    assert_eq!(u64::decode(&[0x89, 1, 2, 3, 4, 5, 6, 7, 8, 9]), Err(Error::Overflow));
}

#[test]
fn uint_is_not_a_list() {
    assert_eq!(u64::decode(&[0xc0]), Err(Error::UnexpectedList));
    assert_eq!(u64::decode(&[0xc1, 0x01]), Err(Error::UnexpectedList));
}

#[test]
fn uint_errors_of_the_prefix_come_through() {
    assert_eq!(u64::decode(&[]), Err(Error::InputTooShort));
    assert_eq!(u64::decode(&[0x82, 0x01]), Err(Error::InputTooShort));
    assert_eq!(u64::decode(&[0x81, 0x01]), Err(Error::NonCanonicalLength));
    assert_eq!(u64::decode(&[0xb8, 0x01, 0x01]), Err(Error::NonCanonicalLength));
}

#[test]
fn byte_string_encodings_are_exact() {
    assert_eq!(string_of(&[]), vec![0x80]);
    assert_eq!(string_of(&[0x00]), vec![0x00]);
    assert_eq!(string_of(&[0x7f]), vec![0x7f]);
    assert_eq!(string_of(&[0x80]), vec![0x81, 0x80]);
    assert_eq!(string_of(b"dog"), vec![0x83, b'd', b'o', b'g']);
    let long = [0x61u8; 56];
    let mut expected = vec![0xb8, 56];
    expected.extend_from_slice(&long);
    assert_eq!(string_of(&long), expected);
}

#[test]
fn byte_string_length_is_the_length_of_the_encoding() {
    for n in [0usize, 1, 2, 55, 56, 57, 255, 256, 1000] {
        let payload = vec![0x90u8; n];
        assert_eq!(bytes_length(&payload), Some(string_of(&payload).len()));
    }
    assert_eq!(bytes_length(&[0x05]), Some(1));
}

#[test]
fn byte_strings_round_trip() {
    for n in [0usize, 1, 2, 55, 56, 57, 255, 256, 1000] {
        let payload = vec![0x90u8; n];
        let mut bytes = string_of(&payload);
        let len = bytes.len();
        bytes.extend_from_slice(&[1, 2, 3]);
        let (read, taken) = decode_bytes(&bytes).unwrap();
        assert_eq!(read, &payload[..]);
        assert_eq!(taken, len);
    }
    assert_eq!(decode_bytes(&[0x05, 0xff]), Ok((&[0x05u8][..], 1)));
}

#[test]
fn byte_strings_agree_with_alloy_rlp() {
    for n in [0usize, 1, 2, 55, 56, 57, 255, 256, 70000] {
        let payload: Vec<u8> = (0..n).map(|i| (i * 7 + 3) as u8).collect();
        assert_eq!(string_of(&payload), alloy_rlp::encode(&payload[..]));
    }
    for b in 0..=255u8 {
        assert_eq!(string_of(&[b]), alloy_rlp::encode(&[b][..]));
    }
}

#[test]
fn byte_string_is_not_a_list() {
    assert_eq!(decode_bytes(&[0xc3, 1, 2, 3]), Err(Error::UnexpectedList));
}

#[test]
fn fixed_bytes_are_written_as_a_string() {
    let address = [0x11u8; 20];
    let mut expected = vec![0x94];
    expected.extend_from_slice(&address);
    assert_eq!(encode(&address), expected);
    assert_eq!(address.length(), 21);
    assert_eq!(<[u8; 20]>::decode(&expected), Ok((address, 21)));
    assert_eq!(encode(&address), alloy_rlp::encode(address));
}

#[test]
fn fixed_bytes_of_another_length_are_rejected() {
    let mut short = vec![0x93];
    short.extend_from_slice(&[0x11u8; 19]);
    assert_eq!(<[u8; 20]>::decode(&short), Err(Error::UnexpectedLength));
    let mut long = vec![0x95];
    long.extend_from_slice(&[0x11u8; 21]);
    assert_eq!(<[u8; 20]>::decode(&long), Err(Error::UnexpectedLength));
    assert_eq!(<[u8; 1]>::decode(&[0x05]), Ok(([0x05], 1)));
    assert_eq!(<[u8; 0]>::decode(&[0x80]), Ok(([], 1)));
}

#[test]
fn error_messages_name_the_error() {
    assert_eq!(Error::InputTooShort.message(), "input too short");
    assert_eq!(Error::NonCanonicalLength.message(), "non-canonical length");
    assert_eq!(Error::TrailingBytes.message(), "trailing bytes");
    assert_eq!(Error::MalformedOptionalField.message(), "malformed optional field");
    assert_eq!(Error::Overflow.message(), "overflow");
    assert_eq!(Error::LeadingZero.message(), "leading zero");
    assert_eq!(Error::UnexpectedString.message(), "unexpected string");
    assert_eq!(Error::UnexpectedList.message(), "unexpected list");
    assert_eq!(Error::UnexpectedLength.message(), "unexpected length");
}
