use block_codec::error::Error;
use block_codec::prefix::Prefix;

fn encoded(list: bool, payload_length: usize) -> Vec<u8> {
    let mut out = Vec::new();
    Prefix { list, payload_length }.encode(&mut out);
    out
}

#[test]
fn short_prefixes_take_one_byte() {
    assert_eq!(encoded(false, 0), vec![0x80]);
    assert_eq!(encoded(false, 55), vec![0xb7]);
    assert_eq!(encoded(true, 0), vec![0xc0]);
    assert_eq!(encoded(true, 55), vec![0xf7]);
}

#[test]
fn long_prefixes_hold_the_length_big_endian() {
    assert_eq!(encoded(false, 56), vec![0xb8, 56]);
    assert_eq!(encoded(true, 56), vec![0xf8, 56]);
    assert_eq!(encoded(true, 1024), vec![0xf9, 0x04, 0x00]);
    assert_eq!(encoded(false, 0x01_0000), vec![0xba, 0x01, 0x00, 0x00]);
}

#[test]
fn prefix_length_matches_what_is_written() {
    for n in [0usize, 1, 55, 56, 255, 256, 65535, 65536, 1 << 24] {
        for list in [false, true] {
            let p = Prefix { list, payload_length: n };
            assert_eq!(p.length(), encoded(list, n).len());
        }
    }
}

#[test]
fn a_single_low_byte_is_its_own_payload() {
    assert_eq!(Prefix::decode(&[0x7f]), Ok((Prefix { list: false, payload_length: 1 }, 0)));
    assert_eq!(Prefix::decode(&[0x00, 0xff]), Ok((Prefix { list: false, payload_length: 1 }, 0)));
}

#[test]
fn long_form_of_a_short_length_is_not_canonical() {
    let mut buf = vec![0xb8, 5];
    buf.extend_from_slice(&[1, 2, 3, 4, 5]);
    assert_eq!(Prefix::decode(&buf), Err(Error::NonCanonicalLength));
    let mut buf = vec![0xf8, 55];
    buf.extend_from_slice(&[0u8; 55]);
    assert_eq!(Prefix::decode(&buf), Err(Error::NonCanonicalLength));
}

#[test]
fn length_with_a_leading_zero_is_not_canonical() {
    let mut buf = vec![0xb9, 0x00, 0x38];
    buf.extend_from_slice(&[0u8; 56]);
    assert_eq!(Prefix::decode(&buf), Err(Error::NonCanonicalLength));
}

#[test]
fn a_prefixed_single_low_byte_is_not_canonical() {
    assert_eq!(Prefix::decode(&[0x81, 0x05]), Err(Error::NonCanonicalLength));
    assert_eq!(Prefix::decode(&[0x81, 0x80]), Ok((Prefix { list: false, payload_length: 1 }, 1)));
}

#[test]
fn a_payload_that_is_not_there_is_too_short() {
    assert_eq!(Prefix::decode(&[]), Err(Error::InputTooShort));
    assert_eq!(Prefix::decode(&[0x81]), Err(Error::InputTooShort));
    assert_eq!(Prefix::decode(&[0x83, 1, 2]), Err(Error::InputTooShort));
    assert_eq!(Prefix::decode(&[0xc2, 1]), Err(Error::InputTooShort));
    assert_eq!(Prefix::decode(&[0xb9, 0x01]), Err(Error::InputTooShort));
    assert_eq!(Prefix::decode(&[0xf8, 56, 0, 0]), Err(Error::InputTooShort));
}

#[test]
fn prefix_decoding_agrees_with_alloy_rlp() {
    let samples: [&[u8]; 8] = [
        &[0x05],
        &[0x80],
        &[0x83, 1, 2, 3],
        &[0xc0],
        &[0xc3, 1, 2, 3],
        &[0xb8, 56],
        &[0xf9, 0x01, 0x00],
        &[0x81, 0x90],
    ];
    for sample in samples {
        let mut padded = sample.to_vec();
        padded.extend_from_slice(&[0x11u8; 300]);
        let mut cursor: &[u8] = &padded;
        let theirs = alloy_rlp::Header::decode(&mut cursor).unwrap();
        let consumed = padded.len() - cursor.len();
        let (ours, n) = Prefix::decode(&padded).unwrap();
        assert_eq!(ours.list, theirs.list);
        assert_eq!(ours.payload_length, theirs.payload_length);
        assert_eq!(n, consumed);
    }
}

#[test]
fn prefix_encoding_agrees_with_alloy_rlp() {
    for n in [0usize, 1, 55, 56, 300, 70000] {
        for list in [false, true] {
            let mut theirs = Vec::new();
            alloy_rlp::Header { list, payload_length: n }.encode(&mut theirs);
            assert_eq!(encoded(list, n), theirs);
        }
    }
}
