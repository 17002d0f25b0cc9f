use block_codec::block::{Block, Helper, HelperRef};
use block_codec::body::BlockBody;
use block_codec::codec::{decode_exact, encode, try_encode, Rlp};
use block_codec::error::Error;
use block_codec::header::Header;
use block_codec::raw::RawItem;
use block_codec::requests::Requests;
use block_codec::withdrawal::Withdrawal;

fn sample_withdrawal() -> Withdrawal {
    Withdrawal { index: 1, validator_index: 2, address: [0x11; 20], amount: 3 }
}

fn sample_block() -> Block<u64> {
    Block {
        header: Header::new(vec![0xc3, 7, 8, 9]).unwrap(),
        body: BlockBody {
            transactions: vec![1, 2],
            ommers: vec![],
            withdrawals: Some(vec![sample_withdrawal()]),
            requests: None,
        },
    }
}

fn sample_block_bytes() -> Vec<u8> {
    let mut expected =
        vec![0xe2, 0xc3, 7, 8, 9, 0xc2, 0x01, 0x02, 0xc0, 0xd9, 0xd8, 0x01, 0x02, 0x94];
    expected.extend_from_slice(&[0x11; 20]);
    expected.push(0x03);
    expected
}

#[test]
fn a_block_is_one_flat_list() {
    let block = sample_block();
    let bytes = encode(&block);
    assert_eq!(bytes, sample_block_bytes());
    assert_eq!(block.length(), bytes.len());
    assert_eq!(block.checked_length(), Some(bytes.len()));
    // The header and the fields of the body are siblings: the payload of
    // the block is the header followed by the payload of the body.
    let body = encode(&block.body);
    assert_eq!(&bytes[1..5], block.header.as_slice());
    assert_eq!(&bytes[5..], &body[1..]);
}

#[test]
fn a_block_round_trips() {
    let block = sample_block();
    let bytes = encode(&block);
    assert_eq!(Block::<u64>::decode(&bytes), Ok((block.clone(), bytes.len())));
    assert_eq!(decode_exact::<Block<u64>>(&bytes), Ok(block));
}

#[test]
fn blocks_round_trip() {
    let big_header = Header::new(alloy_rlp::encode((0..100u64).collect::<Vec<u64>>())).unwrap();
    let withdrawals: Vec<Withdrawal> = (0..16u64)
        .map(|i| Withdrawal {
            index: i,
            validator_index: i + 1,
            address: [(i * 3) as u8; 20],
            amount: i << 40,
        })
        .collect();
    let cases: Vec<Block<u64>> = vec![
        Block::default(),
        sample_block(),
        Block {
            header: big_header.clone(),
            body: BlockBody {
                transactions: (0..1000).collect(),
                ommers: vec![big_header.clone(), Header::default()],
                withdrawals: None,
                requests: None,
            },
        },
        Block {
            header: big_header.clone(),
            body: BlockBody {
                transactions: vec![],
                ommers: vec![],
                withdrawals: Some(withdrawals.clone()),
                requests: None,
            },
        },
        Block {
            header: big_header,
            body: BlockBody {
                transactions: vec![u64::MAX],
                ommers: vec![Header::default()],
                withdrawals: Some(withdrawals),
                requests: Some(Requests::new(vec![0xc3, 0x82, 0x01, 0xff]).unwrap()),
            },
        },
    ];
    for block in cases {
        let bytes = encode(&block);
        assert_eq!(try_encode(&block), Some(bytes.clone()));
        assert_eq!(block.checked_encode(), Some(bytes.clone()));
        let mut followed = bytes.clone();
        followed.extend_from_slice(&[0xaa, 0xbb]);
        assert_eq!(Block::<u64>::decode(&followed), Ok((block.clone(), bytes.len())));
        assert_eq!(decode_exact::<Block<u64>>(&bytes), Ok(block));
    }
}

#[test]
fn blocks_of_raw_transactions_round_trip() {
    let block: Block<RawItem> = Block {
        header: Header::new(vec![0xc1, 0x05]).unwrap(),
        body: BlockBody {
            transactions: vec![
                RawItem::new(vec![0xc3, 1, 2, 3]).unwrap(),
                RawItem::new(vec![0x84, 0x02, 0xc1, 0x80, 0x05]).unwrap(),
            ],
            ommers: vec![],
            withdrawals: None,
            requests: None,
        },
    };
    let bytes = encode(&block);
    assert_eq!(bytes, vec![0xcd, 0xc1, 0x05, 0xc9, 0xc3, 1, 2, 3, 0x84, 0x02, 0xc1, 0x80, 0x05, 0xc0]);
    assert_eq!(decode_exact::<Block<RawItem>>(&bytes), Ok(block));
}

#[test]
fn the_default_block_is_written_as_three_empty_lists() {
    let block = Block::<u64>::default();
    assert_eq!(encode(&block), vec![0xc3, 0xc0, 0xc0, 0xc0]);
    assert_eq!(decode_exact::<Block<u64>>(&[0xc3, 0xc0, 0xc0, 0xc0]), Ok(block));
}

#[test]
fn block_from_an_encoder_that_knows_no_requests() {
    let read = decode_exact::<Block<u64>>(&sample_block_bytes()).unwrap();
    assert_eq!(read.body.withdrawals.as_ref().map(|w| w.len()), Some(1));
    assert!(read.body.requests.is_none());
    let older = [0xc8, 0xc3, 7, 8, 9, 0xc2, 0x01, 0x02, 0xc0];
    let read = decode_exact::<Block<u64>>(&older).unwrap();
    assert_eq!(read.body.transactions, vec![1, 2]);
    assert!(read.body.withdrawals.is_none());
    assert!(read.body.requests.is_none());
}

#[test]
fn truncated_block_is_too_short() {
    let bytes = sample_block_bytes();
    assert_eq!(Block::<u64>::decode(&bytes[..bytes.len() - 1]), Err(Error::InputTooShort));
    assert_eq!(
        decode_exact::<Block<u64>>(&bytes[..bytes.len() - 1]),
        Err(Error::InputTooShort)
    );
    let default = encode(&Block::<u64>::default());
    assert_eq!(
        Block::<u64>::decode(&default[..default.len() - 1]),
        Err(Error::InputTooShort)
    );
}

#[test]
fn block_with_a_redundant_long_prefix_is_not_canonical() {
    let mut bytes = vec![0xf8, 34];
    bytes.extend_from_slice(&sample_block_bytes()[1..]);
    assert_eq!(Block::<u64>::decode(&bytes), Err(Error::NonCanonicalLength));
    assert_eq!(decode_exact::<Block<u64>>(&bytes), Err(Error::NonCanonicalLength));
}

#[test]
fn block_with_requests_and_no_withdrawals_cannot_be_written() {
    let mut block = sample_block();
    block.body.withdrawals = None;
    block.body.requests = Some(Requests::default());
    assert!(!block.body.is_ordered());
    assert_eq!(block.checked_encode(), None);
}

#[test]
fn block_must_hold_a_header_first() {
    assert_eq!(Block::<u64>::decode(&[0xc3, 0x05, 0xc0, 0xc0]), Err(Error::UnexpectedString));
    assert_eq!(Block::<u64>::decode(&[0xc2, 0xc0, 0xc0]), Err(Error::InputTooShort));
    assert_eq!(Block::<u64>::decode(&[0x83, 0xc0, 0xc0, 0xc0]), Err(Error::UnexpectedString));
    assert_eq!(Block::<u64>::decode(&[]), Err(Error::InputTooShort));
}

#[test]
fn block_with_bytes_after_the_last_field_is_rejected() {
    let bytes = [0xc7, 0xc0, 0xc0, 0xc0, 0xc0, 0xc0, 0xc0, 0x01];
    assert_eq!(Block::<u64>::decode(&bytes), Err(Error::TrailingBytes));
    let bytes = [0xc6, 0xc0, 0xc0, 0xc0, 0xc0, 0xc0, 0xc0];
    assert_eq!(Block::<u64>::decode(&bytes), Err(Error::TrailingBytes));
    let bytes = [0xc5, 0xc0, 0xc0, 0xc0, 0xc0, 0xc0];
    assert!(Block::<u64>::decode(&bytes).is_ok());
}

#[test]
fn block_with_a_malformed_optional_field_is_rejected() {
    assert_eq!(
        Block::<u64>::decode(&[0xc4, 0xc0, 0xc0, 0xc0, 0x80]),
        Err(Error::MalformedOptionalField)
    );
}

#[test]
fn the_flat_record_borrows_the_fields_of_the_block() {
    let block = sample_block();
    let helper = HelperRef::from(&block);
    assert!(std::ptr::eq(helper.header, &block.header));
    assert!(std::ptr::eq(helper.transactions, &block.body.transactions));
    assert!(std::ptr::eq(helper.ommers, &block.body.ommers));
    assert!(std::ptr::eq(helper.withdrawals.unwrap(), block.body.withdrawals.as_ref().unwrap()));
    assert!(helper.requests.is_none());
    assert_eq!(helper.payload_length(), Some(34));
    assert_eq!(helper.checked_length(), Some(35));
    let mut out = Vec::new();
    helper.encode(&mut out);
    assert_eq!(out, sample_block_bytes());
}

#[test]
fn the_flat_record_holds_what_was_read() {
    let (helper, taken) = Helper::<u64>::decode(&sample_block_bytes()).unwrap();
    assert_eq!(taken, 35);
    assert_eq!(helper.header.as_slice(), &[0xc3, 7, 8, 9]);
    assert_eq!(helper.transactions, vec![1, 2]);
    assert!(helper.ommers.is_empty());
    assert_eq!(helper.withdrawals, Some(vec![sample_withdrawal()]));
    assert!(helper.requests.is_none());
    assert_eq!(helper.into_block(), sample_block());
}

#[test]
fn the_flat_record_fails_as_the_block_does() {
    assert!(matches!(Helper::<u64>::decode(&[0xc2, 0xc0, 0xc0]), Err(Error::InputTooShort)));
    assert!(matches!(Helper::<u64>::decode(&[0x80]), Err(Error::UnexpectedString)));
}

#[test]
fn block_agrees_with_the_fields_written_by_alloy_rlp() {
    let header = alloy_rlp::encode(vec![7u64, 8, 9]);
    let transactions = alloy_rlp::encode(vec![1u64, 2]);
    let ommers = alloy_rlp::encode(Vec::<u64>::new());
    let withdrawals = alloy_rlp::encode(vec![alloy_eips::eip4895::Withdrawal {
        index: 1,
        validator_index: 2,
        address: alloy_primitives::Address::from([0x11; 20]),
        amount: 3,
    }]);
    let mut theirs = Vec::new();
    alloy_rlp::Header {
        list: true,
        payload_length: header.len() + transactions.len() + ommers.len() + withdrawals.len(),
    }
    .encode(&mut theirs);
    theirs.extend_from_slice(&header);
    theirs.extend_from_slice(&transactions);
    theirs.extend_from_slice(&ommers);
    theirs.extend_from_slice(&withdrawals);
    assert_eq!(encode(&sample_block()), theirs);
}

#[test]
fn what_is_read_as_a_block_is_its_encoding() {
    let mut bytes = sample_block_bytes();
    bytes.extend_from_slice(&[0x01, 0x02, 0x03]);
    let (block, taken) = Block::<u64>::decode(&bytes).unwrap();
    assert_eq!(encode(&block), &bytes[..taken]);
    let (block, taken) = Block::<RawItem>::decode(&bytes).unwrap();
    assert_eq!(encode(&block), &bytes[..taken]);
}
