//! Full blocks: a header and a body, written as one flat list.
//!
//! On the wire the body is not a list of its own inside the block: the
//! header and the fields of the body stand side by side in one list. The two
//! helper records of this module have exactly that flat shape, one borrowing
//! from a block to write it and one owning what was read.

use vstd::prelude::*;
use vstd::slice::slice_subrange;
use vstd::pervasive::unreached;
use crate::error::Error;
use crate::codec::{Rlp, try_encode};
use crate::header::Header;
use crate::requests::Requests;
use crate::withdrawal::Withdrawal;
use crate::prefix::Prefix;
use crate::list::{list_encoding, parse_list, decode_list, list_length};
use crate::list::{lemma_parse_list_bounds, lemma_list_round_trip, lemma_prefix_len_positive};
use crate::optional::owned;
use crate::body::{BlockBody, BlockBodyView, add_lengths};
use crate::body::{fields_wf, fields_payload, parse_fields, lemma_fields_round_trip};
use crate::body::lemma_fields_canonical;
use crate::list::lemma_parse_list_canonical;
use crate::body::{fields_length, encode_fields, decode_fields};

verus! {

/// A full block.
///
/// The optional fields of the body may follow the required ones at the end
/// of the encoded list.
#[derive(Clone, Debug, PartialEq, Eq)]
pub struct Block<T> {
    /// Block header.
    pub header: Header,
    /// Block body.
    pub body: BlockBody<T>,
}

/// A block as a mathematical value.
pub struct BlockView<V> {
    pub header: Seq<u8>,
    pub body: BlockBodyView<V>,
}

impl<T: DeepView> DeepView for Block<T> {
    type V = BlockView<T::V>;

    open spec fn deep_view(&self) -> BlockView<T::V> {
        BlockView { header: self.header.deep_view(), body: self.body.deep_view() }
    }
}

impl<T> Default for Block<T> {
    /// The block of the header without fields and the body that holds nothing.
    fn default() -> (block: Block<T>)
        ensures
            block.header@ == seq![0xC0u8],
            block.body.transactions@.len() == 0,
            block.body.ommers@.len() == 0,
            block.body.withdrawals is None,
            block.body.requests is None,
    {
        Block { header: Header::default(), body: BlockBody::default() }
    }
}

/// The payload of the list that a block is written as: the header, then the
/// fields of the body.
pub open spec fn flat_payload<T: Rlp>(
    header: Header,
    transactions: Vec<T>,
    ommers: Vec<Header>,
    withdrawals: Option<Vec<Withdrawal>>,
    requests: Option<Requests>,
) -> Seq<u8> {
    header.encoding() + fields_payload(transactions, ommers, withdrawals, requests)
}

/// Reads the header and the fields of the body from the payload of a block's
/// list, which they must use up.
pub open spec fn parse_flat<T: Rlp>(payload: Seq<u8>) -> Result<BlockView<T::V>, Error> {
    match Header::parse(payload) {
        Err(e) => Err(e),
        Ok((header, n)) => match parse_fields::<T>(payload.skip(n as int)) {
            Err(e) => Err(e),
            Ok(body) => Ok(BlockView { header, body }),
        },
    }
}

/// The flat record that a block is written from. It borrows every field and
/// copies none.
pub struct HelperRef<'a, T> {
    pub header: &'a Header,
    pub transactions: &'a Vec<T>,
    pub ommers: &'a Vec<Header>,
    pub withdrawals: Option<&'a Vec<Withdrawal>>,
    pub requests: Option<&'a Requests>,
}

impl<'a, T: Rlp> HelperRef<'a, T> {
    /// The flat record of `block`: its header and the fields of its body, in
    /// the order in which a body holds them.
    pub fn from(block: &'a Block<T>) -> (helper: HelperRef<'a, T>)
        ensures
            *helper.header == block.header,
            *helper.transactions == block.body.transactions,
            *helper.ommers == block.body.ommers,
            owned(helper.withdrawals) == block.body.withdrawals,
            owned(helper.requests) == block.body.requests,
            helper.wf() == block.wf(),
            helper.payload() == block.payload(),
    {
        let Block { header, body: BlockBody { transactions, ommers, withdrawals, requests } } =
            block;
        HelperRef {
            header,
            transactions,
            ommers,
            withdrawals: withdrawals.as_ref(),
            requests: requests.as_ref(),
        }
    }

    /// Whether the record can be written.
    pub open spec fn wf(&self) -> bool {
        &&& self.header.wf()
        &&& fields_wf(
            *self.transactions,
            *self.ommers,
            owned(self.withdrawals),
            owned(self.requests),
        )
    }

    /// The payload of the list that the record is written as.
    pub open spec fn payload(&self) -> Seq<u8> {
        flat_payload(
            *self.header,
            *self.transactions,
            *self.ommers,
            owned(self.withdrawals),
            owned(self.requests),
        )
    }

    /// The length of [`HelperRef::payload`], or `None` where it exceeds
    /// `usize::MAX`.
    pub fn payload_length(&self) -> (r: Option<usize>)
        requires
            self.wf(),
        ensures
            match r {
                Some(n) => n == self.payload().len(),
                None => self.payload().len() > usize::MAX,
            },
    {
        add_lengths(
            self.header.checked_length(),
            fields_length(self.transactions, self.ommers, self.withdrawals, self.requests),
        )
    }

    /// The length of the list that the record is written as, or `None`
    /// where it exceeds `usize::MAX`.
    pub fn checked_length(&self) -> (r: Option<usize>)
        requires
            self.wf(),
        ensures
            match r {
                Some(n) => n == list_encoding(self.payload()).len(),
                None => list_encoding(self.payload()).len() > usize::MAX,
            },
    {
        proof {
            lemma_prefix_len_positive(self.payload().len());
        }
        match self.payload_length() {
            Some(n) => list_length(n),
            None => None,
        }
    }

    /// Appends the list that the record is written as to `out`: the prefix
    /// that announces the payload, then the fields in their order.
    pub fn encode(&self, out: &mut Vec<u8>)
        requires
            self.wf(),
            list_encoding(self.payload()).len() <= usize::MAX,
        ensures
            final(out)@ == old(out)@ + list_encoding(self.payload()),
    {
        proof {
            lemma_prefix_len_positive(self.payload().len());
        }
        let payload_length: usize = match self.payload_length() {
            Some(n) => n,
            None => unreached(),
        };
        let p = Prefix { list: true, payload_length };
        p.encode(out);
        self.header.encode(out);
        encode_fields(self.transactions, self.ommers, self.withdrawals, self.requests, out);
        assert(out@ =~= old(out)@ + list_encoding(self.payload()));
    }
}

/// The flat record that a block is read into. It owns every field.
pub struct Helper<T> {
    pub header: Header,
    pub transactions: Vec<T>,
    pub ommers: Vec<Header>,
    pub withdrawals: Option<Vec<Withdrawal>>,
    pub requests: Option<Requests>,
}

impl<T: Rlp> Helper<T> {
    /// The block that the record holds the fields of.
    pub open spec fn block(&self) -> Block<T> {
        Block {
            header: self.header,
            body: BlockBody {
                transactions: self.transactions,
                ommers: self.ommers,
                withdrawals: self.withdrawals,
                requests: self.requests,
            },
        }
    }

    /// Reads the list of one block from the start of `buf`; the second
    /// component of the result is the number of bytes that it took.
    pub fn decode(buf: &[u8]) -> (r: Result<(Helper<T>, usize), Error>)
        ensures
            match r {
                Ok((helper, n)) => helper.block().wf() && Block::<T>::parse(buf@) == Ok::<
                    (BlockView<T::V>, nat),
                    Error,
                >((helper.block().deep_view(), n as nat)),
                Err(e) => Block::<T>::parse(buf@) == Err::<(BlockView<T::V>, nat), Error>(e),
            },
    {
        let (payload, n) = match decode_list(buf) {
            Ok(x) => x,
            Err(e) => { return Err(e); },
        };
        let end: usize = payload.len();
        proof {
            Header::lemma_parse_bounds(payload@);
        }
        let (header, a) = match Header::decode(payload) {
            Ok(x) => x,
            Err(e) => { return Err(e); },
        };
        let rest = slice_subrange(payload, a, end);
        assert(rest@ =~= payload@.skip(a as int));
        let BlockBody { transactions, ommers, withdrawals, requests } = match decode_fields::<T>(
            rest,
        ) {
            Ok(x) => x,
            Err(e) => { return Err(e); },
        };
        Ok((Helper { header, transactions, ommers, withdrawals, requests }, n))
    }

    /// The block that the record holds the fields of.
    pub fn into_block(self) -> (block: Block<T>)
        ensures
            block == self.block(),
    {
        let Helper { header, transactions, ommers, withdrawals, requests } = self;
        Block { header, body: BlockBody { transactions, ommers, withdrawals, requests } }
    }
}

impl<T: Rlp> Block<T> {
    /// The payload of the list that the block is written as: the header,
    /// then the fields of the body that are there.
    pub open spec fn payload(&self) -> Seq<u8> {
        flat_payload(
            self.header,
            self.body.transactions,
            self.body.ommers,
            self.body.withdrawals,
            self.body.requests,
        )
    }

    /// The encoding of the block as a vector of its own, or `None` where the
    /// block cannot be written: where `requests` is there and `withdrawals`
    /// is not, or where the encoding would exceed `usize::MAX` bytes.
    pub fn checked_encode(&self) -> (r: Option<Vec<u8>>)
        requires
            self.header.wf(),
            self.body.fields_valid(),
        ensures
            match r {
                Some(out) => self.body.ordered() && out@ == self.encoding(),
                None => !self.body.ordered() || self.encoding().len() > usize::MAX,
            },
    {
        if !self.body.is_ordered() {
            return None;
        }
        try_encode(self)
    }
}

/// A block is written as one list: the header, then the fields of the body.
impl<T: Rlp> Rlp for Block<T> {
    open spec fn wf(&self) -> bool {
        self.header.wf() && self.body.wf()
    }

    open spec fn encoding(&self) -> Seq<u8> {
        list_encoding(self.payload())
    }

    open spec fn parse(buf: Seq<u8>) -> Result<(BlockView<T::V>, nat), Error> {
        match parse_list(buf) {
            Err(e) => Err(e),
            Ok((payload, n)) => match parse_flat::<T>(payload) {
                Err(e) => Err(e),
                Ok(block) => Ok((block, n)),
            },
        }
    }

    proof fn lemma_parse_bounds(buf: Seq<u8>) {
        lemma_parse_list_bounds(buf);
    }

    proof fn lemma_round_trip(&self, tail: Seq<u8>) {
        let fields = self.body.payload();
        let payload = self.payload();
        lemma_prefix_len_positive(payload.len());
        self.header.lemma_round_trip(fields);
        assert(payload.skip(self.header.encoding().len() as int) =~= fields);
        lemma_fields_round_trip(
            self.body.transactions,
            self.body.ommers,
            self.body.withdrawals,
            self.body.requests,
        );
        lemma_list_round_trip(payload, tail);
        assert(self.body.deep_view().withdrawals == crate::optional::optional_view(
            self.body.withdrawals,
        ));
        assert(self.body.deep_view().requests == crate::optional::optional_view(
            self.body.requests,
        ));
    }

    proof fn lemma_canonical(&self, buf: Seq<u8>) {
        lemma_parse_list_canonical(buf);
        let payload = parse_list(buf).unwrap().0;
        let (_, a) = Header::parse(payload).unwrap();
        Header::lemma_parse_bounds(payload);
        self.header.lemma_canonical(payload);
        assert(self.body.deep_view().withdrawals == crate::optional::optional_view(
            self.body.withdrawals,
        ));
        assert(self.body.deep_view().requests == crate::optional::optional_view(
            self.body.requests,
        ));
        lemma_fields_canonical(
            self.body.transactions,
            self.body.ommers,
            self.body.withdrawals,
            self.body.requests,
            payload.skip(a as int),
        );
        assert(payload =~= payload.take(a as int) + payload.skip(a as int));
    }

    fn checked_length(&self) -> (r: Option<usize>) {
        let helper = HelperRef::from(self);
        helper.checked_length()
    }

    fn encode(&self, out: &mut Vec<u8>) {
        let helper = HelperRef::from(self);
        helper.encode(out)
    }

    fn decode(buf: &[u8]) -> (r: Result<(Block<T>, usize), Error>) {
        match Helper::decode(buf) {
            Err(e) => Err(e),
            Ok((helper, n)) => Ok((helper.into_block(), n)),
        }
    }
}

} // verus!
