//! The body of a block: transactions, ommers, and two fields that later
//! protocol upgrades added at the end.

use vstd::prelude::*;
use vstd::slice::slice_subrange;
use vstd::pervasive::unreached;
use crate::error::Error;
use crate::codec::{Rlp, try_encode};
use crate::header::Header;
use crate::requests::Requests;
use crate::withdrawal::{Withdrawal, WithdrawalView};
use crate::prefix::Prefix;
use crate::list::{list_encoding, parse_list, decode_list, list_length};
use crate::list::{lemma_parse_list_bounds, lemma_list_round_trip, lemma_prefix_len_positive};
use crate::optional::{owned, optional_wf, optional_encoding, optional_view, parse_optional};
use crate::optional::{optional_length, encode_optional, decode_optional};
use crate::optional::{lemma_parse_optional_bounds, lemma_optional_round_trip};
use crate::optional::lemma_optional_canonical;
use crate::list::lemma_parse_list_canonical;

verus! {

/// The body of a block.
///
/// The order of the fields is the order in which they are written. The two
/// last fields are optional; a field that is missing is not written at all.
/// Since a reader tells from the remaining bytes alone which fields are
/// there, a body can be written only if `requests` is missing whenever
/// `withdrawals` is: see [`BlockBody::is_ordered`].
#[derive(Clone, Debug, PartialEq, Eq)]
pub struct BlockBody<T> {
    /// Transactions in this block.
    pub transactions: Vec<T>,
    /// Headers of the ommers of this block.
    pub ommers: Vec<Header>,
    /// Withdrawals in this block.
    pub withdrawals: Option<Vec<Withdrawal>>,
    /// Requests in this block.
    pub requests: Option<Requests>,
}

/// The body of a block as a mathematical value.
pub struct BlockBodyView<V> {
    pub transactions: Seq<V>,
    pub ommers: Seq<Seq<u8>>,
    pub withdrawals: Option<Seq<WithdrawalView>>,
    pub requests: Option<Seq<u8>>,
}

impl<T: DeepView> DeepView for BlockBody<T> {
    type V = BlockBodyView<T::V>;

    open spec fn deep_view(&self) -> BlockBodyView<T::V> {
        BlockBodyView {
            transactions: self.transactions.deep_view(),
            ommers: self.ommers.deep_view(),
            withdrawals: self.withdrawals.deep_view(),
            requests: self.requests.deep_view(),
        }
    }
}

/// Whether the four fields of a body can be written: each of them can, and
/// `requests` is there only if `withdrawals` is.
pub open spec fn fields_wf<T: Rlp>(
    transactions: Vec<T>,
    ommers: Vec<Header>,
    withdrawals: Option<Vec<Withdrawal>>,
    requests: Option<Requests>,
) -> bool {
    &&& transactions.wf()
    &&& ommers.wf()
    &&& optional_wf(withdrawals)
    &&& optional_wf(requests)
    &&& (requests is Some ==> withdrawals is Some)
}

/// The bytes of the two optional fields, in their order.
pub open spec fn trailing_payload(
    withdrawals: Option<Vec<Withdrawal>>,
    requests: Option<Requests>,
) -> Seq<u8> {
    optional_encoding(withdrawals) + optional_encoding(requests)
}

/// The bytes of the four fields of a body, in their order.
pub open spec fn fields_payload<T: Rlp>(
    transactions: Vec<T>,
    ommers: Vec<Header>,
    withdrawals: Option<Vec<Withdrawal>>,
    requests: Option<Requests>,
) -> Seq<u8> {
    transactions.encoding() + ommers.encoding() + trailing_payload(withdrawals, requests)
}

/// Reads the two optional fields from what the required fields left of a
/// payload, which they must use up.
pub open spec fn parse_trailing(cursor: Seq<u8>) -> Result<
    (Option<Seq<WithdrawalView>>, Option<Seq<u8>>),
    Error,
> {
    match parse_optional::<Vec<Withdrawal>>(cursor) {
        Err(e) => Err(e),
        Ok((withdrawals, a)) => match parse_optional::<Requests>(cursor.skip(a as int)) {
            Err(e) => Err(e),
            Ok((requests, b)) => if a + b != cursor.len() {
                Err(Error::TrailingBytes)
            } else {
                Ok((withdrawals, requests))
            },
        },
    }
}

/// Reads the four fields of a body from a payload, which they must use up.
pub open spec fn parse_fields<T: Rlp>(payload: Seq<u8>) -> Result<BlockBodyView<T::V>, Error> {
    match Vec::<T>::parse(payload) {
        Err(e) => Err(e),
        Ok((transactions, a)) => match Vec::<Header>::parse(payload.skip(a as int)) {
            Err(e) => Err(e),
            Ok((ommers, b)) => match parse_trailing(payload.skip((a + b) as int)) {
                Err(e) => Err(e),
                Ok((withdrawals, requests)) => Ok(
                    BlockBodyView { transactions, ommers, withdrawals, requests },
                ),
            },
        },
    }
}

/// The optional fields are read back as they were written.
pub proof fn lemma_trailing_round_trip(
    withdrawals: Option<Vec<Withdrawal>>,
    requests: Option<Requests>,
)
    requires
        optional_wf(withdrawals),
        optional_wf(requests),
        requests is Some ==> withdrawals is Some,
        trailing_payload(withdrawals, requests).len() <= usize::MAX,
    ensures
        parse_trailing(trailing_payload(withdrawals, requests)) == Ok::<
            (Option<Seq<WithdrawalView>>, Option<Seq<u8>>),
            Error,
        >((optional_view(withdrawals), optional_view(requests))),
{
    let first = optional_encoding(withdrawals);
    let second = optional_encoding(requests);
    let cursor = trailing_payload(withdrawals, requests);
    lemma_optional_round_trip(withdrawals, second);
    assert(cursor.skip(first.len() as int) =~= second + Seq::<u8>::empty());
    lemma_optional_round_trip(requests, Seq::empty());
}

/// The fields of a body are read back as they were written.
pub proof fn lemma_fields_round_trip<T: Rlp>(
    transactions: Vec<T>,
    ommers: Vec<Header>,
    withdrawals: Option<Vec<Withdrawal>>,
    requests: Option<Requests>,
)
    requires
        fields_wf(transactions, ommers, withdrawals, requests),
        fields_payload(transactions, ommers, withdrawals, requests).len() <= usize::MAX,
    ensures
        parse_fields::<T>(fields_payload(transactions, ommers, withdrawals, requests)) == Ok::<
            BlockBodyView<T::V>,
            Error,
        >(
            BlockBodyView {
                transactions: transactions.deep_view(),
                ommers: ommers.deep_view(),
                withdrawals: optional_view(withdrawals),
                requests: optional_view(requests),
            },
        ),
{
    let e1 = transactions.encoding();
    let e2 = ommers.encoding();
    let e3 = trailing_payload(withdrawals, requests);
    let payload = fields_payload(transactions, ommers, withdrawals, requests);
    assert(payload =~= e1 + (e2 + e3));
    transactions.lemma_round_trip(e2 + e3);
    assert(payload.skip(e1.len() as int) =~= e2 + e3);
    ommers.lemma_round_trip(e3);
    assert(payload.skip((e1.len() + e2.len()) as int) =~= e3);
    lemma_trailing_round_trip(withdrawals, requests);
}

/// Only the bytes that are written for the fields of a body are read as
/// those fields.
pub proof fn lemma_fields_canonical<T: Rlp>(
    transactions: Vec<T>,
    ommers: Vec<Header>,
    withdrawals: Option<Vec<Withdrawal>>,
    requests: Option<Requests>,
    payload: Seq<u8>,
)
    requires
        fields_wf(transactions, ommers, withdrawals, requests),
        parse_fields::<T>(payload) == Ok::<BlockBodyView<T::V>, Error>(
            BlockBodyView {
                transactions: transactions.deep_view(),
                ommers: ommers.deep_view(),
                withdrawals: optional_view(withdrawals),
                requests: optional_view(requests),
            },
        ),
    ensures
        payload == fields_payload(transactions, ommers, withdrawals, requests),
{
    let (_, a) = Vec::<T>::parse(payload).unwrap();
    let (_, b) = Vec::<Header>::parse(payload.skip(a as int)).unwrap();
    let cursor = payload.skip((a + b) as int);
    let (_, c) = parse_optional::<Vec<Withdrawal>>(cursor).unwrap();
    let (_, d) = parse_optional::<Requests>(cursor.skip(c as int)).unwrap();
    Vec::<T>::lemma_parse_bounds(payload);
    Vec::<Header>::lemma_parse_bounds(payload.skip(a as int));
    lemma_parse_optional_bounds::<Vec<Withdrawal>>(cursor);
    lemma_parse_optional_bounds::<Requests>(cursor.skip(c as int));
    transactions.lemma_canonical(payload);
    ommers.lemma_canonical(payload.skip(a as int));
    lemma_optional_canonical(withdrawals, cursor);
    lemma_optional_canonical(requests, cursor.skip(c as int));
    assert(cursor =~= cursor.take(c as int) + cursor.skip(c as int).take(d as int));
    assert(payload =~= payload.take(a as int) + payload.skip(a as int).take(b as int) + cursor);
}

/// The sum of two lengths, where both are known and the sum fits.
pub fn add_lengths(a: Option<usize>, b: Option<usize>) -> (r: Option<usize>)
    ensures
        match r {
            Some(n) => a is Some && b is Some && n == a.unwrap() + b.unwrap(),
            None => a is None || b is None || a.unwrap() + b.unwrap() > usize::MAX,
        },
{
    match (a, b) {
        (Some(x), Some(y)) => x.checked_add(y),
        _ => None,
    }
}

/// The number of bytes that the four fields of a body take together, or
/// `None` where that exceeds `usize::MAX`.
pub fn fields_length<T: Rlp>(
    transactions: &Vec<T>,
    ommers: &Vec<Header>,
    withdrawals: Option<&Vec<Withdrawal>>,
    requests: Option<&Requests>,
) -> (r: Option<usize>)
    requires
        fields_wf(*transactions, *ommers, owned(withdrawals), owned(requests)),
    ensures
        match r {
            Some(n) => n == fields_payload(
                *transactions,
                *ommers,
                owned(withdrawals),
                owned(requests),
            ).len(),
            None => fields_payload(
                *transactions,
                *ommers,
                owned(withdrawals),
                owned(requests),
            ).len() > usize::MAX,
        },
{
    let required = add_lengths(transactions.checked_length(), ommers.checked_length());
    let trailing = add_lengths(optional_length(withdrawals), optional_length(requests));
    add_lengths(required, trailing)
}

/// Appends the four fields of a body, in their order, to `out`.
pub fn encode_fields<T: Rlp>(
    transactions: &Vec<T>,
    ommers: &Vec<Header>,
    withdrawals: Option<&Vec<Withdrawal>>,
    requests: Option<&Requests>,
    out: &mut Vec<u8>,
)
    requires
        fields_wf(*transactions, *ommers, owned(withdrawals), owned(requests)),
        fields_payload(*transactions, *ommers, owned(withdrawals), owned(requests)).len()
            <= usize::MAX,
    ensures
        final(out)@ == old(out)@ + fields_payload(
            *transactions,
            *ommers,
            owned(withdrawals),
            owned(requests),
        ),
{
    transactions.encode(out);
    ommers.encode(out);
    encode_optional(withdrawals, out);
    encode_optional(requests, out);
    assert(out@ =~= old(out)@ + fields_payload(
        *transactions,
        *ommers,
        owned(withdrawals),
        owned(requests),
    ));
}

/// Reads the two optional fields from what the required fields left of a
/// payload.
pub fn decode_trailing(cursor: &[u8]) -> (r: Result<
    (Option<Vec<Withdrawal>>, Option<Requests>),
    Error,
>)
    ensures
        match r {
            Ok((withdrawals, requests)) => {
                &&& optional_wf(withdrawals)
                &&& optional_wf(requests)
                &&& (requests is Some ==> withdrawals is Some)
                &&& parse_trailing(cursor@) == Ok::<
                    (Option<Seq<WithdrawalView>>, Option<Seq<u8>>),
                    Error,
                >((optional_view(withdrawals), optional_view(requests)))
            },
            Err(e) => parse_trailing(cursor@) == Err::<
                (Option<Seq<WithdrawalView>>, Option<Seq<u8>>),
                Error,
            >(e),
        },
{
    let end: usize = cursor.len();
    proof {
        lemma_parse_optional_bounds::<Vec<Withdrawal>>(cursor@);
    }
    let (withdrawals, a) = match decode_optional::<Vec<Withdrawal>>(cursor) {
        Ok(x) => x,
        Err(e) => { return Err(e); },
    };
    let rest = slice_subrange(cursor, a, end);
    assert(rest@ =~= cursor@.skip(a as int));
    proof {
        lemma_parse_optional_bounds::<Requests>(rest@);
    }
    let (requests, b) = match decode_optional::<Requests>(rest) {
        Ok(x) => x,
        Err(e) => { return Err(e); },
    };
    if a + b != end {
        return Err(Error::TrailingBytes);
    }
    Ok((withdrawals, requests))
}

/// Reads the four fields of a body from a payload, which they must use up.
pub fn decode_fields<T: Rlp>(payload: &[u8]) -> (r: Result<BlockBody<T>, Error>)
    ensures
        match r {
            Ok(body) => body.wf() && parse_fields::<T>(payload@) == Ok::<
                BlockBodyView<T::V>,
                Error,
            >(body.deep_view()),
            Err(e) => parse_fields::<T>(payload@) == Err::<BlockBodyView<T::V>, Error>(e),
        },
{
    let end: usize = payload.len();
    proof {
        Vec::<T>::lemma_parse_bounds(payload@);
    }
    let (transactions, a) = match Vec::<T>::decode(payload) {
        Ok(x) => x,
        Err(e) => { return Err(e); },
    };
    let rest = slice_subrange(payload, a, end);
    assert(rest@ =~= payload@.skip(a as int));
    proof {
        Vec::<Header>::lemma_parse_bounds(rest@);
    }
    let (ommers, b) = match Vec::<Header>::decode(rest) {
        Ok(x) => x,
        Err(e) => { return Err(e); },
    };
    let rest = slice_subrange(payload, a + b, end);
    assert(rest@ =~= payload@.skip((a + b) as int));
    let (withdrawals, requests) = match decode_trailing(rest) {
        Ok(x) => x,
        Err(e) => { return Err(e); },
    };
    let body = BlockBody { transactions, ommers, withdrawals, requests };
    assert(body.deep_view().withdrawals == optional_view(body.withdrawals));
    assert(body.deep_view().requests == optional_view(body.requests));
    Ok(body)
}

impl<T: Rlp> BlockBody<T> {
    /// The encodings of the fields that are there, in their order.
    pub open spec fn payload(&self) -> Seq<u8> {
        fields_payload(self.transactions, self.ommers, self.withdrawals, self.requests)
    }

    /// Whether `requests` is there only if `withdrawals` is.
    pub open spec fn ordered(&self) -> bool {
        self.requests is Some ==> self.withdrawals is Some
    }

    /// Whether each field that is there can be written by itself, whatever
    /// the order of the optional fields.
    pub open spec fn fields_valid(&self) -> bool {
        &&& self.transactions.wf()
        &&& self.ommers.wf()
        &&& optional_wf(self.withdrawals)
        &&& optional_wf(self.requests)
    }

    /// Whether `requests` is there only if `withdrawals` is. Only such a
    /// body can be written.
    pub fn is_ordered(&self) -> (b: bool)
        ensures
            b == self.ordered(),
    {
        self.requests.is_none() || self.withdrawals.is_some()
    }

    /// The encoding of the body as a vector of its own, or `None` where the
    /// body cannot be written: where `requests` is there and `withdrawals`
    /// is not, or where the encoding would exceed `usize::MAX` bytes.
    pub fn checked_encode(&self) -> (r: Option<Vec<u8>>)
        requires
            self.fields_valid(),
        ensures
            match r {
                Some(out) => self.ordered() && out@ == self.encoding(),
                None => !self.ordered() || self.encoding().len() > usize::MAX,
            },
    {
        if !self.is_ordered() {
            return None;
        }
        try_encode(self)
    }
}

impl<T> Default for BlockBody<T> {
    /// The body that holds nothing.
    fn default() -> (body: BlockBody<T>)
        ensures
            body.transactions@.len() == 0,
            body.ommers@.len() == 0,
            body.withdrawals is None,
            body.requests is None,
    {
        BlockBody {
            transactions: Vec::new(),
            ommers: Vec::new(),
            withdrawals: None,
            requests: None,
        }
    }
}

/// A body alone is written as the list of its fields.
impl<T: Rlp> Rlp for BlockBody<T> {
    open spec fn wf(&self) -> bool {
        fields_wf(self.transactions, self.ommers, self.withdrawals, self.requests)
    }

    open spec fn encoding(&self) -> Seq<u8> {
        list_encoding(self.payload())
    }

    open spec fn parse(buf: Seq<u8>) -> Result<(BlockBodyView<T::V>, nat), Error> {
        match parse_list(buf) {
            Err(e) => Err(e),
            Ok((payload, n)) => match parse_fields::<T>(payload) {
                Err(e) => Err(e),
                Ok(body) => Ok((body, n)),
            },
        }
    }

    proof fn lemma_parse_bounds(buf: Seq<u8>) {
        lemma_parse_list_bounds(buf);
    }

    proof fn lemma_round_trip(&self, tail: Seq<u8>) {
        lemma_prefix_len_positive(self.payload().len());
        lemma_fields_round_trip(self.transactions, self.ommers, self.withdrawals, self.requests);
        lemma_list_round_trip(self.payload(), tail);
        assert(self.deep_view().withdrawals == optional_view(self.withdrawals));
        assert(self.deep_view().requests == optional_view(self.requests));
    }

    proof fn lemma_canonical(&self, buf: Seq<u8>) {
        lemma_parse_list_canonical(buf);
        let payload = parse_list(buf).unwrap().0;
        assert(self.deep_view().withdrawals == optional_view(self.withdrawals));
        assert(self.deep_view().requests == optional_view(self.requests));
        lemma_fields_canonical(
            self.transactions,
            self.ommers,
            self.withdrawals,
            self.requests,
            payload,
        );
    }

    fn checked_length(&self) -> (r: Option<usize>) {
        proof {
            lemma_prefix_len_positive(self.payload().len());
        }
        match fields_length(
            &self.transactions,
            &self.ommers,
            self.withdrawals.as_ref(),
            self.requests.as_ref(),
        ) {
            Some(n) => list_length(n),
            None => None,
        }
    }

    fn encode(&self, out: &mut Vec<u8>) {
        proof {
            lemma_prefix_len_positive(self.payload().len());
        }
        let withdrawals = self.withdrawals.as_ref();
        let requests = self.requests.as_ref();
        let payload_length: usize = match fields_length(
            &self.transactions,
            &self.ommers,
            withdrawals,
            requests,
        ) {
            Some(n) => n,
            None => unreached(),
        };
        let p = Prefix { list: true, payload_length };
        p.encode(out);
        encode_fields(&self.transactions, &self.ommers, withdrawals, requests, out);
        assert(out@ =~= old(out)@ + self.encoding());
    }

    fn decode(buf: &[u8]) -> (r: Result<(BlockBody<T>, usize), Error>) {
        match decode_list(buf) {
            Err(e) => Err(e),
            Ok((payload, n)) => match decode_fields::<T>(payload) {
                Err(e) => Err(e),
                Ok(body) => Ok((body, n)),
            },
        }
    }
}

} // verus!
