//! Validator withdrawals.

use vstd::prelude::*;
use vstd::slice::slice_subrange;
use crate::error::Error;
use crate::codec::Rlp;
use crate::prefix::Prefix;
use crate::list::{list_encoding, parse_list, decode_list, list_length};
use crate::list::{lemma_parse_list_bounds, lemma_list_round_trip, lemma_parse_list_canonical};

verus! {

/// A withdrawal of a validator's balance, pushed from the consensus layer.
#[derive(Clone, Copy, Debug, PartialEq, Eq)]
pub struct Withdrawal {
    /// Identifier of the withdrawal, increasing from one to the next.
    pub index: u64,
    /// Index of the validator that the withdrawal belongs to.
    pub validator_index: u64,
    /// The address that receives the withdrawn amount.
    pub address: [u8; 20],
    /// The amount, in gwei.
    pub amount: u64,
}

/// A withdrawal as a mathematical value.
pub struct WithdrawalView {
    pub index: u64,
    pub validator_index: u64,
    pub address: Seq<u8>,
    pub amount: u64,
}

impl DeepView for Withdrawal {
    type V = WithdrawalView;

    open spec fn deep_view(&self) -> WithdrawalView {
        WithdrawalView {
            index: self.index,
            validator_index: self.validator_index,
            address: self.address@,
            amount: self.amount,
        }
    }
}

impl Withdrawal {
    /// The encodings of the four fields, in their fixed order.
    pub open spec fn payload(&self) -> Seq<u8> {
        self.index.encoding() + self.validator_index.encoding() + self.address.encoding()
            + self.amount.encoding()
    }

    /// The length of [`Withdrawal::payload`]: at most 48 bytes.
    fn payload_length(&self) -> (n: usize)
        ensures
            n == self.payload().len(),
            n <= 48,
    {
        proof {
            crate::string::lemma_uint_encoding(self.index);
            crate::string::lemma_uint_encoding(self.validator_index);
            crate::string::lemma_uint_encoding(self.amount);
            assert(self.address.encoding().len() == 21);
        }
        let a: usize = self.index.length();
        let b: usize = self.validator_index.length();
        let c: usize = self.address.length();
        let d: usize = self.amount.length();
        a + b + c + d
    }
}

/// Reads the four fields of a withdrawal from the payload of its list, which
/// they must use up.
pub open spec fn parse_withdrawal_fields(payload: Seq<u8>) -> Result<WithdrawalView, Error> {
    match u64::parse(payload) {
        Err(e) => Err(e),
        Ok((index, a)) => match u64::parse(payload.skip(a as int)) {
            Err(e) => Err(e),
            Ok((validator_index, b)) => match <[u8; 20]>::parse(payload.skip((a + b) as int)) {
                Err(e) => Err(e),
                Ok((address, c)) => match u64::parse(payload.skip((a + b + c) as int)) {
                    Err(e) => Err(e),
                    Ok((amount, d)) => if a + b + c + d != payload.len() {
                        Err(Error::TrailingBytes)
                    } else {
                        Ok(WithdrawalView { index, validator_index, address, amount })
                    },
                },
            },
        },
    }
}

/// Reads the four fields of a withdrawal from the payload of its list.
fn decode_withdrawal_fields(payload: &[u8]) -> (r: Result<Withdrawal, Error>)
    ensures
        match r {
            Ok(w) => parse_withdrawal_fields(payload@) == Ok::<WithdrawalView, Error>(
                w.deep_view(),
            ),
            Err(e) => parse_withdrawal_fields(payload@) == Err::<WithdrawalView, Error>(e),
        },
{
    let end: usize = payload.len();
    proof {
        u64::lemma_parse_bounds(payload@);
    }
    let (index, a) = match u64::decode(payload) {
        Ok(x) => x,
        Err(e) => { return Err(e); },
    };
    let rest = slice_subrange(payload, a, end);
    assert(rest@ =~= payload@.skip(a as int));
    proof {
        u64::lemma_parse_bounds(rest@);
    }
    let (validator_index, b) = match u64::decode(rest) {
        Ok(x) => x,
        Err(e) => { return Err(e); },
    };
    let rest = slice_subrange(payload, a + b, end);
    assert(rest@ =~= payload@.skip((a + b) as int));
    proof {
        <[u8; 20]>::lemma_parse_bounds(rest@);
    }
    let (address, c) = match <[u8; 20]>::decode(rest) {
        Ok(x) => x,
        Err(e) => { return Err(e); },
    };
    let rest = slice_subrange(payload, a + b + c, end);
    assert(rest@ =~= payload@.skip((a + b + c) as int));
    proof {
        u64::lemma_parse_bounds(rest@);
    }
    let (amount, d) = match u64::decode(rest) {
        Ok(x) => x,
        Err(e) => { return Err(e); },
    };
    if a + b + c + d != end {
        return Err(Error::TrailingBytes);
    }
    assert(address.deep_view() =~= address@);
    Ok(Withdrawal { index, validator_index, address, amount })
}

/// The fields of a withdrawal are read back from their encodings.
pub proof fn lemma_withdrawal_fields_round_trip(w: Withdrawal)
    ensures
        parse_withdrawal_fields(w.payload()) == Ok::<WithdrawalView, Error>(w.deep_view()),
        w.payload().len() <= 48,
{
    let e1 = w.index.encoding();
    let e2 = w.validator_index.encoding();
    let e3 = w.address.encoding();
    let e4 = w.amount.encoding();
    let payload = w.payload();
    crate::string::lemma_uint_encoding(w.index);
    crate::string::lemma_uint_encoding(w.validator_index);
    crate::string::lemma_uint_encoding(w.amount);
    assert(e3.len() == 21);
    w.index.lemma_round_trip(e2 + e3 + e4);
    assert(payload =~= e1 + (e2 + e3 + e4));
    assert(payload.skip(e1.len() as int) =~= e2 + (e3 + e4));
    w.validator_index.lemma_round_trip(e3 + e4);
    assert(payload.skip((e1.len() + e2.len()) as int) =~= e3 + e4);
    w.address.lemma_round_trip(e4);
    assert(payload.skip((e1.len() + e2.len() + e3.len()) as int) =~= e4 + Seq::<u8>::empty());
    w.amount.lemma_round_trip(Seq::empty());
    assert(w.address.deep_view() =~= w.address@);
}

/// Only the encodings of its four fields are read as the fields of a
/// withdrawal.
pub proof fn lemma_withdrawal_fields_canonical(w: Withdrawal, payload: Seq<u8>)
    requires
        parse_withdrawal_fields(payload) == Ok::<WithdrawalView, Error>(w.deep_view()),
    ensures
        payload == w.payload(),
{
    let (_, a) = u64::parse(payload).unwrap();
    let (_, b) = u64::parse(payload.skip(a as int)).unwrap();
    let (_, c) = <[u8; 20]>::parse(payload.skip((a + b) as int)).unwrap();
    let (_, d) = u64::parse(payload.skip((a + b + c) as int)).unwrap();
    u64::lemma_parse_bounds(payload);
    u64::lemma_parse_bounds(payload.skip(a as int));
    <[u8; 20]>::lemma_parse_bounds(payload.skip((a + b) as int));
    u64::lemma_parse_bounds(payload.skip((a + b + c) as int));
    w.index.lemma_canonical(payload);
    w.validator_index.lemma_canonical(payload.skip(a as int));
    assert(w.address.deep_view() =~= w.address@);
    w.address.lemma_canonical(payload.skip((a + b) as int));
    w.amount.lemma_canonical(payload.skip((a + b + c) as int));
    assert(payload =~= payload.take(a as int) + payload.skip(a as int).take(b as int)
        + payload.skip((a + b) as int).take(c as int) + payload.skip((a + b + c) as int).take(
        d as int,
    ));
}

/// A withdrawal is written as the list of its four fields.
impl Rlp for Withdrawal {
    open spec fn wf(&self) -> bool {
        true
    }

    open spec fn encoding(&self) -> Seq<u8> {
        list_encoding(self.payload())
    }

    open spec fn parse(buf: Seq<u8>) -> Result<(WithdrawalView, nat), Error> {
        match parse_list(buf) {
            Err(e) => Err(e),
            Ok((payload, n)) => match parse_withdrawal_fields(payload) {
                Err(e) => Err(e),
                Ok(w) => Ok((w, n)),
            },
        }
    }

    proof fn lemma_parse_bounds(buf: Seq<u8>) {
        lemma_parse_list_bounds(buf);
    }

    proof fn lemma_round_trip(&self, tail: Seq<u8>) {
        lemma_withdrawal_fields_round_trip(*self);
        lemma_list_round_trip(self.payload(), tail);
    }

    proof fn lemma_canonical(&self, buf: Seq<u8>) {
        lemma_parse_list_canonical(buf);
        let payload = parse_list(buf).unwrap().0;
        lemma_withdrawal_fields_canonical(*self, payload);
    }

    fn checked_length(&self) -> (r: Option<usize>) {
        list_length(self.payload_length())
    }

    fn encode(&self, out: &mut Vec<u8>) {
        let p = Prefix { list: true, payload_length: self.payload_length() };
        p.encode(out);
        self.index.encode(out);
        self.validator_index.encode(out);
        self.address.encode(out);
        self.amount.encode(out);
        assert(out@ =~= old(out)@ + self.encoding());
    }

    fn decode(buf: &[u8]) -> (r: Result<(Withdrawal, usize), Error>) {
        match decode_list(buf) {
            Err(e) => Err(e),
            Ok((payload, n)) => match decode_withdrawal_fields(payload) {
                Err(e) => Err(e),
                Ok(w) => Ok((w, n)),
            },
        }
    }
}

} // verus!
