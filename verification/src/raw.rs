//! Items that are carried undecoded.
//!
//! Some parts of a block belong to others: what a header or a request
//! holds is not the business of this codec. Such a part is kept as the bytes
//! of its encoding, checked to be exactly one item, and written back as it
//! was read.

use vstd::prelude::*;
use vstd::slice::{slice_subrange, slice_to_vec};
use crate::error::Error;
use crate::codec::Rlp;
use crate::prefix::{Prefix, parse_prefix};
use crate::prefix::{lemma_parse_prefix_bounds, lemma_parse_prefix_extend, lemma_parse_prefix_take};

verus! {

/// Whether `bytes` hold exactly one item: a prefix and the payload it
/// announces, and nothing more. With `list_only`, the item must be a list.
pub open spec fn is_item(bytes: Seq<u8>, list_only: bool) -> bool {
    match parse_prefix(bytes) {
        Ok((p, n)) => n + p.payload_length == bytes.len() && (list_only ==> p.list),
        Err(_) => false,
    }
}

/// Reads one undecoded item from the start of `buf`: the bytes of the item,
/// prefix included, and their number. With `list_only`, a byte string is
/// rejected.
pub open spec fn parse_raw(buf: Seq<u8>, list_only: bool) -> Result<(Seq<u8>, nat), Error> {
    match parse_prefix(buf) {
        Err(e) => Err(e),
        Ok((p, n)) => if list_only && !p.list {
            Err(Error::UnexpectedString)
        } else {
            Ok((buf.take(n + p.payload_length), (n + p.payload_length) as nat))
        },
    }
}

/// Reading an undecoded item takes at least one byte, and only bytes that
/// are there; what was read is exactly one item.
pub proof fn lemma_parse_raw_bounds(buf: Seq<u8>, list_only: bool)
    ensures
        parse_raw(buf, list_only) matches Ok((item, n)) ==> {
            &&& 0 < n <= buf.len()
            &&& item.len() == n
            &&& is_item(item, list_only)
        },
{
    lemma_parse_prefix_bounds(buf);
    if parse_prefix(buf) is Ok {
        lemma_parse_prefix_take(buf);
    }
}

/// An item is read back as it stands, whatever follows it.
pub proof fn lemma_raw_round_trip(item: Seq<u8>, list_only: bool, tail: Seq<u8>)
    requires
        is_item(item, list_only),
    ensures
        parse_raw(item + tail, list_only) == Ok::<(Seq<u8>, nat), Error>((item, item.len())),
{
    lemma_parse_prefix_extend(item, tail);
    assert((item + tail).take(item.len() as int) =~= item);
}

/// Reads one undecoded item from the start of `buf`: a copy of the bytes of
/// the item, prefix included, and their number.
pub fn decode_raw(buf: &[u8], list_only: bool) -> (r: Result<(Vec<u8>, usize), Error>)
    ensures
        match r {
            Ok((item, n)) => is_item(item@, list_only) && parse_raw(buf@, list_only) == Ok::<
                (Seq<u8>, nat),
                Error,
            >((item@, n as nat)),
            Err(e) => parse_raw(buf@, list_only) == Err::<(Seq<u8>, nat), Error>(e),
        },
{
    let available: usize = buf.len();
    match Prefix::decode(buf) {
        Err(e) => Err(e),
        Ok((p, n)) => {
            proof {
                lemma_parse_prefix_bounds(buf@);
                lemma_parse_raw_bounds(buf@, list_only);
            }
            assert(n + p.payload_length <= available);
            if list_only && !p.list {
                Err(Error::UnexpectedString)
            } else {
                let end: usize = n + p.payload_length;
                let item = slice_to_vec(slice_subrange(buf, 0, end));
                assert(item@ =~= buf@.take(end as int));
                Ok((item, end))
            }
        },
    }
}

/// What [`check_item`] gives for `bytes`.
pub open spec fn checked_item(bytes: Seq<u8>, list_only: bool) -> Result<(), Error> {
    match parse_raw(bytes, list_only) {
        Err(e) => Err(e),
        Ok((_, n)) => if n == bytes.len() {
            Ok(())
        } else {
            Err(Error::TrailingBytes)
        },
    }
}

/// Checks that `bytes` hold exactly one item; with `list_only`, one list.
pub fn check_item(bytes: &[u8], list_only: bool) -> (r: Result<(), Error>)
    ensures
        r == checked_item(bytes@, list_only),
        r is Ok <==> is_item(bytes@, list_only),
{
    let available: usize = bytes.len();
    proof {
        lemma_parse_prefix_bounds(bytes@);
    }
    match Prefix::decode(bytes) {
        Err(e) => Err(e),
        Ok((p, n)) => {
            if list_only && !p.list {
                Err(Error::UnexpectedString)
            } else if n + p.payload_length == available {
                Ok(())
            } else {
                Err(Error::TrailingBytes)
            }
        },
    }
}

/// One item of any kind, carried as the bytes of its encoding.
#[derive(Clone, Debug, PartialEq, Eq)]
pub struct RawItem {
    bytes: Vec<u8>,
}

impl View for RawItem {
    type V = Seq<u8>;

    /// The bytes of the item, prefix included.
    closed spec fn view(&self) -> Seq<u8> {
        self.bytes@
    }
}

impl DeepView for RawItem {
    type V = Seq<u8>;

    open spec fn deep_view(&self) -> Seq<u8> {
        self@
    }
}

impl RawItem {
    /// Takes `bytes` as an item, provided they hold exactly one.
    pub fn new(bytes: Vec<u8>) -> (r: Result<RawItem, Error>)
        ensures
            match r {
                Ok(item) => item.wf() && item@ == bytes@,
                Err(e) => checked_item(bytes@, false) == Err::<(), Error>(e),
            },
            r is Ok <==> is_item(bytes@, false),
    {
        match check_item(bytes.as_slice(), false) {
            Ok(()) => Ok(RawItem { bytes }),
            Err(e) => Err(e),
        }
    }

    /// The bytes of the item, prefix included.
    pub fn as_slice(&self) -> (s: &[u8])
        ensures
            s@ == self@,
    {
        self.bytes.as_slice()
    }

    /// Whether the item is a list.
    pub fn is_list(&self) -> (b: bool)
        requires
            self.wf(),
        ensures
            b == is_item(self@, true),
    {
        match Prefix::decode(self.bytes.as_slice()) {
            Ok((p, _)) => p.list,
            Err(_) => false,
        }
    }
}

impl Rlp for RawItem {
    open spec fn wf(&self) -> bool {
        is_item(self@, false)
    }

    open spec fn encoding(&self) -> Seq<u8> {
        self@
    }

    open spec fn parse(buf: Seq<u8>) -> Result<(Seq<u8>, nat), Error> {
        parse_raw(buf, false)
    }

    proof fn lemma_parse_bounds(buf: Seq<u8>) {
        lemma_parse_raw_bounds(buf, false);
    }

    proof fn lemma_round_trip(&self, tail: Seq<u8>) {
        lemma_raw_round_trip(self@, false, tail);
    }

    proof fn lemma_canonical(&self, buf: Seq<u8>) {
    }

    fn checked_length(&self) -> (r: Option<usize>) {
        Some(self.bytes.len())
    }

    fn encode(&self, out: &mut Vec<u8>) {
        out.extend_from_slice(self.bytes.as_slice());
        assert(out@ =~= old(out)@ + self.encoding());
    }

    fn decode(buf: &[u8]) -> (r: Result<(RawItem, usize), Error>) {
        match decode_raw(buf, false) {
            Err(e) => Err(e),
            Ok((bytes, n)) => Ok((RawItem { bytes }, n)),
        }
    }
}

} // verus!
