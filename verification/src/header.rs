//! The header of a block, as this codec sees it.

use vstd::prelude::*;
use crate::error::Error;
use crate::codec::Rlp;
use crate::prefix::{LIST_BASE, parse_prefix};
use crate::raw::{is_item, parse_raw, checked_item, check_item, decode_raw};
use crate::raw::{lemma_parse_raw_bounds, lemma_raw_round_trip};

verus! {

/// The header of a block.
///
/// What a header holds is decided elsewhere. Here it is one list, carried as
/// the bytes of its encoding and written back as it was read.
#[derive(Clone, Debug, PartialEq, Eq)]
pub struct Header {
    bytes: Vec<u8>,
}

impl View for Header {
    type V = Seq<u8>;

    /// The bytes of the encoding, prefix included.
    closed spec fn view(&self) -> Seq<u8> {
        self.bytes@
    }
}

impl DeepView for Header {
    type V = Seq<u8>;

    open spec fn deep_view(&self) -> Seq<u8> {
        self@
    }
}

impl Header {
    /// Takes `bytes` as the encoding of a header, provided they hold exactly
    /// one list.
    pub fn new(bytes: Vec<u8>) -> (r: Result<Header, Error>)
        ensures
            match r {
                Ok(v) => v.wf() && v@ == bytes@,
                Err(e) => checked_item(bytes@, true) == Err::<(), Error>(e),
            },
            r is Ok <==> is_item(bytes@, true),
    {
        match check_item(bytes.as_slice(), true) {
            Ok(()) => Ok(Header { bytes }),
            Err(e) => Err(e),
        }
    }

    /// The bytes of the encoding, prefix included.
    pub fn as_slice(&self) -> (s: &[u8])
        ensures
            s@ == self@,
    {
        self.bytes.as_slice()
    }
}

impl Default for Header {
    /// The header without fields: the empty list.
    fn default() -> (v: Header)
        ensures
            v.wf(),
            v@ == seq![0xC0u8],
    {
        let mut bytes: Vec<u8> = Vec::new();
        bytes.push(LIST_BASE);
        assert(bytes@ =~= seq![0xC0u8]);
        proof {
            reveal(parse_prefix);
        }
        Header { bytes }
    }
}

impl Rlp for Header {
    open spec fn wf(&self) -> bool {
        is_item(self@, true)
    }

    open spec fn encoding(&self) -> Seq<u8> {
        self@
    }

    open spec fn parse(buf: Seq<u8>) -> Result<(Seq<u8>, nat), Error> {
        parse_raw(buf, true)
    }

    proof fn lemma_parse_bounds(buf: Seq<u8>) {
        lemma_parse_raw_bounds(buf, true);
    }

    proof fn lemma_round_trip(&self, tail: Seq<u8>) {
        lemma_raw_round_trip(self@, true, tail);
    }

    proof fn lemma_canonical(&self, buf: Seq<u8>) {
    }

    fn checked_length(&self) -> (r: Option<usize>) {
        Some(self.bytes.len())
    }

    fn encode(&self, out: &mut Vec<u8>) {
        out.extend_from_slice(self.bytes.as_slice());
        assert(out@ =~= old(out)@ + self.encoding());
    }

    fn decode(buf: &[u8]) -> (r: Result<(Header, usize), Error>) {
        match decode_raw(buf, true) {
            Err(e) => Err(e),
            Ok((bytes, n)) => Ok((Header { bytes }, n)),
        }
    }
}

} // verus!
